//! A same-origin web crawler's core: link extraction, URL resolution,
//! scope filtering, duplicate suppression and the per-page crawl decision.

pub mod text;
pub mod address;
pub mod extract;
pub mod resolve;
pub mod scope;
pub mod seen;
pub mod crawl;
pub mod startup;

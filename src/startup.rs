//! Startup: the seed URL and the scope boundary taken from it.

use vstd::prelude::*;
use crate::address::{authority_of, parsed, parsed_host, parsed_port, AbsUrl};

verus! {

/// Why a crawl could not start.
pub enum StartupError {
    /// The program was not given exactly one argument.
    Usage,
    /// The seed is not an absolute URL.
    InvalidUrl,
    /// The seed URL has no host.
    MissingHost,
}

/// A crawl's starting point: the seed URL and its authority, which bounds the crawl.
pub struct Seed {
    pub url: AbsUrl,
    pub boundary: String,
}

/// Reads the program's arguments (the program name first): exactly one more, the seed
/// URL, which must parse as an absolute URL with a host. The boundary is the seed's
/// authority, `host` or `host:port`.
pub fn startup(args: &Vec<String>) -> (r: Result<Seed, StartupError>)
    ensures
        args@.len() != 2 <==> r matches Err(StartupError::Usage),
        args@.len() == 2 ==> (r is Ok <==> (parsed(args@[1]@) is Some && parsed_host(args@[1]@) is Some)),
        args@.len() == 2 ==> (r matches Err(StartupError::InvalidUrl) <==> parsed(args@[1]@) is None),
        args@.len() == 2 ==> (r matches Err(StartupError::MissingHost) <==> (parsed(args@[1]@) is Some
            && parsed_host(args@[1]@) is None)),
        r matches Ok(seed) ==> {
            &&& parsed(args@[1]@) == Some(seed.url@)
            &&& seed.url.host_view() == parsed_host(args@[1]@)
            &&& seed.url.port_view() == parsed_port(args@[1]@)
            &&& seed.boundary@ == authority_of(parsed_host(args@[1]@).unwrap(), parsed_port(args@[1]@))
        },
{
    if args.len() != 2 {
        return Err(StartupError::Usage);
    }
    match AbsUrl::parse(args[1].as_str()) {
        None => Err(StartupError::InvalidUrl),
        Some(url) => match url.authority() {
            None => Err(StartupError::MissingHost),
            Some(boundary) => Ok(Seed { url, boundary }),
        },
    }
}

} // verus!

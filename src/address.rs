//! Absolute URLs as plain values, parsed and joined by the `url` crate.

use vstd::prelude::*;
use vstd::string::*;
use crate::text::starts_with;

verus! {

/// The serialization of the absolute URL that `s` parses as, if it parses as one.
pub uninterp spec fn parsed(s: Seq<char>) -> Option<Seq<char>>;

/// The host of the absolute URL that `s` parses as, if it has one.
pub uninterp spec fn parsed_host(s: Seq<char>) -> Option<Seq<char>>;

/// The explicit port of the absolute URL that `s` parses as; `None` for no port or the
/// scheme's default port.
pub uninterp spec fn parsed_port(s: Seq<char>) -> Option<u16>;

/// A serialized URL opens with its scheme and a colon, and the scheme holds no colon.
pub open spec fn scheme_leads(text: Seq<char>, scheme: Seq<char>) -> bool {
    starts_with(text, scheme + seq![':']) && !scheme.contains(':')
}

/// The serialization of the URL that `link` denotes relative to the parsed URL `base`,
/// if it denotes one.
pub uninterp spec fn joined(base: Seq<char>, link: Seq<char>) -> Option<Seq<char>>;

/// The decimal digits of `n`, most significant first, without leading zeros.
pub open spec fn decimal(n: nat) -> Seq<char>
    decreases n,
{
    let digit = seq!['0', '1', '2', '3', '4', '5', '6', '7', '8', '9'][(n % 10) as int];
    if n < 10 {
        seq![digit]
    } else {
        decimal(n / 10).push(digit)
    }
}

/// An authority made of a host and an optional explicit port: `host` or `host:port`.
pub open spec fn authority_of(host: Seq<char>, port: Option<u16>) -> Seq<char> {
    match port {
        Some(p) => host + seq![':'] + decimal(p as nat),
        None => host,
    }
}

/// An absolute URL: its serialization with the parts of it that the crawler reads.
/// Values come only from the `url` crate's parser, so the text is always a
/// serialized absolute URL.
pub struct AbsUrl {
    text: String,
    scheme: String,
    host: Option<String>,
    port: Option<u16>,
}

/// The serialization carried by an optional URL.
pub open spec fn opt_text(u: Option<AbsUrl>) -> Option<Seq<char>> {
    match u {
        Some(v) => Some(v@),
        None => None,
    }
}

impl View for AbsUrl {
    type V = Seq<char>;

    /// The serialized URL.
    closed spec fn view(&self) -> Seq<char> {
        self.text@
    }
}

impl AbsUrl {
    /// The URL's scheme, without the colon.
    pub closed spec fn scheme_view(&self) -> Seq<char> {
        self.scheme@
    }

    /// The URL's host, if it has one.
    pub closed spec fn host_view(&self) -> Option<Seq<char>> {
        match self.host {
            Some(h) => Some(h@),
            None => None,
        }
    }

    /// The URL's explicit port; a scheme's default port is never reported.
    pub closed spec fn port_view(&self) -> Option<u16> {
        self.port
    }

    /// Parses `s` as an absolute URL; `None` when it is not one.
    pub fn parse(s: &str) -> (r: Option<AbsUrl>)
        ensures
            opt_text(r) == parsed(s@),
            r matches Some(u) ==> scheme_leads(u@, u.scheme_view()),
            r matches Some(u) ==> u.host_view() == parsed_host(s@) && u.port_view() == parsed_port(s@),
    {
        parse_absolute(s)
    }

    /// Resolves `link` against this URL with standard URL-joining rules.
    pub fn join(&self, link: &str) -> (r: Option<AbsUrl>)
        ensures
            opt_text(r) == joined(self@, link@),
            r matches Some(u) ==> scheme_leads(u@, u.scheme_view()),
    {
        join_on(self, link)
    }

    /// The serialized URL.
    pub fn as_str(&self) -> (r: &str)
        ensures
            r@ == self@,
    {
        self.text.as_str()
    }

    /// The serialized URL, as an owned string.
    pub fn to_text(&self) -> (r: String)
        ensures
            r@ == self@,
    {
        self.text.clone()
    }

    /// The URL's scheme, without the colon.
    pub fn scheme(&self) -> (r: &str)
        ensures
            r@ == self.scheme_view(),
    {
        self.scheme.as_str()
    }

    /// The URL's authority as `host` or `host:port`; `None` when it has no host.
    pub fn authority(&self) -> (r: Option<String>)
        ensures
            match r {
                Some(a) => self.host_view() is Some && a@ == authority_of(
                    self.host_view().unwrap(),
                    self.port_view(),
                ),
                None => self.host_view() is None,
            },
    {
        match &self.host {
            None => None,
            Some(h) => {
                let mut a = h.clone();
                match self.port {
                    Some(p) => {
                        a.append(":");
                        let digits = port_text(p);
                        a.append(digits.as_str());
                        proof {
                            reveal_strlit(":");
                        }
                    },
                    None => {},
                }
                Some(a)
            },
        }
    }
}

/// Relies on `url::Url::parse`: `Some` exactly when `s` parses as an absolute URL,
/// carrying the parsed URL's serialization (its `Display`), `scheme`, `host_str`
/// and `port`. The serialization opens with the scheme (the slice up to
/// `scheme_end`) and the colon, and a scheme holds no colon.
#[verifier::external_body]
fn parse_absolute(s: &str) -> (r: Option<AbsUrl>)
    ensures
        opt_text(r) == parsed(s@),
        r matches Some(u) ==> scheme_leads(u@, u.scheme_view()),
        r matches Some(u) ==> u.host_view() == parsed_host(s@) && u.port_view() == parsed_port(s@),
{
    match url::Url::parse(s) {
        Ok(u) => Some(AbsUrl {
            text: u.to_string(),
            scheme: u.scheme().to_string(),
            host: u.host_str().map(|h| h.to_string()),
            port: u.port(),
        }),
        Err(_) => None,
    }
}

/// Relies on `url::Url::join`: `Some` exactly when `link` resolves against the base,
/// carrying the joined URL's parts as `parse_absolute` does, its serialization again
/// opening with its scheme and the colon. The base's text is the
/// serialization of a parsed URL, which `url::Url::parse` reads back unchanged.
#[verifier::external_body]
fn join_on(base: &AbsUrl, link: &str) -> (r: Option<AbsUrl>)
    ensures
        opt_text(r) == joined(base@, link@),
        r matches Some(u) ==> scheme_leads(u@, u.scheme_view()),
{
    let b = match url::Url::parse(&base.text) {
        Ok(b) => b,
        Err(_) => return None,
    };
    match b.join(link) {
        Ok(u) => Some(AbsUrl {
            text: u.to_string(),
            scheme: u.scheme().to_string(),
            host: u.host_str().map(|h| h.to_string()),
            port: u.port(),
        }),
        Err(_) => None,
    }
}

/// The digit for `d`, as text.
fn digit_text(d: u16) -> (r: &'static str)
    requires
        d < 10,
    ensures
        r@ == seq![decimal(d as nat)[0]],
        decimal(d as nat).len() == 1,
{
    match d {
        0 => {
            proof {
                reveal_strlit("0");
            }
            assert("0"@ =~= seq!['0']);
            "0"
        },
        1 => {
            proof {
                reveal_strlit("1");
            }
            assert("1"@ =~= seq!['1']);
            "1"
        },
        2 => {
            proof {
                reveal_strlit("2");
            }
            assert("2"@ =~= seq!['2']);
            "2"
        },
        3 => {
            proof {
                reveal_strlit("3");
            }
            assert("3"@ =~= seq!['3']);
            "3"
        },
        4 => {
            proof {
                reveal_strlit("4");
            }
            assert("4"@ =~= seq!['4']);
            "4"
        },
        5 => {
            proof {
                reveal_strlit("5");
            }
            assert("5"@ =~= seq!['5']);
            "5"
        },
        6 => {
            proof {
                reveal_strlit("6");
            }
            assert("6"@ =~= seq!['6']);
            "6"
        },
        7 => {
            proof {
                reveal_strlit("7");
            }
            assert("7"@ =~= seq!['7']);
            "7"
        },
        8 => {
            proof {
                reveal_strlit("8");
            }
            assert("8"@ =~= seq!['8']);
            "8"
        },
        _ => {
            proof {
                reveal_strlit("9");
            }
            assert("9"@ =~= seq!['9']);
            "9"
        },
    }
}

/// The decimal digits of `p`.
fn port_text(p: u16) -> (r: String)
    ensures
        r@ == decimal(p as nat),
{
    let mut n: u16 = p;
    let mut out = String::new();
    while n >= 10
        invariant
            decimal(p as nat) == decimal(n as nat) + out@,
        decreases n,
    {
        let digit = digit_text(n % 10);
        assert(decimal(n as nat) == decimal((n / 10) as nat).push(decimal((n % 10) as nat)[0]));
        out = digit.to_owned().concat(out.as_str());
        n = n / 10;
    }
    let digit = digit_text(n);
    out = digit.to_owned().concat(out.as_str());
    assert(decimal(n as nat) =~= seq![decimal(n as nat)[0]]);
    assert(out@ =~= decimal(p as nat));
    out
}

} // verus!

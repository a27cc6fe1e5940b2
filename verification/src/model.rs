//! The candidate model: protocols, proxies, probe outcomes, and the host
//! validity predicate.

use vstd::prelude::*;

verus! {

/// The protocols a proxy can speak. `UNKNOWN` means the protocol is still to
/// be discovered by racing all probes; it is never the resolved protocol of a
/// successful probe.
#[derive(Clone, Copy, PartialEq, Eq, Structural, Debug)]
pub enum Proto {
    HTTP,
    HTTPS,
    SOCKS4,
    SOCKS5,
    UNKNOWN,
}

impl Default for Proto {
    fn default() -> (r: Self)
        ensures
            r == Proto::HTTP,
    {
        Proto::HTTP
    }
}

/// A port as probed, together with what was learned about it.
pub struct Port {
    num: u16,
    open: bool,
    proto: Proto,
}

/// A candidate proxy endpoint. A well-formed candidate (see [`Proxy::wf`])
/// has a host that passes the dotted-quad check and a nonzero port.
#[derive(Clone, Debug)]
pub struct Proxy {
    pub proto: Proto,
    pub host: String,
    pub port: u16,
}

/// The result of one probe attempt: did it pass, and as which protocol.
#[derive(Clone, Copy, PartialEq, Eq, Structural, Debug)]
pub struct ProbeOutcome {
    pub success: bool,
    pub proto: Proto,
}

/// A loosely typed scalar, either a flag or a text.
#[derive(Clone, PartialEq, Eq, Hash, Debug)]
pub enum Value {
    Bool(bool),
    String(String),
}

pub open spec fn is_digit_char(c: char) -> bool {
    '0' <= c && c <= '9'
}

/// The dotted-quad host pattern: exactly four three-digit groups separated by
/// dots (`ddd.ddd.ddd.ddd`), fifteen characters in all. Hostnames and
/// compressed IPv4 forms are rejected.
pub open spec fn valid_host(s: Seq<char>) -> bool {
    &&& s.len() == 15
    &&& forall|i: int|
        0 <= i < 15 ==> (if i % 4 == 3 {
            s[i] == '.'
        } else {
            is_digit_char(s[i])
        })
}

/// Checks the dotted-quad host pattern on a string.
pub fn is_valid_host(h: &str) -> (r: bool)
    ensures
        r == valid_host(h@),
{
    let n = h.unicode_len();
    if n != 15 {
        return false;
    }
    let mut i: usize = 0;
    while i < 15
        invariant
            0 <= i <= 15,
            h@.len() == 15,
            forall|j: int|
                0 <= j < i ==> (if j % 4 == 3 {
                    h@[j] == '.'
                } else {
                    is_digit_char(h@[j])
                }),
        decreases 15 - i,
    {
        let c = h.get_char(i);
        if i % 4 == 3 {
            if c != '.' {
                return false;
            }
        } else {
            if !(c >= '0' && c <= '9') {
                return false;
            }
        }
        i = i + 1;
    }
    true
}

impl Proxy {
    /// A candidate is well formed when its host passes the dotted-quad check
    /// and its port is nonzero.
    pub open spec fn wf(self) -> bool {
        valid_host(self.host@) && self.port != 0
    }

    /// Whether this candidate's host passes the dotted-quad check.
    pub fn check_host(&self) -> (r: bool)
        ensures
            r == valid_host(self.host@),
    {
        is_valid_host(self.host.as_str())
    }
}

impl Default for Proxy {
    fn default() -> (r: Self)
        ensures
            r.proto == Proto::HTTP,
            r.host@ == Seq::<char>::empty(),
            r.port == 0,
    {
        Proxy { proto: Proto::HTTP, host: String::new(), port: 0 }
    }
}

} // verus!

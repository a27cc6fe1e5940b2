//! Text formatting: decimal rendering of ports, lowercase protocol names, and
//! the output line for a verified candidate.

use vstd::prelude::*;
use crate::model::{Proto, Proxy, valid_host};

verus! {

pub open spec fn digit_char(d: int) -> char {
    if d == 0 {
        '0'
    } else if d == 1 {
        '1'
    } else if d == 2 {
        '2'
    } else if d == 3 {
        '3'
    } else if d == 4 {
        '4'
    } else if d == 5 {
        '5'
    } else if d == 6 {
        '6'
    } else if d == 7 {
        '7'
    } else if d == 8 {
        '8'
    } else {
        '9'
    }
}

/// The decimal rendering of `n`, most significant digit first, no leading
/// zeros (except for `n == 0` itself).
pub open spec fn dec_str(n: nat) -> Seq<char>
    decreases n,
{
    if n < 10 {
        seq![digit_char(n as int)]
    } else {
        dec_str(n / 10).push(digit_char((n % 10) as int))
    }
}

fn digit_str(d: u16) -> (r: &'static str)
    requires
        d < 10,
    ensures
        r@ == seq![digit_char(d as int)],
{
    let r: &'static str = match d {
        0 => "0",
        1 => "1",
        2 => "2",
        3 => "3",
        4 => "4",
        5 => "5",
        6 => "6",
        7 => "7",
        8 => "8",
        _ => "9",
    };
    proof {
        reveal_strlit("0");
        reveal_strlit("1");
        reveal_strlit("2");
        reveal_strlit("3");
        reveal_strlit("4");
        reveal_strlit("5");
        reveal_strlit("6");
        reveal_strlit("7");
        reveal_strlit("8");
        reveal_strlit("9");
        assert(r@ =~= seq![digit_char(d as int)]);
    }
    r
}

/// Renders a port number in decimal.
pub fn u16_to_string(n: u16) -> (r: String)
    ensures
        r@ == dec_str(n as nat),
    decreases n,
{
    if n < 10 {
        String::from_str(digit_str(n))
    } else {
        let mut s = u16_to_string(n / 10);
        s.append(digit_str(n % 10));
        proof {
            assert(s@ =~= dec_str(n as nat));
        }
        s
    }
}

/// The lowercase name of a protocol.
pub open spec fn proto_lower(p: Proto) -> Seq<char> {
    match p {
        Proto::HTTP => seq!['h', 't', 't', 'p'],
        Proto::HTTPS => seq!['h', 't', 't', 'p', 's'],
        Proto::SOCKS4 => seq!['s', 'o', 'c', 'k', 's', '4'],
        Proto::SOCKS5 => seq!['s', 'o', 'c', 'k', 's', '5'],
        Proto::UNKNOWN => seq!['u', 'n', 'k', 'n', 'o', 'w', 'n'],
    }
}

impl Proto {
    /// The protocol's name, lowercased.
    pub fn to_string(&self) -> (r: String)
        ensures
            r@ == proto_lower(*self),
    {
        let r = match self {
            Proto::HTTP => String::from_str("http"),
            Proto::HTTPS => String::from_str("https"),
            Proto::SOCKS4 => String::from_str("socks4"),
            Proto::SOCKS5 => String::from_str("socks5"),
            Proto::UNKNOWN => String::from_str("unknown"),
        };
        proof {
            reveal_strlit("http");
            reveal_strlit("https");
            reveal_strlit("socks4");
            reveal_strlit("socks5");
            reveal_strlit("unknown");
            assert(r@ =~= proto_lower(*self));
        }
        r
    }
}

/// The line written to the sink for one verified candidate:
/// `protocol:host:port` and a newline, all lowercase.
pub open spec fn spec_output_line(p: Proxy) -> Seq<char> {
    proto_lower(p.proto) + ":"@ + p.host@ + ":"@ + dec_str(p.port as nat) + "\n"@
}

/// Formats the sink line for a verified candidate. The host is required to
/// pass the dotted-quad check, so the whole line is already lowercase.
pub fn format_verified(p: &Proxy) -> (r: String)
    requires
        valid_host(p.host@),
    ensures
        r@ == spec_output_line(*p),
{
    let mut s = p.proto.to_string();
    s.append(":");
    s.append(p.host.as_str());
    s.append(":");
    s.append(u16_to_string(p.port).as_str());
    s.append("\n");
    proof {
        assert(s@ =~= spec_output_line(*p));
    }
    s
}

} // verus!

//! Handshake framing and response decisions: the CONNECT request builders,
//! the SOCKS negotiation packets, and the pass/fail checks applied to the
//! bytes a proxy sends back.

use vstd::prelude::*;
use crate::text::dec_str;

verus! {

/// The CONNECT request header block, without the terminating blank line:
/// `CONNECT host:port HTTP/1.1`, a `Host:` header and a keep-alive header,
/// each line ending in CRLF.
pub open spec fn spec_connect_request(host: Seq<char>, port: u16) -> Seq<char> {
    "CONNECT "@ + host + ":"@ + dec_str(port as nat) + " HTTP/1.1\r\nHost: "@ + host + ":"@
        + dec_str(port as nat) + "\r\nProxy-Connection: Keep-Alive\r\n"@
}

/// Builds the CONNECT request header block for `host:port`. The result still
/// lacks the blank line that terminates a header block; see
/// [`make_request_without_basic_auth`].
pub fn make_request(host: &str, port: u16) -> (r: String)
    ensures
        r@ == spec_connect_request(host@, port),
{
    let mut s = String::from_str("CONNECT ");
    s.append(host);
    s.append(":");
    s.append(crate::text::u16_to_string(port).as_str());
    s.append(" HTTP/1.1\r\nHost: ");
    s.append(host);
    s.append(":");
    s.append(crate::text::u16_to_string(port).as_str());
    s.append("\r\nProxy-Connection: Keep-Alive\r\n");
    proof {
        assert(s@ =~= spec_connect_request(host@, port));
    }
    s
}

/// The complete CONNECT request: the header block closed by the double CRLF
/// that ends a header section. Servers that wait for the blank line need it.
pub fn make_request_without_basic_auth(host: &str, port: u16) -> (r: String)
    ensures
        r@ == spec_connect_request(host@, port) + "\r\n"@,
{
    let mut request = make_request(host, port);
    request.append("\r\n");
    request
}

/// The short CONNECT request used by the racing probes: the request line
/// alone, closed by a blank line.
pub open spec fn spec_race_request(host: Seq<char>, port: u16) -> Seq<char> {
    "CONNECT "@ + host + ":"@ + dec_str(port as nat) + " HTTP/1.1\r\n\r\n"@
}

/// Builds the short CONNECT request for the racing probes.
pub fn make_race_request(host: &str, port: u16) -> (r: String)
    ensures
        r@ == spec_race_request(host@, port),
{
    let mut s = String::from_str("CONNECT ");
    s.append(host);
    s.append(":");
    s.append(crate::text::u16_to_string(port).as_str());
    s.append(" HTTP/1.1\r\n\r\n");
    proof {
        assert(s@ =~= spec_race_request(host@, port));
    }
    s
}

/// The three-byte SOCKS5 negotiation: version 5, one auth method offered,
/// method "no auth".
pub fn socks5_negotiation() -> (r: Vec<u8>)
    ensures
        r@ == seq![5u8, 1u8, 0u8],
{
    let mut v: Vec<u8> = Vec::new();
    v.push(5);
    v.push(1);
    v.push(0);
    proof {
        assert(v@ =~= seq![5u8, 1u8, 0u8]);
    }
    v
}

/// The analogous three-byte sequence with the SOCKS4 version byte.
pub fn socks4_negotiation() -> (r: Vec<u8>)
    ensures
        r@ == seq![4u8, 1u8, 0u8],
{
    let mut v: Vec<u8> = Vec::new();
    v.push(4);
    v.push(1);
    v.push(0);
    proof {
        assert(v@ =~= seq![4u8, 1u8, 0u8]);
    }
    v
}

/// Whether a SOCKS reply passes: some byte came back and the first one is the
/// version marker `0x05`. The SOCKS4 probe applies the same check,
/// byte for byte, as the SOCKS5 probe; see the scheduler-level tests, which
/// flag this deliberately preserved quirk.
pub open spec fn spec_socks_reply_ok(b: Seq<u8>) -> bool {
    b.len() > 0 && b[0] == 5
}

/// Decides a SOCKS negotiation reply.
pub fn socks_reply_ok(buf: &[u8]) -> (r: bool)
    ensures
        r == spec_socks_reply_ok(buf@),
{
    buf.len() > 0 && buf[0] == 5
}

/// The status code that an HTTP response head parses to, if any. The code is
/// a function of the response bytes alone.
pub uninterp spec fn http_status_of(buf: Seq<u8>) -> Option<u16>;

/// Relies on `httparse::Response::parse` (with the default parser
/// configuration and a fixed header table): the parsed status code is a
/// deterministic function of the response bytes. A malformed head parses to
/// no code at all.
#[verifier::external_body]
fn parse_status(buf: &[u8]) -> (r: Option<u16>)
    ensures
        r == http_status_of(buf@),
{
    let mut headers = [httparse::EMPTY_HEADER; 16];
    let mut response = httparse::Response::new(&mut headers);
    match response.parse(buf) {
        Ok(_) => response.code,
        Err(_) => None,
    }
}

/// Decides an HTTP CONNECT response for the single-protocol probes: the head
/// must parse to status code 200.
pub fn http_ok(buf: &[u8]) -> (r: bool)
    ensures
        r == (http_status_of(buf@) == Some(200u16)),
{
    match parse_status(buf) {
        Some(code) => code == 200,
        None => false,
    }
}

/// The exact status line the racing HTTP probes accept: the bytes of
/// `HTTP/1.1 200 OK` followed by CRLF.
pub open spec fn ok_status_line() -> Seq<u8> {
    seq![
        72u8,
        84u8,
        84u8,
        80u8,
        47u8,
        49u8,
        46u8,
        49u8,
        32u8,
        50u8,
        48u8,
        48u8,
        32u8,
        79u8,
        75u8,
        13u8,
        10u8,
    ]
}

fn ok_status_line_bytes() -> (r: Vec<u8>)
    ensures
        r@ == ok_status_line(),
{
    let mut v: Vec<u8> = Vec::new();
    v.push(72);
    v.push(84);
    v.push(84);
    v.push(80);
    v.push(47);
    v.push(49);
    v.push(46);
    v.push(49);
    v.push(32);
    v.push(50);
    v.push(48);
    v.push(48);
    v.push(32);
    v.push(79);
    v.push(75);
    v.push(13);
    v.push(10);
    proof {
        assert(v@ =~= ok_status_line());
    }
    v
}

/// Whether a response begins with exactly `HTTP/1.1 200 OK` and CRLF. This is
/// the looser, prefix-only check the racing probes use.
pub open spec fn spec_http_race_ok(b: Seq<u8>) -> bool {
    b.len() >= 17 && b.subrange(0, 17) == ok_status_line()
}

/// Decides an HTTP CONNECT response for the racing probes by its first bytes.
pub fn http_race_ok(buf: &[u8]) -> (r: bool)
    ensures
        r == spec_http_race_ok(buf@),
{
    if buf.len() < 17 {
        return false;
    }
    let pat = ok_status_line_bytes();
    let mut i: usize = 0;
    while i < 17
        invariant
            0 <= i <= 17,
            buf@.len() >= 17,
            pat@ == ok_status_line(),
            forall|j: int| 0 <= j < i ==> buf@[j] == ok_status_line()[j],
        decreases 17 - i,
    {
        if buf[i] != pat[i] {
            proof {
                assert(buf@.subrange(0, 17)[i as int] == buf@[i as int]);
            }
            return false;
        }
        i = i + 1;
    }
    proof {
        assert(buf@.subrange(0, 17) =~= ok_status_line());
    }
    true
}

} // verus!

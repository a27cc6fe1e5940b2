//! Parsing candidate lines. A line is `PROTO:HOST:PORT`, or `HOST:PORT` with
//! the protocol defaulting to unknown. The protocol name is matched without
//! regard to case; a line with the wrong field count, a non-numeric or zero
//! port, or a host failing the dotted-quad check is silently dropped.

use vstd::prelude::*;
use crate::model::{Proto, Proxy, is_digit_char, is_valid_host, valid_host};

verus! {

/// The indices of the colons in `s`, in increasing order.
pub open spec fn colon_positions(s: Seq<char>) -> Seq<int>
    decreases s.len(),
{
    if s.len() == 0 {
        Seq::<int>::empty()
    } else {
        let rest = colon_positions(s.drop_last());
        if s.last() == ':' {
            rest.push(s.len() - 1)
        } else {
            rest
        }
    }
}

/// Colon positions are in range and strictly increasing.
pub proof fn lemma_colon_positions_props(s: Seq<char>)
    ensures
        forall|k: int|
            0 <= k < colon_positions(s).len() ==> 0 <= #[trigger] colon_positions(s)[k]
                < s.len(),
        forall|k1: int, k2: int|
            0 <= k1 < k2 < colon_positions(s).len() ==> colon_positions(s)[k1]
                < colon_positions(s)[k2],
    decreases s.len(),
{
    if s.len() > 0 {
        lemma_colon_positions_props(s.drop_last());
        let rest = colon_positions(s.drop_last());
        assert forall|k: int|
            0 <= k < colon_positions(s).len() implies 0 <= #[trigger] colon_positions(s)[k]
            < s.len() by {
            if k < rest.len() {
                assert(colon_positions(s)[k] == rest[k]);
            }
        }
        assert forall|k1: int, k2: int|
            0 <= k1 < k2 < colon_positions(s).len() implies colon_positions(s)[k1]
            < colon_positions(s)[k2] by {
            assert(colon_positions(s)[k1] == rest[k1]);
            if k2 < rest.len() {
                assert(colon_positions(s)[k2] == rest[k2]);
            }
        }
    }
}

/// Case-insensitive match of one character against an uppercase pattern
/// character: either the character itself, or its lowercase form when the
/// pattern character is an ASCII capital.
pub open spec fn ci_eq(c: char, p: char) -> bool {
    c == p || ('A' <= p && p <= 'Z' && c as u32 == p as u32 + 32)
}

/// Case-insensitive match of a name against an uppercase pattern.
pub open spec fn matches_ci(s: Seq<char>, pat: Seq<char>) -> bool {
    s.len() == pat.len() && forall|i: int| 0 <= i < s.len() ==> ci_eq(s[i], pat[i])
}

fn eq_ci(s: &str, pat: &str) -> (r: bool)
    ensures
        r == matches_ci(s@, pat@),
{
    let n = s.unicode_len();
    if n != pat.unicode_len() {
        return false;
    }
    let mut i: usize = 0;
    while i < n
        invariant
            0 <= i <= n,
            n == s@.len() == pat@.len(),
            forall|j: int| 0 <= j < i ==> ci_eq(s@[j], pat@[j]),
        decreases n - i,
    {
        let c = s.get_char(i);
        let p = pat.get_char(i);
        if !(c == p || ('A' <= p && p <= 'Z' && c as u32 == p as u32 + 32)) {
            return false;
        }
        i = i + 1;
    }
    true
}

/// The protocol a declared name maps to: `HTTP` and `HTTPS` both map to
/// `HTTP`, the SOCKS names to themselves, anything else — an explicit
/// `UNKNOWN` included — to `UNKNOWN`.
pub open spec fn spec_proto_of(name: Seq<char>) -> Proto {
    if matches_ci(name, "HTTP"@) || matches_ci(name, "HTTPS"@) {
        Proto::HTTP
    } else if matches_ci(name, "SOCKS4"@) {
        Proto::SOCKS4
    } else if matches_ci(name, "SOCKS5"@) {
        Proto::SOCKS5
    } else {
        Proto::UNKNOWN
    }
}

/// Maps a declared protocol name, matched without regard to case.
pub fn proto_of(name: &str) -> (p: Proto)
    ensures
        p == spec_proto_of(name@),
{
    if eq_ci(name, "HTTP") || eq_ci(name, "HTTPS") {
        Proto::HTTP
    } else if eq_ci(name, "SOCKS4") {
        Proto::SOCKS4
    } else if eq_ci(name, "SOCKS5") {
        Proto::SOCKS5
    } else {
        Proto::UNKNOWN
    }
}

pub open spec fn all_digits(s: Seq<char>) -> bool {
    forall|i: int| 0 <= i < s.len() ==> is_digit_char(s[i])
}

/// The value of a decimal digit string, most significant digit first.
pub open spec fn dec_value(s: Seq<char>) -> int
    decreases s.len(),
{
    if s.len() == 0 {
        0
    } else {
        dec_value(s.drop_last()) * 10 + (s.last() as u32 - 48)
    }
}

/// The port number a text parses to: an optional leading `+`, then one or
/// more decimal digits, with a value that fits in sixteen bits.
pub open spec fn spec_parse_u16(s: Seq<char>) -> Option<u16> {
    let body = if s.len() >= 1 && s[0] == '+' {
        s.drop_first()
    } else {
        s
    };
    if body.len() >= 1 && all_digits(body) && dec_value(body) <= 65535 {
        Some(dec_value(body) as u16)
    } else {
        None
    }
}

proof fn lemma_dec_value_nonneg(s: Seq<char>)
    requires
        all_digits(s),
    ensures
        dec_value(s) >= 0,
    decreases s.len(),
{
    if s.len() > 0 {
        lemma_dec_value_nonneg(s.drop_last());
    }
}

/// Extending a digit string never shrinks its value.
proof fn lemma_dec_value_prefix(s: Seq<char>, m: int)
    requires
        all_digits(s),
        0 <= m <= s.len(),
    ensures
        dec_value(s.subrange(0, m)) <= dec_value(s),
    decreases s.len() - m,
{
    if m == s.len() {
        assert(s.subrange(0, m) =~= s);
    } else {
        lemma_dec_value_prefix(s.drop_last(), m);
        assert(s.drop_last().subrange(0, m) =~= s.subrange(0, m));
        lemma_dec_value_nonneg(s.drop_last());
    }
}

/// Parses a port number: an optional leading `+`, then decimal digits.
#[verifier::loop_isolation(false)]
pub fn parse_u16(s: &str) -> (r: Option<u16>)
    ensures
        r == spec_parse_u16(s@),
{
    let n = s.unicode_len();
    let start: usize = if n >= 1 && s.get_char(0) == '+' {
        1
    } else {
        0
    };
    let ghost body = if s@.len() >= 1 && s@[0] == '+' {
        s@.drop_first()
    } else {
        s@
    };
    proof {
        assert(body.len() == n - start);
        assert(forall|j: int| 0 <= j < body.len() ==> body[j] == s@[j + start]);
    }
    if n == start {
        return None;
    }
    let mut i: usize = start;
    let mut acc: u32 = 0;
    while i < n
        invariant
            start <= i <= n,
            acc == dec_value(body.subrange(0, i - start)),
            acc <= 65535,
            all_digits(body.subrange(0, i - start)),
        decreases n - i,
    {
        let c = s.get_char(i);
        if !(c >= '0' && c <= '9') {
            assert(body[i - start] == s@[i as int]);
            assert(!all_digits(body));
            return None;
        }
        let d: u32 = c as u32 - 48;
        proof {
            assert(body.subrange(0, i + 1 - start).drop_last() =~= body.subrange(0, i - start));
            assert(body.subrange(0, i + 1 - start).last() == s@[i as int]);
        }
        acc = acc * 10 + d;
        if acc > 65535 {
            proof {
                if all_digits(body) {
                    lemma_dec_value_prefix(body, i + 1 - start);
                }
            }
            return None;
        }
        i = i + 1;
    }
    proof {
        assert(body.subrange(0, n - start) =~= body);
    }
    Some(acc as u16)
}

/// A candidate reduced to plain values: its protocol, host text, and port.
pub open spec fn proxy_abs(p: Proxy) -> (Proto, Seq<char>, u16) {
    (p.proto, p.host@, p.port)
}

/// What a protocol, host field, and port field yield: a candidate exactly
/// when the port parses to a nonzero number and the host passes the
/// dotted-quad check.
pub open spec fn spec_candidate_from(proto: Proto, host: Seq<char>, port_text: Seq<char>) -> Option<
    (Proto, Seq<char>, u16),
> {
    match spec_parse_u16(port_text) {
        Some(port) => if port != 0 && valid_host(host) {
            Some((proto, host, port))
        } else {
            None
        },
        None => None,
    }
}

/// What a whole line parses to. A line with one colon is host and port with
/// the protocol unknown; a line with two colons declares its protocol first;
/// any other field count is dropped.
pub open spec fn spec_parse_candidate(s: Seq<char>) -> Option<(Proto, Seq<char>, u16)> {
    let cp = colon_positions(s);
    if cp.len() == 1 {
        spec_candidate_from(Proto::UNKNOWN, s.subrange(0, cp[0]), s.subrange(cp[0] + 1, s.len() as int))
    } else if cp.len() == 2 {
        spec_candidate_from(
            spec_proto_of(s.subrange(0, cp[0])),
            s.subrange(cp[0] + 1, cp[1]),
            s.subrange(cp[1] + 1, s.len() as int),
        )
    } else {
        None
    }
}

fn make_candidate(proto: Proto, host_s: &str, port_s: &str) -> (r: Option<Proxy>)
    ensures
        match r {
            Some(p) => spec_candidate_from(proto, host_s@, port_s@) == Some(proxy_abs(p))
                && p.wf(),
            None => spec_candidate_from(proto, host_s@, port_s@) is None,
        },
{
    match parse_u16(port_s) {
        None => None,
        Some(port) => {
            if port != 0 && is_valid_host(host_s) {
                Some(Proxy { proto, host: String::from_str(host_s), port })
            } else {
                None
            }
        },
    }
}

/// Parses one candidate line; a malformed line yields nothing.
#[verifier::loop_isolation(false)]
pub fn parse_candidate(line: &str) -> (r: Option<Proxy>)
    ensures
        match r {
            Some(p) => spec_parse_candidate(line@) == Some(proxy_abs(p)) && p.wf(),
            None => spec_parse_candidate(line@) is None,
        },
{
    let n = line.unicode_len();
    let mut cols: Vec<usize> = Vec::new();
    let mut i: usize = 0;
    while i < n
        invariant
            0 <= i <= n,
            cols@.len() == colon_positions(line@.subrange(0, i as int)).len(),
            forall|k: int|
                0 <= k < cols@.len() ==> cols@[k] as int == colon_positions(
                    line@.subrange(0, i as int),
                )[k],
        decreases n - i,
    {
        proof {
            assert(line@.subrange(0, i + 1).drop_last() =~= line@.subrange(0, i as int));
            assert(line@.subrange(0, i + 1).last() == line@[i as int]);
        }
        if line.get_char(i) == ':' {
            cols.push(i);
        }
        i = i + 1;
    }
    proof {
        assert(line@.subrange(0, n as int) =~= line@);
        lemma_colon_positions_props(line@);
    }
    let ghost cp = colon_positions(line@);
    if cols.len() == 1 {
        let p0 = cols[0];
        let host_s = line.substring_char(0, p0);
        let port_s = line.substring_char(p0 + 1, n);
        make_candidate(Proto::UNKNOWN, host_s, port_s)
    } else if cols.len() == 2 {
        let p0 = cols[0];
        let p1 = cols[1];
        let proto_s = line.substring_char(0, p0);
        let host_s = line.substring_char(p0 + 1, p1);
        let port_s = line.substring_char(p1 + 1, n);
        let proto = proto_of(proto_s);
        make_candidate(proto, host_s, port_s)
    } else {
        None
    }
}

/// Colon positions of a concatenation: those of the left part, then those of
/// the right part shifted past it.
pub proof fn lemma_colon_positions_concat(a: Seq<char>, b: Seq<char>)
    ensures
        colon_positions(a + b).len() == colon_positions(a).len() + colon_positions(b).len(),
        forall|k: int|
            0 <= k < colon_positions(a).len() ==> #[trigger] colon_positions(a + b)[k]
                == colon_positions(a)[k],
        forall|k: int|
            0 <= k < colon_positions(b).len() ==> colon_positions(a + b)[colon_positions(
                a,
            ).len() + k] == colon_positions(b)[k] + a.len(),
    decreases b.len(),
{
    if b.len() == 0 {
        assert(a + b =~= a);
        assert(colon_positions(b) =~= Seq::<int>::empty());
    } else {
        lemma_colon_positions_concat(a, b.drop_last());
        assert((a + b).drop_last() =~= a + b.drop_last());
        assert((a + b).last() == b.last());
    }
}

/// A text without a colon has no colon positions.
pub proof fn lemma_colon_positions_absent(s: Seq<char>)
    requires
        forall|i: int| 0 <= i < s.len() ==> s[i] != ':',
    ensures
        colon_positions(s) == Seq::<int>::empty(),
    decreases s.len(),
{
    if s.len() > 0 {
        lemma_colon_positions_absent(s.drop_last());
    }
}

/// What a three-field line splits to, for colon-free fields.
pub proof fn lemma_parse_three_fields(name: Seq<char>, host: Seq<char>, ptext: Seq<char>)
    requires
        forall|i: int| 0 <= i < name.len() ==> name[i] != ':',
        forall|i: int| 0 <= i < host.len() ==> host[i] != ':',
        forall|i: int| 0 <= i < ptext.len() ==> ptext[i] != ':',
    ensures
        spec_parse_candidate(name + seq![':'] + host + seq![':'] + ptext) == spec_candidate_from(
            spec_proto_of(name),
            host,
            ptext,
        ),
{
    let c = seq![':'];
    let ab = name + c;
    let abc = ab + host;
    let abcd = abc + c;
    let s = abcd + ptext;
    assert(c.drop_last() =~= Seq::<char>::empty());
    assert(colon_positions(Seq::<char>::empty()) =~= Seq::<int>::empty());
    assert(c.last() == ':');
    assert(colon_positions(c) =~= Seq::<int>::empty().push(0));
    lemma_colon_positions_absent(name);
    lemma_colon_positions_absent(host);
    lemma_colon_positions_absent(ptext);
    lemma_colon_positions_concat(name, c);
    lemma_colon_positions_concat(ab, host);
    lemma_colon_positions_concat(abc, c);
    lemma_colon_positions_concat(abcd, ptext);
    let cp = colon_positions(s);
    assert(cp.len() == 2);
    assert(cp[0] == name.len());
    assert(cp[1] == name.len() + 1 + host.len());
    assert(s.subrange(0, cp[0]) =~= name);
    assert(s.subrange(cp[0] + 1, cp[1]) =~= host);
    assert(s.subrange(cp[1] + 1, s.len() as int) =~= ptext);
}

/// What a two-field line splits to, for colon-free fields.
pub proof fn lemma_parse_two_fields(host: Seq<char>, ptext: Seq<char>)
    requires
        forall|i: int| 0 <= i < host.len() ==> host[i] != ':',
        forall|i: int| 0 <= i < ptext.len() ==> ptext[i] != ':',
    ensures
        spec_parse_candidate(host + seq![':'] + ptext) == spec_candidate_from(
            Proto::UNKNOWN,
            host,
            ptext,
        ),
{
    let c = seq![':'];
    let ab = host + c;
    let s = ab + ptext;
    assert(c.drop_last() =~= Seq::<char>::empty());
    assert(colon_positions(Seq::<char>::empty()) =~= Seq::<int>::empty());
    assert(c.last() == ':');
    assert(colon_positions(c) =~= Seq::<int>::empty().push(0));
    lemma_colon_positions_absent(host);
    lemma_colon_positions_absent(ptext);
    lemma_colon_positions_concat(host, c);
    lemma_colon_positions_concat(ab, ptext);
    let cp = colon_positions(s);
    assert(cp.len() == 1);
    assert(cp[0] == host.len());
    assert(s.subrange(0, cp[0]) =~= host);
    assert(s.subrange(cp[0] + 1, s.len() as int) =~= ptext);
}

/// A valid host has no colon in it.
proof fn lemma_valid_host_colon_free(host: Seq<char>)
    requires
        valid_host(host),
    ensures
        forall|i: int| 0 <= i < host.len() ==> host[i] != ':',
{
}

/// A port text that parses has no colon in it.
proof fn lemma_port_text_colon_free(ptext: Seq<char>)
    requires
        spec_parse_u16(ptext) is Some,
    ensures
        forall|i: int| 0 <= i < ptext.len() ==> ptext[i] != ':',
{
    let body = if ptext.len() >= 1 && ptext[0] == '+' {
        ptext.drop_first()
    } else {
        ptext
    };
    assert forall|i: int| 0 <= i < ptext.len() implies ptext[i] != ':' by {
        if ptext.len() >= 1 && ptext[0] == '+' {
            if i > 0 {
                assert(ptext[i] == body[i - 1]);
                assert(is_digit_char(body[i - 1]));
            }
        } else {
            assert(is_digit_char(body[i]));
        }
    }
}

/// Every line that declares its protocol over a valid host and a nonzero
/// port parses to a candidate with exactly the declared protocol's mapping:
/// a recognized name gives that protocol, any other name gives `UNKNOWN`.
pub proof fn lemma_parser_keeps_declared_protocol(
    name: Seq<char>,
    host: Seq<char>,
    ptext: Seq<char>,
    port: u16,
)
    requires
        forall|i: int| 0 <= i < name.len() ==> name[i] != ':',
        valid_host(host),
        spec_parse_u16(ptext) == Some(port),
        port != 0,
    ensures
        spec_parse_candidate(name + seq![':'] + host + seq![':'] + ptext) == Some(
            (spec_proto_of(name), host, port),
        ),
{
    lemma_valid_host_colon_free(host);
    lemma_port_text_colon_free(ptext);
    lemma_parse_three_fields(name, host, ptext);
}

/// Every two-field line over a valid host and a nonzero port parses to a
/// candidate whose protocol is `UNKNOWN`.
pub proof fn lemma_parser_defaults_unknown(host: Seq<char>, ptext: Seq<char>, port: u16)
    requires
        valid_host(host),
        spec_parse_u16(ptext) == Some(port),
        port != 0,
    ensures
        spec_parse_candidate(host + seq![':'] + ptext) == Some((Proto::UNKNOWN, host, port)),
{
    lemma_valid_host_colon_free(host);
    lemma_port_text_colon_free(ptext);
    lemma_parse_two_fields(host, ptext);
}

/// A three-field line whose host fails the dotted-quad check or whose port
/// is zero is dropped.
pub proof fn lemma_parser_drops_invalid(name: Seq<char>, host: Seq<char>, ptext: Seq<char>)
    requires
        forall|i: int| 0 <= i < name.len() ==> name[i] != ':',
        forall|i: int| 0 <= i < host.len() ==> host[i] != ':',
        forall|i: int| 0 <= i < ptext.len() ==> ptext[i] != ':',
        !valid_host(host) || spec_parse_u16(ptext) == Some(0u16),
    ensures
        spec_parse_candidate(name + seq![':'] + host + seq![':'] + ptext) is None,
{
    lemma_parse_three_fields(name, host, ptext);
}

/// A two-field line whose host fails the dotted-quad check or whose port is
/// zero is dropped.
pub proof fn lemma_parser_drops_invalid_unknown(host: Seq<char>, ptext: Seq<char>)
    requires
        forall|i: int| 0 <= i < host.len() ==> host[i] != ':',
        forall|i: int| 0 <= i < ptext.len() ==> ptext[i] != ':',
        !valid_host(host) || spec_parse_u16(ptext) == Some(0u16),
    ensures
        spec_parse_candidate(host + seq![':'] + ptext) is None,
{
    lemma_parse_two_fields(host, ptext);
}

/// The views of a sequence of line texts.
pub open spec fn abs_lines(lines: Seq<String>) -> Seq<Seq<char>> {
    lines.map_values(|l: String| l@)
}

/// The candidates reduced to plain values.
pub open spec fn abs_proxies(ps: Seq<Proxy>) -> Seq<(Proto, Seq<char>, u16)> {
    ps.map_values(|p: Proxy| proxy_abs(p))
}

/// What a list of lines parses to: the candidates of the lines that parse,
/// in order; the lines that do not are dropped.
pub open spec fn spec_parse_lines(lines: Seq<Seq<char>>) -> Seq<(Proto, Seq<char>, u16)>
    decreases lines.len(),
{
    if lines.len() == 0 {
        Seq::<(Proto, Seq<char>, u16)>::empty()
    } else {
        let rest = spec_parse_lines(lines.drop_last());
        match spec_parse_candidate(lines.last()) {
            Some(c) => rest.push(c),
            None => rest,
        }
    }
}

/// How many lines are dropped.
pub open spec fn spec_dropped_count(lines: Seq<Seq<char>>) -> int
    decreases lines.len(),
{
    if lines.len() == 0 {
        0
    } else {
        spec_dropped_count(lines.drop_last()) + (if spec_parse_candidate(lines.last()) is None {
            1int
        } else {
            0int
        })
    }
}

/// Parsing shrinks the list by exactly the number of dropped lines: every
/// line either contributes one candidate or is dropped.
pub proof fn lemma_parse_lines_len(lines: Seq<Seq<char>>)
    ensures
        spec_parse_lines(lines).len() == lines.len() - spec_dropped_count(lines),
        0 <= spec_dropped_count(lines) <= lines.len(),
    decreases lines.len(),
{
    if lines.len() > 0 {
        lemma_parse_lines_len(lines.drop_last());
    }
}

/// Parses a list of candidate lines, keeping the candidates of the lines
/// that parse, in order.
#[verifier::loop_isolation(false)]
pub fn parse_lines(lines: &Vec<String>) -> (r: Vec<Proxy>)
    ensures
        abs_proxies(r@) == spec_parse_lines(abs_lines(lines@)),
        forall|k: int| 0 <= k < r@.len() ==> (#[trigger] r@[k]).wf(),
{
    let mut r: Vec<Proxy> = Vec::new();
    let mut i: usize = 0;
    let n = lines.len();
    while i < n
        invariant
            0 <= i <= n,
            abs_proxies(r@) == spec_parse_lines(abs_lines(lines@.subrange(0, i as int))),
            forall|k: int| 0 <= k < r@.len() ==> (#[trigger] r@[k]).wf(),
        decreases n - i,
    {
        proof {
            assert(abs_lines(lines@.subrange(0, i + 1)).drop_last() =~= abs_lines(
                lines@.subrange(0, i as int),
            ));
            assert(abs_lines(lines@.subrange(0, i + 1)).last() == lines@[i as int]@);
        }
        match parse_candidate(lines[i].as_str()) {
            Some(p) => {
                r.push(p);
                proof {
                    assert(abs_proxies(r@) =~= spec_parse_lines(
                        abs_lines(lines@.subrange(0, i + 1)),
                    ));
                }
            },
            None => {},
        }
        i = i + 1;
    }
    proof {
        assert(lines@.subrange(0, n as int) =~= lines@);
    }
    r
}

} // verus!

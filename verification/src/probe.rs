//! The per-protocol probe decision and the retry wrapper. The transport hands
//! the library either the bytes a probe read back, or nothing when a connect,
//! write, or read failed or timed out; every such failure folds into a failed
//! outcome and never into an error.

use vstd::prelude::*;
use crate::model::{ProbeOutcome, Proto};
use crate::request::{
    http_ok, http_race_ok, http_status_of, socks_reply_ok, spec_http_race_ok, spec_socks_reply_ok,
};

verus! {

/// The bytes a probe attempt read back, if the transport got that far.
pub open spec fn opt_bytes(r: Option<Vec<u8>>) -> Option<Seq<u8>> {
    match r {
        Some(v) => Some(v@),
        None => None,
    }
}

/// Whether a single-protocol probe passes on the given response bytes: HTTP
/// and HTTPS require a head parsing to status 200; both SOCKS variants accept
/// a first byte of `0x05`. An unknown protocol never passes here — it is
/// resolved by the race coordinator instead.
pub open spec fn spec_known_success(p: Proto, bytes: Seq<u8>) -> bool {
    match p {
        Proto::HTTP => http_status_of(bytes) == Some(200u16),
        Proto::HTTPS => http_status_of(bytes) == Some(200u16),
        Proto::SOCKS4 => spec_socks_reply_ok(bytes),
        Proto::SOCKS5 => spec_socks_reply_ok(bytes),
        Proto::UNKNOWN => false,
    }
}

/// The protocol a passing single probe reports: a passing HTTPS probe reports
/// plain HTTP, every other protocol reports itself.
pub open spec fn spec_resolved(p: Proto) -> Proto {
    match p {
        Proto::HTTPS => Proto::HTTP,
        _ => p,
    }
}

/// The outcome of one probe attempt: a transport failure (no bytes) or a
/// failing response keeps the declared protocol and fails; a passing response
/// succeeds with the resolved protocol.
pub open spec fn spec_attempt_outcome(p: Proto, response: Option<Seq<u8>>) -> ProbeOutcome {
    match response {
        Some(b) => if spec_known_success(p, b) {
            ProbeOutcome { success: true, proto: spec_resolved(p) }
        } else {
            ProbeOutcome { success: false, proto: p }
        },
        None => ProbeOutcome { success: false, proto: p },
    }
}

/// Decides one probe attempt from what the transport read back. `None`
/// absorbs every transport failure — refused connection, reset, TLS failure,
/// or any timeout — into a failed outcome, so no probe ever raises an error.
pub fn attempt_outcome(p: &Proto, response: &Option<Vec<u8>>) -> (o: ProbeOutcome)
    ensures
        o == spec_attempt_outcome(*p, opt_bytes(*response)),
{
    match response {
        None => ProbeOutcome { success: false, proto: *p },
        Some(bytes) => {
            let pass = match p {
                Proto::HTTP => http_ok(bytes.as_slice()),
                Proto::HTTPS => http_ok(bytes.as_slice()),
                Proto::SOCKS4 => socks_reply_ok(bytes.as_slice()),
                Proto::SOCKS5 => socks_reply_ok(bytes.as_slice()),
                Proto::UNKNOWN => false,
            };
            if pass {
                let resolved = match p {
                    Proto::HTTPS => Proto::HTTP,
                    Proto::HTTP => Proto::HTTP,
                    Proto::SOCKS4 => Proto::SOCKS4,
                    Proto::SOCKS5 => Proto::SOCKS5,
                    Proto::UNKNOWN => Proto::UNKNOWN,
                };
                ProbeOutcome { success: true, proto: resolved }
            } else {
                ProbeOutcome { success: false, proto: *p }
            }
        },
    }
}

/// Whether the attempt with the given response passes.
pub open spec fn attempt_succeeds(p: Proto, response: Option<Seq<u8>>) -> bool {
    spec_attempt_outcome(p, response).success
}

/// Whether a racing branch passes on the given response bytes. The racing
/// HTTP and HTTPS branches apply the prefix-only status-line check, the SOCKS
/// branches the version-byte check.
pub open spec fn spec_race_branch_success(p: Proto, response: Option<Seq<u8>>) -> bool {
    match response {
        Some(b) => match p {
            Proto::HTTP => spec_http_race_ok(b),
            Proto::HTTPS => spec_http_race_ok(b),
            Proto::SOCKS4 => spec_socks_reply_ok(b),
            Proto::SOCKS5 => spec_socks_reply_ok(b),
            Proto::UNKNOWN => false,
        },
        None => false,
    }
}

/// Decides one racing branch's attempt from what the transport read back,
/// with transport failures absorbed as in [`attempt_outcome`].
pub fn race_branch_passes(p: &Proto, response: &Option<Vec<u8>>) -> (r: bool)
    ensures
        r == spec_race_branch_success(*p, opt_bytes(*response)),
{
    match response {
        None => false,
        Some(bytes) => match p {
            Proto::HTTP => http_race_ok(bytes.as_slice()),
            Proto::HTTPS => http_race_ok(bytes.as_slice()),
            Proto::SOCKS4 => socks_reply_ok(bytes.as_slice()),
            Proto::SOCKS5 => socks_reply_ok(bytes.as_slice()),
            Proto::UNKNOWN => false,
        },
    }
}

/// The retry wrapper: runs the single matching probe up to `retrys` times,
/// sequentially, stopping at the first success. `responses` holds what the
/// transport would read back on each attempt, one entry per attempt.
///
/// The contract pins the retry law down: if some attempt among the first
/// `retrys` passes, the wrapper returns that attempt's successful outcome
/// after exactly the first passing attempt's number of tries; otherwise it
/// returns the declared protocol marked failed after exactly `retrys` tries.
pub fn run_retry(p: &Proto, responses: &Vec<Option<Vec<u8>>>, retrys: usize) -> (res: (
    ProbeOutcome,
    usize,
))
    requires
        1 <= retrys <= responses@.len(),
    ensures
        1 <= res.1 <= retrys,
        res.0.success ==> {
            &&& attempt_succeeds(*p, opt_bytes(responses@[res.1 - 1]))
            &&& forall|j: int| 0 <= j < res.1 - 1 ==> !attempt_succeeds(*p, opt_bytes(responses@[j]))
            &&& res.0 == spec_attempt_outcome(*p, opt_bytes(responses@[res.1 - 1]))
        },
        !res.0.success ==> {
            &&& res.1 == retrys
            &&& forall|j: int| 0 <= j < retrys ==> !attempt_succeeds(*p, opt_bytes(responses@[j]))
            &&& res.0 == ProbeOutcome { success: false, proto: *p }
        },
{
    let mut i: usize = 0;
    while i < retrys
        invariant
            0 <= i <= retrys,
            retrys <= responses@.len(),
            forall|j: int| 0 <= j < i ==> !attempt_succeeds(*p, opt_bytes(responses@[j])),
        decreases retrys - i,
    {
        let o = attempt_outcome(p, &responses[i]);
        if o.success {
            return (o, i + 1);
        }
        i = i + 1;
    }
    (ProbeOutcome { success: false, proto: *p }, retrys)
}

} // verus!

//! The protocol race coordinator. When a candidate's protocol is unknown,
//! four probes — SOCKS5, SOCKS4, HTTP, HTTPS — run against it at once. The
//! coordinator resolves to the first probe that passes, with a fixed
//! precedence among probes that complete in the same instant, asks the
//! still-running probes to cancel, and folds an expired deadline or four
//! failures into a failed outcome.

use vstd::prelude::*;
use crate::model::{ProbeOutcome, Proto};

verus! {

/// What the coordinator has seen so far: which racing probes have completed,
/// and the resolution, once there is one.
pub struct RaceState {
    pub done_socks5: bool,
    pub done_socks4: bool,
    pub done_http: bool,
    pub done_https: bool,
    pub result: Option<ProbeOutcome>,
}

/// The resolution after one scheduling instant, given which probes completed
/// in it (`Some(passed)`) and whether every probe has now completed. The
/// precedence among simultaneous successes is SOCKS5, then SOCKS4, then HTTP,
/// then HTTPS.
pub open spec fn spec_race_resolution(
    socks5: Option<bool>,
    socks4: Option<bool>,
    http: Option<bool>,
    https: Option<bool>,
    all_done: bool,
) -> Option<ProbeOutcome> {
    if socks5 == Some(true) {
        Some(ProbeOutcome { success: true, proto: Proto::SOCKS5 })
    } else if socks4 == Some(true) {
        Some(ProbeOutcome { success: true, proto: Proto::SOCKS4 })
    } else if http == Some(true) {
        Some(ProbeOutcome { success: true, proto: Proto::HTTP })
    } else if https == Some(true) {
        Some(ProbeOutcome { success: true, proto: Proto::HTTPS })
    } else if all_done {
        Some(ProbeOutcome { success: false, proto: Proto::UNKNOWN })
    } else {
        None
    }
}

/// The racing probes not yet completed, in precedence order. Once the race is
/// resolved, these are exactly the probes that receive a cancellation
/// request.
pub open spec fn spec_pending(s: RaceState) -> Seq<Proto> {
    (if !s.done_socks5 {
        seq![Proto::SOCKS5]
    } else {
        Seq::<Proto>::empty()
    }) + (if !s.done_socks4 {
        seq![Proto::SOCKS4]
    } else {
        Seq::<Proto>::empty()
    }) + (if !s.done_http {
        seq![Proto::HTTP]
    } else {
        Seq::<Proto>::empty()
    }) + (if !s.done_https {
        seq![Proto::HTTPS]
    } else {
        Seq::<Proto>::empty()
    })
}

impl RaceState {
    /// A race that has not observed any completion yet.
    pub fn new() -> (s: RaceState)
        ensures
            !s.done_socks5,
            !s.done_socks4,
            !s.done_http,
            !s.done_https,
            s.result is None,
    {
        RaceState {
            done_socks5: false,
            done_socks4: false,
            done_http: false,
            done_https: false,
            result: None,
        }
    }

    /// Observes one scheduling instant: each argument is `Some(passed)` for a
    /// probe that completed in this instant, `None` for one that did not. A
    /// success resolves the race by precedence; a failure alone never cancels
    /// its siblings, and only once all four probes have failed does the race
    /// resolve to a failed outcome.
    pub fn step(
        &mut self,
        socks5: Option<bool>,
        socks4: Option<bool>,
        http: Option<bool>,
        https: Option<bool>,
    )
        requires
            old(self).result is None,
            socks5 is Some ==> !old(self).done_socks5,
            socks4 is Some ==> !old(self).done_socks4,
            http is Some ==> !old(self).done_http,
            https is Some ==> !old(self).done_https,
        ensures
            final(self).done_socks5 == (old(self).done_socks5 || socks5 is Some),
            final(self).done_socks4 == (old(self).done_socks4 || socks4 is Some),
            final(self).done_http == (old(self).done_http || http is Some),
            final(self).done_https == (old(self).done_https || https is Some),
            final(self).result == spec_race_resolution(
                socks5,
                socks4,
                http,
                https,
                final(self).done_socks5 && final(self).done_socks4 && final(self).done_http
                    && final(self).done_https,
            ),
    {
        self.done_socks5 = self.done_socks5 || socks5.is_some();
        self.done_socks4 = self.done_socks4 || socks4.is_some();
        self.done_http = self.done_http || http.is_some();
        self.done_https = self.done_https || https.is_some();
        if socks5 == Some(true) {
            self.result = Some(ProbeOutcome { success: true, proto: Proto::SOCKS5 });
        } else if socks4 == Some(true) {
            self.result = Some(ProbeOutcome { success: true, proto: Proto::SOCKS4 });
        } else if http == Some(true) {
            self.result = Some(ProbeOutcome { success: true, proto: Proto::HTTP });
        } else if https == Some(true) {
            self.result = Some(ProbeOutcome { success: true, proto: Proto::HTTPS });
        } else if self.done_socks5 && self.done_socks4 && self.done_http && self.done_https {
            self.result = Some(ProbeOutcome { success: false, proto: Proto::UNKNOWN });
        }
    }

    /// The overall deadline expired before any probe passed: the race
    /// resolves to a failed outcome with the protocol still unknown.
    pub fn deadline(&mut self)
        requires
            old(self).result is None,
        ensures
            final(self).done_socks5 == old(self).done_socks5,
            final(self).done_socks4 == old(self).done_socks4,
            final(self).done_http == old(self).done_http,
            final(self).done_https == old(self).done_https,
            final(self).result == Some(ProbeOutcome { success: false, proto: Proto::UNKNOWN }),
    {
        self.result = Some(ProbeOutcome { success: false, proto: Proto::UNKNOWN });
    }

    /// The probes to ask to cancel once the race is resolved: exactly those
    /// still in flight. Cancellation is best effort; a stale result is simply
    /// discarded, which `step`'s precondition reflects by taking no further
    /// events after resolution.
    pub fn cancellations(&self) -> (r: Vec<Proto>)
        requires
            self.result is Some,
        ensures
            r@ == spec_pending(*self),
    {
        let mut v: Vec<Proto> = Vec::new();
        if !self.done_socks5 {
            v.push(Proto::SOCKS5);
        }
        if !self.done_socks4 {
            v.push(Proto::SOCKS4);
        }
        if !self.done_http {
            v.push(Proto::HTTP);
        }
        if !self.done_https {
            v.push(Proto::HTTPS);
        }
        proof {
            assert(v@ =~= spec_pending(*self));
        }
        v
    }
}

} // verus!

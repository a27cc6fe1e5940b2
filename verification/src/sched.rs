//! The bounded-concurrency scheduler. It hands out candidates to probing
//! pipelines while capping how many are in flight at once, takes completions
//! back in any order, and appends each successful candidate — retagged with
//! its resolved protocol — to the collected results. The machine is driven
//! from outside: the driver starts a candidate when the scheduler allows it,
//! runs the probe, and reports the outcome back.

use vstd::prelude::*;
use crate::model::{ProbeOutcome, Proxy};

verus! {

/// The effective concurrency limit: the requested one clamped to the host's
/// available parallelism, with a floor fallback of five when the parallelism
/// cannot be determined.
pub open spec fn spec_compute_limit(requested: Option<usize>, available: Option<usize>) -> usize {
    let max = match available {
        Some(a) => a,
        None => 5usize,
    };
    match requested {
        Some(m) => if m > max {
            max
        } else {
            m
        },
        None => max,
    }
}

/// Clamps a requested concurrency limit to the available parallelism, falling
/// back to five when the parallelism is unknown.
pub fn compute_limit(requested: Option<usize>, available: Option<usize>) -> (l: usize)
    requires
        requested matches Some(m) ==> m >= 1,
        available matches Some(a) ==> a >= 1,
    ensures
        l == spec_compute_limit(requested, available),
        l >= 1,
{
    let max = match available {
        Some(a) => a,
        None => 5,
    };
    match requested {
        Some(m) => if m > max {
            max
        } else {
            m
        },
        None => max,
    }
}

/// A candidate retagged with the protocol a successful probe resolved.
pub open spec fn verified_of(p: Proxy, o: ProbeOutcome) -> Proxy {
    Proxy { proto: o.proto, host: p.host, port: p.port }
}

/// The collected results that a completion log leads to: each success in log
/// order, retagged with its resolved protocol; failures never reach the sink.
pub open spec fn spec_sink(log: Seq<(int, ProbeOutcome)>, queue: Seq<Proxy>) -> Seq<Proxy>
    decreases log.len(),
{
    if log.len() == 0 {
        Seq::<Proxy>::empty()
    } else {
        let rest = spec_sink(log.drop_last(), queue);
        let i = log.last().0;
        let o = log.last().1;
        if o.success && 0 <= i < queue.len() {
            rest.push(verified_of(queue[i], o))
        } else {
            rest
        }
    }
}

/// Whether a completion log mentions candidate index `i`.
pub open spec fn log_mentions(log: Seq<(int, ProbeOutcome)>, i: int) -> bool {
    exists|k: int| 0 <= k < log.len() && (#[trigger] log[k]).0 == i
}

/// The scheduler's state: the candidate queue, of which the first `next`
/// entries have been started; the indices in flight; the results collected so
/// far; and a ghost log of every completion taken back, in completion order.
pub struct Scheduler {
    pub queue: Vec<Proxy>,
    pub limit: usize,
    pub next: usize,
    pub active: Vec<usize>,
    pub verified: Vec<Proxy>,
    pub log: Ghost<Seq<(int, ProbeOutcome)>>,
}

impl Scheduler {
    /// Whether candidate index `i` is in flight.
    pub open spec fn in_active(self, i: int) -> bool {
        exists|k: int| 0 <= k < self.active@.len() && self.active@[k] as int == i
    }

    /// Whether candidate index `i` has completed.
    pub open spec fn in_log(self, i: int) -> bool {
        log_mentions(self.log@, i)
    }

    /// The scheduler's invariant. At most `limit` candidates are in flight;
    /// every started candidate is either in flight or completed, never both
    /// and never twice; and the collected results are exactly what the
    /// completion log prescribes.
    pub open spec fn wf(self) -> bool {
        &&& 1 <= self.limit
        &&& self.next <= self.queue@.len()
        &&& self.active@.len() <= self.limit
        &&& self.log@.len() + self.active@.len() == self.next
        &&& forall|k: int| 0 <= k < self.active@.len() ==> (self.active@[k] as int) < self.next
        &&& forall|k: int| 0 <= k < self.log@.len() ==> 0 <= #[trigger] self.log@[k].0 < self.next
        &&& forall|k1: int, k2: int|
            0 <= k1 < k2 < self.active@.len() ==> self.active@[k1] != self.active@[k2]
        &&& forall|k1: int, k2: int|
            0 <= k1 < k2 < self.log@.len() ==> self.log@[k1].0 != self.log@[k2].0
        &&& forall|i: int| 0 <= i < self.next ==> !(self.in_active(i) && self.in_log(i))
        &&& self.verified@ == spec_sink(self.log@, self.queue@)
    }

    /// A scheduler over the given candidates, nothing started yet.
    pub fn new(queue: Vec<Proxy>, limit: usize) -> (s: Scheduler)
        requires
            limit >= 1,
        ensures
            s.wf(),
            s.queue == queue,
            s.limit == limit,
            s.next == 0,
            s.active@ =~= Seq::<usize>::empty(),
            s.verified@ =~= Seq::<Proxy>::empty(),
            s.log@ =~= Seq::<(int, ProbeOutcome)>::empty(),
    {
        Scheduler {
            queue,
            limit,
            next: 0,
            active: Vec::new(),
            verified: Vec::new(),
            log: Ghost(Seq::empty()),
        }
    }

    /// Whether another candidate may start now: one is left and a slot is
    /// free under the concurrency limit.
    pub fn can_start(&self) -> (b: bool)
        ensures
            b == (self.next < self.queue@.len() && self.active@.len() < self.limit),
    {
        self.next < self.queue.len() && self.active.len() < self.limit
    }

    /// How many candidates are in flight. Never exceeds the limit while the
    /// invariant holds.
    pub fn in_flight(&self) -> (n: usize)
        ensures
            n == self.active@.len(),
    {
        self.active.len()
    }

    /// Whether every candidate has been started and completed.
    pub fn finished(&self) -> (b: bool)
        ensures
            b == (self.next == self.queue@.len() && self.active@.len() == 0),
    {
        self.next == self.queue.len() && self.active.len() == 0
    }

    /// Starts the next candidate: marks it in flight and returns its index.
    pub fn start(&mut self) -> (i: usize)
        requires
            old(self).wf(),
            old(self).next < old(self).queue@.len(),
            old(self).active@.len() < old(self).limit,
        ensures
            final(self).wf(),
            i == old(self).next,
            final(self).next == old(self).next + 1,
            final(self).active@ == old(self).active@.push(i),
            final(self).queue == old(self).queue,
            final(self).limit == old(self).limit,
            final(self).verified == old(self).verified,
            final(self).log == old(self).log,
    {
        let i = self.next;
        let n = self.queue.len();
        proof {
            assert(i < n);
        }
        self.active.push(i);
        self.next = i + 1;
        proof {
            assert forall|j: int| 0 <= j < self.next && self.in_active(j) && self.in_log(
                j,
            ) implies false by {
                let k = choose|k: int|
                    0 <= k < self.active@.len() && self.active@[k] as int == j;
                if k < self.active@.len() - 1 {
                    assert(old(self).in_active(j));
                } else {
                    assert(j == i as int);
                    assert(!old(self).in_log(i as int));
                }
            }
        }
        i
    }

    /// Takes back the completion of in-flight candidate `i`: frees its slot,
    /// appends it to the results when the outcome passed, and drops it when
    /// the outcome failed.
    #[verifier::loop_isolation(false)]
    pub fn complete(&mut self, i: usize, outcome: ProbeOutcome)
        requires
            old(self).wf(),
            old(self).in_active(i as int),
        ensures
            final(self).wf(),
            final(self).log@ == old(self).log@.push((i as int, outcome)),
            final(self).active@.len() == old(self).active@.len() - 1,
            !final(self).in_active(i as int),
            forall|j: int| j != i as int ==> final(self).in_active(j) == old(self).in_active(j),
            final(self).queue == old(self).queue,
            final(self).limit == old(self).limit,
            final(self).next == old(self).next,
            outcome.success ==> final(self).verified@ == old(self).verified@.push(
                verified_of(old(self).queue@[i as int], outcome),
            ),
            !outcome.success ==> final(self).verified == old(self).verified,
    {
        let ghost pre = *self;
        let mut k: usize = 0;
        let n = self.active.len();
        while k < n && self.active[k] != i
            invariant
                0 <= k <= n,
                forall|j: int| 0 <= j < k ==> self.active@[j] != i,
            decreases n - k,
        {
            k = k + 1;
        }
        proof {
            if k == n {
                let w = choose|w: int|
                    0 <= w < self.active@.len() && self.active@[w] as int == i as int;
                assert(self.active@[w] != i);
                assert(false);
            }
        }
        self.active.remove(k);
        proof {
            self.log@ = pre.log@.push((i as int, outcome));
        }
        if outcome.success {
            let v = Proxy {
                proto: outcome.proto,
                host: self.queue[i].host.clone(),
                port: self.queue[i].port,
            };
            self.verified.push(v);
        }
        proof {
            let ghost post = *self;
            assert(post.log@.drop_last() =~= pre.log@);
            // membership in the shrunk active set maps back to the old one
            assert forall|j: int| post.in_active(j) implies pre.in_active(j) && j != i as int by {
                let w = choose|w: int|
                    0 <= w < post.active@.len() && post.active@[w] as int == j;
                if w < k {
                    assert(pre.active@[w] as int == j);
                } else {
                    assert(pre.active@[w + 1] as int == j);
                }
                let ghost wo = if w < k { w } else { w + 1 };
                assert(pre.active@[wo] as int == j);
                assert(wo != k);
                if j == i as int {
                    assert(pre.active@[wo] == pre.active@[k as int]);
                    if wo < k {
                        assert(pre.active@[wo] != pre.active@[k as int]);
                    } else {
                        assert(pre.active@[k as int] != pre.active@[wo]);
                    }
                }
            }
            assert forall|j: int|
                pre.in_active(j) && j != i as int implies post.in_active(j) by {
                let w = choose|w: int|
                    0 <= w < pre.active@.len() && pre.active@[w] as int == j;
                assert(w != k);
                if w < k {
                    assert(post.active@[w] as int == j);
                } else {
                    assert(post.active@[w - 1] as int == j);
                }
            }
            assert forall|k1: int, k2: int|
                0 <= k1 < k2 < post.active@.len() implies post.active@[k1] != post.active@[k2] by {
                let w1: int = if k1 < k { k1 } else { k1 + 1 };
                let w2: int = if k2 < k { k2 } else { k2 + 1 };
                assert(post.active@[k1] == pre.active@[w1]);
                assert(post.active@[k2] == pre.active@[w2]);
            }
            assert forall|j: int|
                0 <= j < post.next && post.in_active(j) && post.in_log(j) implies false by {
                let kl = choose|kl: int| 0 <= kl < post.log@.len() && post.log@[kl].0 == j;
                if kl < post.log@.len() - 1 {
                    assert(pre.log@[kl].0 == j);
                    assert(pre.in_log(j));
                } else {
                    assert(j == i as int);
                }
            }
            assert forall|k1: int, k2: int|
                0 <= k1 < k2 < post.log@.len() implies post.log@[k1].0 != post.log@[k2].0 by {
                if k2 < post.log@.len() - 1 {
                    assert(pre.log@[k1].0 != pre.log@[k2].0);
                } else {
                    assert(pre.log@[k1].0 == post.log@[k1].0);
                    assert(pre.in_log(post.log@[k1].0));
                    assert(!pre.in_active(post.log@[k1].0) || !pre.in_log(post.log@[k1].0));
                    assert(pre.in_active(i as int));
                }
            }
            if outcome.success {
                assert(post.verified@ =~= spec_sink(post.log@, post.queue@));
            } else {
                assert(post.verified@ =~= spec_sink(post.log@, post.queue@));
            }
        }
    }
}

/// Scheduler completeness: once every candidate has been started and every
/// completion taken back, each candidate has completed exactly once — no
/// skips, no duplicate probes — and the collected results are exactly the
/// successes from the completion log, each retagged with its resolved
/// protocol.
pub proof fn lemma_scheduler_completeness(s: Scheduler)
    requires
        s.wf(),
        s.next == s.queue@.len(),
        s.active@.len() == 0,
    ensures
        s.log@.len() == s.queue@.len(),
        forall|i: int| 0 <= i < s.queue@.len() ==> s.in_log(i),
        forall|k1: int, k2: int|
            0 <= k1 < k2 < s.log@.len() ==> s.log@[k1].0 != s.log@[k2].0,
        s.verified@ == spec_sink(s.log@, s.queue@),
{
    assert forall|i: int| 0 <= i < s.queue@.len() implies s.in_log(i) by {
        lemma_all_indices_logged(s.log@, s.queue@.len() as int);
        assert(log_mentions(s.log@, i));
    }
}

/// A log of `n` completions with distinct indices, all in `[0, n)`, mentions
/// every index in `[0, n)`.
proof fn lemma_all_indices_logged(log: Seq<(int, ProbeOutcome)>, n: int)
    requires
        log.len() == n,
        forall|k: int| 0 <= k < log.len() ==> 0 <= #[trigger] log[k].0 < n,
        forall|k1: int, k2: int| 0 <= k1 < k2 < log.len() ==> log[k1].0 != log[k2].0,
    ensures
        forall|i: int| 0 <= i < n ==> log_mentions(log, i),
{
    let indices = Set::new(|i: int| log_mentions(log, i));
    let all = vstd::set_lib::set_int_range(0, n);
    lemma_distinct_indices_card(log, indices);
    assert(indices.subset_of(all));
    vstd::set_lib::lemma_int_range(0, n);
    assert(all.finite() && all.len() == n);
    vstd::set_lib::lemma_subset_equality(indices, all);
    assert forall|i: int| 0 <= i < n implies log_mentions(log, i) by {
        assert(all.contains(i));
        assert(indices.contains(i));
    }
}

/// The set of indices a duplicate-free log mentions has the log's length.
proof fn lemma_distinct_indices_card(log: Seq<(int, ProbeOutcome)>, indices: Set<int>)
    requires
        forall|k1: int, k2: int| 0 <= k1 < k2 < log.len() ==> log[k1].0 != log[k2].0,
        indices == Set::new(|i: int| log_mentions(log, i)),
    ensures
        indices.finite(),
        indices.len() == log.len(),
    decreases log.len(),
{
    if log.len() == 0 {
        assert(indices =~= Set::<int>::empty());
    } else {
        let prefix = log.drop_last();
        let prev = Set::new(|i: int| log_mentions(prefix, i));
        lemma_distinct_indices_card(prefix, prev);
        let last = log.last().0;
        assert forall|i: int| prev.contains(i) implies indices.contains(i) by {
            let k = choose|k: int| 0 <= k < prefix.len() && prefix[k].0 == i;
            assert(log[k].0 == i);
        }
        assert(!prev.contains(last));
        assert forall|i: int| indices.contains(i) && i != last implies prev.contains(i) by {
            let k = choose|k: int| 0 <= k < log.len() && log[k].0 == i;
            assert(k < log.len() - 1);
            assert(prefix[k].0 == i);
        }
        assert(indices =~= prev.insert(last));
    }
}

/// The results that probing the candidates in order with the given outcomes
/// collects: one entry per success, in candidate order.
pub open spec fn spec_collect(queue: Seq<Proxy>, outs: Seq<ProbeOutcome>, n: int) -> Seq<Proxy>
    decreases n,
{
    if n <= 0 {
        Seq::<Proxy>::empty()
    } else {
        let rest = spec_collect(queue, outs, n - 1);
        if outs[n - 1].success && n <= queue.len() {
            rest.push(verified_of(queue[n - 1], outs[n - 1]))
        } else {
            rest
        }
    }
}

/// Collect mode: probes every candidate through the scheduler and returns
/// the verified ones in candidate order. `outcomes` holds the probe outcome
/// for each candidate in turn.
#[verifier::loop_isolation(false)]
pub fn collect_verified(queue: Vec<Proxy>, outcomes: &Vec<ProbeOutcome>, limit: usize) -> (r: Vec<
    Proxy,
>)
    requires
        limit >= 1,
        outcomes@.len() == queue@.len(),
    ensures
        r@ == spec_collect(queue@, outcomes@, queue@.len() as int),
{
    let ghost q = queue@;
    let mut s = Scheduler::new(queue, limit);
    let n = s.queue.len();
    let mut done: usize = 0;
    while done < n
        invariant
            s.wf(),
            s.queue@ == q,
            0 <= done <= n,
            s.next == done,
            s.active@.len() == 0,
            s.verified@ == spec_collect(q, outcomes@, done as int),
        decreases n - done,
    {
        let ghost pre_log = s.log@;
        let i = s.start();
        let o = outcomes[i];
        proof {
            assert(s.active@[0] == i);
            assert(s.in_active(i as int));
        }
        s.complete(i, o);
        proof {
            assert(s.verified@ =~= spec_collect(q, outcomes@, done + 1));
        }
        done = done + 1;
    }
    s.verified
}

} // verus!

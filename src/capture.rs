use vstd::prelude::*;
use std::collections::HashMap;

verus! {

broadcast use vstd::std_specs::hash::group_hash_axioms;

/// Consecutive capturable ticks after which an objective is announced as capturable.
pub const CAPTURE_DEBOUNCE_TICKS: u64 = 10;

/// The counter an objective holds after one more tick, given whether it is capturable on it:
/// one more on a capturable tick (held at the largest `u64`), zero otherwise.
pub open spec fn next_count(c: nat, capturable: bool) -> nat {
    if capturable {
        if c >= u64::MAX {
            u64::MAX as nat
        } else {
            c + 1
        }
    } else {
        0
    }
}

/// Whether the "now capturable" advisory fires on a tick that starts from counter `c`: it fires
/// on the tick that brings the counter to the threshold.
pub open spec fn fires(c: nat, capturable: bool) -> bool {
    capturable && c + 1 == CAPTURE_DEBOUNCE_TICKS
}

/// Number of advisories fired over a run of ticks, starting from counter `c`.
pub open spec fn fires_over(c: nat, ticks: Seq<bool>) -> nat
    decreases ticks.len(),
{
    if ticks.len() == 0 {
        0
    } else {
        (if fires(c, ticks[0]) { 1nat } else { 0nat }) + fires_over(
            next_count(c, ticks[0]),
            ticks.drop_first(),
        )
    }
}

/// The counter left after a run of ticks, starting from counter `c`.
pub open spec fn count_after(c: nat, ticks: Seq<bool>) -> nat
    decreases ticks.len(),
{
    if ticks.len() == 0 {
        c
    } else {
        count_after(next_count(c, ticks[0]), ticks.drop_first())
    }
}

/// `k` consecutive capturable ticks.
pub open spec fn capturable_run(k: nat) -> Seq<bool> {
    Seq::new(k, |i: int| true)
}

/// Debounce law: a run of `k` consecutive capturable ticks that starts from a cleared counter
/// fires the "now capturable" advisory exactly once when `k` reaches the threshold and never
/// when it falls short; a tick on which the objective is not capturable clears the counter, so
/// whatever follows is debounced afresh, as if from the start.
pub proof fn debounce_once_per_run(k: nat, rest: Seq<bool>)
    ensures
        fires_over(0, capturable_run(k)) == if k >= CAPTURE_DEBOUNCE_TICKS {
            1nat
        } else {
            0nat
        },
        fires_over(0, capturable_run(k) + seq![false] + rest) == fires_over(0, capturable_run(k))
            + fires_over(0, rest),
{
    lemma_run(0, k);
    let tail = seq![false] + rest;
    assert(capturable_run(k) + seq![false] + rest =~= capturable_run(k) + tail);
    lemma_fires_over_concat(0, capturable_run(k), tail);
    assert(tail.drop_first() =~= rest);
}

/// How many of `s` hold.
pub open spec fn count_true(s: Seq<bool>) -> nat
    decreases s.len(),
{
    if s.len() == 0 {
        0
    } else {
        (if s[0] { 1nat } else { 0nat }) + count_true(s.drop_first())
    }
}

/// Debounce law over successive calls of `advise_captureable`: let `counts[i]` be an
/// objective's counter before the `i`-th call, `ticks[i]` whether it was capturable on that call,
/// and `fired[i]` whether that call announced it, related as each call's contract relates them.
/// Then the calls announce it exactly `fires_over(counts[0], ticks)` times, which
/// `debounce_once_per_run` counts: once per run of at least the threshold, never for a shorter one.
pub proof fn debounce_over_calls(counts: Seq<nat>, ticks: Seq<bool>, fired: Seq<bool>)
    requires
        counts.len() == ticks.len() + 1,
        fired.len() == ticks.len(),
        forall|i: int|
            #![trigger ticks[i]]
            0 <= i < ticks.len() ==> counts[i + 1] == next_count(counts[i], ticks[i]) && fired[i]
                == fires(counts[i], ticks[i]),
    ensures
        count_true(fired) == fires_over(counts[0], ticks),
    decreases ticks.len(),
{
    if ticks.len() > 0 {
        let c = counts.drop_first();
        let t = ticks.drop_first();
        let f = fired.drop_first();
        assert forall|i: int|
            #![trigger t[i]]
            0 <= i < t.len() implies c[i + 1] == next_count(c[i], t[i]) && f[i] == fires(
                c[i],
                t[i],
            ) by {
            assert(ticks[i + 1] == t[i]);
            assert(c[i + 1] == counts[i + 2] && c[i] == counts[i + 1] && t[i] == ticks[i + 1]
                && f[i] == fired[i + 1]);
        }
        debounce_over_calls(c, t, f);
        assert(ticks[0] == ticks[0]);
        assert(counts[1] == next_count(counts[0], ticks[0]));
        assert(fired[0] == fires(counts[0], ticks[0]));
    }
}

proof fn lemma_fires_over_concat(c: nat, a: Seq<bool>, b: Seq<bool>)
    ensures
        fires_over(c, a + b) == fires_over(c, a) + fires_over(count_after(c, a), b),
    decreases a.len(),
{
    if a.len() > 0 {
        assert((a + b).drop_first() =~= a.drop_first() + b);
        assert((a + b)[0] == a[0]);
        lemma_fires_over_concat(next_count(c, a[0]), a.drop_first(), b);
    } else {
        assert(a + b =~= b);
    }
}

proof fn lemma_run(c: nat, k: nat)
    requires
        c <= u64::MAX,
    ensures
        fires_over(c, capturable_run(k)) == if c < CAPTURE_DEBOUNCE_TICKS && c + k
            >= CAPTURE_DEBOUNCE_TICKS {
            1nat
        } else {
            0nat
        },
    decreases k,
{
    if k > 0 {
        assert(capturable_run(k).drop_first() =~= capturable_run((k - 1) as nat));
        assert(capturable_run(k)[0]);
        lemma_run(next_count(c, true), (k - 1) as nat);
    }
}

/// Counter of `oid` in `m`; an objective without one counts zero.
pub open spec fn count_of(m: Map<u64, u64>, oid: u64) -> nat {
    if m.contains_key(oid) {
        m[oid] as nat
    } else {
        0
    }
}

/// Debounces the "now capturable" advisory for each objective.
pub struct CaptureTracker {
    counters: HashMap<u64, u64>,
}

impl CaptureTracker {
    /// Consecutive capturable ticks seen for `oid`, up to now.
    pub closed spec fn count(&self, oid: u64) -> nat {
        count_of(self.counters@, oid)
    }

    pub fn new() -> (r: CaptureTracker)
        ensures
            forall|oid: u64| r.count(oid) == 0,
    {
        CaptureTracker { counters: HashMap::new() }
    }

    /// Counter currently held for `oid`.
    pub fn counter(&self, oid: u64) -> (r: u64)
        ensures
            r == self.count(oid),
    {
        match self.counters.get(&oid) {
            Some(c) => *c,
            None => 0,
        }
    }

    /// Advances every counter by one tick, given the objectives capturable on it, and returns
    /// the objectives whose run reaches the threshold on this tick. Objectives that are not
    /// capturable lose their counter, so a later run starts again from zero.
    pub fn advise_captureable(&mut self, capturable: &Vec<u64>) -> (fired: Vec<u64>)
        ensures
            forall|oid: u64|
                #[trigger] final(self).count(oid) == next_count(
                    old(self).count(oid),
                    capturable@.contains(oid),
                ),
            forall|oid: u64|
                #[trigger] fired@.contains(oid) <==> fires(
                    old(self).count(oid),
                    capturable@.contains(oid),
                ),
            fired@.no_duplicates(),
    {
        let mut next: HashMap<u64, u64> = HashMap::new();
        let mut fired: Vec<u64> = Vec::new();
        let n = capturable.len();
        for i in 0..n
            invariant
                n == capturable@.len(),
                forall|oid: u64|
                    #[trigger] next@.contains_key(oid) == capturable@.subrange(0, i as int).contains(
                        oid,
                    ),
                forall|oid: u64|
                    #[trigger] count_of(next@, oid) == if capturable@.subrange(0, i as int).contains(
                        oid,
                    ) {
                        next_count(self.count(oid), true)
                    } else {
                        0
                    },
                forall|oid: u64|
                    #[trigger] fired@.contains(oid) <==> (capturable@.subrange(
                        0,
                        i as int,
                    ).contains(oid) && fires(self.count(oid), true)),
                fired@.no_duplicates(),
        {
            let oid = capturable[i];
            proof {
                lemma_contains_push(capturable@.subrange(0, i as int), oid);
                assert(capturable@.subrange(0, i + 1) =~= capturable@.subrange(0, i as int).push(
                    oid,
                ));
            }
            if !next.contains_key(&oid) {
                let c = self.counter(oid);
                let v: u64 = if c == u64::MAX {
                    c
                } else {
                    c + 1
                };
                let ghost before = next@;
                next.insert(oid, v);
                assert(count_of(next@, oid) == v);
                assert forall|o: u64| o != oid implies #[trigger] count_of(next@, o) == count_of(
                    before,
                    o,
                ) && next@.contains_key(o) == before.contains_key(o) by {}
                if c == CAPTURE_DEBOUNCE_TICKS - 1 {
                    proof {
                        lemma_contains_push(fired@, oid);
                        assert(!fired@.contains(oid));
                    }
                    let ghost fb = fired@;
                    fired.push(oid);
                    assert forall|a: int, b: int|
                        0 <= a < b < fired@.len() implies fired@[a] != fired@[b] by {
                        if b == fb.len() {
                            assert(fb[a] == fired@[a]);
                        } else {
                            assert(fb[a] == fired@[a] && fb[b] == fired@[b]);
                        }
                    }
                }
            }
        }
        assert(capturable@.subrange(0, n as int) =~= capturable@);
        self.counters = next;
        fired
    }

    /// Forgets the counter of an objective whose ownership changed.
    pub fn clear(&mut self, oid: u64)
        ensures
            final(self).count(oid) == 0,
            forall|o: u64| o != oid ==> #[trigger] final(self).count(o) == old(self).count(o),
    {
        self.counters.remove(&oid);
    }
}

pub(crate) proof fn lemma_contains_push(s: Seq<u64>, x: u64)
    ensures
        forall|o: u64| #[trigger] s.push(x).contains(o) <==> (s.contains(o) || o == x),
{
    assert forall|o: u64| #[trigger] s.push(x).contains(o) <==> (s.contains(o) || o == x) by {
        if s.contains(o) {
            let k = choose|k: int| 0 <= k < s.len() && s[k] == o;
            assert(s.push(x)[k] == o);
        }
        if o == x {
            assert(s.push(x)[s.len() as int] == o);
        }
        if s.push(x).contains(o) && o != x {
            let k = choose|k: int| 0 <= k < s.len() + 1 && s.push(x)[k] == o;
            assert(s[k] == o);
        }
    }
}

} // verus!

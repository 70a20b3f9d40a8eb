use vstd::prelude::*;
use std::collections::HashSet;
use crate::capture::lemma_contains_push;

verus! {

broadcast use vstd::std_specs::hash::group_hash_axioms;

/// Seconds a unit must stay landed before its landing can return a life.
pub const LANDING_GRACE_SECS: i64 = 10;

/// Landing times keyed by unit; of two pairs for one unit the later wins.
pub open spec fn landed_view(s: Seq<(u64, i64)>) -> Map<u64, i64>
    decreases s.len(),
{
    if s.len() == 0 {
        Map::empty()
    } else {
        landed_view(s.drop_last()).insert(s.last().0, s.last().1)
    }
}

/// Whether a landing at `t` is past the grace period at `now`.
pub open spec fn past_grace(t: i64, now: i64) -> bool {
    now - t >= LANDING_GRACE_SECS
}

/// Whether `id`'s landing may return a life at `now`.
pub open spec fn due(landed: Map<u64, i64>, id: u64, now: i64) -> bool {
    landed.contains_key(id) && past_grace(landed[id], now)
}

/// Whether a takeoff of `id` consumes a life: the unit was neither airborne already nor
/// inside the grace window of a recent landing.
pub open spec fn takeoff_consumes(airborne: Set<u64>, landed: Map<u64, i64>, id: u64) -> bool {
    !airborne.contains(id) && !landed.contains_key(id)
}

/// Takeoff/landing law, over the airborne set `a` and the landings `l` that the tracker's
/// operations produce. For a unit that is neither airborne nor landed, its takeoff consumes a
/// life. If the unit is then destroyed, no landing of it is ever due, so it never returns a life.
/// If it lands at `t` instead, the landing is due at `now` exactly when the grace period has
/// passed, a takeoff inside that window consumes nothing, and once the returned life is settled
/// the landing is never due again: one life back, once.
pub proof fn takeoff_landing_law(a: Set<u64>, l: Map<u64, i64>, id: u64, t: i64, now: i64)
    requires
        !a.contains(id),
        !l.contains_key(id),
    ensures
        takeoff_consumes(a, l, id),
        ({
            let (a1, l1) = (a.insert(id), l.remove(id));
            let (a2, l2) = (a1.remove(id), l1.remove(id));
            !a2.contains(id) && forall|n: i64| !#[trigger] due(l2, id, n)
        }),
        ({
            let (a1, l1) = (a.insert(id), l.remove(id));
            let (a2, l2) = (a1.remove(id), if a1.contains(id) {
                l1.insert(id, t)
            } else {
                l1
            });
            &&& due(l2, id, now) <==> now - t >= LANDING_GRACE_SECS
            &&& !takeoff_consumes(a2, l2, id)
            &&& forall|n: i64| !#[trigger] due(l2.remove(id), id, n)
        }),
{
}

/// Tracks which units are airborne and which landed recently.
pub struct FlightTracker {
    airborne: HashSet<u64>,
    landed: Vec<(u64, i64)>,
}

impl FlightTracker {
    pub closed spec fn airborne(&self) -> Set<u64> {
        self.airborne@
    }

    /// Units that landed and whose life is not settled yet, with their landing time.
    pub closed spec fn landed(&self) -> Map<u64, i64> {
        landed_view(self.landed@)
    }

    /// No unit is both airborne and recently landed.
    pub open spec fn disjoint(&self) -> bool {
        forall|id: u64| #[trigger] self.airborne().contains(id) ==> !self.landed().contains_key(id)
    }

    /// A unit is never both airborne and recently landed, and is landed at most once.
    pub closed spec fn wf(&self) -> bool {
        &&& forall|i: int, j: int|
            0 <= i < j < self.landed@.len() ==> #[trigger] self.landed@[i].0
                != #[trigger] self.landed@[j].0
        &&& forall|id: u64| #[trigger]
            self.airborne@.contains(id) ==> !landed_view(self.landed@).contains_key(id)
    }

    pub fn new() -> (r: FlightTracker)
        ensures
            r.wf(),
            r.disjoint(),
            r.airborne() == Set::<u64>::empty(),
            r.landed() == Map::<u64, i64>::empty(),
    {
        FlightTracker { airborne: HashSet::new(), landed: Vec::new() }
    }

    /// Removes `id`'s landing, if any.
    fn remove_landed(&mut self, id: u64) -> (was: bool)
        requires
            forall|i: int, j: int|
                0 <= i < j < old(self).landed@.len() ==> #[trigger] old(self).landed@[i].0
                    != #[trigger] old(self).landed@[j].0,
        ensures
            final(self).airborne == old(self).airborne,
            final(self).landed() == old(self).landed().remove(id),
            was == old(self).landed().contains_key(id),
            forall|i: int, j: int|
                0 <= i < j < final(self).landed@.len() ==> #[trigger] final(self).landed@[i].0
                    != #[trigger] final(self).landed@[j].0,
    {
        let mut kept: Vec<(u64, i64)> = Vec::new();
        let n = self.landed.len();
        let mut was = false;
        for i in 0..n
            invariant
                n == self.landed@.len(),
                forall|a: int, b: int|
                    0 <= a < b < self.landed@.len() ==> #[trigger] self.landed@[a].0
                        != #[trigger] self.landed@[b].0,
                landed_view(kept@) == landed_view(self.landed@.subrange(0, i as int)).remove(id),
                was == landed_view(self.landed@.subrange(0, i as int)).contains_key(id),
                forall|a: int, b: int|
                    0 <= a < b < kept@.len() ==> #[trigger] kept@[a].0 != #[trigger] kept@[b].0,
                forall|a: int|
                    0 <= a < kept@.len() ==> landed_view(
                        self.landed@.subrange(0, i as int),
                    ).contains_key(#[trigger] kept@[a].0),
                forall|a: int|
                    0 <= a < kept@.len() ==> exists|k: int|
                        0 <= k < i && self.landed@[k].0 == #[trigger] kept@[a].0,
        {
            let e = self.landed[i];
            let ghost pre = self.landed@.subrange(0, i as int);
            assert(self.landed@.subrange(0, i + 1).drop_last() =~= pre);
            if e.0 != id {
                let ghost before = kept@;
                proof {
                    assert forall|a: int| 0 <= a < before.len() implies before[a].0 != e.0 by {
                        let k = choose|k: int| 0 <= k < i && self.landed@[k].0 == before[a].0;
                        assert(self.landed@[k].0 != self.landed@[i as int].0);
                    }
                }
                kept.push(e);
                assert(kept@.drop_last() =~= before);
                assert(landed_view(kept@) =~= landed_view(
                    self.landed@.subrange(0, i + 1),
                ).remove(id));
                assert forall|a: int|
                    0 <= a < kept@.len() implies exists|k: int|
                        0 <= k < i + 1 && self.landed@[k].0 == #[trigger] kept@[a].0 by {
                    if a == kept@.len() - 1 {
                        assert(self.landed@[i as int].0 == kept@[a].0);
                    } else {
                        assert(kept@[a] == before[a]);
                    }
                }
            } else {
                was = true;
                assert(landed_view(kept@) =~= landed_view(
                    self.landed@.subrange(0, i + 1),
                ).remove(id));
            }
        }
        assert(self.landed@.subrange(0, n as int) =~= self.landed@);
        self.landed = kept;
        was
    }

    /// When `id` landed, if its landing is not settled.
    pub fn landed_at(&self, id: u64) -> (r: Option<i64>)
        requires
            self.wf(),
        ensures
            r == if self.landed().contains_key(id) {
                Some(self.landed()[id])
            } else {
                None
            },
    {
        let mut j = self.landed.len();
        assert(self.landed@.subrange(0, j as int) =~= self.landed@);
        while j > 0
            invariant
                j <= self.landed@.len(),
                landed_view(self.landed@).contains_key(id) == landed_view(
                    self.landed@.subrange(0, j as int),
                ).contains_key(id),
                landed_view(self.landed@).contains_key(id) ==> landed_view(self.landed@)[id]
                    == landed_view(self.landed@.subrange(0, j as int))[id],
            decreases j,
        {
            let e = self.landed[j - 1];
            assert(self.landed@.subrange(0, j as int).drop_last() =~= self.landed@.subrange(0, j - 1));
            if e.0 == id {
                return Some(e.1);
            }
            j = j - 1;
        }
        None
    }

    /// Records a takeoff; returns whether it consumes a life.
    pub fn takeoff(&mut self, id: u64) -> (consumes: bool)
        requires
            old(self).wf(),
        ensures
            final(self).wf(),
            final(self).disjoint(),
            consumes == takeoff_consumes(old(self).airborne(), old(self).landed(), id),
            old(self).airborne().contains(id) ==> final(self).airborne() == old(self).airborne()
                && final(self).landed() == old(self).landed(),
            final(self).airborne() == old(self).airborne().insert(id),
            final(self).landed() == old(self).landed().remove(id),
    {
        let fresh = self.airborne.insert(id);
        if fresh {
            let was = self.remove_landed(id);
            !was
        } else {
            proof {
                assert(self.airborne@ =~= old(self).airborne@);
                assert(self.landed() =~= self.landed().remove(id));
            }
            false
        }
    }

    /// Records a landing at `now`; a unit that was not airborne is left as it is.
    pub fn land(&mut self, id: u64, now: i64)
        requires
            old(self).wf(),
        ensures
            final(self).wf(),
            final(self).disjoint(),
            final(self).airborne() == old(self).airborne().remove(id),
            final(self).landed() == if old(self).airborne().contains(id) {
                old(self).landed().insert(id, now)
            } else {
                old(self).landed()
            },
    {
        let was = self.airborne.remove(&id);
        if was {
            let ghost before = self.landed@;
            proof {
                lemma_landed_view_keys(before);
                assert(!landed_view(before).contains_key(id));
            }
            self.landed.push((id, now));
            assert(self.landed@.drop_last() =~= before);
            proof {
                lemma_landed_view_keys(self.landed@);
            }
        } else {
            assert(self.airborne@ =~= old(self).airborne@);
        }
    }

    /// Forgets a unit that died, ejected or was lost: it is neither airborne nor landed after.
    pub fn unit_killed(&mut self, id: u64)
        requires
            old(self).wf(),
        ensures
            final(self).wf(),
            final(self).disjoint(),
            final(self).airborne() == old(self).airborne().remove(id),
            final(self).landed() == old(self).landed().remove(id),
    {
        self.airborne.remove(&id);
        self.remove_landed(id);
    }

    /// Settles a landing whose life was returned.
    pub fn settle(&mut self, id: u64)
        requires
            old(self).wf(),
        ensures
            final(self).wf(),
            final(self).disjoint(),
            final(self).airborne() == old(self).airborne(),
            final(self).landed() == old(self).landed().remove(id),
    {
        self.remove_landed(id);
    }

    /// The units whose landing is past the grace period at `now`.
    pub fn due_landings(&self, now: i64) -> (r: Vec<u64>)
        requires
            self.wf(),
        ensures
            forall|id: u64| #[trigger] r@.contains(id) <==> due(self.landed(), id, now),
            r@.no_duplicates(),
    {
        let mut r: Vec<u64> = Vec::new();
        let n = self.landed.len();
        proof {
            lemma_landed_view_keys(self.landed@);
        }
        for i in 0..n
            invariant
                n == self.landed@.len(),
                self.wf(),
                forall|id: u64|
                    #[trigger] r@.contains(id) <==> exists|k: int|
                        0 <= k < i && self.landed@[k].0 == id && past_grace(
                            self.landed@[k].1,
                            now,
                        ),
                r@.no_duplicates(),
        {
            let e = self.landed[i];
            let ghost before = r@;
            if (now as i128) - (e.1 as i128) >= LANDING_GRACE_SECS as i128 {
                proof {
                    if before.contains(e.0) {
                        let k = choose|k: int|
                            0 <= k < i && self.landed@[k].0 == e.0 && past_grace(
                                self.landed@[k].1,
                                now,
                            );
                        assert(self.landed@[k].0 != self.landed@[i as int].0);
                    }
                }
                r.push(e.0);
                proof {
                    lemma_contains_push(before, e.0);
                    assert(self.landed@[i as int].0 == e.0 && past_grace(
                        self.landed@[i as int].1,
                        now,
                    ));
                    assert forall|a: int, b: int|
                        0 <= a < b < r@.len() implies r@[a] != r@[b] by {
                        if b == before.len() {
                            assert(r@[a] == before[a]);
                        } else {
                            assert(r@[a] == before[a] && r@[b] == before[b]);
                        }
                    }
                }
            }
            proof {
                assert forall|id: u64| #[trigger] r@.contains(id) <==> exists|k: int|
                    0 <= k < i + 1 && self.landed@[k].0 == id && past_grace(
                        self.landed@[k].1,
                        now,
                    ) by {
                    if exists|k: int|
                        0 <= k < i + 1 && self.landed@[k].0 == id && past_grace(
                            self.landed@[k].1,
                            now,
                        ) {
                        let k = choose|k: int|
                            0 <= k < i + 1 && self.landed@[k].0 == id && past_grace(
                                self.landed@[k].1,
                                now,
                            );
                        if k < i {
                            assert(before.contains(id));
                        }
                    }
                    if r@.contains(id) && before.contains(id) {
                        let k = choose|k: int|
                            0 <= k < i && self.landed@[k].0 == id && past_grace(
                                self.landed@[k].1,
                                now,
                            );
                        assert(k < i + 1);
                    }
                }
            }
        }
        assert forall|id: u64| #[trigger] r@.contains(id) <==> due(self.landed(), id, now) by {
            if r@.contains(id) {
                let k = choose|k: int|
                    0 <= k < n && self.landed@[k].0 == id && past_grace(self.landed@[k].1, now);
                assert(landed_view(self.landed@).contains_key(self.landed@[k].0));
            }
            if due(self.landed(), id, now) {
                assert(landed_view(self.landed@).contains_key(id));
                let k = choose|k: int| 0 <= k < n && self.landed@[k].0 == id;
                assert(landed_view(self.landed@).contains_key(self.landed@[k].0));
            }
        }
        r
    }
}

/// With distinct units, `landed_view` holds each pair and nothing else.
proof fn lemma_landed_view_keys(s: Seq<(u64, i64)>)
    requires
        forall|i: int, j: int| 0 <= i < j < s.len() ==> #[trigger] s[i].0 != #[trigger] s[j].0,
    ensures
        forall|k: int|
            0 <= k < s.len() ==> #[trigger] landed_view(s).contains_key(s[k].0) && landed_view(
                s,
            )[s[k].0] == s[k].1,
        forall|id: u64| #[trigger]
            landed_view(s).contains_key(id) ==> exists|k: int| 0 <= k < s.len() && s[k].0 == id,
    decreases s.len(),
{
    if s.len() > 0 {
        let t = s.drop_last();
        assert forall|i: int, j: int| 0 <= i < j < t.len() implies #[trigger] t[i].0
            != #[trigger] t[j].0 by {
            assert(t[i] == s[i] && t[j] == s[j]);
        }
        lemma_landed_view_keys(t);
        assert(landed_view(s) == landed_view(t).insert(s.last().0, s.last().1));
        assert forall|k: int| 0 <= k < s.len() implies #[trigger] landed_view(s).contains_key(
            s[k].0,
        ) && landed_view(s)[s[k].0] == s[k].1 by {
            if k < s.len() - 1 {
                assert(t[k] == s[k]);
                assert(s[k].0 != s[s.len() - 1].0);
            }
        }
        assert forall|id: u64| #[trigger] landed_view(s).contains_key(id) implies exists|k: int|
            0 <= k < s.len() && s[k].0 == id by {
            if id != s.last().0 {
                assert(landed_view(t).contains_key(id));
                let k = choose|k: int| 0 <= k < t.len() && t[k].0 == id;
                assert(s[k] == t[k]);
            } else {
                assert(s[s.len() - 1].0 == id);
            }
        }
    }
}

} // verus!

use vstd::prelude::*;
use std::collections::HashMap;
use crate::capture::{CaptureTracker, next_count, fires};
use crate::commands::{AdminCommand, AdminParseError, parse_admin, parsed_view, admin_spec};
use crate::flight::{FlightTracker, takeoff_consumes, due};
use crate::lives::{LifeRule, LifeEntry, taken, returned, refreshed, refresh, window_elapsed};
use crate::logistics::{Delivery, LogisticsClock, LogisticsStep, cadence_step, logistics_plan, plan_of};
use crate::objectives::{Objective, ThreatChange, same_name, sat_sub};
use crate::players::{Player, Players, slot_decision, RegErr, SlotAuth, SwitchErr, entry_of, lives_replaced, register_outcome, side_of, slot_auth_spec};
use crate::side::{Side, opposite_spec};
use vstd::string::StringSliceAdditionalSpecFns;

verus! {

broadcast use vstd::std_specs::hash::group_hash_axioms;

/// The life rule of type `t`; of two rules for one type the later wins.
pub open spec fn rule_of(rules: Seq<(u8, LifeRule)>, t: u8) -> Option<LifeRule>
    decreases rules.len(),
{
    if rules.len() == 0 {
        None
    } else if rules.last().0 == t {
        Some(rules.last().1)
    } else {
        rule_of(rules.drop_last(), t)
    }
}

/// Settings of a mission.
pub struct MissionConfig {
    /// Pool size and reset window of each life type.
    pub life_rules: Vec<(u8, LifeRule)>,
    /// Ids of the players allowed to run admin commands.
    pub admins: Vec<u64>,
    /// Side switches granted to each player; `None` for unlimited.
    pub max_side_switches: Option<u8>,
    /// Seconds between slow ticks.
    pub slow_timed_events_secs: u64,
    /// Seconds between logistics ticks and the cadence of production deliveries, when the
    /// mission has warehouses.
    pub logistics: Option<(u64, u32)>,
}

impl MissionConfig {
    /// The rule of life type `t`.
    pub fn rule_for(&self, t: u8) -> (r: Option<LifeRule>)
        ensures
            r == rule_of(self.life_rules@, t),
    {
        let mut j = self.life_rules.len();
        assert(self.life_rules@.subrange(0, j as int) =~= self.life_rules@);
        while j > 0
            invariant
                j <= self.life_rules@.len(),
                rule_of(self.life_rules@, t) == rule_of(self.life_rules@.subrange(0, j as int), t),
            decreases j,
        {
            let e = self.life_rules[j - 1];
            assert(self.life_rules@.subrange(0, j as int).drop_last() =~= self.life_rules@.subrange(
                0,
                j - 1,
            ));
            if e.0 == t {
                return Some(e.1);
            }
            j = j - 1;
        }
        None
    }

    /// Whether player `ucid` may run admin commands.
    pub fn is_admin(&self, ucid: u64) -> (r: bool)
        ensures
            r == self.admins@.contains(ucid),
    {
        let n = self.admins.len();
        for i in 0..n
            invariant
                n == self.admins@.len(),
                forall|k: int| 0 <= k < i ==> self.admins@[k] != ucid,
        {
            if self.admins[i] == ucid {
                assert(self.admins@[i as int] == ucid);
                return true;
            }
        }
        false
    }
}

/// The durable part of a mission at one point in time: its players with their lives, and its
/// objectives with their inventories.
pub struct Snapshot {
    pub players: HashMap<u64, Player>,
    pub objectives: HashMap<u64, Objective>,
}

/// What `maybe_snapshot` yields for a store whose change flag is `dirty`: whether a snapshot
/// comes out, and the flag afterwards.
pub open spec fn snapshot_outcome(dirty: bool) -> (bool, bool) {
    (dirty, false)
}

/// Snapshot law: taking a snapshot twice with no change in between yields no second snapshot.
pub proof fn snapshot_idempotent(dirty: bool)
    ensures
        snapshot_outcome(dirty).0 == dirty,
        !snapshot_outcome(snapshot_outcome(dirty).1).0,
{
}

/// One line of a lives report: a life type, the lives left of it and the pool size, and the
/// seconds until the pool refills (`None` for a pool never used, which is full).
#[derive(Debug, Clone, Copy, PartialEq, Eq, Structural)]
pub struct LifeLine {
    pub life_type: u8,
    pub current: u8,
    pub max: u8,
    pub resets_in: Option<i128>,
}

/// The report line of the rule `e` for a player whose pools are `lives`, at `now`. A pool whose
/// window has elapsed reads as full, counting from `now`.
pub open spec fn life_line(lives: Map<u8, LifeEntry>, e: (u8, LifeRule), now: i64) -> LifeLine {
    let cur = entry_of(lives, e.0);
    let r = refreshed(cur, e.1, now);
    LifeLine {
        life_type: e.0,
        current: r.remaining,
        max: e.1.max,
        resets_in: match cur {
            Some(_) => Some((r.last_reset + e.1.reset_after - now) as i128),
            None => None,
        },
    }
}

/// Whether a report restricted to `filter` covers the rule `e`.
pub open spec fn reported(filter: Option<u8>, e: (u8, LifeRule)) -> bool {
    filter is None || filter == Some(e.0)
}

/// What became of an admin chat line.
#[derive(Debug, Clone, Copy, PartialEq, Eq, Structural)]
pub enum AdminOutcome {
    /// The sender is unknown or not an admin: the line is ignored.
    Ignored,
    /// The line does not parse; the error goes back to the sender.
    ParseError(AdminParseError),
    /// `help`: the usage goes back to the sender.
    Help,
    /// The command is queued for the next tick.
    Queued,
}

/// The sides told about a capture: the side that gained the objective, then the one that lost it.
#[derive(Debug, Clone, Copy, PartialEq, Eq, Structural)]
pub struct CaptureNews {
    pub gained: Side,
    pub lost: Side,
}

/// The single owner of all mission state.
pub struct Mission {
    pub cfg: MissionConfig,
    pub players: Players,
    pub objectives: HashMap<u64, Objective>,
    /// The ids of the objectives, to look them up by name.
    pub objective_ids: Vec<u64>,
    pub captures: CaptureTracker,
    pub flights: FlightTracker,
    /// The player occupying each slot.
    pub slot_players: HashMap<u64, u64>,
    pub logistics: LogisticsClock,
    pub last_slow_tick: i64,
    pub admin_queue: Vec<(u64, AdminCommand)>,
    /// Whether durable state changed since the last snapshot.
    pub dirty: bool,
}

impl Mission {
    /// The flight sets are disjoint, the listed ids are exactly the objectives, and every stored
    /// life pool has a rule and holds no more than the rule's size.
    pub open spec fn wf(&self) -> bool {
        &&& self.flights.wf()
        &&& self.flights.disjoint()
        &&& forall|oid: u64| #[trigger]
            self.objectives@.contains_key(oid) <==> self.objective_ids@.contains(oid)
        &&& lives_bounded(self.cfg.life_rules@, self.players.players@)
    }

    /// A fresh mission at `now` with the given objectives and no players.
    pub fn new(cfg: MissionConfig, objectives: Vec<(u64, Objective)>, now: i64) -> (r: Mission)
        ensures
            r.wf(),
            r.players.players@ == Map::<u64, Player>::empty(),
            r.players.max_side_switches == cfg.max_side_switches,
            forall|oid: u64| r.captures.count(oid) == 0,
            r.flights.airborne() == Set::<u64>::empty(),
            r.flights.landed() == Map::<u64, i64>::empty(),
            r.slot_players@ == Map::<u64, u64>::empty(),
            r.logistics.last_tick == now,
            r.logistics.ticks_since_delivery == 0,
            r.last_slow_tick == now,
            r.admin_queue@.len() == 0,
            r.dirty,
            r.objective_ids@.len() == objectives@.len(),
            forall|i: int|
                0 <= i < objectives@.len() ==> r.objective_ids@[i] == #[trigger] objectives@[i].0
                    && r.objectives@.contains_key(objectives@[i].0),
            forall|oid: u64| #[trigger]
                r.objectives@.contains_key(oid) ==> exists|i: int|
                    0 <= i < objectives@.len() && objectives@[i].0 == oid,
    {
        let mut map: HashMap<u64, Objective> = HashMap::new();
        let mut ids: Vec<u64> = Vec::new();
        let mut objectives = objectives;
        let ghost all = objectives@;
        let n = objectives.len();
        let mut i: usize = 0;
        while objectives.len() > 0
            invariant
                n == all.len(),
                i + objectives@.len() == n,
                objectives@ == all.subrange(i as int, n as int),
                ids@.len() == i,
                forall|k: int|
                    0 <= k < i ==> ids@[k] == #[trigger] all[k].0 && map@.contains_key(all[k].0),
                forall|oid: u64| #[trigger]
                    map@.contains_key(oid) ==> exists|k: int| 0 <= k < i && all[k].0 == oid,
            decreases objectives.len(),
        {
            let (oid, o) = objectives.remove(0);
            assert(all[i as int].0 == oid);
            map.insert(oid, o);
            ids.push(oid);
            assert(objectives@ =~= all.subrange(i + 1, n as int));
            i = i + 1;
        }
        proof {
            assert forall|oid: u64| #[trigger] map@.contains_key(oid) <==> ids@.contains(oid) by {
                if map@.contains_key(oid) {
                    let k = choose|k: int| 0 <= k < i && all[k].0 == oid;
                    assert(ids@[k] == oid);
                }
                if ids@.contains(oid) {
                    let k = choose|k: int| 0 <= k < ids@.len() && ids@[k] == oid;
                    assert(ids@[k] == all[k].0);
                }
            }
        }
        let max = cfg.max_side_switches;
        Mission {
            cfg,
            players: Players::new(max),
            objectives: map,
            objective_ids: ids,
            captures: CaptureTracker::new(),
            flights: FlightTracker::new(),
            slot_players: HashMap::new(),
            logistics: LogisticsClock::new(now),
            last_slow_tick: now,
            admin_queue: Vec::new(),
            dirty: true,
        }
    }

    /// Registers a player on a side; see `Players::register_player`.
    pub fn register_player(&mut self, ucid: u64, name: String, side: Side) -> (r: Result<
        (),
        RegErr,
    >)
        requires
            old(self).wf(),
        ensures
            final(self).wf(),
            r == register_outcome(old(self).players.players@, ucid, side),
            r is Err ==> final(self).players.players@ == old(self).players.players@ && final(self).dirty
                == old(self).dirty,
            r is Ok ==> final(self).players.players@ == old(self).players.players@.insert(
                ucid,
                Player {
                    name,
                    side,
                    side_switches: old(self).players.max_side_switches,
                    lives: final(self).players.players@[ucid].lives,
                    current_slot: None,
                },
            ) && final(self).players.players@[ucid].lives@ == Map::<u8, LifeEntry>::empty()
                && final(self).dirty,
            final(self).players.max_side_switches == old(self).players.max_side_switches,
            final(self).captures == old(self).captures,
            final(self).flights == old(self).flights,
            final(self).objectives == old(self).objectives,
    {
        let ghost before = self.players.players@;
        let r = self.players.register_player(ucid, name, side);
        proof {
            if r is Ok {
                lemma_bounded_same_lives(
                    self.cfg.life_rules@,
                    before,
                    ucid,
                    self.players.players@[ucid],
                );
            }
        }
        if r.is_ok() {
            self.dirty = true;
        }
        r
    }

    /// Switches a player's side; see `Players::sideswitch_player`.
    pub fn sideswitch_player(&mut self, ucid: u64, side: Side) -> (r: Result<(), SwitchErr>)
        requires
            old(self).wf(),
        ensures
            final(self).wf(),
            r is Ok <==> (side != Side::Neutral && old(self).players.players@.contains_key(ucid)
                && old(self).players.players@[ucid].side != side
                && old(self).players.players@[ucid].side_switches != Some(0u8)),
            r is Err ==> final(self).players.players@ == old(self).players.players@,
            r is Ok ==> final(self).dirty && {
                let p = old(self).players.players@[ucid];
                final(self).players.players@ == old(self).players.players@.insert(
                    ucid,
                    Player {
                        side,
                        side_switches: match p.side_switches {
                            Some(n) => Some((n - 1) as u8),
                            None => None,
                        },
                        ..p
                    },
                )
            },
            final(self).players.max_side_switches == old(self).players.max_side_switches,
    {
        let ghost before = self.players.players@;
        let r = self.players.sideswitch_player(ucid, side);
        proof {
            if r is Ok {
                lemma_bounded_same_lives(
                    self.cfg.life_rules@,
                    before,
                    ucid,
                    self.players.players@[ucid],
                );
            }
        }
        if r.is_ok() {
            self.dirty = true;
        }
        r
    }

    /// Decides whether player `ucid` may occupy `slot`, a slot of `slot_side` belonging to
    /// objective `oid` and using lives of type `typ`. A life type without a rule has no pool
    /// and never runs out. On `Yes` the player is recorded in the slot.
    pub fn try_occupy_slot(
        &mut self,
        now: i64,
        ucid: u64,
        slot: u64,
        slot_side: Side,
        oid: u64,
        typ: u8,
    ) -> (r: SlotAuth)
        requires
            old(self).wf(),
            old(self).objectives@.contains_key(oid),
        ensures
            final(self).wf(),
            ({
                let o = old(self).objectives@[oid];
                let pl = old(self).players.players@;
                let lives = match rule_of(old(self).cfg.life_rules@, typ) {
                    Some(rule) => if pl.contains_key(ucid) {
                        lives_at_of(pl[ucid].lives@, typ, rule, now)
                    } else {
                        0
                    },
                    None => 1,
                };
                r == slot_auth_spec(side_of(pl, ucid), slot_side, o.owner, o.has_logistics, lives)
            }),
            r != SlotAuth::Yes ==> final(self).players.players@ == old(self).players.players@ && final(self).slot_players@ == old(self).slot_players@,
            r == SlotAuth::Yes ==> final(self).players.players@ == old(self).players.players@.insert(
                ucid,
                Player { current_slot: Some(slot), ..old(self).players.players@[ucid] },
            ) && final(self).slot_players@ == old(self).slot_players@.insert(slot, ucid)
                && final(self).dirty,
            final(self).players.max_side_switches == old(self).players.max_side_switches,
    {
        let (owner, has_logistics) = match self.objectives.get(&oid) {
            Some(o) => (o.owner, o.has_logistics),
            None => (Side::Neutral, false),
        };
        let lives = match self.cfg.rule_for(typ) {
            Some(rule) => match self.players.lives(ucid, typ, rule, now) {
                Some(n) => n,
                None => 0,
            },
            None => 1,
        };
        let side = self.players.side(ucid);
        let r = slot_decision(side, slot_side, owner, has_logistics, lives);
        if r == SlotAuth::Yes {
            let ghost before = self.players.players@;
            self.players.set_slot(ucid, Some(slot));
            proof {
                lemma_bounded_same_lives(
                    self.cfg.life_rules@,
                    before,
                    ucid,
                    self.players.players@[ucid],
                );
            }
            self.slot_players.insert(slot, ucid);
            self.dirty = true;
        }
        r
    }

    /// A unit took off from `slot`, a slot using lives of type `typ`. When the takeoff consumes
    /// a life (see `takeoff_consumes`) and the slot has a player and the type a rule, one life
    /// is taken from that player; returns the player and the lives left.
    pub fn on_takeoff(&mut self, unit: u64, slot: u64, typ: u8, now: i64) -> (r: Option<(u64, u8)>)
        requires
            old(self).wf(),
        ensures
            final(self).wf(),
            final(self).flights.airborne() == old(self).flights.airborne().insert(unit),
            final(self).flights.landed() == old(self).flights.landed().remove(unit),
            final(self).players.max_side_switches == old(self).players.max_side_switches,
            !takeoff_consumes(old(self).flights.airborne(), old(self).flights.landed(), unit)
                ==> r is None && final(self).players.players@ == old(self).players.players@,
            takeoff_consumes(old(self).flights.airborne(), old(self).flights.landed(), unit)
                && old(self).slot_players@.contains_key(slot) && rule_of(
                old(self).cfg.life_rules@,
                typ,
            ) is Some && old(self).players.players@.contains_key(
                old(self).slot_players@[slot],
            ) ==> {
                let ucid = old(self).slot_players@[slot];
                let lv = old(self).players.players@[ucid].lives@;
                match taken(entry_of(lv, typ), rule_of(old(self).cfg.life_rules@, typ)->0, now) {
                    Some(e) => r == Some((ucid, e.remaining)) && lives_replaced(
                        old(self).players.players@,
                        final(self).players.players@,
                        ucid,
                        lv.insert(typ, e),
                    ),
                    None => r is None && final(self).players.players@ == old(self).players.players@,
                }
            },
            !(old(self).slot_players@.contains_key(slot) && rule_of(old(self).cfg.life_rules@, typ)
                is Some && old(self).players.players@.contains_key(old(self).slot_players@[slot]))
                ==> r is None && final(self).players.players@ == old(self).players.players@,
            r is Some ==> final(self).dirty,
            old(self).flights.airborne().contains(unit) ==> r is None
                && final(self).flights.airborne() == old(self).flights.airborne()
                && final(self).flights.landed() == old(self).flights.landed()
                && final(self).players.players@ == old(self).players.players@,
    {
        if !self.flights.takeoff(unit) {
            return None;
        }
        let ucid = match self.slot_players.get(&slot) {
            Some(u) => *u,
            None => {
                return None;
            },
        };
        let rule = match self.cfg.rule_for(typ) {
            Some(rule) => rule,
            None => {
                return None;
            },
        };
        let ghost before = self.players.players@;
        let r = self.players.consume_life(ucid, typ, rule, now);
        proof {
            if r is Some {
                let e = taken(entry_of(before[ucid].lives@, typ), rule, now)->0;
                if before[ucid].lives@.contains_key(typ) {
                    assert(before[ucid].lives@[typ].remaining <= rule.max);
                }
                lemma_bounded_replaced(self.cfg.life_rules@, before, self.players.players@, ucid, typ, e);
            }
        }
        match r {
            Some(n) => {
                self.dirty = true;
                Some((ucid, n))
            },
            None => None,
        }
    }

    /// A unit landed at `now`.
    pub fn on_land(&mut self, unit: u64, now: i64)
        requires
            old(self).wf(),
        ensures
            final(self).wf(),
            final(self).flights.airborne() == old(self).flights.airborne().remove(unit),
            final(self).flights.landed() == if old(self).flights.airborne().contains(unit) {
                old(self).flights.landed().insert(unit, now)
            } else {
                old(self).flights.landed()
            },
            final(self).players.players@ == old(self).players.players@,
    {
        self.flights.land(unit, now);
    }

    /// A unit died, ejected or was lost, whatever reported it: it can no longer return a life.
    pub fn unit_killed(&mut self, unit: u64)
        requires
            old(self).wf(),
        ensures
            final(self).wf(),
            final(self).flights.airborne() == old(self).flights.airborne().remove(unit),
            final(self).flights.landed() == old(self).flights.landed().remove(unit),
            forall|n: i64| !#[trigger] due(final(self).flights.landed(), unit, n),
            final(self).players.players@ == old(self).players.players@,
    {
        self.flights.unit_killed(unit);
    }

    /// The units whose landing is past the grace period at `now`.
    pub fn due_landings(&self, now: i64) -> (r: Vec<u64>)
        requires
            self.wf(),
        ensures
            forall|id: u64| #[trigger] r@.contains(id) <==> due(self.flights.landed(), id, now),
            r@.no_duplicates(),
    {
        self.flights.due_landings(now)
    }

    /// Settles the landing of `unit`, in `slot` using lives of type `typ`, once the host has
    /// judged whether it `qualifies` to return a life. A landing that is due and qualifies is
    /// settled, and the slot's player, if any, gets one life back: returns that player and the
    /// lives held. Anything else changes nothing.
    pub fn return_life(&mut self, unit: u64, slot: u64, typ: u8, qualifies: bool, now: i64) -> (r:
        Option<(u64, u8)>)
        requires
            old(self).wf(),
        ensures
            final(self).wf(),
            final(self).players.max_side_switches == old(self).players.max_side_switches,
            final(self).flights.airborne() == old(self).flights.airborne(),
            !(qualifies && due(old(self).flights.landed(), unit, now)) ==> r is None && final(self).flights.landed() == old(self).flights.landed() && final(self).players.players@ == old(self).players.players@,
            qualifies && due(old(self).flights.landed(), unit, now) ==> final(self).flights.landed() == old(self).flights.landed().remove(unit),
            qualifies && due(old(self).flights.landed(), unit, now) && old(self).slot_players@.contains_key(slot) && rule_of(old(self).cfg.life_rules@, typ)
                is Some && old(self).players.players@.contains_key(old(self).slot_players@[slot])
                ==> {
                let ucid = old(self).slot_players@[slot];
                let lv = old(self).players.players@[ucid].lives@;
                let e = returned(entry_of(lv, typ), rule_of(old(self).cfg.life_rules@, typ)->0, now);
                r == Some((ucid, e.remaining)) && lives_replaced(
                    old(self).players.players@,
                    final(self).players.players@,
                    ucid,
                    lv.insert(typ, e),
                ) && final(self).dirty
            },
            !(old(self).slot_players@.contains_key(slot) && rule_of(old(self).cfg.life_rules@, typ)
                is Some && old(self).players.players@.contains_key(old(self).slot_players@[slot]))
                ==> r is None && final(self).players.players@ == old(self).players.players@,
    {
        if !qualifies {
            return None;
        }
        let due_now = match self.flights.landed_at(unit) {
            Some(t) => (now as i128) - (t as i128) >= crate::flight::LANDING_GRACE_SECS as i128,
            None => false,
        };
        if !due_now {
            return None;
        }
        self.flights.settle(unit);
        let ucid = match self.slot_players.get(&slot) {
            Some(u) => *u,
            None => {
                return None;
            },
        };
        let rule = match self.cfg.rule_for(typ) {
            Some(rule) => rule,
            None => {
                return None;
            },
        };
        let ghost before = self.players.players@;
        let r = self.players.credit_life(ucid, typ, rule, now);
        proof {
            if r is Some {
                let e = returned(entry_of(before[ucid].lives@, typ), rule, now);
                lemma_bounded_replaced(self.cfg.life_rules@, before, self.players.players@, ucid, typ, e);
            }
        }
        match r {
            Some(n) => {
                self.dirty = true;
                Some((ucid, n))
            },
            None => None,
        }
    }

    /// Advances the capture debounce by one tick; see `CaptureTracker::advise_captureable`.
    pub fn advise_captureable(&mut self, capturable: &Vec<u64>) -> (fired: Vec<u64>)
        requires
            old(self).wf(),
        ensures
            final(self).wf(),
            forall|oid: u64|
                #[trigger] final(self).captures.count(oid) == next_count(
                    old(self).captures.count(oid),
                    capturable@.contains(oid),
                ),
            forall|oid: u64|
                #[trigger] fired@.contains(oid) <==> fires(
                    old(self).captures.count(oid),
                    capturable@.contains(oid),
                ),
            fired@.no_duplicates(),
    {
        self.captures.advise_captureable(capturable)
    }

    /// Objective `oid` was confirmed captured by `side`. When that changes its owner, the owner
    /// is updated, its capture counter cleared, and the sides to tell are returned; otherwise
    /// nothing changes.
    pub fn objective_captured(&mut self, oid: u64, side: Side) -> (r: Option<CaptureNews>)
        requires
            old(self).wf(),
        ensures
            final(self).wf(),
            !(old(self).objectives@.contains_key(oid) && old(self).objectives@[oid].owner != side)
                ==> r is None && final(self).objectives@ == old(self).objectives@ && final(self).captures == old(self).captures,
            old(self).objectives@.contains_key(oid) && old(self).objectives@[oid].owner != side
                ==> {
                &&& r == Some(CaptureNews { gained: side, lost: opposite_spec(side) })
                &&& final(self).objectives@ == old(self).objectives@.insert(
                    oid,
                    Objective { owner: side, ..old(self).objectives@[oid] },
                )
                &&& final(self).captures.count(oid) == 0
                &&& forall|o: u64|
                    o != oid ==> #[trigger] final(self).captures.count(o) == old(self).captures.count(o)
                &&& final(self).dirty
            },
    {
        match self.objectives.remove(&oid) {
            None => None,
            Some(o) => {
                if o.owner == side {
                    self.objectives.insert(oid, o);
                    None
                } else {
                    let q = Objective { owner: side, ..o };
                    self.objectives.insert(oid, q);
                    self.captures.clear(oid);
                    self.dirty = true;
                    Some(CaptureNews { gained: side, lost: side.opposite() })
                }
            },
        }
    }

    /// Records whether objective `oid` is threatened on this slow tick; returns the change to
    /// announce to its owner, if any.
    pub fn update_threat(&mut self, oid: u64, threatened: bool) -> (r: Option<ThreatChange>)
        requires
            old(self).wf(),
        ensures
            final(self).wf(),
            !old(self).objectives@.contains_key(oid) ==> r is None && final(self).objectives@
                == old(self).objectives@,
            old(self).objectives@.contains_key(oid) ==> {
                let o = old(self).objectives@[oid];
                &&& r == if threatened == o.threatened {
                    None
                } else if threatened {
                    Some(ThreatChange::Threatened(o.owner))
                } else {
                    Some(ThreatChange::Cleared(o.owner))
                }
                &&& final(self).objectives@ == old(self).objectives@.insert(
                    oid,
                    final(self).objectives@[oid],
                )
                &&& final(self).objectives@[oid].threatened == threatened
                &&& final(self).objectives@[oid].owner == o.owner
                &&& final(self).objectives@[oid].name == o.name
                &&& final(self).objectives@[oid].has_logistics == o.has_logistics
                &&& final(self).objectives@[oid].inventory == o.inventory
                &&& r is Some ==> final(self).dirty
            },
    {
        match self.objectives.remove(&oid) {
            None => None,
            Some(o) => {
                let mut o = o;
                let r = o.update_threat(threatened);
                self.objectives.insert(oid, o);
                if r.is_some() {
                    self.dirty = true;
                }
                r
            },
        }
    }

    /// Hands out a snapshot of the durable state when it changed since the last one.
    pub fn maybe_snapshot(&mut self) -> (r: Option<Snapshot>)
        requires
            old(self).wf(),
        ensures
            final(self).wf(),
            (r is Some, final(self).dirty) == snapshot_outcome(old(self).dirty),
            r is Some ==> r->0.players@ == old(self).players.players@ && r->0.objectives@ == old(self).objectives@,
            final(self).players.players@ == old(self).players.players@,
            final(self).objectives@ == old(self).objectives@,
    {
        if self.dirty {
            self.dirty = false;
            Some(Snapshot { players: self.players.players.clone(), objectives: self.objectives.clone() })
        } else {
            None
        }
    }

    /// Runs the logistics clock at `now`; when a logistics tick is due, returns its steps.
    /// A mission without warehouses has none.
    pub fn logistics_tick(&mut self, now: i64) -> (r: Option<Vec<LogisticsStep>>)
        requires
            old(self).wf(),
        ensures
            final(self).wf(),
            match old(self).cfg.logistics {
                None => r is None && final(self).logistics == old(self).logistics,
                Some((interval, k)) => if now - old(self).logistics.last_tick < interval {
                    r is None && final(self).logistics == old(self).logistics
                } else {
                    let (c, d) = cadence_step(
                        old(self).logistics.ticks_since_delivery as nat,
                        k as nat,
                    );
                    &&& r is Some && r->0@ == plan_of(d)
                    &&& final(self).logistics.last_tick == now
                    &&& final(self).logistics.ticks_since_delivery == c
                },
            },
    {
        match self.cfg.logistics {
            None => None,
            Some((interval, k)) => match self.logistics.tick(now, interval, k) {
                None => None,
                Some(d) => Some(logistics_plan(d)),
            },
        }
    }

    /// Whether a slow tick is due at `now`; when it is, it counts from `now`.
    pub fn slow_tick_due(&mut self, now: i64) -> (r: bool)
        requires
            old(self).wf(),
        ensures
            final(self).wf(),
            r == (now - old(self).last_slow_tick >= old(self).cfg.slow_timed_events_secs),
            final(self).last_slow_tick == if r {
                now
            } else {
                old(self).last_slow_tick
            },
    {
        if (now as i128) - (self.last_slow_tick as i128) >= self.cfg.slow_timed_events_secs as i128 {
            self.last_slow_tick = now;
            true
        } else {
            false
        }
    }

    /// Takes `amount` from every category of the inventory of the objective named `name`;
    /// returns whether there is one.
    pub fn reduce_inventory(&mut self, name: &Vec<u8>, amount: u8) -> (r: bool)
        requires
            old(self).wf(),
        ensures
            final(self).wf(),
            r ==> final(self).dirty && exists|oid: u64| #[trigger]
                reduced(old(self).objectives@, final(self).objectives@, oid, name@, amount as u32),
            !r ==> forall|oid: u64| #[trigger]
                old(self).objectives@.contains_key(oid) ==> old(self).objectives@[oid].name@
                    != name@,
            !r ==> final(self).objectives@ == old(self).objectives@,
            !r ==> forall|i: int|
                0 <= i < old(self).objective_ids@.len() ==> !(old(self).objectives@.contains_key(#[trigger] old(self).objective_ids@[i]) && old(self).objectives@[old(self).objective_ids@[i]].name@ == name@),
    {
        let n = self.objective_ids.len();
        for i in 0..n
            invariant
                n == self.objective_ids@.len(),
                self.objectives@ == old(self).objectives@,
                self.objective_ids@ == old(self).objective_ids@,
                self.wf(),
                forall|k: int|
                    0 <= k < i ==> !(self.objectives@.contains_key(#[trigger] self.objective_ids@[k])
                        && self.objectives@[self.objective_ids@[k]].name@ == name@),
        {
            let oid = self.objective_ids[i];
            let hit = match self.objectives.get(&oid) {
                Some(o) => same_name(&o.name, name),
                None => false,
            };
            if hit {
                let mut o = self.objectives.remove(&oid).unwrap();
                o.reduce_inventory(amount as u32);
                self.objectives.insert(oid, o);
                self.dirty = true;
                assert(reduced(old(self).objectives@, self.objectives@, oid, name@, amount as u32));
                return true;
            }
        }
        assert forall|oid: u64| #[trigger]
            old(self).objectives@.contains_key(oid) implies old(self).objectives@[oid].name@
                != name@ by {
            assert(self.objective_ids@.contains(oid));
            let k = choose|k: int| 0 <= k < n && self.objective_ids@[k] == oid;
        }
        false
    }

    /// Handles an admin chat line from player `ucid`. Lines from players who are not admins are
    /// ignored; a parsed command other than `help` is queued for the next tick.
    pub fn queue_admin(&mut self, ucid: u64, msg: &str) -> (r: AdminOutcome)
        requires
            old(self).wf(),
        ensures
            final(self).wf(),
            !old(self).cfg.admins@.contains(ucid) ==> r == AdminOutcome::Ignored
                && final(self).admin_queue@ == old(self).admin_queue@,
            old(self).cfg.admins@.contains(ucid) ==> match admin_spec(msg.spec_bytes()) {
                Err(e) => r == AdminOutcome::ParseError(e) && final(self).admin_queue@ == old(self).admin_queue@,
                Ok(v) => if v.0 == crate::commands::AdminKind::Help {
                    r == AdminOutcome::Help && final(self).admin_queue@ == old(self).admin_queue@
                } else {
                    &&& r == AdminOutcome::Queued
                    &&& final(self).admin_queue@.len() == old(self).admin_queue@.len() + 1
                    &&& final(self).admin_queue@.drop_last() == old(self).admin_queue@
                    &&& final(self).admin_queue@.last().0 == ucid
                    &&& parsed_view(Ok(final(self).admin_queue@.last().1)) == admin_spec(
                        msg.spec_bytes(),
                    )
                },
            },
    {
        if !self.cfg.is_admin(ucid) {
            return AdminOutcome::Ignored;
        }
        match parse_admin(msg) {
            Err(e) => AdminOutcome::ParseError(e),
            Ok(AdminCommand::Help) => AdminOutcome::Help,
            Ok(cmd) => {
                self.admin_queue.push((ucid, cmd));
                AdminOutcome::Queued
            },
        }
    }

    /// Takes the queued admin commands, oldest first, leaving the queue empty.
    pub fn take_admin_commands(&mut self) -> (r: Vec<(u64, AdminCommand)>)
        requires
            old(self).wf(),
        ensures
            final(self).wf(),
            r@ == old(self).admin_queue@,
            final(self).admin_queue@.len() == 0,
    {
        let mut q: Vec<(u64, AdminCommand)> = Vec::new();
        std::mem::swap(&mut q, &mut self.admin_queue);
        q
    }

    /// The lives report of a registered player at `now`: one line per configured life type, in
    /// configuration order, restricted to `filter` when given; `None` (and no change) for an
    /// unknown player. Reading applies the lazy reset: every reported pool whose window has
    /// elapsed is stored full, and the change is marked for the next snapshot.
    pub fn lives_report(&mut self, ucid: u64, filter: Option<u8>, now: i64) -> (r: Option<Vec<LifeLine>>)
        requires
            old(self).wf(),
        ensures
            final(self).wf(),
            final(self).cfg == old(self).cfg,
            final(self).flights == old(self).flights,
            final(self).objectives@ == old(self).objectives@,
            final(self).slot_players@ == old(self).slot_players@,
            !old(self).players.players@.contains_key(ucid) ==> r is None
                && final(self).players.players@ == old(self).players.players@
                && final(self).dirty == old(self).dirty,
            old(self).players.players@.contains_key(ucid) ==> {
                let lv = old(self).players.players@[ucid].lives@;
                let (stored, changed) = refresh_run(
                    lv,
                    old(self).cfg.life_rules@,
                    old(self).cfg.life_rules@,
                    filter,
                    now,
                );
                &&& r is Some
                &&& r->0@ == old(self).cfg.life_rules@.filter(
                    |e: (u8, LifeRule)| reported(filter, e),
                ).map_values(|e: (u8, LifeRule)| life_line(lv, e, now))
                &&& lives_replaced(
                    old(self).players.players@,
                    final(self).players.players@,
                    ucid,
                    stored,
                )
                &&& final(self).dirty == (old(self).dirty || changed)
            },
    {
        let lines = self.report_lines(ucid, filter, now);
        if lines.is_none() {
            return None;
        }
        let n = self.cfg.life_rules.len();
        let ghost lv = self.players.players@[ucid].lives@;
        let ghost start = self.players.players@;
        let mut changed = false;
        for i in 0..n
            invariant
                n == self.cfg.life_rules@.len(),
                self.wf(),
                self.cfg == old(self).cfg,
                self.flights == old(self).flights,
                self.objectives@ == old(self).objectives@,
                self.objective_ids == old(self).objective_ids,
                self.slot_players@ == old(self).slot_players@,
                self.dirty == old(self).dirty,
                start == old(self).players.players@,
                start.contains_key(ucid),
                lv == start[ucid].lives@,
                lives_replaced(
                    start,
                    self.players.players@,
                    ucid,
                    refresh_run(lv, self.cfg.life_rules@.take(i as int), self.cfg.life_rules@, filter, now).0,
                ),
                changed == refresh_run(
                    lv,
                    self.cfg.life_rules@.take(i as int),
                    self.cfg.life_rules@,
                    filter,
                    now,
                ).1,
        {
            let e = self.cfg.life_rules[i];
            let ghost rules = self.cfg.life_rules@;
            let ghost mid = self.players.players@;
            proof {
                assert(rules.take(i + 1).drop_last() =~= rules.take(i as int));
                assert(rules.take(i + 1).last() == e);
            }
            let wanted = match filter {
                Some(t) => t == e.0,
                None => true,
            };
            if wanted {
                match self.cfg.rule_for(e.0) {
                    Some(rule) => {
                        let ch = self.players.refresh_life(ucid, e.0, rule, now);
                        proof {
                            if mid[ucid].lives@.contains_key(e.0) {
                                let x = mid[ucid].lives@[e.0];
                                assert(x.remaining <= rule.max);
                                lemma_bounded_replaced(
                                    rules,
                                    mid,
                                    self.players.players@,
                                    ucid,
                                    e.0,
                                    refreshed(Some(x), rule, now),
                                );
                            }
                            lemma_replaced_trans(
                                start,
                                mid,
                                self.players.players@,
                                ucid,
                                self.players.players@[ucid].lives@,
                            );
                        }
                        changed = changed || ch;
                    },
                    None => {},
                }
            }
        }
        assert(self.cfg.life_rules@.take(n as int) =~= self.cfg.life_rules@);
        if changed {
            self.dirty = true;
        }
        lines
    }

    /// The report lines of `lives_report`, read from the pools as they are stored.
    fn report_lines(&self, ucid: u64, filter: Option<u8>, now: i64) -> (r: Option<Vec<LifeLine>>)
        ensures
            !self.players.players@.contains_key(ucid) ==> r is None,
            self.players.players@.contains_key(ucid) ==> r is Some && r->0@
                == self.cfg.life_rules@.filter(|e: (u8, LifeRule)| reported(filter, e)).map_values(
                |e: (u8, LifeRule)| life_line(self.players.players@[ucid].lives@, e, now),
            ),
    {
        let p = match self.players.players.get(&ucid) {
            Some(p) => p,
            None => {
                return None;
            },
        };
        let ghost lv = self.players.players@[ucid].lives@;
        let rules = &self.cfg.life_rules;
        let mut out: Vec<LifeLine> = Vec::new();
        let n = rules.len();
        for i in 0..n
            invariant
                n == rules@.len(),
                lv == p.lives@,
                out@ == rules@.take(i as int).filter(|e: (u8, LifeRule)| reported(filter, e)).map_values(
                    |e: (u8, LifeRule)| life_line(lv, e, now),
                ),
        {
            let e = rules[i];
            proof {
                assert(rules@.take(i + 1).drop_last() =~= rules@.take(i as int));
                reveal(Seq::filter);
            }
            let wanted = match filter {
                Some(t) => t == e.0,
                None => true,
            };
            if wanted {
                let cur = match p.lives.get(&e.0) {
                    Some(x) => Some(*x),
                    None => None,
                };
                let fresh = refresh(cur, e.1, now);
                let resets_in = match cur {
                    Some(_) => Some(fresh.last_reset as i128 + e.1.reset_after as i128 - now as i128),
                    None => None,
                };
                out.push(LifeLine { life_type: e.0, current: fresh.remaining, max: e.1.max, resets_in });
            }
            assert(out@ =~= rules@.take(i + 1).filter(|e: (u8, LifeRule)| reported(filter, e)).map_values(
                |e: (u8, LifeRule)| life_line(lv, e, now),
            ));
        }
        assert(rules@.take(n as int) =~= rules@);
        Some(out)
    }

    /// A player left: they no longer occupy a slot.
    pub fn player_disconnect(&mut self, ucid: u64)
        requires
            old(self).wf(),
        ensures
            final(self).wf(),
            !old(self).players.players@.contains_key(ucid) ==> final(self).players.players@ == old(self).players.players@,
            old(self).players.players@.contains_key(ucid) ==> final(self).dirty
                && final(self).players.players@ == old(self).players.players@.insert(
                ucid,
                Player { current_slot: None, ..old(self).players.players@[ucid] },
            ),
    {
        if self.players.players.contains_key(&ucid) {
            self.dirty = true;
        }
        let ghost before = self.players.players@;
        self.players.set_slot(ucid, None);
        proof {
            if before.contains_key(ucid) {
                lemma_bounded_same_lives(
                    self.cfg.life_rules@,
                    before,
                    ucid,
                    self.players.players@[ucid],
                );
            }
        }
    }
}

/// `new` is `old` with the inventory of `oid`, an objective named `name`, reduced by `amount`
/// in every category.
pub open spec fn reduced(
    old: Map<u64, Objective>,
    new: Map<u64, Objective>,
    oid: u64,
    name: Seq<u8>,
    amount: u32,
) -> bool {
    &&& old.contains_key(oid)
    &&& old[oid].name@ == name
    &&& new.dom() == old.dom()
    &&& forall|o: u64| o != oid && #[trigger] old.contains_key(o) ==> new[o] == old[o]
    &&& new[oid].name == old[oid].name
    &&& new[oid].owner == old[oid].owner
    &&& new[oid].inventory@.len() == old[oid].inventory@.len()
    &&& forall|i: int|
        0 <= i < old[oid].inventory@.len() ==> #[trigger] new[oid].inventory@[i] == sat_sub(
            old[oid].inventory@[i],
            amount,
        )
}

/// The steps that an admin command runs on the next tick: a logistics tick with a delivery from
/// the hubs, or one with a production delivery. Other commands run no logistics step.
pub fn admin_plan(cmd: &AdminCommand) -> (r: Vec<LogisticsStep>)
    ensures
        r@ == match cmd {
            AdminCommand::LogisticsTickNow => plan_of(Delivery::FromHubs),
            AdminCommand::LogisticsDeliverNow => plan_of(Delivery::Production),
            _ => Seq::<LogisticsStep>::empty(),
        },
{
    match cmd {
        AdminCommand::LogisticsTickNow => logistics_plan(Delivery::FromHubs),
        AdminCommand::LogisticsDeliverNow => logistics_plan(Delivery::Production),
        _ => Vec::new(),
    }
}

/// Every stored pool of every player has a rule in `rules` and is no larger than it.
pub open spec fn lives_bounded(rules: Seq<(u8, LifeRule)>, m: Map<u64, Player>) -> bool {
    forall|u: u64, t: u8|
        #![trigger m[u].lives@[t]]
        m.contains_key(u) && m[u].lives@.contains_key(t) ==> rule_of(rules, t) is Some
            && m[u].lives@[t].remaining <= rule_of(rules, t)->0.max
}

proof fn lemma_bounded_same_lives(rules: Seq<(u8, LifeRule)>, m: Map<u64, Player>, u: u64, p: Player)
    requires
        lives_bounded(rules, m),
        m.contains_key(u) ==> p.lives@ == m[u].lives@,
        !m.contains_key(u) ==> p.lives@ == Map::<u8, LifeEntry>::empty(),
    ensures
        lives_bounded(rules, m.insert(u, p)),
{
    let n = m.insert(u, p);
    assert forall|v: u64, t: u8| n.contains_key(v) && n[v].lives@.contains_key(t) implies rule_of(
        rules,
        t,
    ) is Some && n[v].lives@[t].remaining <= rule_of(rules, t)->0.max by {
        if v != u {
            assert(n[v] == m[v]);
            assert(m[v].lives@[t] == n[v].lives@[t]);
        } else {
            assert(m[u].lives@[t] == n[u].lives@[t]);
        }
    }
}

proof fn lemma_bounded_replaced(
    rules: Seq<(u8, LifeRule)>,
    old: Map<u64, Player>,
    new: Map<u64, Player>,
    u: u64,
    t: u8,
    e: LifeEntry,
)
    requires
        lives_bounded(rules, old),
        lives_replaced(old, new, u, old[u].lives@.insert(t, e)),
        rule_of(rules, t) is Some,
        e.remaining <= rule_of(rules, t)->0.max,
    ensures
        lives_bounded(rules, new),
{
    assert forall|v: u64, s: u8| new.contains_key(v) && new[v].lives@.contains_key(s) implies rule_of(
        rules,
        s,
    ) is Some && new[v].lives@[s].remaining <= rule_of(rules, s)->0.max by {
        if v != u {
            assert(old.contains_key(v));
            assert(new[v] == old[v]);
            assert(old[v].lives@[s] == new[v].lives@[s]);
        } else if s != t {
            assert(old[u].lives@[s] == new[u].lives@[s]);
        }
    }
}

/// The pools `lv` after the lazy reset of each pool that a report over the rules `s` covers is
/// stored, each by its type's rule in `rules`; and whether any stored pool changed that way.
pub open spec fn refresh_run(
    lv: Map<u8, LifeEntry>,
    s: Seq<(u8, LifeRule)>,
    rules: Seq<(u8, LifeRule)>,
    filter: Option<u8>,
    now: i64,
) -> (Map<u8, LifeEntry>, bool)
    decreases s.len(),
{
    if s.len() == 0 {
        (lv, false)
    } else {
        let (m, ch) = refresh_run(lv, s.drop_last(), rules, filter, now);
        let t = s.last().0;
        if reported(filter, s.last()) && m.contains_key(t) && rule_of(rules, t) is Some {
            let rule = rule_of(rules, t)->0;
            (
                m.insert(t, refreshed(Some(m[t]), rule, now)),
                ch || window_elapsed(m[t].last_reset, rule, now),
            )
        } else {
            (m, ch)
        }
    }
}

proof fn lemma_replaced_trans(
    a: Map<u64, Player>,
    b: Map<u64, Player>,
    c: Map<u64, Player>,
    u: u64,
    l: Map<u8, LifeEntry>,
)
    requires
        lives_replaced(a, b, u, b[u].lives@),
        lives_replaced(b, c, u, l) || b == c,
        c.contains_key(u),
        c[u].lives@ == l,
    ensures
        lives_replaced(a, c, u, l),
{
}

/// Lives of type `t` in the pools `lives` at `now` under `rule`.
pub open spec fn lives_at_of(lives: Map<u8, LifeEntry>, t: u8, rule: LifeRule, now: i64) -> u8 {
    crate::lives::lives_at(entry_of(lives, t), rule, now)
}

} // verus!

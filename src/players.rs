use vstd::prelude::*;
use std::collections::HashMap;
use crate::lives::{LifeEntry, LifeRule, lives_at, taken, returned, refreshed, window_elapsed, current_lives, take_life, return_life, refresh, reset_due};
use crate::side::Side;

verus! {

broadcast use vstd::std_specs::hash::group_hash_axioms;

/// A registered player, keyed in the store by a stable cross-session id.
#[derive(Clone)]
pub struct Player {
    pub name: String,
    pub side: Side,
    /// Side switches left; `None` when switching is unlimited.
    pub side_switches: Option<u8>,
    pub lives: HashMap<u8, LifeEntry>,
    pub current_slot: Option<u64>,
}

/// Why a registration changed nothing.
#[derive(Debug, Clone, Copy, PartialEq, Eq, Structural)]
pub enum RegErr {
    /// Players join blue or red; neutral is no side to join.
    NeutralSide,
    /// The player is already on the requested side.
    AlreadyOn(Side),
    /// The player is on another side: the switches left, then that side.
    AlreadyRegistered(Option<u8>, Side),
}

/// Why a side switch was refused.
#[derive(Debug, Clone, Copy, PartialEq, Eq, Structural)]
pub enum SwitchErr {
    /// Players switch to blue or red; neutral is no side to join.
    NeutralSide,
    NotRegistered,
    AlreadyOn(Side),
    NoSwitchesLeft,
}

/// The decision on a request to occupy a slot.
#[derive(Debug, Clone, Copy, PartialEq, Eq, Structural)]
pub enum SlotAuth {
    Yes,
    /// The player has no life of the slot's type left.
    NoLives,
    /// The slot's objective has no logistics and can still be captured.
    ObjectiveHasNoLogistics,
    /// The player has not joined the slot's side.
    NotRegistered(Side),
    /// The slot's side does not own the slot's objective.
    ObjectiveNotOwned(Side),
}

/// The pool of type `t` in a player's lives, if it was ever used.
pub open spec fn entry_of(lives: Map<u8, LifeEntry>, t: u8) -> Option<LifeEntry> {
    if lives.contains_key(t) {
        Some(lives[t])
    } else {
        None
    }
}

/// The slot decision, checked in order: registration on the slot's side, ownership of the
/// objective, its logistics, then lives.
pub open spec fn slot_auth_spec(
    player_side: Option<Side>,
    slot_side: Side,
    owner: Side,
    has_logistics: bool,
    lives: u8,
) -> SlotAuth {
    if player_side != Some(slot_side) {
        SlotAuth::NotRegistered(slot_side)
    } else if owner != slot_side {
        SlotAuth::ObjectiveNotOwned(slot_side)
    } else if !has_logistics {
        SlotAuth::ObjectiveHasNoLogistics
    } else if lives == 0 {
        SlotAuth::NoLives
    } else {
        SlotAuth::Yes
    }
}

/// Decides whether a player may occupy a slot.
pub fn slot_decision(
    player_side: Option<Side>,
    slot_side: Side,
    owner: Side,
    has_logistics: bool,
    lives: u8,
) -> (r: SlotAuth)
    ensures
        r == slot_auth_spec(player_side, slot_side, owner, has_logistics, lives),
{
    let registered = match player_side {
        Some(s) => s == slot_side,
        None => false,
    };
    if !registered {
        SlotAuth::NotRegistered(slot_side)
    } else if owner != slot_side {
        SlotAuth::ObjectiveNotOwned(slot_side)
    } else if !has_logistics {
        SlotAuth::ObjectiveHasNoLogistics
    } else if lives == 0 {
        SlotAuth::NoLives
    } else {
        SlotAuth::Yes
    }
}

/// Slot authorization law: occupancy is granted exactly when every precondition holds, and each
/// failed precondition, taken in order, yields its own decision.
pub proof fn slot_authorization_table(
    player_side: Option<Side>,
    slot_side: Side,
    owner: Side,
    has_logistics: bool,
    lives: u8,
)
    ensures
        slot_auth_spec(player_side, slot_side, owner, has_logistics, lives) == SlotAuth::Yes
            <==> (player_side == Some(slot_side) && owner == slot_side && has_logistics && lives
            > 0),
        player_side != Some(slot_side) ==> slot_auth_spec(
            player_side,
            slot_side,
            owner,
            has_logistics,
            lives,
        ) == SlotAuth::NotRegistered(slot_side),
        player_side == Some(slot_side) && owner != slot_side ==> slot_auth_spec(
            player_side,
            slot_side,
            owner,
            has_logistics,
            lives,
        ) == SlotAuth::ObjectiveNotOwned(slot_side),
        player_side == Some(slot_side) && owner == slot_side && !has_logistics ==> slot_auth_spec(
            player_side,
            slot_side,
            owner,
            has_logistics,
            lives,
        ) == SlotAuth::ObjectiveHasNoLogistics,
        player_side == Some(slot_side) && owner == slot_side && has_logistics && lives == 0
            ==> slot_auth_spec(player_side, slot_side, owner, has_logistics, lives)
            == SlotAuth::NoLives,
{
}

/// The outcome of a registration request on the players `m`.
pub open spec fn register_outcome(m: Map<u64, Player>, ucid: u64, side: Side) -> Result<(), RegErr> {
    if side == Side::Neutral {
        Err(RegErr::NeutralSide)
    } else if m.contains_key(ucid) {
        if m[ucid].side == side {
            Err(RegErr::AlreadyOn(side))
        } else {
            Err(RegErr::AlreadyRegistered(m[ucid].side_switches, m[ucid].side))
        }
    } else {
        Ok(())
    }
}

/// Registration law: once a player stands on a side, registering them to that side again reports
/// `AlreadyOn` (and `register_player` then leaves every player as it was).
pub proof fn registration_idempotent(m: Map<u64, Player>, ucid: u64, p: Player)
    requires
        p.side != Side::Neutral,
    ensures
        register_outcome(m.insert(ucid, p), ucid, p.side) == Err::<(), RegErr>(
            RegErr::AlreadyOn(p.side),
        ),
{
}

/// `new` is `old` with only player `ucid` changed, and in it only the life pools, now `lives`.
pub open spec fn lives_replaced(
    old: Map<u64, Player>,
    new: Map<u64, Player>,
    ucid: u64,
    lives: Map<u8, LifeEntry>,
) -> bool {
    &&& old.contains_key(ucid)
    &&& new.dom() == old.dom()
    &&& forall|u: u64| u != ucid && #[trigger] old.contains_key(u) ==> new[u] == old[u]
    &&& new[ucid].name == old[ucid].name
    &&& new[ucid].side == old[ucid].side
    &&& new[ucid].side_switches == old[ucid].side_switches
    &&& new[ucid].current_slot == old[ucid].current_slot
    &&& new[ucid].lives@ == lives
}

/// Side of a player, if registered.
pub open spec fn side_of(m: Map<u64, Player>, ucid: u64) -> Option<Side> {
    if m.contains_key(ucid) {
        Some(m[ucid].side)
    } else {
        None
    }
}

/// The registered players.
pub struct Players {
    pub players: HashMap<u64, Player>,
    /// Side switches granted to a new player; `None` for unlimited.
    pub max_side_switches: Option<u8>,
}

impl Players {
    pub fn new(max_side_switches: Option<u8>) -> (r: Players)
        ensures
            r.players@ == Map::<u64, Player>::empty(),
            r.max_side_switches == max_side_switches,
    {
        Players { players: HashMap::new(), max_side_switches }
    }

    /// Side of a registered player.
    pub fn side(&self, ucid: u64) -> (r: Option<Side>)
        ensures
            r == side_of(self.players@, ucid),
    {
        match self.players.get(&ucid) {
            Some(p) => Some(p.side),
            None => None,
        }
    }

    /// Registers a new player on a side. A player already on that side gets `AlreadyOn` and a
    /// player on the other side `AlreadyRegistered`; neither changes anything.
    pub fn register_player(&mut self, ucid: u64, name: String, side: Side) -> (r: Result<
        (),
        RegErr,
    >)
        ensures
            r == register_outcome(old(self).players@, ucid, side),
            final(self).max_side_switches == old(self).max_side_switches,
            r is Err ==> final(self).players@ == old(self).players@,
            r is Ok ==> final(self).players@ == old(self).players@.insert(
                ucid,
                Player {
                    name,
                    side,
                    side_switches: old(self).max_side_switches,
                    lives: final(self).players@[ucid].lives,
                    current_slot: None,
                },
            ) && final(self).players@[ucid].lives@ == Map::<u8, LifeEntry>::empty(),
    {
        if side == Side::Neutral {
            return Err(RegErr::NeutralSide);
        }
        match self.players.get(&ucid) {
            Some(p) => {
                if p.side == side {
                    Err(RegErr::AlreadyOn(side))
                } else {
                    Err(RegErr::AlreadyRegistered(p.side_switches, p.side))
                }
            },
            None => {
                let p = Player {
                    name,
                    side,
                    side_switches: self.max_side_switches,
                    lives: HashMap::new(),
                    current_slot: None,
                };
                self.players.insert(ucid, p);
                Ok(())
            },
        }
    }

    /// Moves a registered player to the other side, using up one of their switches.
    pub fn sideswitch_player(&mut self, ucid: u64, side: Side) -> (r: Result<(), SwitchErr>)
        ensures
            final(self).max_side_switches == old(self).max_side_switches,
            side == Side::Neutral ==> r == Err::<(), SwitchErr>(SwitchErr::NeutralSide),
            side != Side::Neutral && !old(self).players@.contains_key(ucid) ==> r == Err::<
                (),
                SwitchErr,
            >(SwitchErr::NotRegistered),
            side != Side::Neutral && old(self).players@.contains_key(ucid)
                && old(self).players@[ucid].side == side ==> r
                == Err::<(), SwitchErr>(SwitchErr::AlreadyOn(side)),
            side != Side::Neutral && old(self).players@.contains_key(ucid)
                && old(self).players@[ucid].side != side
                && old(self).players@[ucid].side_switches == Some(0u8) ==> r == Err::<
                (),
                SwitchErr,
            >(SwitchErr::NoSwitchesLeft),
            r is Err ==> final(self).players@ == old(self).players@,
            r is Ok <==> (side != Side::Neutral && old(self).players@.contains_key(ucid)
                && old(self).players@[ucid].side != side
                && old(self).players@[ucid].side_switches != Some(0u8)),
            r is Ok ==> {
                let p = old(self).players@[ucid];
                final(self).players@ == old(self).players@.insert(
                    ucid,
                    Player {
                        side,
                        side_switches: match p.side_switches {
                            Some(n) => Some((n - 1) as u8),
                            None => None,
                        },
                        ..p
                    },
                )
            },
    {
        if side == Side::Neutral {
            return Err(SwitchErr::NeutralSide);
        }
        match self.players.remove(&ucid) {
            None => Err(SwitchErr::NotRegistered),
            Some(p) => {
                if p.side == side {
                    self.players.insert(ucid, p);
                    Err(SwitchErr::AlreadyOn(side))
                } else {
                    match p.side_switches {
                        Some(0) => {
                            self.players.insert(ucid, p);
                            Err(SwitchErr::NoSwitchesLeft)
                        },
                        Some(n) => {
                            let q = Player { side, side_switches: Some(n - 1), ..p };
                            self.players.insert(ucid, q);
                            Ok(())
                        },
                        None => {
                            let q = Player { side, ..p };
                            self.players.insert(ucid, q);
                            Ok(())
                        },
                    }
                }
            },
        }
    }

    /// Lives of type `typ` that a registered player has at `now`.
    pub fn lives(&self, ucid: u64, typ: u8, rule: LifeRule, now: i64) -> (r: Option<u8>)
        ensures
            r == if self.players@.contains_key(ucid) {
                Some(lives_at(entry_of(self.players@[ucid].lives@, typ), rule, now))
            } else {
                None
            },
    {
        match self.players.get(&ucid) {
            Some(p) => {
                let e = match p.lives.get(&typ) {
                    Some(x) => Some(*x),
                    None => None,
                };
                Some(current_lives(e, rule, now))
            },
            None => None,
        }
    }

    /// Replaces one life pool of a registered player.
    fn set_life(&mut self, ucid: u64, typ: u8, e: LifeEntry)
        requires
            old(self).players@.contains_key(ucid),
        ensures
            final(self).max_side_switches == old(self).max_side_switches,
            lives_replaced(
                old(self).players@,
                final(self).players@,
                ucid,
                old(self).players@[ucid].lives@.insert(typ, e),
            ),
    {
        let ghost before = self.players@;
        let mut p = self.players.remove(&ucid).unwrap();
        p.lives.insert(typ, e);
        self.players.insert(ucid, p);
        assert(self.players@.dom() =~= before.dom());
    }

    /// Stores the lazy reset of pool `typ` of player `ucid` at `now`: a used pool whose window
    /// has elapsed is written back full. Returns whether the stored pool changed that way.
    /// Unknown players and unused pools are left alone.
    pub fn refresh_life(&mut self, ucid: u64, typ: u8, rule: LifeRule, now: i64) -> (changed: bool)
        ensures
            final(self).max_side_switches == old(self).max_side_switches,
            !(old(self).players@.contains_key(ucid) && old(self).players@[ucid].lives@.contains_key(
                typ,
            )) ==> !changed && final(self).players@ == old(self).players@,
            old(self).players@.contains_key(ucid) && old(self).players@[ucid].lives@.contains_key(
                typ,
            ) ==> {
                let lv = old(self).players@[ucid].lives@;
                &&& changed == window_elapsed(lv[typ].last_reset, rule, now)
                &&& lives_replaced(
                    old(self).players@,
                    final(self).players@,
                    ucid,
                    lv.insert(typ, refreshed(Some(lv[typ]), rule, now)),
                )
            },
    {
        let cur = match self.players.get(&ucid) {
            Some(p) => match p.lives.get(&typ) {
                Some(x) => *x,
                None => {
                    return false;
                },
            },
            None => {
                return false;
            },
        };
        let changed = reset_due(cur.last_reset, rule, now);
        let e = refresh(Some(cur), rule, now);
        self.set_life(ucid, typ, e);
        changed
    }

    /// Consumes a life of type `typ` at `now`; returns the lives left, or `None` (and changes
    /// nothing) when the player is unknown or has none left.
    pub fn consume_life(&mut self, ucid: u64, typ: u8, rule: LifeRule, now: i64) -> (r: Option<u8>)
        ensures
            final(self).max_side_switches == old(self).max_side_switches,
            !old(self).players@.contains_key(ucid) ==> r is None && final(self).players@ == old(
                self,
            ).players@,
            old(self).players@.contains_key(ucid) ==> {
                let lv = old(self).players@[ucid].lives@;
                match taken(entry_of(lv, typ), rule, now) {
                    None => r is None && final(self).players@ == old(self).players@,
                    Some(e) => r == Some(e.remaining) && lives_replaced(
                        old(self).players@,
                        final(self).players@,
                        ucid,
                        lv.insert(typ, e),
                    ),
                }
            },
    {
        let cur = match self.players.get(&ucid) {
            Some(p) => match p.lives.get(&typ) {
                Some(x) => Some(*x),
                None => None,
            },
            None => {
                return None;
            },
        };
        match take_life(cur, rule, now) {
            None => None,
            Some(e) => {
                self.set_life(ucid, typ, e);
                Some(e.remaining)
            },
        }
    }

    /// Credits a life of type `typ` back at `now`; returns the lives held afterwards, or `None`
    /// (and changes nothing) when the player is unknown.
    pub fn credit_life(&mut self, ucid: u64, typ: u8, rule: LifeRule, now: i64) -> (r: Option<u8>)
        ensures
            final(self).max_side_switches == old(self).max_side_switches,
            !old(self).players@.contains_key(ucid) ==> r is None && final(self).players@ == old(
                self,
            ).players@,
            old(self).players@.contains_key(ucid) ==> {
                let lv = old(self).players@[ucid].lives@;
                let e = returned(entry_of(lv, typ), rule, now);
                r == Some(e.remaining) && lives_replaced(
                    old(self).players@,
                    final(self).players@,
                    ucid,
                    lv.insert(typ, e),
                )
            },
    {
        let cur = match self.players.get(&ucid) {
            Some(p) => match p.lives.get(&typ) {
                Some(x) => Some(*x),
                None => None,
            },
            None => {
                return None;
            },
        };
        let e = return_life(cur, rule, now);
        self.set_life(ucid, typ, e);
        Some(e.remaining)
    }

    /// Sets or clears the slot a registered player occupies; unknown players are left alone.
    pub fn set_slot(&mut self, ucid: u64, slot: Option<u64>)
        ensures
            final(self).max_side_switches == old(self).max_side_switches,
            !old(self).players@.contains_key(ucid) ==> final(self).players@ == old(self).players@,
            old(self).players@.contains_key(ucid) ==> final(self).players@ == old(
                self,
            ).players@.insert(ucid, Player { current_slot: slot, ..old(self).players@[ucid] }),
    {
        match self.players.remove(&ucid) {
            None => {},
            Some(p) => {
                let q = Player { current_slot: slot, ..p };
                self.players.insert(ucid, q);
            },
        }
    }

    /// Decides whether player `ucid` may occupy `slot`, a slot of `slot_side` whose objective
    /// is owned by `owner` and uses lives of type `typ`. On `Yes` the player is recorded in the
    /// slot; otherwise nothing changes.
    pub fn try_occupy_slot(
        &mut self,
        now: i64,
        ucid: u64,
        slot: u64,
        slot_side: Side,
        owner: Side,
        has_logistics: bool,
        typ: u8,
        rule: LifeRule,
    ) -> (r: SlotAuth)
        ensures
            final(self).max_side_switches == old(self).max_side_switches,
            r == slot_auth_spec(
                side_of(old(self).players@, ucid),
                slot_side,
                owner,
                has_logistics,
                if old(self).players@.contains_key(ucid) {
                    lives_at(entry_of(old(self).players@[ucid].lives@, typ), rule, now)
                } else {
                    0
                },
            ),
            r != SlotAuth::Yes ==> final(self).players@ == old(self).players@,
            r == SlotAuth::Yes ==> final(self).players@ == old(self).players@.insert(
                ucid,
                Player { current_slot: Some(slot), ..old(self).players@[ucid] },
            ),
    {
        let side = self.side(ucid);
        let lives = match self.lives(ucid, typ, rule, now) {
            Some(n) => n,
            None => 0,
        };
        let r = slot_decision(side, slot_side, owner, has_logistics, lives);
        if r == SlotAuth::Yes {
            self.set_slot(ucid, Some(slot));
        }
        r
    }
}

} // verus!

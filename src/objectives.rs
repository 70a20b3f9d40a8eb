use vstd::prelude::*;
use crate::side::Side;

verus! {

/// A territorial control point.
#[derive(Clone)]
pub struct Objective {
    pub name: Vec<u8>,
    pub owner: Side,
    /// Whether the objective is linked to the logistics network.
    pub has_logistics: bool,
    pub threatened: bool,
    /// Stored amount of each resource category.
    pub inventory: Vec<u32>,
}

/// `a - b`, or zero where `b` is larger: inventories never go negative.
pub open spec fn sat_sub(a: u32, b: u32) -> u32 {
    if a >= b {
        (a - b) as u32
    } else {
        0
    }
}

/// A change of an objective's threat state, announced to its owner only.
#[derive(Debug, Clone, Copy, PartialEq, Eq, Structural)]
pub enum ThreatChange {
    Threatened(Side),
    Cleared(Side),
}

impl Objective {
    /// Takes `amount` from every category of the inventory, stopping at zero.
    pub fn reduce_inventory(&mut self, amount: u32)
        ensures
            final(self).name == old(self).name,
            final(self).owner == old(self).owner,
            final(self).has_logistics == old(self).has_logistics,
            final(self).threatened == old(self).threatened,
            final(self).inventory@.len() == old(self).inventory@.len(),
            forall|i: int|
                0 <= i < old(self).inventory@.len() ==> #[trigger] final(self).inventory@[i]
                    == sat_sub(old(self).inventory@[i], amount),
    {
        let n = self.inventory.len();
        for i in 0..n
            invariant
                n == self.inventory@.len(),
                n == old(self).inventory@.len(),
                self.name == old(self).name,
                self.owner == old(self).owner,
                self.has_logistics == old(self).has_logistics,
                self.threatened == old(self).threatened,
                forall|k: int|
                    0 <= k < i ==> #[trigger] self.inventory@[k] == sat_sub(
                        old(self).inventory@[k],
                        amount,
                    ),
                forall|k: int| i <= k < n ==> #[trigger] self.inventory@[k] == old(self).inventory@[k],
        {
            let v = self.inventory[i];
            let r = if v >= amount {
                v - amount
            } else {
                0
            };
            self.inventory.set(i, r);
        }
    }

    /// Records the threat state seen on this slow tick; returns the change to announce, if any.
    pub fn update_threat(&mut self, threatened: bool) -> (r: Option<ThreatChange>)
        ensures
            final(self).threatened == threatened,
            final(self).name == old(self).name,
            final(self).owner == old(self).owner,
            final(self).has_logistics == old(self).has_logistics,
            final(self).inventory == old(self).inventory,
            r == if threatened == old(self).threatened {
                None
            } else if threatened {
                Some(ThreatChange::Threatened(old(self).owner))
            } else {
                Some(ThreatChange::Cleared(old(self).owner))
            },
    {
        if threatened == self.threatened {
            None
        } else {
            self.threatened = threatened;
            if threatened {
                Some(ThreatChange::Threatened(self.owner))
            } else {
                Some(ThreatChange::Cleared(self.owner))
            }
        }
    }
}

/// Whether two names are the same bytes.
pub fn same_name(a: &Vec<u8>, b: &Vec<u8>) -> (r: bool)
    ensures
        r == (a@ == b@),
{
    if a.len() != b.len() {
        return false;
    }
    let n = a.len();
    for i in 0..n
        invariant
            n == a@.len(),
            n == b@.len(),
            forall|k: int| 0 <= k < i ==> a@[k] == b@[k],
    {
        if a[i] != b[i] {
            return false;
        }
    }
    assert(a@ =~= b@);
    true
}

} // verus!

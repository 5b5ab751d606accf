//! The player's currency.
use vstd::prelude::*;

use crate::grid::GridCoords;

verus! {

/// The gems the player holds. The balance is never negative: spending more
/// than it holds is refused, not clamped.
#[derive(Debug, Clone, Copy, PartialEq, Eq, Structural)]
pub struct Wallet {
    pub gems: usize,
}

impl Wallet {
    /// An empty wallet.
    pub fn new() -> (r: Wallet)
        ensures
            r.gems == 0,
    {
        Wallet { gems: 0 }
    }

    /// Adds picked-up gems; the balance stops at the largest `usize`.
    pub fn pickup_currency(&mut self, amount: usize)
        ensures
            final(self).gems == if old(self).gems + amount <= usize::MAX {
                old(self).gems + amount
            } else {
                usize::MAX as int
            },
    {
        self.gems = self.gems.saturating_add(amount);
    }
}

/// The indices of the gems lying on the player's cell, in increasing order.
pub fn gems_at(player: GridCoords, gems: &Vec<GridCoords>) -> (r: Vec<usize>)
    ensures
        forall|k: int| 0 <= k < r@.len() ==> (#[trigger] r@[k]) < gems@.len() && gems@[r@[k] as int] == player,
        forall|j: int| 0 <= j < gems@.len() && gems@[j] == player ==> r@.contains(j as usize),
        forall|a: int, b: int| 0 <= a < b < r@.len() ==> r@[a] < r@[b],
{
    let mut r: Vec<usize> = Vec::new();
    let mut i: usize = 0;
    while i < gems.len()
        invariant
            i <= gems@.len(),
            forall|k: int| 0 <= k < r@.len() ==> (#[trigger] r@[k]) < i && gems@[r@[k] as int] == player,
            forall|j: int| 0 <= j < i && gems@[j] == player ==> r@.contains(j as usize),
            forall|a: int, b: int| 0 <= a < b < r@.len() ==> r@[a] < r@[b],
        decreases gems@.len() - i,
    {
        if gems[i] == player {
            let ghost before = r@;
            r.push(i);
            proof {
                assert(r@[r@.len() - 1] == i);
                assert forall|j: int| 0 <= j < i + 1 && gems@[j] == player implies r@.contains(j as usize) by {
                    if j < i {
                        let k = choose|k: int| 0 <= k < before.len() && before[k] == j as usize;
                        assert(r@[k] == j as usize);
                    } else {
                        assert(r@[r@.len() - 1] == j as usize);
                    }
                }
            }
        }
        i = i + 1;
    }
    r
}

} // verus!

use vstd::prelude::*;
use crate::dice::{DiceRolls, DieRoll};

verus! {

/// Relies on fastrand::usize: for the range `..bound`, a number below `bound`.
/// It panics on an empty range, which `bound > 0` rules out.
#[verifier::external_body]
fn random_below(bound: usize) -> (r: usize)
    requires
        bound > 0,
    ensures
        r < bound,
{
    fastrand::usize(..bound)
}

/// One die thrown.
pub fn roll_die() -> (r: DieRoll) {
    DieRoll::from_index(random_below(6))
}

/// Five dice thrown.
pub fn roll_dice() -> (r: DiceRolls) {
    [roll_die(), roll_die(), roll_die(), roll_die(), roll_die()]
}

/// Throws again the dice at the positions in `selection`; the others keep
/// their faces.
pub fn reroll(dice: &mut DiceRolls, selection: &Vec<usize>)
    requires
        forall|k: int| 0 <= k < selection@.len() ==> #[trigger] selection@[k] < 5,
    ensures
        forall|p: int|
            0 <= p < 5 && !selection@.contains(p as usize) ==> #[trigger] final(dice)@[p] == old(dice)@[p],
{
    let mut k: usize = 0;
    while k < selection.len()
        invariant
            0 <= k <= selection@.len(),
            forall|j: int| 0 <= j < selection@.len() ==> #[trigger] selection@[j] < 5,
            forall|p: int|
                0 <= p < 5 && !selection@.subrange(0, k as int).contains(p as usize) ==> #[trigger] dice@[p] == old(dice)@[p],
        decreases selection@.len() - k,
    {
        let p = selection[k];
        dice[p] = roll_die();
        assert forall|q: int|
            0 <= q < 5 && !selection@.subrange(0, k + 1).contains(q as usize) implies #[trigger] dice@[q] == old(dice)@[q] by {
            assert(selection@.subrange(0, k + 1)[k as int] == p);
            if !selection@.subrange(0, k as int).contains(q as usize) {
            } else {
                let j = choose|j: int| 0 <= j < k && selection@.subrange(0, k as int)[j] == q as usize;
                assert(selection@.subrange(0, k + 1)[j] == q as usize);
            }
        }
        k = k + 1;
    }
    assert(selection@.subrange(0, k as int) =~= selection@);
}

} // verus!

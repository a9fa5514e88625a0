use vstd::prelude::*;
use crate::dice::{DiceCounts, DieRoll};

verus! {

/// A box of the score card. Each upper box counts one face; the lower boxes
/// score shapes of the hand.
#[derive(Clone, Copy, PartialEq, Eq, Structural, Debug)]
pub enum Combination {
    Upper(DieRoll),
    Triple,
    Quadruple,
    Quintuple,
    SmallStraight,
    LargeStraight,
    Chance,
    FullHouse,
}

impl Combination {
    /// The position of the box on the card: the upper boxes by face, then the
    /// lower boxes in the order of `all_combinations`.
    pub open spec fn ordinal(self) -> nat {
        match self {
            Combination::Upper(d) => (d.pips() - 1) as nat,
            Combination::Triple => 6,
            Combination::Quadruple => 7,
            Combination::SmallStraight => 8,
            Combination::LargeStraight => 9,
            Combination::FullHouse => 10,
            Combination::Quintuple => 11,
            Combination::Chance => 12,
        }
    }

    /// The box at position `i` of `all_combinations`.
    pub fn from_ordinal(i: usize) -> (r: Combination)
        requires
            i < COMBINATION_COUNT,
        ensures
            r == all_combinations()[i as int],
    {
        if i < 6 {
            Combination::Upper(DieRoll::from_index(i))
        } else if i == 6 {
            Combination::Triple
        } else if i == 7 {
            Combination::Quadruple
        } else if i == 8 {
            Combination::SmallStraight
        } else if i == 9 {
            Combination::LargeStraight
        } else if i == 10 {
            Combination::FullHouse
        } else if i == 11 {
            Combination::Quintuple
        } else {
            Combination::Chance
        }
    }
}

/// The number of boxes on a card.
pub const COMBINATION_COUNT: usize = 13;

/// Every box of the card, upper boxes first.
pub open spec fn all_combinations() -> Seq<Combination> {
    seq![
        Combination::Upper(DieRoll::One),
        Combination::Upper(DieRoll::Two),
        Combination::Upper(DieRoll::Three),
        Combination::Upper(DieRoll::Four),
        Combination::Upper(DieRoll::Five),
        Combination::Upper(DieRoll::Six),
        Combination::Triple,
        Combination::Quadruple,
        Combination::SmallStraight,
        Combination::LargeStraight,
        Combination::FullHouse,
        Combination::Quintuple,
        Combination::Chance,
    ]
}

/// What the hand tallied in `counts` scores in box `c`.
pub open spec fn combination_value(counts: DiceCounts, c: Combination) -> nat {
    match c {
        Combination::Upper(d) => counts.count(d) * d.pips(),
        Combination::Triple => if counts.spec_has_tuple(3) { counts.spec_sum() } else { 0 },
        Combination::Quadruple => if counts.spec_has_tuple(4) { counts.spec_sum() } else { 0 },
        Combination::Quintuple => if counts.spec_has_tuple(5) { 50 } else { 0 },
        Combination::SmallStraight => if counts.spec_has_small_straight() { 30 } else { 0 },
        Combination::LargeStraight => if counts.spec_has_large_straight() { 40 } else { 0 },
        Combination::FullHouse => if counts.spec_has_fullhouse() { 25 } else { 0 },
        Combination::Chance => counts.spec_sum(),
    }
}

/// A box together with a value to write into it.
#[derive(Clone, Copy, PartialEq, Eq, Structural, Debug)]
pub struct ValuedCombination {
    pub combination: Combination,
    pub value: u16,
}

/// What one hand would score in each box of the card.
#[derive(Debug)]
pub struct PotentialValues {
    pub upper: DiceCounts,
    pub triple: u16,
    pub quadruple: u16,
    pub quintuple: u16,
    pub small_straight: u16,
    pub large_straight: u16,
    pub full_house: u16,
    pub chance: u16,
}

impl PotentialValues {
    /// The score held for box `c`.
    pub open spec fn value(self, c: Combination) -> nat {
        match c {
            Combination::Upper(d) => self.upper.count(d),
            Combination::Triple => self.triple as nat,
            Combination::Quadruple => self.quadruple as nat,
            Combination::Quintuple => self.quintuple as nat,
            Combination::SmallStraight => self.small_straight as nat,
            Combination::LargeStraight => self.large_straight as nat,
            Combination::Chance => self.chance as nat,
            Combination::FullHouse => self.full_house as nat,
        }
    }

    /// Scores the hand tallied in `counts` in every box.
    pub fn new(counts: DiceCounts) -> (r: PotentialValues)
        requires
            counts.spec_sum() <= u16::MAX,
        ensures
            forall|c: Combination| #[trigger] r.value(c) == combination_value(counts, c),
    {
        assert forall|f: DieRoll| #[trigger] counts.count(f) * f.pips() <= u16::MAX by {
            assert(counts.count(f) * f.pips() <= counts.spec_sum());
        }
        let sum = counts.sum();
        let r = PotentialValues {
            upper: counts.times_die_values(),
            triple: if counts.has_tuple(3) { sum } else { 0 },
            quadruple: if counts.has_tuple(4) { sum } else { 0 },
            quintuple: if counts.has_tuple(5) { 50 } else { 0 },
            chance: sum,
            small_straight: if counts.has_small_straight() { 30 } else { 0 },
            large_straight: if counts.has_large_straight() { 40 } else { 0 },
            full_house: if counts.has_fullhouse() { 25 } else { 0 },
        };
        assert forall|c: Combination| #[trigger] r.value(c) == combination_value(counts, c) by {
            if let Combination::Upper(d) = c {
                assert(r.upper.count(d) == counts.count(d) * d.pips());
            }
        }
        r
    }

    /// The score held for box `c`.
    pub fn index(&self, c: Combination) -> (r: u16)
        ensures
            r == self.value(c),
    {
        match c {
            Combination::Upper(d) => self.upper.index(d),
            Combination::Triple => self.triple,
            Combination::Quadruple => self.quadruple,
            Combination::Quintuple => self.quintuple,
            Combination::SmallStraight => self.small_straight,
            Combination::LargeStraight => self.large_straight,
            Combination::Chance => self.chance,
            Combination::FullHouse => self.full_house,
        }
    }

    /// Every box of the card with what this hand scores in it, in the order of
    /// `all_combinations`.
    pub fn valued_combinations(&self) -> (r: Vec<ValuedCombination>)
        ensures
            r@.len() == COMBINATION_COUNT,
            forall|i: int|
                0 <= i < COMBINATION_COUNT ==> #[trigger] r@[i] == (ValuedCombination {
                    combination: all_combinations()[i],
                    value: self.value(all_combinations()[i]) as u16,
                }),
    {
        let mut r: Vec<ValuedCombination> = Vec::new();
        let mut i: usize = 0;
        while i < COMBINATION_COUNT
            invariant
                0 <= i <= COMBINATION_COUNT,
                r@.len() == i,
                forall|k: int|
                    0 <= k < i ==> #[trigger] r@[k] == (ValuedCombination {
                        combination: all_combinations()[k],
                        value: self.value(all_combinations()[k]) as u16,
                    }),
            decreases COMBINATION_COUNT - i,
        {
            let combination = Combination::from_ordinal(i);
            r.push(ValuedCombination { combination, value: self.index(combination) });
            i = i + 1;
        }
        r
    }
}

} // verus!

use vstd::prelude::*;

verus! {

/// One face of a six-sided die, ordered by the number of pips it shows.
#[derive(Clone, Copy, PartialEq, Eq, Structural, PartialOrd, Ord, Debug)]
pub enum DieRoll {
    One,
    Two,
    Three,
    Four,
    Five,
    Six,
}

/// Five dice: the hand a player scores.
pub type DiceRolls = [DieRoll; 5];

impl DieRoll {
    /// The number of pips shown, from 1 to 6.
    pub open spec fn pips(self) -> nat {
        match self {
            DieRoll::One => 1,
            DieRoll::Two => 2,
            DieRoll::Three => 3,
            DieRoll::Four => 4,
            DieRoll::Five => 5,
            DieRoll::Six => 6,
        }
    }

    /// The number of pips shown.
    pub fn value(self) -> (r: u16)
        ensures
            r == self.pips(),
    {
        match self {
            DieRoll::One => 1,
            DieRoll::Two => 2,
            DieRoll::Three => 3,
            DieRoll::Four => 4,
            DieRoll::Five => 5,
            DieRoll::Six => 6,
        }
    }

    /// The face at position `i` of `One, Two, ..., Six`.
    pub fn from_index(i: usize) -> (r: DieRoll)
        requires
            i < 6,
        ensures
            r.pips() == i + 1,
    {
        if i == 0 {
            DieRoll::One
        } else if i == 1 {
            DieRoll::Two
        } else if i == 2 {
            DieRoll::Three
        } else if i == 3 {
            DieRoll::Four
        } else if i == 4 {
            DieRoll::Five
        } else {
            DieRoll::Six
        }
    }
}

/// How many of the dice in `s` show face `f`.
pub open spec fn occurrences(s: Seq<DieRoll>, f: DieRoll) -> nat
    decreases s.len(),
{
    if s.len() == 0 {
        0
    } else {
        occurrences(s.drop_last(), f) + if s.last() == f { 1nat } else { 0nat }
    }
}

proof fn lemma_occurrences_push(s: Seq<DieRoll>, d: DieRoll, f: DieRoll)
    ensures
        occurrences(s.push(d), f) == occurrences(s, f) + if d == f { 1nat } else { 0nat },
{
    assert(s.push(d).drop_last() =~= s);
}

proof fn lemma_tally_push(before: DiceCounts, after: DiceCounts, seen: Seq<DieRoll>, d: DieRoll)
    requires
        before.tallies(seen),
        forall|f: DieRoll| #[trigger] after.count(f) == before.count(f) + if f == d { 1nat } else { 0nat },
    ensures
        after.tallies(seen.push(d)),
{
    assert forall|f: DieRoll| #[trigger] after.count(f) == occurrences(seen.push(d), f) by {
        lemma_occurrences_push(seen, d, f);
        assert(before.count(f) == occurrences(seen, f));
    }
}

/// Counts the pips of `s` face by face.
pub open spec fn pips_by_face(s: Seq<DieRoll>) -> nat {
    occurrences(s, DieRoll::One) * 1 + occurrences(s, DieRoll::Two) * 2 + occurrences(s, DieRoll::Three) * 3
        + occurrences(s, DieRoll::Four) * 4 + occurrences(s, DieRoll::Five) * 5
        + occurrences(s, DieRoll::Six) * 6
}

proof fn lemma_pips_by_face(s: Seq<DieRoll>)
    ensures
        pips_by_face(s) == pip_total(s),
    decreases s.len(),
{
    if s.len() > 0 {
        let init = s.drop_last();
        lemma_pips_by_face(init);
        assert(init.push(s.last()) =~= s);
        lemma_occurrences_push(init, s.last(), DieRoll::One);
        lemma_occurrences_push(init, s.last(), DieRoll::Two);
        lemma_occurrences_push(init, s.last(), DieRoll::Three);
        lemma_occurrences_push(init, s.last(), DieRoll::Four);
        lemma_occurrences_push(init, s.last(), DieRoll::Five);
        lemma_occurrences_push(init, s.last(), DieRoll::Six);
    }
}

/// The sum that a tally reports is the total of the pips of the hand it was
/// counted from.
pub proof fn tally_sum_is_pip_total(hand: Seq<DieRoll>, counts: DiceCounts)
    requires
        hand.len() == 5,
        counts.tallies(hand),
    ensures
        counts.spec_sum() == pip_total(hand),
{
    lemma_pips_by_face(hand);
    assert(counts.count(DieRoll::One) == occurrences(hand, DieRoll::One));
    assert(counts.count(DieRoll::Two) == occurrences(hand, DieRoll::Two));
    assert(counts.count(DieRoll::Three) == occurrences(hand, DieRoll::Three));
    assert(counts.count(DieRoll::Four) == occurrences(hand, DieRoll::Four));
    assert(counts.count(DieRoll::Five) == occurrences(hand, DieRoll::Five));
    assert(counts.count(DieRoll::Six) == occurrences(hand, DieRoll::Six));
}

/// What the six faces are worth in the upper section adds up to the sum of
/// the tally of the hand.
pub proof fn face_values_add_up_to_sum(hand: Seq<DieRoll>, counts: DiceCounts, values: DiceCounts)
    requires
        hand.len() == 5,
        counts.tallies(hand),
        values.weighs(counts),
    ensures
        values.total() == counts.spec_sum(),
{
    assert(values.count(DieRoll::One) == counts.count(DieRoll::One) * 1);
    assert(values.count(DieRoll::Two) == counts.count(DieRoll::Two) * 2);
    assert(values.count(DieRoll::Three) == counts.count(DieRoll::Three) * 3);
    assert(values.count(DieRoll::Four) == counts.count(DieRoll::Four) * 4);
    assert(values.count(DieRoll::Five) == counts.count(DieRoll::Five) * 5);
    assert(values.count(DieRoll::Six) == counts.count(DieRoll::Six) * 6);
}

/// The total number of pips shown by the dice in `s`.
pub open spec fn pip_total(s: Seq<DieRoll>) -> nat
    decreases s.len(),
{
    if s.len() == 0 {
        0
    } else {
        pip_total(s.drop_last()) + s.last().pips()
    }
}

/// A number attached to each face: how many dice show it, or what it is
/// worth in the upper section of the card.
#[derive(Debug)]
pub struct DiceCounts {
    pub ones: u16,
    pub twos: u16,
    pub threes: u16,
    pub fours: u16,
    pub fives: u16,
    pub sixes: u16,
}

impl DiceCounts {
    /// The number attached to face `f`.
    pub open spec fn count(self, f: DieRoll) -> nat {
        match f {
            DieRoll::One => self.ones as nat,
            DieRoll::Two => self.twos as nat,
            DieRoll::Three => self.threes as nat,
            DieRoll::Four => self.fours as nat,
            DieRoll::Five => self.fives as nat,
            DieRoll::Six => self.sixes as nat,
        }
    }

    /// Each face is attached the number of dice of `hand` that show it.
    pub open spec fn tallies(self, hand: Seq<DieRoll>) -> bool {
        forall|f: DieRoll| #[trigger] self.count(f) == occurrences(hand, f)
    }

    /// The sum of the numbers attached to the six faces.
    pub open spec fn total(self) -> nat {
        self.count(DieRoll::One) + self.count(DieRoll::Two) + self.count(DieRoll::Three)
            + self.count(DieRoll::Four) + self.count(DieRoll::Five) + self.count(DieRoll::Six)
    }

    /// The pips over all dice: each face's count times its pips.
    pub open spec fn spec_sum(self) -> nat {
        self.count(DieRoll::One) * 1 + self.count(DieRoll::Two) * 2 + self.count(DieRoll::Three) * 3
            + self.count(DieRoll::Four) * 4 + self.count(DieRoll::Five) * 5
            + self.count(DieRoll::Six) * 6
    }

    /// Each face's count is worth its count times its pips.
    pub open spec fn weighs(self, counts: DiceCounts) -> bool {
        forall|f: DieRoll| #[trigger] self.count(f) == counts.count(f) * f.pips()
    }

    /// Some face shows on at least `n` dice.
    pub open spec fn spec_has_tuple(self, n: nat) -> bool {
        exists|f: DieRoll| #[trigger] self.count(f) >= n
    }

    /// Some face shows on exactly two dice, and some face on exactly three.
    pub open spec fn spec_has_fullhouse(self) -> bool {
        &&& exists|f: DieRoll| #[trigger] self.count(f) == 2
        &&& exists|f: DieRoll| #[trigger] self.count(f) == 3
    }

    /// Every face in `faces` shows on at least one die.
    pub open spec fn covers(self, faces: Seq<DieRoll>) -> bool {
        forall|i: int| 0 <= i < faces.len() ==> self.count(#[trigger] faces[i]) > 0
    }

    /// Each of the `len` consecutive faces from `low` pips up shows on some die.
    pub open spec fn has_run(self, low: nat, len: nat) -> bool {
        forall|f: DieRoll| low <= f.pips() < low + len ==> #[trigger] self.count(f) > 0
    }

    /// Four consecutive faces show.
    pub open spec fn spec_has_small_straight(self) -> bool {
        self.has_run(1, 4) || self.has_run(2, 4) || self.has_run(3, 4)
    }

    /// Five consecutive faces show.
    pub open spec fn spec_has_large_straight(self) -> bool {
        self.has_run(1, 5) || self.has_run(2, 5)
    }
}

impl DiceCounts {
    /// Counts how many of the five dice show each face.
    pub fn new(dice: DiceRolls) -> (r: DiceCounts)
        ensures
            r.tallies(dice@),
            r.total() == 5,
    {
        let mut r = DiceCounts { ones: 0, twos: 0, threes: 0, fours: 0, fives: 0, sixes: 0 };
        let mut i: usize = 0;
        while i < 5
            invariant
                0 <= i <= 5,
                r.tallies(dice@.subrange(0, i as int)),
                r.total() == i,
            decreases 5 - i,
        {
            let ghost before = r;
            let die = dice[i];
            r.add_one(die);
            proof {
                let seen = dice@.subrange(0, i as int);
                assert(dice@.subrange(0, i + 1) =~= seen.push(die));
                lemma_tally_push(before, r, seen, die);
            }
            i = i + 1;
        }
        assert(dice@.subrange(0, 5) =~= dice@);
        r
    }

    /// Adds one to the number attached to `die`.
    fn add_one(&mut self, die: DieRoll)
        requires
            old(self).total() < 5,
        ensures
            forall|f: DieRoll| #[trigger] final(self).count(f) == old(self).count(f) + if f == die { 1nat } else { 0nat },
            final(self).total() == old(self).total() + 1,
    {
        match die {
            DieRoll::One => self.ones = self.ones + 1,
            DieRoll::Two => self.twos = self.twos + 1,
            DieRoll::Three => self.threes = self.threes + 1,
            DieRoll::Four => self.fours = self.fours + 1,
            DieRoll::Five => self.fives = self.fives + 1,
            DieRoll::Six => self.sixes = self.sixes + 1,
        }
    }

    /// The number attached to face `die`.
    pub fn index(&self, die: DieRoll) -> (r: u16)
        ensures
            r == self.count(die),
    {
        match die {
            DieRoll::One => self.ones,
            DieRoll::Two => self.twos,
            DieRoll::Three => self.threes,
            DieRoll::Four => self.fours,
            DieRoll::Five => self.fives,
            DieRoll::Six => self.sixes,
        }
    }

    /// The pips shown over all dice.
    pub fn sum(&self) -> (r: u16)
        requires
            self.spec_sum() <= u16::MAX,
        ensures
            r == self.spec_sum(),
    {
        self.ones * 1 + self.twos * 2 + self.threes * 3 + self.fours * 4 + self.fives * 5
            + self.sixes * 6
    }

    /// Whether some face shows on at least `n` dice.
    pub fn has_tuple(&self, n: u16) -> (r: bool)
        ensures
            r == self.spec_has_tuple(n as nat),
    {
        let mut i: usize = 0;
        while i < 6
            invariant
                0 <= i <= 6,
                forall|f: DieRoll| f.pips() <= i ==> #[trigger] self.count(f) < n,
            decreases 6 - i,
        {
            let die = DieRoll::from_index(i);
            if self.index(die) >= n {
                return true;
            }
            i = i + 1;
        }
        assert forall|f: DieRoll| #[trigger] self.count(f) < n by {
            assert(f.pips() <= 6);
        }
        false
    }

    /// Whether one face shows on exactly two dice and one on exactly three.
    pub fn has_fullhouse(&self) -> (r: bool)
        ensures
            r == self.spec_has_fullhouse(),
    {
        let mut has_pair = false;
        let mut has_triple = false;
        let mut i: usize = 0;
        while i < 6
            invariant
                0 <= i <= 6,
                has_pair == exists|f: DieRoll| f.pips() <= i && #[trigger] self.count(f) == 2,
                has_triple == exists|f: DieRoll| f.pips() <= i && #[trigger] self.count(f) == 3,
            decreases 6 - i,
        {
            let die = DieRoll::from_index(i);
            let c = self.index(die);
            if c == 2 {
                has_pair = true;
            }
            if c == 3 {
                has_triple = true;
            }
            assert forall|f: DieRoll| f.pips() <= i + 1 implies f.pips() <= i || f == die by {}
            i = i + 1;
        }
        assert forall|f: DieRoll| f.pips() <= 6 by {}
        has_pair && has_triple
    }

    /// Whether, for one of the `straights`, each of its faces shows on some die.
    pub fn has_straight<const N: usize, const M: usize>(&self, straights: [[DieRoll; N]; M]) -> (r: bool)
        ensures
            r == exists|j: int| 0 <= j < M && self.covers(#[trigger] straights@[j]@),
    {
        let mut j: usize = 0;
        while j < M
            invariant
                0 <= j <= M,
                forall|k: int| 0 <= k < j ==> !self.covers(#[trigger] straights@[k]@),
            decreases M - j,
        {
            let straight = straights[j];
            let mut all = true;
            let mut i: usize = 0;
            while i < N
                invariant
                    0 <= i <= N,
                    straight@ == straights@[j as int]@,
                    all == forall|k: int| 0 <= k < i ==> self.count(#[trigger] straight@[k]) > 0,
                decreases N - i,
            {
                if self.index(straight[i]) == 0 {
                    all = false;
                }
                i = i + 1;
            }
            if all {
                return true;
            }
            j = j + 1;
        }
        false
    }

    /// Whether four consecutive faces show.
    pub fn has_small_straight(&self) -> (r: bool)
        ensures
            r == self.spec_has_small_straight(),
    {
        let straights: [[DieRoll; 4]; 3] = [
            [DieRoll::One, DieRoll::Two, DieRoll::Three, DieRoll::Four],
            [DieRoll::Two, DieRoll::Three, DieRoll::Four, DieRoll::Five],
            [DieRoll::Three, DieRoll::Four, DieRoll::Five, DieRoll::Six],
        ];
        self.has_straight(straights)
    }

    /// Whether five consecutive faces show.
    pub fn has_large_straight(&self) -> (r: bool)
        ensures
            r == self.spec_has_large_straight(),
    {
        let straights: [[DieRoll; 5]; 2] = [
            [DieRoll::One, DieRoll::Two, DieRoll::Three, DieRoll::Four, DieRoll::Five],
            [DieRoll::Two, DieRoll::Three, DieRoll::Four, DieRoll::Five, DieRoll::Six],
        ];
        self.has_straight(straights)
    }

    /// What each face is worth in the upper section: its count times its pips.
    pub fn times_die_values(&self) -> (r: DiceCounts)
        requires
            forall|f: DieRoll| #[trigger] self.count(f) * f.pips() <= u16::MAX,
        ensures
            r.weighs(*self),
    {
        assert(self.count(DieRoll::Six) * DieRoll::Six.pips() <= u16::MAX);
        assert(self.count(DieRoll::Five) * DieRoll::Five.pips() <= u16::MAX);
        assert(self.count(DieRoll::Four) * DieRoll::Four.pips() <= u16::MAX);
        assert(self.count(DieRoll::Three) * DieRoll::Three.pips() <= u16::MAX);
        assert(self.count(DieRoll::Two) * DieRoll::Two.pips() <= u16::MAX);
        DiceCounts {
            ones: self.ones * 1,
            twos: self.twos * 2,
            threes: self.threes * 3,
            fours: self.fours * 4,
            fives: self.fives * 5,
            sixes: self.sixes * 6,
        }
    }
}

} // verus!

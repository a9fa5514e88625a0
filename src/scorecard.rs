use vstd::prelude::*;
use vstd::set_lib::{lemma_int_range, lemma_len_subset, set_int_range};
use crate::combination::{all_combinations, Combination, ValuedCombination, COMBINATION_COUNT};

verus! {

/// The upper total from which the bonus is awarded.
pub const BONUS_THRESHOLD: u32 = 63;

/// The bonus awarded for an upper total of at least `BONUS_THRESHOLD`.
pub const BONUS: u32 = 35;

/// The sum of the values written into upper boxes.
pub open spec fn upper_total(s: Seq<ValuedCombination>) -> nat
    decreases s.len(),
{
    if s.len() == 0 {
        0
    } else {
        upper_total(s.drop_last()) + if s.last().combination is Upper { s.last().value as nat } else { 0nat }
    }
}

/// The sum of the values written into lower boxes.
pub open spec fn lower_total(s: Seq<ValuedCombination>) -> nat
    decreases s.len(),
{
    if s.len() == 0 {
        0
    } else {
        lower_total(s.drop_last()) + if s.last().combination is Upper { 0nat } else { s.last().value as nat }
    }
}

/// The bonus that an upper total earns.
pub open spec fn bonus_for(upper: nat) -> nat {
    if upper >= BONUS_THRESHOLD { BONUS as nat } else { 0 }
}

proof fn lemma_totals_bound(s: Seq<ValuedCombination>)
    ensures
        upper_total(s) + lower_total(s) <= u16::MAX * s.len(),
    decreases s.len(),
{
    if s.len() > 0 {
        lemma_totals_bound(s.drop_last());
    }
}

proof fn lemma_totals_push(s: Seq<ValuedCombination>, vc: ValuedCombination)
    ensures
        upper_total(s.push(vc)) == upper_total(s) + if vc.combination is Upper { vc.value as nat } else { 0nat },
        lower_total(s.push(vc)) == lower_total(s) + if vc.combination is Upper { 0nat } else { vc.value as nat },
{
    assert(s.push(vc).drop_last() =~= s);
}

/// No box occurs twice in `s`.
pub open spec fn distinct_boxes(s: Seq<ValuedCombination>) -> bool {
    forall|i: int, j: int|
        0 <= i < j < s.len() ==> #[trigger] s[i].combination != #[trigger] s[j].combination
}

/// Box `c` occurs in `s`.
pub open spec fn box_filled(s: Seq<ValuedCombination>, c: Combination) -> bool {
    exists|i: int| 0 <= i < s.len() && #[trigger] s[i].combination == c
}

/// The positions on the card of the boxes in `s`.
spec fn ordinals(s: Seq<ValuedCombination>) -> Seq<int> {
    Seq::new(s.len(), |i: int| s[i].combination.ordinal() as int)
}

proof fn lemma_ordinal_injective(a: Combination, b: Combination)
    requires
        a.ordinal() == b.ordinal(),
    ensures
        a == b,
{
    match a {
        Combination::Upper(d) => {
            if let Combination::Upper(e) = b {
                assert(d.pips() == e.pips());
            }
        },
        _ => {},
    }
}

proof fn lemma_ordinal_of_all(k: int)
    requires
        0 <= k < COMBINATION_COUNT,
    ensures
        all_combinations()[k].ordinal() == k,
{
}

/// The positions of distinct boxes are as many as the boxes, and lie below
/// the number of boxes on a card.
proof fn lemma_ordinal_set(s: Seq<ValuedCombination>)
    requires
        distinct_boxes(s),
    ensures
        ordinals(s).to_set().len() == s.len(),
        ordinals(s).to_set().subset_of(set_int_range(0, COMBINATION_COUNT as int)),
{
    let o = ordinals(s);
    assert forall|i: int, j: int| 0 <= i < j < o.len() implies o[i] != o[j] by {
        if o[i] == o[j] {
            lemma_ordinal_injective(s[i].combination, s[j].combination);
        }
    }
    assert(o.no_duplicates());
    o.unique_seq_to_set();
    assert forall|x: int| o.to_set().contains(x) implies set_int_range(0, COMBINATION_COUNT as int).contains(x) by {
        let i = choose|i: int| 0 <= i < o.len() && o[i] == x;
        let c = s[i].combination;
        if let Combination::Upper(d) = c {
            assert(d.pips() >= 1);
        }
    }
}

/// A card with each box at most once holds at most as many entries as there
/// are boxes.
pub proof fn distinct_boxes_fit_card(s: Seq<ValuedCombination>)
    requires
        distinct_boxes(s),
    ensures
        s.len() <= COMBINATION_COUNT,
{
    lemma_ordinal_set(s);
    lemma_int_range(0, COMBINATION_COUNT as int);
    lemma_len_subset(ordinals(s).to_set(), set_int_range(0, COMBINATION_COUNT as int));
}

/// A card on which every box is filled, each once, holds as many entries as
/// there are boxes.
pub proof fn all_boxes_fill_card(s: Seq<ValuedCombination>)
    requires
        distinct_boxes(s),
        forall|c: Combination| #[trigger] box_filled(s, c),
    ensures
        s.len() == COMBINATION_COUNT,
{
    distinct_boxes_fit_card(s);
    lemma_ordinal_set(s);
    let o = ordinals(s);
    let range = set_int_range(0, COMBINATION_COUNT as int);
    assert forall|k: int| range.contains(k) implies o.to_set().contains(k) by {
        let c = all_combinations()[k];
        lemma_ordinal_of_all(k);
        assert(box_filled(s, c));
        let i = choose|i: int| 0 <= i < s.len() && #[trigger] s[i].combination == c;
        assert(o[i] == k);
    }
    lemma_int_range(0, COMBINATION_COUNT as int);
    lemma_len_subset(range, o.to_set());
}

/// Once a box is filled it stays filled, whatever is written after it, so a
/// second value for it is refused whatever that value is.
pub proof fn filled_box_stays_filled(s: Seq<ValuedCombination>, c: Combination, next: ValuedCombination)
    requires
        box_filled(s, c),
    ensures
        box_filled(s.push(next), c),
{
    let i = choose|i: int| 0 <= i < s.len() && #[trigger] s[i].combination == c;
    assert(s.push(next)[i].combination == c);
}

/// The totals of a card.
#[derive(Clone, Copy, PartialEq, Eq, Structural, Debug)]
pub struct Score {
    pub upper: u32,
    pub lower: u32,
    pub bonus: u32,
}

impl Score {
    /// Upper total, lower total and bonus together.
    pub open spec fn spec_total(self) -> nat {
        (self.upper + self.lower + self.bonus) as nat
    }

    /// Upper total, lower total and bonus together.
    pub fn total(&self) -> (r: u32)
        requires
            self.spec_total() <= u32::MAX,
        ensures
            r == self.spec_total(),
    {
        self.upper + self.lower + self.bonus
    }
}

/// Returned when a value is written into a box that is already filled.
#[derive(Clone, Copy, PartialEq, Eq, Structural, Debug)]
pub struct AlreadyRecordedError;

/// A player's score card: the boxes filled so far, in the order of play.
#[derive(Debug)]
pub struct PlayerState {
    filled: Vec<ValuedCombination>,
}

impl View for PlayerState {
    type V = Seq<ValuedCombination>;

    closed spec fn view(&self) -> Seq<ValuedCombination> {
        self.filled@
    }
}

impl PlayerState {
    /// Each box is filled at most once.
    pub open spec fn wf(self) -> bool {
        distinct_boxes(self@)
    }

    /// Box `c` is filled.
    pub open spec fn has(self, c: Combination) -> bool {
        box_filled(self@, c)
    }

    /// An empty card.
    pub fn new() -> (r: PlayerState)
        ensures
            r.wf(),
            r@.len() == 0,
            forall|c: Combination| !#[trigger] r.has(c),
    {
        PlayerState { filled: Vec::new() }
    }

    /// The filled boxes, in the order of play.
    pub fn entries(&self) -> (r: &Vec<ValuedCombination>)
        ensures
            r@ == self@,
    {
        &self.filled
    }

    /// Whether box `combination` is filled.
    pub fn has_combination(&self, combination: Combination) -> (r: bool)
        ensures
            r == self.has(combination),
    {
        let mut i: usize = 0;
        while i < self.filled.len()
            invariant
                0 <= i <= self@.len(),
                self@ == self.filled@,
                forall|k: int| 0 <= k < i ==> #[trigger] self@[k].combination != combination,
            decreases self@.len() - i,
        {
            if self.filled[i].combination == combination {
                return true;
            }
            i = i + 1;
        }
        false
    }

    /// Writes `vc.value` into box `vc.combination`, unless that box is
    /// already filled.
    pub fn record_value(&mut self, vc: ValuedCombination) -> (r: Result<(), AlreadyRecordedError>)
        requires
            old(self).wf(),
        ensures
            final(self).wf(),
            final(self).has(vc.combination),
            old(self).has(vc.combination) ==> r == Err::<(), AlreadyRecordedError>(AlreadyRecordedError) && final(self)@ == old(self)@,
            !old(self).has(vc.combination) ==> r is Ok && final(self)@ == old(self)@.push(vc),
    {
        if self.has_combination(vc.combination) {
            Err(AlreadyRecordedError)
        } else {
            self.filled.push(vc);
            assert(distinct_boxes(self@));
            assert(self@[self@.len() - 1] == vc);
            Ok(())
        }
    }

    /// The upper and lower totals of the card and the bonus earned.
    pub fn score(&self) -> (r: Score)
        requires
            self.wf(),
        ensures
            r.upper == upper_total(self@),
            r.lower == lower_total(self@),
            r.bonus == bonus_for(upper_total(self@)),
            r.spec_total() == upper_total(self@) + lower_total(self@) + bonus_for(upper_total(self@)),
            r.spec_total() <= u32::MAX,
    {
        proof {
            distinct_boxes_fit_card(self@);
            lemma_totals_bound(self@);
        }
        let mut upper: u32 = 0;
        let mut lower: u32 = 0;
        let mut i: usize = 0;
        while i < self.filled.len()
            invariant
                0 <= i <= self@.len() <= COMBINATION_COUNT,
                self@ == self.filled@,
                upper == upper_total(self@.subrange(0, i as int)),
                lower == lower_total(self@.subrange(0, i as int)),
                upper + lower <= u16::MAX * i,
            decreases self@.len() - i,
        {
            let vc = self.filled[i];
            proof {
                let seen = self@.subrange(0, i as int);
                assert(self@.subrange(0, i + 1) =~= seen.push(vc));
                lemma_totals_push(seen, vc);
            }
            match vc.combination {
                Combination::Upper(_) => upper = upper + vc.value as u32,
                _ => lower = lower + vc.value as u32,
            }
            i = i + 1;
        }
        assert(self@.subrange(0, i as int) =~= self@);
        let bonus: u32 = if upper >= BONUS_THRESHOLD { BONUS } else { 0 };
        Score { upper, lower, bonus }
    }

    /// Whether every box of the card is filled: the game is over.
    pub fn is_done(&self) -> (r: bool)
        requires
            self.wf(),
        ensures
            r == (self@.len() == COMBINATION_COUNT),
    {
        proof {
            distinct_boxes_fit_card(self@);
        }
        self.filled.len() >= COMBINATION_COUNT
    }

    /// The value written into box `combination`, if it is filled.
    pub fn recorded_value(&self, combination: Combination) -> (r: Option<u16>)
        requires
            self.wf(),
        ensures
            r is None <==> !self.has(combination),
            r matches Some(v) ==> self@.contains(ValuedCombination { combination, value: v }),
    {
        let mut i: usize = 0;
        while i < self.filled.len()
            invariant
                0 <= i <= self@.len(),
                self@ == self.filled@,
                forall|k: int| 0 <= k < i ==> #[trigger] self@[k].combination != combination,
            decreases self@.len() - i,
        {
            let vc = self.filled[i];
            if vc.combination == combination {
                assert(self@[i as int] == vc);
                return Some(vc.value);
            }
            i = i + 1;
        }
        None
    }
}

} // verus!

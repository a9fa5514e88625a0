use yahtzee::combination::{Combination, PotentialValues, ValuedCombination, COMBINATION_COUNT};
use yahtzee::dice::{DiceCounts, DiceRolls, DieRoll};
use yahtzee::roll::{reroll, roll_dice, roll_die};
use yahtzee::scorecard::{AlreadyRecordedError, PlayerState, Score};

fn hand(pips: [usize; 5]) -> DiceRolls {
    pips.map(|p| DieRoll::from_index(p - 1))
}

fn counts(pips: [usize; 5]) -> DiceCounts {
    DiceCounts::new(hand(pips))
}

fn values(pips: [usize; 5]) -> PotentialValues {
    PotentialValues::new(counts(pips))
}

fn all_boxes() -> Vec<Combination> {
    let mut boxes: Vec<Combination> = (0..6).map(|i| Combination::Upper(DieRoll::from_index(i))).collect();
    boxes.extend([
        Combination::Triple,
        Combination::Quadruple,
        Combination::Quintuple,
        Combination::SmallStraight,
        Combination::LargeStraight,
        Combination::Chance,
        Combination::FullHouse,
    ]);
    boxes
}

#[test]
fn tally_counts_each_face() {
    let c = counts([6, 1, 6, 3, 6]);
    assert_eq!((c.ones, c.twos, c.threes, c.fours, c.fives, c.sixes), (1, 0, 1, 0, 0, 3));
    assert_eq!(c.index(DieRoll::Six), 3);
    assert_eq!(c.index(DieRoll::Two), 0);
}

#[test]
fn tally_sum_is_sum_of_faces() {
    assert_eq!(counts([1, 3, 4, 6, 6]).sum(), 20);
    assert_eq!(counts([1, 1, 1, 1, 1]).sum(), 5);
    assert_eq!(counts([6, 6, 6, 6, 6]).sum(), 30);
}

#[test]
fn weighted_faces_add_up_to_sum() {
    let c = counts([2, 5, 5, 3, 6]);
    let w = c.times_die_values();
    assert_eq!((w.ones, w.twos, w.threes, w.fours, w.fives, w.sixes), (0, 2, 3, 0, 10, 6));
    assert_eq!(w.ones + w.twos + w.threes + w.fours + w.fives + w.sixes, c.sum());
}

#[test]
fn tuples_count_at_least_n() {
    let c = counts([4, 4, 4, 4, 4]);
    assert!(c.has_tuple(3));
    assert!(c.has_tuple(4));
    assert!(c.has_tuple(5));
    let d = counts([4, 4, 4, 1, 2]);
    assert!(d.has_tuple(3));
    assert!(!d.has_tuple(4));
}

#[test]
fn full_house_needs_pair_and_triple() {
    assert!(counts([2, 2, 3, 3, 3]).has_fullhouse());
    assert!(!counts([3, 3, 3, 3, 3]).has_fullhouse());
    assert!(!counts([1, 1, 2, 3, 4]).has_fullhouse());
}

#[test]
fn small_straight_windows() {
    assert!(counts([1, 2, 3, 4, 6]).has_small_straight());
    assert!(!counts([1, 1, 2, 3, 5]).has_small_straight());
    assert!(counts([6, 5, 3, 4, 4]).has_small_straight());
    assert!(counts([5, 2, 3, 4, 2]).has_small_straight());
}

#[test]
fn large_straight_windows() {
    assert!(counts([2, 3, 4, 5, 6]).has_large_straight());
    assert!(counts([5, 4, 3, 2, 1]).has_large_straight());
    assert!(!counts([1, 2, 3, 4, 6]).has_large_straight());
}

#[test]
fn straight_over_given_windows() {
    let c = counts([1, 1, 2, 2, 2]);
    assert!(c.has_straight([[DieRoll::One, DieRoll::Two]]));
    assert!(!c.has_straight([[DieRoll::Two, DieRoll::Three], [DieRoll::One, DieRoll::Six]]));
}

#[test]
fn chance_is_sum_whatever_the_shape() {
    assert_eq!(values([1, 1, 1, 1, 1]).index(Combination::Chance), 5);
    assert_eq!(values([2, 3, 4, 5, 6]).index(Combination::Chance), 20);
}

#[test]
fn end_to_end_hand_values() {
    let v = values([5, 5, 5, 2, 2]);
    assert_eq!(v.index(Combination::Triple), 19);
    assert_eq!(v.index(Combination::FullHouse), 25);
    assert_eq!(v.index(Combination::Upper(DieRoll::Five)), 15);
    assert_eq!(v.index(Combination::Upper(DieRoll::Two)), 4);
    assert_eq!(v.index(Combination::Chance), 19);
    assert_eq!(v.index(Combination::SmallStraight), 0);
    assert_eq!(v.index(Combination::LargeStraight), 0);
    assert_eq!(v.index(Combination::Quintuple), 0);
    assert_eq!(v.index(Combination::Quadruple), 0);
}

#[test]
fn fixed_values_of_lower_boxes() {
    let v = values([3, 3, 3, 3, 3]);
    assert_eq!(v.index(Combination::Quintuple), 50);
    assert_eq!(v.index(Combination::Quadruple), 15);
    assert_eq!(v.index(Combination::Triple), 15);
    assert_eq!(v.index(Combination::FullHouse), 0);
    let s = values([1, 2, 3, 4, 5]);
    assert_eq!(s.index(Combination::SmallStraight), 30);
    assert_eq!(s.index(Combination::LargeStraight), 40);
    assert_eq!(s.index(Combination::Triple), 0);
}

#[test]
fn valued_combinations_lists_every_box() {
    let v = values([5, 5, 5, 2, 2]);
    let all = v.valued_combinations();
    assert_eq!(all.len(), COMBINATION_COUNT);
    for b in all_boxes() {
        let found: Vec<&ValuedCombination> = all.iter().filter(|vc| vc.combination == b).collect();
        assert_eq!(found.len(), 1);
        assert_eq!(found[0].value, v.index(b));
    }
}

#[test]
fn record_twice_fails_whatever_the_value() {
    let mut card = PlayerState::new();
    let c = Combination::Upper(DieRoll::Three);
    assert_eq!(card.record_value(ValuedCombination { combination: c, value: 9 }), Ok(()));
    assert_eq!(card.record_value(ValuedCombination { combination: c, value: 9 }), Err(AlreadyRecordedError));
    assert_eq!(card.record_value(ValuedCombination { combination: c, value: 0 }), Err(AlreadyRecordedError));
    assert_eq!(card.entries().len(), 1);
    assert_eq!(card.recorded_value(c), Some(9));
}

#[test]
fn fresh_card_accepts_any_box() {
    for b in all_boxes() {
        let mut card = PlayerState::new();
        assert!(!card.has_combination(b));
        assert_eq!(card.recorded_value(b), None);
        assert_eq!(card.record_value(ValuedCombination { combination: b, value: 7 }), Ok(()));
        assert!(card.has_combination(b));
    }
}

#[test]
fn full_card_is_done() {
    let mut card = PlayerState::new();
    let mut boxes = all_boxes();
    boxes.reverse();
    for b in boxes {
        assert!(!card.is_done());
        assert_eq!(card.record_value(ValuedCombination { combination: b, value: 1 }), Ok(()));
    }
    assert!(card.is_done());
    assert_eq!(card.entries().len(), COMBINATION_COUNT);
}

fn card_with_upper(values: [u16; 6], lower: u16) -> PlayerState {
    let mut card = PlayerState::new();
    for (i, v) in values.iter().enumerate() {
        let vc = ValuedCombination { combination: Combination::Upper(DieRoll::from_index(i)), value: *v };
        card.record_value(vc).unwrap();
    }
    card.record_value(ValuedCombination { combination: Combination::Chance, value: lower }).unwrap();
    card
}

#[test]
fn no_bonus_below_threshold() {
    let s = card_with_upper([3, 6, 9, 12, 15, 17], 20).score();
    assert_eq!(s, Score { upper: 62, lower: 20, bonus: 0 });
    assert_eq!(s.total(), 82);
}

#[test]
fn bonus_at_threshold() {
    let s = card_with_upper([3, 6, 9, 12, 15, 18], 20).score();
    assert_eq!(s, Score { upper: 63, lower: 20, bonus: 35 });
    assert_eq!(s.total(), 118);
}

#[test]
fn empty_card_scores_nothing() {
    let s = PlayerState::new().score();
    assert_eq!(s, Score { upper: 0, lower: 0, bonus: 0 });
    assert_eq!(s.total(), 0);
}

#[test]
fn large_values_do_not_overflow() {
    let mut card = PlayerState::new();
    for b in all_boxes() {
        card.record_value(ValuedCombination { combination: b, value: u16::MAX }).unwrap();
    }
    let s = card.score();
    assert_eq!(s.upper, 6 * 65535);
    assert_eq!(s.lower, 7 * 65535);
    assert_eq!(s.bonus, 35);
    assert_eq!(s.total(), 13 * 65535 + 35);
}

#[test]
fn rolled_dice_vary() {
    let mut seen = [false; 6];
    for _ in 0..600 {
        seen[roll_die().value() as usize - 1] = true;
    }
    assert!(seen.iter().all(|s| *s));
    let d = roll_dice();
    assert_eq!(DiceCounts::new(d).ones + DiceCounts::new(d).twos + DiceCounts::new(d).threes
        + DiceCounts::new(d).fours + DiceCounts::new(d).fives + DiceCounts::new(d).sixes, 5);
}

#[test]
fn reroll_keeps_unselected_dice() {
    let mut d = hand([1, 2, 3, 4, 5]);
    reroll(&mut d, &vec![1, 3]);
    assert_eq!(d[0], DieRoll::One);
    assert_eq!(d[2], DieRoll::Three);
    assert_eq!(d[4], DieRoll::Five);
}

#[test]
fn die_values_and_order() {
    assert_eq!(DieRoll::One.value(), 1);
    assert_eq!(DieRoll::Six.value(), 6);
    assert!(DieRoll::Two < DieRoll::Five);
    assert_eq!(Combination::from_ordinal(12), Combination::Chance);
}

use slimebot::natural::{NaturalI8, NaturalI8Constants};
use slimebot::roll::{Dice, DiceRoll, DiceRollError, Die};

#[test]
fn roll_die() {
    let die = Die::d20();
    let low = NaturalI8::one().get();
    let high = NaturalI8::twenty().get();

    for _ in 1..1000 {
        let rolled: NaturalI8 = die.roll();
        assert!(low <= rolled.get() && rolled.get() <= high)
    }
}

#[test]
fn rolls_sensible() {
    let roll = DiceRoll::parse("2d20").expect("hard-coded");
    let range = 2..=40;

    for _ in 1..1000 {
        let rolls = roll.rolls();
        let sum: i8 = rolls.iter().map(|r| r.get()).sum();
        assert!(range.contains(&sum))
    }
}

#[test]
fn rolls_sum_sensible() {
    let roll = DiceRoll::parse("2d20+4").expect("hard-coded");
    let range = 6..=44;

    for _ in 1..2 {
        let sum: i16 = roll.total();
        assert!(range.contains(&sum))
    }
}

#[test]
fn parse_errors() {
    assert!(matches!(DiceRoll::parse("hello"), Err(DiceRollError::NoMatch(s)) if s == "hello"));
    assert!(DiceRoll::parse("d6+3").is_ok());
    assert!(DiceRoll::parse("2d4-2").is_ok());
}

#[test]
fn parsed_bounds() {
    let roll = DiceRoll::parse("3d6-2").expect("valid");
    assert_eq!(roll.min(), 1);
    assert_eq!(roll.max(), 16);
    let t = roll.total();
    assert!(1 <= t && t <= 16);
}

#[test]
fn natural_numbers() {
    assert!(NaturalI8::new(0).is_err());
    assert!(NaturalI8::new(-3).is_err());
    assert_eq!(NaturalI8::new(5).map(|n| n.get()), Ok(5));
    assert_eq!(NaturalI8::from_str("12").map(|n| n.get()), Ok(12));
    assert!(NaturalI8::from_str("0").is_err());
    assert_eq!(NaturalI8::min().get(), 1);
    assert_eq!(NaturalI8::one_hundred().get(), 1);
}

fn same_roll(text: &str, count: i8, faces: i8, extra: i8) {
    let parsed = DiceRoll::parse(text).expect("valid roll");
    let built = DiceRoll::new(count, faces, extra).expect("valid numbers");
    assert_eq!(parsed.extra, built.extra);
    assert_eq!(parsed.min(), built.min());
    assert_eq!(parsed.max(), built.max());
    assert_eq!(parsed.rolls().len(), built.rolls().len());
}

#[test]
fn two_d_ten() {
    same_roll("2d10", 2, 10, 0);
}

#[test]
fn d_twenty() {
    same_roll("d20", 1, 20, 0);
}

#[test]
fn d_six_plus_three() {
    same_roll("d6+3", 1, 6, 3);
}

#[test]
fn two_d_four_minus_two() {
    same_roll("2d4-2", 2, 4, -2);
}

#[test]
fn naturals_ordered_by_value() {
    let two = NaturalI8::new(2).expect("positive");
    let nine = NaturalI8::new(9).expect("positive");
    assert!(two < nine);
    assert!(nine > two);
    assert_eq!(two.partial_cmp(&nine), Some(std::cmp::Ordering::Less));
    assert_eq!(nine.cmp(&nine), std::cmp::Ordering::Equal);
    assert_eq!(std::cmp::max(two, nine), nine);
}

#[test]
fn default_dice_are_empty() {
    let mut dice = Dice::default();
    assert!(dice.next().is_none());
}

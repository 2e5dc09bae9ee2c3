use history_gen::ratio::round_quotient;
use history_gen::{Event, Ratio, Transaction, ValueAssigner};

#[test]
fn read_event_has_placeholder_value() {
    let event = Event::read(7);
    assert!(!event.write);
    assert_eq!(event.variable, 7);
    assert_eq!(event.value, 0);
    assert!(!event.success);
}

#[test]
fn write_event_carries_its_value() {
    let event = Event::write(3, 42);
    assert!(event.write);
    assert_eq!(event.variable, 3);
    assert_eq!(event.value, 42);
    assert!(!event.success);
}

#[test]
fn cloned_event_is_equal() {
    let event = Event::write(1, 2);
    assert_eq!(event.clone(), event);
    assert_ne!(Event::read(1), Event::write(1, 0));
}

#[test]
fn cloned_transaction_is_equal() {
    let transaction = Transaction {
        events: vec![Event::write(0, 1), Event::read(0), Event::write(1, 1)],
        success: false,
    };
    let copy = transaction.clone();
    assert_eq!(copy, transaction);
    assert_eq!(copy.events.len(), 3);
    assert_eq!(copy.events[2], Event::write(1, 1));
}

#[test]
fn ratio_keeps_its_parts() {
    let ratio = Ratio::new(2, 3);
    assert_eq!(ratio.numerator, 2);
    assert_eq!(ratio.denominator, 3);
    assert_eq!(Ratio::never(), Ratio::new(0, 1));
    assert_eq!(Ratio::certain(), Ratio::new(1, 1));
}

#[test]
fn ratio_knows_a_probability() {
    assert!(Ratio::new(0, 1).check_probability());
    assert!(Ratio::new(1, 1).check_probability());
    assert!(Ratio::new(2, 3).check_probability());
    assert!(Ratio::new(u32::MAX, u32::MAX).check_probability());
    assert!(!Ratio::new(2, 1).check_probability());
    assert!(!Ratio::new(0, 0).check_probability());
    assert!(!Ratio::new(1, 0).check_probability());
}

#[test]
fn quotient_rounds_to_nearest() {
    assert_eq!(round_quotient(0, 5), 0);
    assert_eq!(round_quotient(1, 3), 0);
    assert_eq!(round_quotient(2, 3), 1);
    assert_eq!(round_quotient(9, 10), 1);
    assert_eq!(round_quotient(14, 10), 1);
    assert_eq!(round_quotient(16, 10), 2);
    assert_eq!(round_quotient(12, 4), 3);
}

#[test]
fn quotient_rounds_halves_up() {
    assert_eq!(round_quotient(1, 2), 1);
    assert_eq!(round_quotient(3, 2), 2);
    assert_eq!(round_quotient(5, 2), 3);
    assert_eq!(round_quotient(10, 4), 3);
    assert_eq!(round_quotient(15, 10), 2);
}

#[test]
fn quotient_of_large_numbers() {
    assert_eq!(round_quotient(u128::MAX, 1), u128::MAX);
    assert_eq!(round_quotient(u128::MAX, u128::MAX), 1);
    assert_eq!(round_quotient(u128::MAX - 1, u128::MAX), 1);
    assert_eq!(round_quotient(u128::MAX, 2), (u128::MAX / 2) + 1);
    assert_eq!(round_quotient(1, u128::MAX), 0);
}

#[test]
fn new_assigner_has_written_nothing() {
    let assigner = ValueAssigner::new();
    assert_eq!(assigner.highest(0), 0);
    assert_eq!(assigner.highest(17), 0);
}

#[test]
fn minted_values_count_up_from_one() {
    let mut assigner = ValueAssigner::new();
    assert_eq!(assigner.mint(4), 1);
    assert_eq!(assigner.mint(4), 2);
    assert_eq!(assigner.mint(4), 3);
    assert_eq!(assigner.highest(4), 3);
}

#[test]
fn variables_are_counted_apart() {
    let mut assigner = ValueAssigner::new();
    assert_eq!(assigner.mint(0), 1);
    assert_eq!(assigner.mint(1), 1);
    assert_eq!(assigner.mint(0), 2);
    assert_eq!(assigner.highest(0), 2);
    assert_eq!(assigner.highest(1), 1);
    assert_eq!(assigner.highest(2), 0);
}

#[test]
fn without_reuse_every_value_is_fresh() {
    let mut rng = rand::thread_rng();
    let mut assigner = ValueAssigner::new();
    for expected in 1..=50usize {
        assert_eq!(assigner.assign_value(9, Ratio::never(), &mut rng), expected);
    }
    assert_eq!(assigner.highest(9), 50);
}

#[test]
fn with_certain_reuse_only_the_first_value_is_fresh() {
    let mut rng = rand::thread_rng();
    let mut assigner = ValueAssigner::new();
    for _ in 0..50 {
        assert_eq!(assigner.assign_value(2, Ratio::certain(), &mut rng), 1);
    }
    assert_eq!(assigner.highest(2), 1);
    assert_eq!(assigner.assign_value(3, Ratio::certain(), &mut rng), 1);
}

#[test]
fn reused_values_are_drawn_from_those_issued() {
    let mut rng = rand::thread_rng();
    let mut assigner = ValueAssigner::new();
    for _ in 0..5 {
        assigner.mint(0);
    }
    let mut seen = [false; 6];
    for _ in 0..400 {
        let value = assigner.assign_value(0, Ratio::certain(), &mut rng);
        assert!(1 <= value && value <= 5);
        seen[value] = true;
    }
    assert_eq!(assigner.highest(0), 5);
    assert_eq!(seen, [false, true, true, true, true, true]);
}

#[test]
fn mixed_reuse_is_fresh_or_repeats() {
    let mut rng = rand::thread_rng();
    let mut assigner = ValueAssigner::new();
    let mut fresh = 0usize;
    let mut repeated = 0usize;
    for _ in 0..400 {
        let top = assigner.highest(5);
        let value = assigner.assign_value(5, Ratio::new(1, 2), &mut rng);
        if value == top + 1 {
            fresh += 1;
            assert_eq!(assigner.highest(5), top + 1);
        } else {
            repeated += 1;
            assert!(1 <= value && value <= top);
            assert_eq!(assigner.highest(5), top);
        }
    }
    assert_eq!(assigner.highest(5), fresh);
    assert!(fresh > 1);
    assert!(repeated > 0);
}

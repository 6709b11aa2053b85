use coin_server::machine::{Machine, MACHINE_CAPACITY};

#[test]
fn create_machine_with_max_coins() {
    let m = Machine::with(MACHINE_CAPACITY);

    assert!(m.is_ok());
    assert_eq!(m.unwrap().get_pool(), MACHINE_CAPACITY);
}

#[test]
fn create_machine_with_too_many_coins() {
    let m = Machine::with(MACHINE_CAPACITY + 1);

    assert!(m.is_err());
}

#[test]
fn insert_without_payout_raises_the_level_by_one() {
    let mut m = Machine::with(200).unwrap();
    let fell = m.insert_coin(0);
    assert_eq!(fell, 0);
    assert_eq!(m.get_pool(), 201);
}

#[test]
fn insert_with_payout_releases_the_coins() {
    let mut m = Machine::with(10).unwrap();
    let fell = m.insert_coin(3);
    assert_eq!(fell, 3);
    assert_eq!(m.get_pool(), 8);
}

#[test]
fn insert_into_a_full_machine_keeps_the_cap() {
    let mut m = Machine::with(MACHINE_CAPACITY).unwrap();
    let fell = m.insert_coin(0);
    assert_eq!(fell, 0);
    assert_eq!(m.get_pool(), MACHINE_CAPACITY);
}

#[test]
fn level_stays_bounded_over_a_long_insert_sequence() {
    let mut m = Machine::with(999).unwrap();
    for k in 0..2000u32 {
        let level = m.get_pool();
        let next = if level < MACHINE_CAPACITY { level + 1 } else { level };
        let fell = if k % 3 == 0 { next } else { 0 };
        m.insert_coin(fell);
        assert!(m.get_pool() <= MACHINE_CAPACITY);
    }
}

#[test]
fn totals_are_deterministic_for_a_fixed_insert_sequence() {
    // Many sessions' worth of inserts with no payout give one exact
    // total: the level is a function of the settled sequence alone.
    let mut m = Machine::with(0).unwrap();
    for _ in 0..300 {
        m.insert_coin(0);
    }
    assert_eq!(m.get_pool(), 300);
}

#[test]
fn emptying_payout_reaches_zero_and_never_below() {
    let mut m = Machine::with(0).unwrap();
    let fell = m.insert_coin(1);
    assert_eq!(fell, 1);
    assert_eq!(m.get_pool(), 0);
}

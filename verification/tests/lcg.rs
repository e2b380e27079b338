use struct_perf::{lcg_step, reduce, LCGStruct, INCREMENT, MULTIPLIER};

#[test]
fn constants_are_those_of_the_recurrence() {
    assert_eq!(MULTIPLIER, 6364136223846793005);
    assert_eq!(INCREMENT, 1442695040888963407);
    assert_eq!(MULTIPLIER % 4, 1);
    assert_eq!(INCREMENT % 2, 1);
}

#[test]
fn step_from_one() {
    assert_eq!(lcg_step(1), 7806831264735756412);
}

#[test]
fn step_from_zero_is_the_increment() {
    assert_eq!(lcg_step(0), 1442695040888963407);
}

#[test]
fn step_wraps_around() {
    assert_eq!(lcg_step(u64::MAX), 13525302890751722018);
    assert_eq!(lcg_step(42), 10481999410520546993);
}

#[test]
fn step_agrees_with_wide_arithmetic() {
    let mut state: u64 = 0x0123_4567_89ab_cdef;
    for _ in 0..1000 {
        let wide = (u128::from(state) * u128::from(MULTIPLIER) + u128::from(INCREMENT))
            % (1u128 << 64);
        let next = lcg_step(state);
        assert_eq!(u128::from(next), wide);
        state = next;
    }
}

#[test]
fn next_state_returns_and_stores_the_new_state() {
    let mut rng = LCGStruct::from_seed(1);
    assert_eq!(rng.state(), 1);
    assert_eq!(rng.next_state(), 7806831264735756412);
    assert_eq!(rng.state(), 7806831264735756412);
}

#[test]
fn same_start_same_sequence() {
    let mut first = LCGStruct::from_seed(1);
    let mut second = LCGStruct::from_seed(1);
    for _ in 0..1000 {
        assert_eq!(first.next_state(), second.next_state());
    }
    let mut first = LCGStruct::from_seed(0xdead_beef);
    let mut second = LCGStruct::from_seed(0xdead_beef);
    for _ in 0..1000 {
        assert_eq!(first.do_something(), second.do_something());
        assert_eq!(first.state(), second.state());
    }
}

#[test]
fn three_calls_from_42_match_three_independent_steps() {
    let mut rng = LCGStruct::from_seed(42);
    let mut state: u64 = 42;
    for _ in 0..3 {
        state = lcg_step(state);
        assert_eq!(rng.do_something(), reduce(state));
        assert_eq!(rng.state(), state);
    }
}

#[test]
fn three_calls_from_42_give_known_bits() {
    let mut rng = LCGStruct::from_seed(42);
    assert_eq!(rng.do_something(), 1);
    assert_eq!(rng.state(), 10481999410520546993);
    assert_eq!(rng.do_something(), 0);
    assert_eq!(rng.state(), 4159066171780167020);
    assert_eq!(rng.do_something(), 0);
    assert_eq!(rng.state(), 7615522811268512075);
}

#[test]
fn do_something_returns_a_bit() {
    let mut rng = LCGStruct::new();
    for _ in 0..1000 {
        let bit = rng.do_something();
        assert!(bit == 0 || bit == 1);
    }
}

#[test]
fn new_steps_from_whatever_seed_it_drew() {
    let mut rng = LCGStruct::new();
    let seed = rng.state();
    assert_eq!(rng.next_state(), lcg_step(seed));
}

#[test]
fn independently_constructed_instances_differ() {
    let first = LCGStruct::new().state();
    let mut distinct = 0;
    for _ in 0..64 {
        if LCGStruct::new().state() != first {
            distinct += 1;
        }
    }
    assert!(distinct >= 63);
}

#[test]
fn instances_do_not_share_state() {
    let mut first = LCGStruct::from_seed(7);
    let second = LCGStruct::from_seed(7);
    first.do_something();
    assert_eq!(second.state(), 7);
    assert_eq!(first.state(), lcg_step(7));
}

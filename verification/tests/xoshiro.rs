use struct_perf::{reduce, xoshiro_step, XoshiroStruct};

fn seed_of(words: [u64; 4]) -> [u8; 32] {
    let mut seed = [0u8; 32];
    for (word, chunk) in words.iter().zip(seed.chunks_exact_mut(8)) {
        chunk.copy_from_slice(&word.to_le_bytes());
    }
    seed
}

const REFERENCE: [u64; 10] = [
    5,
    211106232532999,
    211106635186183,
    9223759065350669058,
    9250833439874351877,
    13862484359527728515,
    2346507365006083650,
    1168864526675804870,
    34095955243042024,
    3466914240207415127,
];

#[test]
fn reference_outputs_from_words_1_2_3_4() {
    let mut rng = XoshiroStruct::from_seed([
        1, 0, 0, 0, 0, 0, 0, 0, 2, 0, 0, 0, 0, 0, 0, 0, 3, 0, 0, 0, 0, 0, 0, 0, 4, 0, 0, 0, 0, 0,
        0, 0,
    ]);
    for expected in REFERENCE {
        assert_eq!(rng.next_state(), expected);
    }
}

#[test]
fn reference_bits_from_words_1_2_3_4() {
    let mut rng = XoshiroStruct::from_seed(seed_of([1, 2, 3, 4]));
    let bits = [0u64, 0, 0, 1, 1, 1, 0, 0, 0, 0];
    for expected in bits {
        assert_eq!(rng.do_something(), expected);
    }
}

#[test]
fn step_on_plain_words_gives_the_reference_outputs() {
    let mut words = [1u64, 2, 3, 4];
    for expected in REFERENCE {
        let (out, next) = xoshiro_step(words);
        assert_eq!(out, expected);
        words = next;
    }
    assert_eq!(
        words,
        [
            6918773752402764499,
            4636616456744993510,
            602415824082698274,
            4336610201886040825
        ]
    );
}

#[test]
fn step_on_plain_words_once() {
    let (out, next) = xoshiro_step([1, 2, 3, 4]);
    assert_eq!(out, 5);
    assert_eq!(next, [7, 0, 262146, 211106232532992]);
}

#[test]
fn output_is_the_wrapping_sum_of_the_outer_words() {
    let (out, _) = xoshiro_step([u64::MAX, 0, 0, 2]);
    assert_eq!(out, 1);
    let mut rng = XoshiroStruct::from_seed(seed_of([u64::MAX, 0, 0, 2]));
    assert_eq!(rng.next_state(), 1);
}

#[test]
fn instance_agrees_with_the_step_on_plain_words() {
    let starts = [
        [1u64, 2, 3, 4],
        [u64::MAX, u64::MAX, u64::MAX, u64::MAX],
        [0x0123_4567_89ab_cdef, 0, 0, 0],
        [0, 0, 0, 1],
        [0x8000_0000_0000_0000, 0x8000_0000_0000_0000, 1, 1],
    ];
    for start in starts {
        let mut rng = XoshiroStruct::from_seed(seed_of(start));
        let mut words = start;
        for _ in 0..2000 {
            let (out, next) = xoshiro_step(words);
            assert_eq!(rng.next_state(), out);
            words = next;
        }
    }
}

#[test]
fn do_something_reduces_the_output() {
    let mut rng = XoshiroStruct::from_seed(seed_of([9, 8, 7, 6]));
    let mut words = [9u64, 8, 7, 6];
    for _ in 0..2000 {
        let (out, next) = xoshiro_step(words);
        assert_eq!(rng.do_something(), reduce(out));
        words = next;
    }
}

#[test]
fn seed_bytes_are_read_least_significant_first() {
    let mut seed = [0u8; 32];
    seed[0] = 0x01;
    seed[1] = 0x02;
    seed[31] = 0x80;
    let mut rng = XoshiroStruct::from_seed(seed);
    // words 0 and 3 are 0x0201 and 0x8000_0000_0000_0000
    assert_eq!(rng.next_state(), 0x8000_0000_0000_0201);
}

#[test]
fn same_seed_same_sequence() {
    let mut first = XoshiroStruct::from_seed(seed_of([11, 22, 33, 44]));
    let mut second = XoshiroStruct::from_seed(seed_of([11, 22, 33, 44]));
    for _ in 0..1000 {
        assert_eq!(first.next_state(), second.next_state());
    }
}

#[test]
fn all_zero_seed_is_mapped_to_a_working_state() {
    let mut rng = XoshiroStruct::from_seed([0u8; 32]);
    let mut nonzero = false;
    for _ in 0..8 {
        if rng.next_state() != 0 {
            nonzero = true;
        }
    }
    assert!(nonzero);
    // the all-zero state itself would stay put
    let (out, next) = xoshiro_step([0, 0, 0, 0]);
    assert_eq!(out, 0);
    assert_eq!(next, [0, 0, 0, 0]);
}

#[test]
fn new_returns_bits() {
    let mut rng = XoshiroStruct::new();
    for _ in 0..1000 {
        let bit = rng.do_something();
        assert!(bit == 0 || bit == 1);
    }
}

#[test]
fn independently_constructed_xoshiro_instances_differ() {
    let mut first = XoshiroStruct::new();
    let head = [first.next_state(), first.next_state()];
    let mut distinct = 0;
    for _ in 0..32 {
        let mut other = XoshiroStruct::new();
        if [other.next_state(), other.next_state()] != head {
            distinct += 1;
        }
    }
    assert!(distinct >= 31);
}

use ddc_validator::randomness::{
    choose_index, generate_random_number, random_number_from_seed, random_subject, settle_draw,
    Randomness, MAX_DRAWS,
};

/// Randomness that echoes the draw number found in the subject.
struct EchoSeed;

impl Randomness for EchoSeed {
    fn random(subject: &[u8]) -> [u8; 32] {
        let mut out = [0u8; 32];
        out[..4].copy_from_slice(&subject[13..17]);
        out
    }
}

/// Randomness that always gives the largest number.
struct AlwaysMax;

impl Randomness for AlwaysMax {
    fn random(_subject: &[u8]) -> [u8; 32] {
        [0xff; 32]
    }
}

/// Randomness whose first five draws are the largest number, and whose
/// later draws are the draw number.
struct HighThenSeed;

impl Randomness for HighThenSeed {
    fn random(subject: &[u8]) -> [u8; 32] {
        let seed = u32::from_le_bytes([subject[13], subject[14], subject[15], subject[16]]);
        let mut out = [0u8; 32];
        let value = if seed < 5 { u32::MAX } else { seed };
        out[..4].copy_from_slice(&value.to_le_bytes());
        out
    }
}

#[test]
fn subject_is_tag_then_little_endian_seed() {
    assert_eq!(random_subject(0), b"ddc-validator\x00\x00\x00\x00".to_vec());
    assert_eq!(random_subject(0x0102_0304), b"ddc-validator\x04\x03\x02\x01".to_vec());
    assert_eq!(random_subject(127).len(), 17);
}

#[test]
fn number_from_seed_reads_first_four_bytes() {
    let mut seed = [0xaa; 32];
    seed[0] = 0x01;
    seed[1] = 0x02;
    seed[2] = 0x03;
    seed[3] = 0x04;
    assert_eq!(random_number_from_seed(&seed), 0x0403_0201);
    assert_eq!(random_number_from_seed(&[0u8; 32]), 0);
}

#[test]
fn generated_number_follows_the_source() {
    assert_eq!(generate_random_number::<EchoSeed>(77), 77);
    assert_eq!(generate_random_number::<AlwaysMax>(3), u32::MAX);
}

#[test]
fn settle_accepts_below_limit() {
    assert_eq!(settle_draw(10, 0, 42), Some(2));
    assert_eq!(settle_draw(1, 0, u32::MAX - 1), Some(0));
}

#[test]
fn settle_rejects_the_biased_tail() {
    // u32::MAX % 10 == 5, so the limit is u32::MAX - 5.
    assert_eq!(settle_draw(10, 0, u32::MAX - 5), None);
    assert_eq!(settle_draw(10, 0, u32::MAX - 6), Some(((u32::MAX - 6) % 10) as u32));
    // The last allowed draw is taken as it is.
    assert_eq!(settle_draw(10, MAX_DRAWS - 1, u32::MAX), Some(u32::MAX % 10));
}

#[test]
fn choose_nothing_from_zero() {
    assert_eq!(choose_index::<EchoSeed>(0), None);
}

#[test]
fn choose_first_accepted_draw() {
    assert_eq!(choose_index::<EchoSeed>(7), Some(0));
    assert_eq!(choose_index::<HighThenSeed>(2), Some(1));
    assert_eq!(choose_index::<HighThenSeed>(3), Some(5 % 3));
}

#[test]
fn choose_falls_back_to_last_draw() {
    // u32::MAX is always rejected for 2 (limit u32::MAX - 1): the last draw is used.
    assert_eq!(choose_index::<AlwaysMax>(2), Some(1));
    // u32::MAX is a multiple of 3: nothing is accepted, the last draw gives 0.
    assert_eq!(choose_index::<AlwaysMax>(3), Some(0));
}

#[test]
fn choose_stays_in_range() {
    for total in 1..50u32 {
        let i = choose_index::<HighThenSeed>(total).unwrap();
        assert!(i < total);
    }
}

#[test]
fn acceptance_limit_is_a_multiple() {
    for total in [1u32, 2, 3, 7, 10, 1000, u32::MAX] {
        let limit = u32::MAX - u32::MAX % total;
        assert_eq!(limit % total, 0);
        assert!(limit as u64 + total as u64 > u32::MAX as u64);
    }
}

#[test]
fn accepted_draws_spread_evenly() {
    for total in [1u32, 3, 10, 1000, 65_537] {
        let limit = (u32::MAX - u32::MAX % total) as u64;
        let blocks = limit / total as u64;
        for (q, i) in [(0u64, 0u64), (blocks - 1, total as u64 - 1), (blocks / 2, (total / 2) as u64)] {
            let d = q * total as u64 + i;
            assert!(d < limit);
            assert_eq!(d % total as u64, i);
            assert_eq!(d / total as u64, q);
        }
    }
}

#[test]
fn choose_settles_on_first_accepted_draw() {
    // Draws 0..4 are u32::MAX (rejected for 7, since u32::MAX % 7 == 3), draw 5 is 5.
    assert_eq!(u32::MAX % 7, 3);
    assert_eq!(choose_index::<HighThenSeed>(7), Some(5));
}

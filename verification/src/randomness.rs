//! Random choice of a validator: the subject that seeds the runtime's
//! randomness, the number read from its output, and rejection sampling that
//! keeps the modulo from favouring small indices.

use parity_scale_codec::{Decode, Encode};
use vstd::prelude::*;

verus! {

/// The error that `parity_scale_codec` reports when decoding fails.
#[verifier::external_type_specification]
#[verifier::external_body]
pub struct ExCodecError(parity_scale_codec::Error);

/// The source of on-chain randomness that the runtime configures for the
/// pallet. `random` returns the random seed that the chain derives for
/// `subject`; nothing is known of its value.
pub trait Randomness {
    fn random(subject: &[u8]) -> [u8; 32];
}

/// How many numbers the rejection sampling draws at most.
pub const MAX_DRAWS: u32 = 128;

/// The bytes of the tag `ddc-validator` that prefixes every subject.
pub open spec fn seed_tag_bytes() -> Seq<u8> {
    seq![100u8, 100u8, 99u8, 45u8, 118u8, 97u8, 108u8, 105u8, 100u8, 97u8, 116u8, 111u8, 114u8]
}

/// The four little-endian bytes of `x`.
pub open spec fn le_bytes(x: u32) -> Seq<u8> {
    seq![
        (x % 256) as u8,
        ((x / 256) % 256) as u8,
        ((x / 65536) % 256) as u8,
        (x / 16777216) as u8,
    ]
}

/// The `u32` whose little-endian bytes open `b`.
pub open spec fn le_u32(b: Seq<u8>) -> u32
    recommends
        b.len() >= 4,
{
    (b[0] + 256 * b[1] + 65536 * b[2] + 16777216 * b[3]) as u32
}

/// The subject for draw number `seed`: the tag, then the seed in SCALE
/// encoding (four little-endian bytes).
pub open spec fn subject_bytes(seed: u32) -> Seq<u8> {
    seed_tag_bytes() + le_bytes(seed)
}

/// The largest multiple of `total` that is at most `u32::MAX`; a draw below
/// it is accepted.
pub open spec fn acceptance_limit(total: u32) -> int
    recommends
        total > 0,
{
    (u32::MAX as int) - (u32::MAX as int) % (total as int)
}

/// `d` is the number read from a random seed that the source `R` may
/// return for the subject of draw `seed`.
pub open spec fn is_draw<R: Randomness>(seed: u32, d: u32) -> bool {
    exists|subject: &[u8], random_seed: [u8; 32]|
        subject@ == subject_bytes(seed) && call_ensures(R::random, (subject,), random_seed) && d
            == le_u32(random_seed@)
}

/// `draws` is a whole run of the rejection sampling for `total`: draw `j`
/// comes from seed `j`, every draw but the last was rejected (at or above
/// the acceptance limit), and the last one settles the choice (below the
/// limit, or the last allowed draw).
pub open spec fn sampling_run<R: Randomness>(total: u32, draws: Seq<u32>) -> bool {
    &&& 0 < draws.len() <= MAX_DRAWS
    &&& forall|j: int| 0 <= j < draws.len() ==> is_draw::<R>(j as u32, #[trigger] draws[j])
    &&& forall|j: int| 0 <= j < draws.len() - 1 ==> #[trigger] draws[j] >= acceptance_limit(total)
    &&& (draws.last() < acceptance_limit(total) || draws.len() == MAX_DRAWS)
}

/// `index` is what a run of the rejection sampling for `total` settles
/// on: its last draw modulo `total`.
pub open spec fn random_choice<R: Randomness>(total: u32, index: u32) -> bool {
    exists|draws: Seq<u32>| #[trigger]
        sampling_run::<R>(total, draws) && index == draws.last() % total
}

/// SCALE-encodes the pair `(tag, seed)` with `parity_scale_codec`: a fixed
/// array is written byte for byte with no length, a `u32` as its four
/// little-endian bytes, and a tuple as its parts one after the other.
#[verifier::external_body]
fn encode_tag_and_seed(tag: &[u8; 13], seed: u32) -> (r: Vec<u8>)
    ensures
        r@ == tag@ + le_bytes(seed),
{
    (tag, seed).encode()
}

/// Decodes a `u32` from the front of `input` with `parity_scale_codec`:
/// the first four bytes, little-endian; an input shorter than four bytes is
/// an error.
#[verifier::external_body]
fn decode_u32(input: &[u8]) -> (r: Result<u32, parity_scale_codec::Error>)
    ensures
        r is Ok <==> input@.len() >= 4,
        r matches Ok(v) ==> v == le_u32(input@),
{
    let mut bytes = input;
    u32::decode(&mut bytes)
}

/// The tag `ddc-validator` as bytes.
fn seed_tag() -> (r: [u8; 13])
    ensures
        r@ == seed_tag_bytes(),
{
    let r: [u8; 13] = [100u8, 100u8, 99u8, 45u8, 118u8, 97u8, 108u8, 105u8, 100u8, 97u8, 116u8, 111u8, 114u8];
    assert(r@ =~= seed_tag_bytes());
    r
}

/// The subject whose randomness gives draw number `seed`.
pub fn random_subject(seed: u32) -> (r: Vec<u8>)
    ensures
        r@ == subject_bytes(seed),
{
    let tag = seed_tag();
    encode_tag_and_seed(&tag, seed)
}

/// The number read from a random seed: its first four bytes, little-endian.
pub fn random_number_from_seed(random_seed: &[u8; 32]) -> (r: u32)
    ensures
        r == le_u32(random_seed@),
{
    match decode_u32(random_seed.as_slice()) {
        Ok(v) => v,
        Err(_) => {
            proof {
                assert(random_seed@.len() == 32);
            }
            0
        },
    }
}

/// Draw number `seed`: the number read (first four bytes, little-endian)
/// from a random seed that the source `R` returns for the subject of
/// `seed`. What the source returns is not known, so neither is the number.
pub fn generate_random_number<R: Randomness>(seed: u32) -> (r: u32)
    ensures
        is_draw::<R>(seed, r),
{
    let subject = random_subject(seed);
    let random_seed = R::random(subject.as_slice());
    random_number_from_seed(&random_seed)
}

/// What the sampling does with draw number `attempt`: a draw below the
/// acceptance limit, or the last allowed draw, settles the choice at the
/// draw modulo `total`; any other draw is rejected (`None`).
pub fn settle_draw(total: u32, attempt: u32, draw: u32) -> (r: Option<u32>)
    requires
        total > 0,
    ensures
        (draw < acceptance_limit(total) || attempt + 1 >= MAX_DRAWS) ==> r == Some(
            (draw % total) as u32,
        ),
        !(draw < acceptance_limit(total) || attempt + 1 >= MAX_DRAWS) ==> r is None,
{
    if draw < u32::MAX - u32::MAX % total || attempt >= MAX_DRAWS - 1 {
        Some(draw % total)
    } else {
        None
    }
}

/// A random index below `total`, or `None` when `total` is zero. Draws are
/// taken in turn (seeds 0, 1, ...) until one falls below the acceptance
/// limit; the last of the `MAX_DRAWS` draws is taken as it is. The index is
/// the settling draw modulo `total`.
pub fn choose_index<R: Randomness>(total: u32) -> (r: Option<u32>)
    ensures
        r is None <==> total == 0,
        r matches Some(index) ==> index < total && random_choice::<R>(total, index),
{
    if total == 0 {
        return None;
    }
    let mut attempt: u32 = 0;
    let ghost mut draws: Seq<u32> = Seq::empty();
    loop
        invariant
            total > 0,
            attempt < MAX_DRAWS,
            draws.len() == attempt,
            forall|j: int| 0 <= j < draws.len() ==> is_draw::<R>(j as u32, #[trigger] draws[j]),
            forall|j: int| 0 <= j < draws.len() ==> #[trigger] draws[j] >= acceptance_limit(total),
        decreases MAX_DRAWS - attempt,
    {
        let draw = generate_random_number::<R>(attempt);
        let ghost run = draws.push(draw);
        assert(run[attempt as int] == draw);
        match settle_draw(total, attempt, draw) {
            Some(index) => {
                proof {
                    assert(sampling_run::<R>(total, run));
                }
                return Some(index);
            },
            None => {
                proof {
                    draws = run;
                }
                attempt = attempt + 1;
            },
        }
    }
}

/// Rejection sampling is fair: the acceptance limit is a multiple of
/// `total`, so every index is reached by as many accepted draws, and fewer
/// than `total` of all `u32` values are rejected.
pub proof fn law_acceptance_is_unbiased(total: u32)
    requires
        total > 0,
    ensures
        acceptance_limit(total) % (total as int) == 0,
        acceptance_limit(total) > u32::MAX - total,
        acceptance_limit(total) >= total,
{
    let t = total as int;
    let m = u32::MAX as int;
    vstd::arithmetic::div_mod::lemma_fundamental_div_mod(m, t);
    vstd::arithmetic::div_mod::lemma_mod_pos_bound(m, t);
    assert(acceptance_limit(total) == t * (m / t));
    vstd::arithmetic::mul::lemma_mul_is_commutative(t, m / t);
    vstd::arithmetic::div_mod::lemma_mod_multiples_basic(m / t, t);
    assert(m / t >= 1) by {
        vstd::arithmetic::div_mod::lemma_div_is_ordered(t, m, t);
        vstd::arithmetic::div_mod::lemma_div_by_self(t);
    }
    vstd::arithmetic::mul::lemma_mul_inequality(1, m / t, t);
}

/// The accepted draws cover every index equally often: with `blocks` the
/// acceptance limit divided by `total`, the accepted draws are exactly the
/// numbers `q * total + i` with `q < blocks` and `i < total`, and such a
/// draw settles on index `i`. So each index is settled on by exactly
/// `blocks` of the accepted draws.
pub proof fn law_accepted_draws_spread_evenly(total: u32, q: int, i: int, d: int)
    requires
        total > 0,
    ensures
        0 <= q < acceptance_limit(total) / (total as int) && 0 <= i < total ==> {
            &&& 0 <= q * total + i < acceptance_limit(total)
            &&& (q * total + i) % (total as int) == i
            &&& (q * total + i) / (total as int) == q
        },
        0 <= d < acceptance_limit(total) ==> {
            &&& d / (total as int) < acceptance_limit(total) / (total as int)
            &&& d == (d / (total as int)) * total + d % (total as int)
        },
{
    let t = total as int;
    let m = u32::MAX as int;
    let blocks = m / t;
    vstd::arithmetic::div_mod::lemma_fundamental_div_mod(m, t);
    vstd::arithmetic::div_mod::lemma_mod_pos_bound(m, t);
    vstd::arithmetic::mul::lemma_mul_is_commutative(t, blocks);
    assert(acceptance_limit(total) == blocks * t);
    vstd::arithmetic::div_mod::lemma_fundamental_div_mod_converse(blocks * t, t, blocks, 0);
    if 0 <= q < acceptance_limit(total) / t && 0 <= i < t {
        vstd::arithmetic::mul::lemma_mul_inequality(q, blocks - 1, t);
        vstd::arithmetic::mul::lemma_mul_is_distributive_sub_other_way(t, blocks, 1);
        vstd::arithmetic::mul::lemma_mul_nonnegative(q, t);
        vstd::arithmetic::div_mod::lemma_fundamental_div_mod_converse(q * t + i, t, q, i);
    }
    if 0 <= d < acceptance_limit(total) {
        vstd::arithmetic::div_mod::lemma_fundamental_div_mod(d, t);
        vstd::arithmetic::mul::lemma_mul_is_commutative(t, d / t);
        vstd::arithmetic::div_mod::lemma_div_is_ordered(d, blocks * t - 1, t);
        vstd::arithmetic::mul::lemma_mul_is_distributive_sub_other_way(t, blocks, 1);
        vstd::arithmetic::div_mod::lemma_fundamental_div_mod_converse(blocks * t - 1, t, blocks - 1, t - 1);
    }
}

} // verus!

//! Eras: the clock of the data provider is divided into eras of fixed
//! length, and the offchain workers act on every `ERA_IN_BLOCKS`-th block.

use vstd::prelude::*;

verus! {

/// How long an HTTP request of an offchain worker may take.
pub const HTTP_TIMEOUT_MS: u64 = 30_000;

/// The instant (Unix milliseconds) at which era 0 begins.
pub const TIME_START_MS: u64 = 1_672_531_200_000;

/// The length of one era in milliseconds.
pub const ERA_DURATION_MS: u64 = 120_000;

/// The offchain workers act on blocks whose number is a multiple of this.
pub const ERA_IN_BLOCKS: u8 = 20;

/// The era that the instant `now_ms` falls in.
pub open spec fn era_at(now_ms: u64) -> int
    recommends
        now_ms >= TIME_START_MS,
{
    (now_ms - TIME_START_MS) / (ERA_DURATION_MS as int)
}

/// The current era at the instant `now_ms` (Unix milliseconds).
pub fn get_current_era(now_ms: u64) -> (era: u64)
    requires
        now_ms >= TIME_START_MS,
    ensures
        era == era_at(now_ms),
{
    (now_ms - TIME_START_MS) / ERA_DURATION_MS
}

/// Whether the offchain workers act on block `block_number`.
pub fn is_validation_block(block_number: u64) -> (r: bool)
    ensures
        r == (block_number % (ERA_IN_BLOCKS as u64) == 0),
{
    block_number % (ERA_IN_BLOCKS as u64) == 0
}

/// The era before the current one: the last era whose traffic is complete.
pub fn previous_era(now_ms: u64) -> (era: u64)
    requires
        now_ms >= TIME_START_MS + ERA_DURATION_MS,
    ensures
        era == era_at(now_ms) - 1,
{
    let current = get_current_era(now_ms);
    proof {
        vstd::arithmetic::div_mod::lemma_div_is_ordered(
            ERA_DURATION_MS as int,
            now_ms - TIME_START_MS,
            ERA_DURATION_MS as int,
        );
    }
    current - 1
}

/// Eras never run backwards: a later instant is in the same era or a later
/// one.
pub proof fn law_era_is_monotonic(earlier_ms: u64, later_ms: u64)
    requires
        TIME_START_MS <= earlier_ms <= later_ms,
    ensures
        era_at(earlier_ms) <= era_at(later_ms),
{
    vstd::arithmetic::div_mod::lemma_div_is_ordered(
        earlier_ms - TIME_START_MS,
        later_ms - TIME_START_MS,
        ERA_DURATION_MS as int,
    );
}

/// An era lasts exactly `ERA_DURATION_MS`: moving `ERA_DURATION_MS` later
/// moves exactly one era on.
pub proof fn law_one_era_per_duration(now_ms: u64)
    requires
        TIME_START_MS <= now_ms <= u64::MAX - ERA_DURATION_MS,
    ensures
        era_at((now_ms + ERA_DURATION_MS) as u64) == era_at(now_ms) + 1,
{
    let d = ERA_DURATION_MS as int;
    let x = now_ms - TIME_START_MS;
    vstd::arithmetic::div_mod::lemma_div_plus_one(x, d);
}

} // verus!

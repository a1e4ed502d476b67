//! Saturating arithmetic used by the accounting engine and the proof store.
//!
//! All counters and balances in this crate saturate at the top of their
//! integer type instead of wrapping or panicking. The spec functions here
//! give the mathematical meaning of that discipline, and the executable
//! helpers are proved against them.

use vstd::prelude::*;

verus! {

/// Clamp a mathematical integer into the range of `u128`.
pub open spec fn sat_u128(x: int) -> u128 {
    if x > u128::MAX {
        u128::MAX
    } else if x < 0 {
        0
    } else {
        x as u128
    }
}

/// Clamp a mathematical integer into the range of `u64`.
pub open spec fn sat_u64(x: int) -> u64 {
    if x > u64::MAX {
        u64::MAX
    } else if x < 0 {
        0
    } else {
        x as u64
    }
}

/// Clamp a mathematical integer into the range of `u32`.
pub open spec fn sat_u32(x: int) -> u32 {
    if x > u32::MAX {
        u32::MAX
    } else if x < 0 {
        0
    } else {
        x as u32
    }
}

/// Saturating product of two `u128` values.
pub fn sat_mul_u128(a: u128, b: u128) -> (r: u128)
    ensures
        r == sat_u128(a as int * b as int),
{
    match a.checked_mul(b) {
        Some(v) => v,
        None => u128::MAX,
    }
}

/// Saturating sum of two `u128` values.
pub fn sat_add_u128(a: u128, b: u128) -> (r: u128)
    ensures
        r == sat_u128(a as int + b as int),
{
    a.saturating_add(b)
}

/// Saturating sum of two `u64` values.
pub fn sat_add_u64(a: u64, b: u64) -> (r: u64)
    ensures
        r == sat_u64(a as int + b as int),
{
    a.saturating_add(b)
}

/// Saturating sum of two `u32` values.
pub fn sat_add_u32(a: u32, b: u32) -> (r: u32)
    ensures
        r == sat_u32(a as int + b as int),
{
    a.saturating_add(b)
}

} // verus!

//! Conversions and arithmetic that hold a value at the end of its range.
use vstd::prelude::*;

verus! {

/// A `u64` held within `u16`.
pub open spec fn spec_u64_to_u16(input: u64) -> u16 {
    if input > u16::MAX {
        u16::MAX
    } else {
        input as u16
    }
}

/// Converts a `u64` to `u16`, capping at the largest `u16`.
pub fn u64_to_u16(input: u64) -> (capped: u16)
    ensures
        capped == spec_u64_to_u16(input),
{
    if input > 65535 {
        u16::MAX
    } else {
        input as u16
    }
}

/// A `usize` held within `u16`.
pub open spec fn spec_usize_to_u16(input: usize) -> u16 {
    if input > u16::MAX {
        u16::MAX
    } else {
        input as u16
    }
}

/// Converts a `usize` to `u16`, capping at the largest `u16`.
pub fn usize_to_u16(input: usize) -> (capped: u16)
    ensures
        capped == spec_usize_to_u16(input),
{
    if input > 65535 {
        u16::MAX
    } else {
        input as u16
    }
}

/// A product held within `u64`.
pub open spec fn sat_mul_u64(a: u64, b: u64) -> u64 {
    if a * b > u64::MAX {
        u64::MAX
    } else {
        (a * b) as u64
    }
}

/// A product held within `u16`.
pub open spec fn sat_mul_u16(a: u16, b: u16) -> u16 {
    if a * b > u16::MAX {
        u16::MAX
    } else {
        (a * b) as u16
    }
}

pub fn saturating_mul_u64(a: u64, b: u64) -> (product: u64)
    ensures
        product == sat_mul_u64(a, b),
{
    match a.checked_mul(b) {
        Some(product) => product,
        None => u64::MAX,
    }
}

pub fn saturating_mul_u16(a: u16, b: u16) -> (product: u16)
    ensures
        product == sat_mul_u16(a, b),
{
    match a.checked_mul(b) {
        Some(product) => product,
        None => u16::MAX,
    }
}

} // verus!

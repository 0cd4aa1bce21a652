use vstd::prelude::*;

verus! {

/// `a + b` clamped into the `u64` range.
pub open spec fn cap_add(a: int, b: int) -> int {
    if a + b > u64::MAX {
        u64::MAX as int
    } else {
        a + b
    }
}

/// `a * b` clamped into the `u64` range.
pub open spec fn cap_mul(a: int, b: int) -> int {
    if a * b > u64::MAX {
        u64::MAX as int
    } else {
        a * b
    }
}

/// Saturating addition on `u64`, matching `cap_add` exactly.
pub fn sat_add(a: u64, b: u64) -> (r: u64)
    ensures
        r == cap_add(a as int, b as int),
{
    a.saturating_add(b)
}

/// Saturating multiplication on `u64`, matching `cap_mul` exactly.
pub fn sat_mul(a: u64, b: u64) -> (r: u64)
    ensures
        r == cap_mul(a as int, b as int),
{
    match a.checked_mul(b) {
        Some(r) => r,
        None => u64::MAX,
    }
}

/// `a + b` clamped into the `i32` range.
pub open spec fn cap_add_i32(a: int, b: int) -> int {
    if a + b > i32::MAX {
        i32::MAX as int
    } else if a + b < i32::MIN {
        i32::MIN as int
    } else {
        a + b
    }
}

/// Saturating addition on `i32`, matching `cap_add_i32` exactly.
pub fn sat_add_i32(a: i32, b: i32) -> (r: i32)
    ensures
        r == cap_add_i32(a as int, b as int),
{
    match a.checked_add(b) {
        Some(r) => r,
        None => if b > 0 {
            i32::MAX
        } else {
            i32::MIN
        },
    }
}

/// `a - b` clamped into the `i32` range.
pub open spec fn cap_sub_i32(a: int, b: int) -> int {
    if a - b > i32::MAX {
        i32::MAX as int
    } else if a - b < i32::MIN {
        i32::MIN as int
    } else {
        a - b
    }
}

/// Saturating subtraction on `i32`, matching `cap_sub_i32` exactly.
pub fn sat_sub_i32(a: i32, b: i32) -> (r: i32)
    ensures
        r == cap_sub_i32(a as int, b as int),
{
    match a.checked_sub(b) {
        Some(r) => r,
        None => if b < 0 {
            i32::MAX
        } else {
            i32::MIN
        },
    }
}

} // verus!

//! Total arithmetic helpers shared by every pass: two's-complement wrapping
//! on heights, truncating division with an explicit fallback for its one
//! overflowing case, and the uniform conversion-fallback helpers used at the
//! unsigned/signed boundaries of the hash arithmetic.
use vstd::prelude::*;

verus! {

/// Wrapped 32-bit addition.
pub open spec fn wadd(a: i32, b: i32) -> i32 {
    vstd::wrapping::i32_specs::wrapping_add(a, b)
}

/// Wrapped 32-bit subtraction.
pub open spec fn wsub(a: i32, b: i32) -> i32 {
    vstd::wrapping::i32_specs::wrapping_sub(a, b)
}

/// Wrapped 32-bit multiplication.
pub open spec fn wmul(a: i32, b: i32) -> i32 {
    vstd::wrapping::i32_specs::wrapping_mul(a, b)
}

/// Wrapped word-size addition.
pub open spec fn uwadd(a: usize, b: usize) -> usize {
    vstd::wrapping::usize_specs::wrapping_add(a, b)
}

/// Wrapped word-size multiplication.
pub open spec fn uwmul(a: usize, b: usize) -> usize {
    vstd::wrapping::usize_specs::wrapping_mul(a, b)
}

/// Truncating (round-toward-zero) division on mathematical integers.
pub open spec fn tdiv_int(x: int, d: int) -> int {
    if x == 0 {
        0
    } else if x > 0 && d > 0 {
        x / d
    } else if x < 0 && d < 0 {
        (x * -1) / (d * -1)
    } else if x < 0 {
        ((x * -1) / d) * -1
    } else {
        (x / (d * -1)) * -1
    }
}

/// Truncating remainder (sign follows the dividend) on mathematical integers.
pub open spec fn trem_int(x: int, d: int) -> int {
    if x == 0 {
        0
    } else if x > 0 && d > 0 {
        x % d
    } else if x < 0 && d < 0 {
        ((x * -1) % (d * -1)) * -1
    } else if x < 0 {
        ((x * -1) % d) * -1
    } else {
        x % (d * -1)
    }
}

/// 32-bit truncating division; the one overflowing quotient wraps.
pub open spec fn div32(x: i32, d: i32) -> i32 {
    if x == i32::MIN && d == -1 {
        i32::MIN
    } else {
        tdiv_int(x as int, d as int) as i32
    }
}

/// 32-bit truncating remainder; the one overflowing case is zero.
pub open spec fn rem32(x: i32, d: i32) -> i32 {
    if x == i32::MIN && d == -1 {
        0
    } else {
        trem_int(x as int, d as int) as i32
    }
}

/// The truncating quotient of two heights stays representable, except for the
/// one overflowing pair.
pub proof fn lemma_tdiv_in_range(x: int, d: int)
    requires
        i32::MIN <= x <= i32::MAX,
        d != 0,
        !(x == i32::MIN && d == -1),
    ensures
        i32::MIN <= tdiv_int(x, d) <= i32::MAX,
{
    if x > 0 && d > 0 {
        vstd::arithmetic::div_mod::lemma_div_pos_is_pos(x, d);
        vstd::arithmetic::div_mod::lemma_div_nonincreasing(x, d);
    } else if x < 0 && d < 0 {
        vstd::arithmetic::div_mod::lemma_div_pos_is_pos(x * -1, d * -1);
        if x == i32::MIN {
            vstd::arithmetic::div_mod::lemma_div_is_ordered_by_denominator(x * -1, 2, d * -1);
        } else {
            vstd::arithmetic::div_mod::lemma_div_nonincreasing(x * -1, d * -1);
        }
    } else if x < 0 {
        vstd::arithmetic::div_mod::lemma_div_pos_is_pos(x * -1, d);
        vstd::arithmetic::div_mod::lemma_div_nonincreasing(x * -1, d);
    } else if x > 0 {
        vstd::arithmetic::div_mod::lemma_div_pos_is_pos(x, d * -1);
        vstd::arithmetic::div_mod::lemma_div_nonincreasing(x, d * -1);
    }
}

/// Executable truncating division on heights.
pub fn exec_div32(x: i32, d: i32) -> (r: i32)
    requires
        d != 0,
    ensures
        r == div32(x, d),
{
    proof {
        if !(x == i32::MIN && d == -1) {
            lemma_tdiv_in_range(x as int, d as int);
        }
    }
    match x.checked_div(d) {
        Some(v) => v,
        None => i32::MIN,
    }
}

/// Executable truncating remainder on heights.
pub fn exec_rem32(x: i32, d: i32) -> (r: i32)
    requires
        d != 0,
    ensures
        r == rem32(x, d),
{
    match x.checked_rem(d) {
        Some(v) => v,
        None => 0,
    }
}

/// A signed value converts to unsigned where it can; otherwise the given
/// default stands in.
pub open spec fn usize_of_i32_or(v: i32, d: usize) -> usize {
    if v >= 0 {
        v as usize
    } else {
        d
    }
}

/// Executable form of [`usize_of_i32_or`].
pub fn exec_usize_of_i32_or(v: i32, d: usize) -> (r: usize)
    ensures
        r == usize_of_i32_or(v, d),
{
    if v >= 0 {
        v as usize
    } else {
        d
    }
}

/// An unsigned value converts to a height where it fits; otherwise the given
/// default stands in.
pub open spec fn i32_of_usize_or(v: usize, d: i32) -> i32 {
    if v <= i32::MAX as usize {
        v as i32
    } else {
        d
    }
}

/// Executable form of [`i32_of_usize_or`].
pub fn exec_i32_of_usize_or(v: usize, d: i32) -> (r: i32)
    ensures
        r == i32_of_usize_or(v, d),
{
    if v <= i32::MAX as usize {
        v as i32
    } else {
        d
    }
}

/// The magnitude of a height as an unsigned word; the one height without a
/// representable magnitude falls back to 1.
pub open spec fn abs_usize_or_one(v: i32) -> usize {
    if v == i32::MIN {
        1
    } else if v < 0 {
        (-v) as usize
    } else {
        v as usize
    }
}

/// Executable form of [`abs_usize_or_one`].
pub fn exec_abs_usize_or_one(v: i32) -> (r: usize)
    ensures
        r == abs_usize_or_one(v),
{
    if v == i32::MIN {
        1
    } else if v < 0 {
        (-v) as usize
    } else {
        v as usize
    }
}

} // verus!

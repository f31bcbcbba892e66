use vstd::prelude::*;
use vstd::arithmetic::power2::pow2;
use vstd::bits::lemma_u64_shr_is_div;

verus! {

/// One spreadsheet cell as the row assembler sees it.
///
/// A numeric cell carries the IEEE-754 binary64 bit pattern of its value, so
/// that values pass through the library exactly as they were read.
#[derive(Clone, Copy, Debug, PartialEq, Eq, Structural)]
pub enum Cell {
    Number(u64),
    Empty,
    Text,
    Other,
}

/// Bit pattern of the binary64 value `0.0`, the value of a missing field cell.
pub const ZERO_BITS: u64 = 0;

pub const SIGN_UNIT: u64 = 0x8000_0000_0000_0000;

pub const EXPONENT_UNIT: u64 = 0x10_0000_0000_0000;

pub open spec fn sign_of(bits: u64) -> nat {
    (bits / SIGN_UNIT) as nat
}

pub open spec fn exponent_of(bits: u64) -> nat {
    ((bits / EXPONENT_UNIT) % 2048) as nat
}

pub open spec fn mantissa_of(bits: u64) -> nat {
    (bits % EXPONENT_UNIT) as nat
}

/// The binary64 value is a NaN.
pub open spec fn is_nan(bits: u64) -> bool {
    exponent_of(bits) == 2047 && mantissa_of(bits) != 0
}

/// The value of `bits` truncated toward zero and saturated to the `i32`
/// range; a NaN gives 0 (the semantics of a float-to-`i32` cast).
///
/// A value with exponent below 1023 has magnitude under 1; one with exponent
/// 1054 or more (the infinities included) has magnitude at least 2^31.
/// Otherwise the magnitude is the significand `1.m` scaled by `2^k`, where
/// `k = exponent - 1023 <= 30`, with the fraction cut off.
pub open spec fn trunc_id(bits: u64) -> i32 {
    let e = exponent_of(bits);
    if is_nan(bits) {
        0
    } else if e < 1023 {
        0
    } else if e >= 1023 + 31 {
        if sign_of(bits) == 1 { i32::MIN } else { i32::MAX }
    } else {
        let k = (e - 1023) as nat;
        let mag = (mantissa_of(bits) + pow2(52)) / pow2((52 - k) as nat);
        if sign_of(bits) == 1 {
            if mag > 0x8000_0000 { i32::MIN } else { (-mag) as i32 }
        } else {
            if mag > 0x7fff_ffff { i32::MAX } else { mag as i32 }
        }
    }
}

/// Truncates a binary64 value, given by its bit pattern, to an `i32`
/// identifier.
pub fn truncate_to_id(bits: u64) -> (r: i32)
    ensures
        r == trunc_id(bits),
{
    let sign: u64 = bits / SIGN_UNIT;
    let e: u64 = (bits / EXPONENT_UNIT) % 2048;
    let m: u64 = bits % EXPONENT_UNIT;
    if e == 2047 && m != 0 {
        0
    } else if e < 1023 {
        0
    } else if e >= 1023 + 31 {
        if sign == 1 { i32::MIN } else { i32::MAX }
    } else {
        let k: u64 = e - 1023;
        let shift: u64 = 52 - k;
        let full: u64 = m + EXPONENT_UNIT;
        let mag: u64 = full >> shift;
        proof {
            lemma_u64_shr_is_div(full, shift);
            vstd::arithmetic::power2::lemma2_to64();
            vstd::arithmetic::power2::lemma2_to64_rest();
        }
        if sign == 1 {
            if mag > 0x8000_0000 { i32::MIN } else { (0 - (mag as i64)) as i32 }
        } else {
            if mag > 0x7fff_ffff { i32::MAX } else { mag as i32 }
        }
    }
}

/// The field value that `row` holds at column `col`: the bit pattern of a
/// numeric cell, else that of `0.0`.
pub open spec fn field_at(row: Seq<Cell>, col: int) -> u64 {
    if 0 <= col < row.len() {
        match row[col] {
            Cell::Number(b) => b,
            _ => ZERO_BITS,
        }
    } else {
        ZERO_BITS
    }
}

/// Reads a field column of a row, defaulting a missing or non-numeric cell
/// to `0.0`.
pub fn read_field(row: &Vec<Cell>, col: usize) -> (r: u64)
    ensures
        r == field_at(row@, col as int),
{
    if col < row.len() {
        match row[col] {
            Cell::Number(b) => b,
            _ => ZERO_BITS,
        }
    } else {
        ZERO_BITS
    }
}

} // verus!

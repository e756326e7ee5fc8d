//! Floating-point numbers by their bits, of single precision where nothing else is said.
//!
//! A number that the library only passes on or compares is held as the bits of its IEEE 754
//! form: a sign bit, and 31 bits of magnitude that grow with the number. Magnitudes above that
//! of infinity are not numbers.
use vstd::prelude::*;

verus! {

/// The sign bit.
pub const SIGN: u32 = 0x8000_0000;

/// The magnitude of infinity.
pub const INFINITE: u32 = 0x7f80_0000;

/// The bits of 1.0.
pub const ONE: u32 = 0x3f80_0000;

/// Whether the bits are no number.
pub open spec fn not_a_number(bits: u32) -> bool {
    if bits < SIGN {
        bits > INFINITE
    } else {
        bits - SIGN > INFINITE
    }
}

/// An integer that orders numbers by their bits: the magnitude with its sign. The two zeros
/// have one place.
pub open spec fn place(bits: u32) -> int {
    if bits < SIGN {
        bits as int
    } else {
        SIGN - bits
    }
}

/// `a < b`, for the numbers with these bits. Nothing is less or greater than what is no number.
pub open spec fn less_spec(a: u32, b: u32) -> bool {
    !not_a_number(a) && !not_a_number(b) && place(a) < place(b)
}

/// `a == b`, for the numbers with these bits: the two zeros are equal, and what is no number
/// equals nothing.
pub open spec fn equal_spec(a: u32, b: u32) -> bool {
    !not_a_number(a) && !not_a_number(b) && place(a) == place(b)
}

/// `0.0 <= x <= 1.0`, for the number with these bits.
pub open spec fn in_unit_range_spec(bits: u32) -> bool {
    !not_a_number(bits) && place(0) <= place(bits) <= place(ONE)
}

fn is_nan(bits: u32) -> (r: bool)
    ensures
        r == not_a_number(bits),
{
    if bits < SIGN {
        bits > INFINITE
    } else {
        bits - SIGN > INFINITE
    }
}

fn key(bits: u32) -> (r: i64)
    ensures
        r == place(bits),
{
    if bits < SIGN {
        bits as i64
    } else {
        SIGN as i64 - bits as i64
    }
}

/// `a < b`, for the numbers with these bits.
pub fn less(a: u32, b: u32) -> (r: bool)
    ensures
        r == less_spec(a, b),
{
    !is_nan(a) && !is_nan(b) && key(a) < key(b)
}

/// `a == b`, for the numbers with these bits.
pub fn equal(a: u32, b: u32) -> (r: bool)
    ensures
        r == equal_spec(a, b),
{
    !is_nan(a) && !is_nan(b) && key(a) == key(b)
}

/// `0.0 <= x <= 1.0`, for the number with these bits.
pub fn in_unit_range(bits: u32) -> (r: bool)
    ensures
        r == in_unit_range_spec(bits),
{
    !is_nan(bits) && 0 <= key(bits) && key(bits) <= key(ONE)
}

/// `a <= b`, for the numbers with these bits.
pub fn at_most(a: u32, b: u32) -> (r: bool)
    ensures
        r == (!not_a_number(a) && !not_a_number(b) && place(a) <= place(b)),
{
    !is_nan(a) && !is_nan(b) && key(a) <= key(b)
}

/// Whether the bits are those of a finite number.
pub open spec fn finite_spec(bits: u32) -> bool {
    if bits < SIGN {
        bits < INFINITE
    } else {
        bits - SIGN < INFINITE
    }
}

/// Whether the bits are those of a finite number.
pub fn is_finite(bits: u32) -> (r: bool)
    ensures
        r == finite_spec(bits),
{
    if bits < SIGN {
        bits < INFINITE
    } else {
        bits - SIGN < INFINITE
    }
}

/// The numbers from 0.0 to 1.0 are those with the bits up to those of 1.0, and the negative
/// zero.
pub proof fn unit_range_by_bits(bits: u32)
    ensures
        in_unit_range_spec(bits) <==> bits <= ONE || bits == SIGN,
{
}

/// The sign bit of a double-precision number.
pub const SIGN_64: u64 = 0x8000_0000_0000_0000;

/// The magnitude of infinity in double precision.
pub const INFINITE_64: u64 = 0x7ff0_0000_0000_0000;

/// Whether the bits of a double-precision number are those of a finite one.
pub open spec fn finite_64_spec(bits: u64) -> bool {
    if bits < SIGN_64 {
        bits < INFINITE_64
    } else {
        bits - SIGN_64 < INFINITE_64
    }
}

/// Whether the bits of a double-precision number are those of a finite one.
pub fn is_finite_64(bits: u64) -> (r: bool)
    ensures
        r == finite_64_spec(bits),
{
    if bits < SIGN_64 {
        bits < INFINITE_64
    } else {
        bits - SIGN_64 < INFINITE_64
    }
}

/// Whether the bits of double precision are no number.
pub open spec fn not_a_number_64(bits: u64) -> bool {
    if bits < SIGN_64 {
        bits > INFINITE_64
    } else {
        bits - SIGN_64 > INFINITE_64
    }
}

/// An integer that orders double-precision numbers by their bits.
pub open spec fn place_64(bits: u64) -> int {
    if bits < SIGN_64 {
        bits as int
    } else {
        SIGN_64 - bits
    }
}

/// `a < b`, for the double-precision numbers with these bits.
pub open spec fn less_64_spec(a: u64, b: u64) -> bool {
    !not_a_number_64(a) && !not_a_number_64(b) && place_64(a) < place_64(b)
}

fn is_nan_64(bits: u64) -> (r: bool)
    ensures
        r == not_a_number_64(bits),
{
    if bits < SIGN_64 {
        bits > INFINITE_64
    } else {
        bits - SIGN_64 > INFINITE_64
    }
}

fn key_64(bits: u64) -> (r: i128)
    ensures
        r == place_64(bits),
{
    if bits < SIGN_64 {
        bits as i128
    } else {
        SIGN_64 as i128 - bits as i128
    }
}

/// `a < b`, for the double-precision numbers with these bits.
pub fn less_64(a: u64, b: u64) -> (r: bool)
    ensures
        r == less_64_spec(a, b),
{
    !is_nan_64(a) && !is_nan_64(b) && key_64(a) < key_64(b)
}

// ---------------------------------------------------------------------------
// Laws
// ---------------------------------------------------------------------------
/// Numbers are ordered as IEEE 754 lays them out, for magnitudes `a` and `b` of numbers: those
/// without the sign bit by their magnitude, those with it the other way round and below the
/// others; the two zeros are equal.
pub proof fn numbers_are_ordered_by_sign_and_magnitude(a: u32, b: u32)
    requires
        a <= 0x7f80_0000,
        b <= 0x7f80_0000,
    ensures
        ({
            let minus_a = (0x8000_0000 + a) as u32;
            let minus_b = (0x8000_0000 + b) as u32;
            &&& less_spec(a, b) <==> a < b
            &&& less_spec(minus_a, minus_b) <==> b < a
            &&& less_spec(minus_a, b) <==> a > 0 || b > 0
            &&& !less_spec(a, minus_b)
            &&& equal_spec(a, b) <==> a == b
            &&& equal_spec(minus_a, minus_b) <==> a == b
            &&& equal_spec(minus_a, b) <==> a == 0 && b == 0
            &&& in_unit_range_spec(a) <==> a <= 0x3f80_0000
            &&& in_unit_range_spec(minus_a) <==> a == 0
            &&& finite_spec(a) <==> a < 0x7f80_0000
            &&& finite_spec(minus_a) <==> a < 0x7f80_0000
        }),
{
}

/// What is no number, with or without the sign bit, is neither less than anything nor equal to
/// anything, itself included, and is not finite.
pub proof fn what_is_no_number_is_not_ordered(magnitude: u32, b: u32)
    requires
        0x7f80_0000 < magnitude < 0x8000_0000,
    ensures
        forall|a: u32|
            a == magnitude || a == 0x8000_0000 + magnitude ==> {
                &&& !(#[trigger] less_spec(a, b))
                &&& !less_spec(b, a)
                &&& !equal_spec(a, b)
                &&& !equal_spec(b, a)
                &&& !in_unit_range_spec(a)
                &&& !finite_spec(a)
            },
{
}

/// The same of double-precision numbers.
pub proof fn double_numbers_are_ordered_by_sign_and_magnitude(a: u64, b: u64)
    requires
        a <= 0x7ff0_0000_0000_0000,
        b <= 0x7ff0_0000_0000_0000,
    ensures
        ({
            let minus_a = (0x8000_0000_0000_0000 + a) as u64;
            let minus_b = (0x8000_0000_0000_0000 + b) as u64;
            &&& less_64_spec(a, b) <==> a < b
            &&& less_64_spec(minus_a, minus_b) <==> b < a
            &&& less_64_spec(minus_a, b) <==> a > 0 || b > 0
            &&& !less_64_spec(a, minus_b)
            &&& finite_64_spec(a) <==> a < 0x7ff0_0000_0000_0000
            &&& finite_64_spec(minus_a) <==> a < 0x7ff0_0000_0000_0000
        }),
{
}

/// The same of what is no number in double precision.
pub proof fn what_is_no_double_number_is_not_ordered(magnitude: u64, b: u64)
    requires
        0x7ff0_0000_0000_0000 < magnitude < 0x8000_0000_0000_0000,
    ensures
        forall|a: u64|
            a == magnitude || a == 0x8000_0000_0000_0000 + magnitude ==> {
                &&& !(#[trigger] less_64_spec(a, b))
                &&& !less_64_spec(b, a)
                &&& !finite_64_spec(a)
            },
{
}

} // verus!

//! Comparing floats by their bit patterns.

use vstd::arithmetic::div_mod::lemma_basic_div;
use vstd::arithmetic::power2::{
    lemma2_to64, lemma2_to64_rest, lemma_pow2_strictly_increases, lemma_pow2_unfold, pow2,
};
use vstd::prelude::*;

verus! {

/// The 32-bit pattern of `1.0`.
pub const ONE: u32 = 0x3f80_0000;

/// The pattern is not a number.
pub open spec fn is_nan32(bits: u32) -> bool {
    (0x7f80_0000 < bits && bits < 0x8000_0000) || 0xff80_0000 < bits
}

/// A number that orders the patterns as the floats they stand for; both zeros
/// have the same.
pub open spec fn rank32(bits: u32) -> int {
    if bits < 0x8000_0000 {
        bits as int
    } else {
        -(bits - 0x8000_0000)
    }
}

/// The float of `a` is less than that of `b`.
pub open spec fn below32(a: u32, b: u32) -> bool {
    !is_nan32(a) && !is_nan32(b) && rank32(a) < rank32(b)
}

/// Whether the float of `a` is less than that of `b`; never with a NaN.
pub fn less32(a: u32, b: u32) -> (r: bool)
    ensures
        r == below32(a, b),
{
    let nan_a = (0x7f80_0000 < a && a < 0x8000_0000) || 0xff80_0000 < a;
    let nan_b = (0x7f80_0000 < b && b < 0x8000_0000) || 0xff80_0000 < b;
    if nan_a || nan_b {
        false
    } else if a < 0x8000_0000 {
        b < 0x8000_0000 && a < b
    } else if b < 0x8000_0000 {
        a != 0x8000_0000 || b != 0
    } else {
        b < a
    }
}

/// The pattern is not a number.
pub open spec fn is_nan64(bits: u64) -> bool {
    (0x7ff0_0000_0000_0000 < bits && bits < 0x8000_0000_0000_0000) || 0xfff0_0000_0000_0000 < bits
}

/// A number that orders the patterns as the floats they stand for; both zeros
/// have the same.
pub open spec fn rank64(bits: u64) -> int {
    if bits < 0x8000_0000_0000_0000 {
        bits as int
    } else {
        -(bits - 0x8000_0000_0000_0000)
    }
}

/// The float of `a` is less than that of `b`.
pub open spec fn below64(a: u64, b: u64) -> bool {
    !is_nan64(a) && !is_nan64(b) && rank64(a) < rank64(b)
}

/// Whether the float of `a` is less than that of `b`; never with a NaN.
pub fn less64(a: u64, b: u64) -> (r: bool)
    ensures
        r == below64(a, b),
{
    let nan_a = (0x7ff0_0000_0000_0000 < a && a < 0x8000_0000_0000_0000) || 0xfff0_0000_0000_0000
        < a;
    let nan_b = (0x7ff0_0000_0000_0000 < b && b < 0x8000_0000_0000_0000) || 0xfff0_0000_0000_0000
        < b;
    if nan_a || nan_b {
        false
    } else if a < 0x8000_0000_0000_0000 {
        b < 0x8000_0000_0000_0000 && a < b
    } else if b < 0x8000_0000_0000_0000 {
        a != 0x8000_0000_0000_0000 || b != 0
    } else {
        b < a
    }
}

/// The fraction bits of a double, with the leading one of a normal number.
pub open spec fn mantissa64(bits: u64) -> nat {
    let fraction = bits as nat % 0x10_0000_0000_0000;
    if bits as nat / 0x10_0000_0000_0000 == 0 {
        fraction
    } else {
        fraction + 0x10_0000_0000_0000
    }
}

/// By how many places the mantissa of a positive double below two to the 52nd
/// stands below its value.
pub open spec fn places64(bits: u64) -> nat {
    let exponent = bits as nat / 0x10_0000_0000_0000;
    if exponent == 0 {
        1074
    } else {
        (1075 - exponent) as nat
    }
}

/// The whole number nearest to the mantissa over two to the power of the
/// places; a half goes up.
pub open spec fn nearest(mantissa: nat, places: nat) -> nat {
    ((mantissa + pow2((places - 1) as nat)) / pow2(places)) as nat
}

/// The double rounded to a whole number, halves away from zero, and brought
/// into the range of 32 bits without sign. Negative numbers and NaNs give zero.
pub open spec fn rounded64(bits: u64) -> nat {
    if is_nan64(bits) || bits >= 0x8000_0000_0000_0000 {
        0
    } else if bits >= 0x41f0_0000_0000_0000 {
        u32::MAX as nat
    } else if nearest(mantissa64(bits), places64(bits)) > u32::MAX {
        u32::MAX as nat
    } else {
        nearest(mantissa64(bits), places64(bits))
    }
}

proof fn small_rounds_to_zero(mantissa: nat, places: nat)
    requires
        mantissa < 0x20_0000_0000_0000,
        places >= 54,
    ensures
        nearest(mantissa, places) == 0,
{
    let half = pow2((places - 1) as nat);
    lemma_pow2_unfold(places);
    lemma2_to64_rest();
    if places > 54 {
        lemma_pow2_strictly_increases(53, (places - 1) as nat);
    }
    assert(mantissa + half < pow2(places));
    lemma_basic_div((mantissa + half) as int, pow2(places) as int);
}

/// The double rounded to a whole number of 32 bits without sign.
pub fn round_to_u32(bits: u64) -> (r: u32)
    ensures
        r == rounded64(bits),
{
    if (0x7ff0_0000_0000_0000 < bits && bits < 0x8000_0000_0000_0000) || bits
        >= 0x8000_0000_0000_0000 {
        return 0;
    }
    if bits >= 0x41f0_0000_0000_0000 {
        return u32::MAX;
    }
    let exponent: u64 = bits / 0x10_0000_0000_0000;
    if exponent < 1022 {
        proof {
            small_rounds_to_zero(mantissa64(bits), places64(bits));
        }
        return 0;
    }
    let mantissa: u64 = bits % 0x10_0000_0000_0000 + 0x10_0000_0000_0000;
    let places: u64 = 1075 - exponent;
    let mut half: u64 = 1;
    let mut k: u64 = 0;
    proof {
        lemma2_to64();
        lemma2_to64_rest();
    }
    while k < places - 1
        invariant
            k <= places - 1,
            21 <= places <= 53,
            half == pow2(k as nat),
            pow2(52) == 0x10_0000_0000_0000,
        decreases places - k,
    {
        proof {
            lemma_pow2_unfold((k + 1) as nat);
            lemma_pow2_strictly_increases(k as nat, 52);
        }
        half = half * 2;
        k = k + 1;
    }
    proof {
        lemma_pow2_unfold(places as nat);
        if places < 53 {
            lemma_pow2_strictly_increases((places - 1) as nat, 52);
        }
    }
    let n: u64 = (mantissa + half) / (half * 2);
    if n > u32::MAX as u64 {
        u32::MAX
    } else {
        n as u32
    }
}

} // verus!

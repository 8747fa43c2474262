//! Half precision numbers (IEEE 754 binary16) and their passage to and from
//! single precision (binary32), both by their bits.
use vstd::arithmetic::power2::{lemma_pow2_adds, lemma_pow2_unfold, pow2};
use vstd::prelude::*;

verus! {

/// The exponent field of a half.
pub open spec fn half_exponent(h: u16) -> nat {
    (h as nat / 1024) % 32
}

/// The fraction field of a half.
pub open spec fn half_fraction(h: u16) -> nat {
    h as nat % 1024
}

/// Whether the sign bit of a half is set.
pub open spec fn half_negative(h: u16) -> bool {
    h >= 0x8000
}

/// The exponent field of a single.
pub open spec fn single_exponent(b: u32) -> nat {
    (b as nat / 0x80_0000) % 256
}

/// The fraction field of a single.
pub open spec fn single_fraction(b: u32) -> nat {
    b as nat % 0x80_0000
}

/// Whether the sign bit of a single is set.
pub open spec fn single_negative(b: u32) -> bool {
    b >= 0x8000_0000
}

/// The size of a finite half, in units of 2 to the power -24.
pub open spec fn half_units(h: u16) -> nat {
    if half_exponent(h) == 0 {
        half_fraction(h)
    } else {
        (1024 + half_fraction(h)) * pow2((half_exponent(h) - 1) as nat)
    }
}

/// The size of a finite single, in units of 2 to the power -149.
pub open spec fn single_units(b: u32) -> nat {
    if single_exponent(b) == 0 {
        single_fraction(b)
    } else {
        (0x80_0000 + single_fraction(b)) * pow2((single_exponent(b) - 1) as nat)
    }
}

/// The single that a half is shown as. A finite half is the single of the same
/// value, and zero is shown without a sign; infinities stay; what is no number
/// becomes the one single that stands for it by default.
pub open spec fn shown_as(h: u16, b: u32) -> bool {
    if half_exponent(h) == 31 {
        if half_fraction(h) != 0 {
            b == 0x7FC0_0000
        } else if half_negative(h) {
            b == 0xFF80_0000
        } else {
            b == 0x7F80_0000
        }
    } else {
        &&& single_exponent(b) < 255
        &&& single_units(b) == half_units(h) * pow2(125)
        &&& single_negative(b) == (half_negative(h) && half_units(h) != 0)
    }
}

/// The half that is stored for a single: the fraction is cut off, what is too
/// large becomes infinite, and what is too small for a normal half becomes zero.
/// What is no number stays none: if all that marks it as such is cut off, the
/// first bit of the fraction is set.
pub open spec fn half_of(b: u32) -> u16 {
    let sign: int = if single_negative(b) {
        0x8000
    } else {
        0
    };
    let exponent = single_exponent(b) as int;
    let fraction = single_fraction(b) as int;
    if exponent == 255 && fraction != 0 && fraction / 8192 == 0 {
        (sign + 0x7C00 + 0x200) as u16
    } else if exponent == 255 {
        (sign + 0x7C00 + fraction / 8192) as u16
    } else if exponent - 127 < -14 {
        sign as u16
    } else if exponent - 127 > 15 {
        (sign + 0x7C00) as u16
    } else {
        (sign + (exponent - 127 + 15) * 1024 + fraction / 8192) as u16
    }
}

/// The half that is stored for a single.
pub fn f32_to_f16_bits(bits: u32) -> (r: u16)
    ensures
        r == half_of(bits),
{
    let sign: u16 = if bits >= 0x8000_0000 {
        0x8000
    } else {
        0
    };
    let exponent: u32 = (bits / 0x80_0000) % 256;
    let fraction: u32 = bits % 0x80_0000;
    if exponent == 255 && fraction != 0 && fraction / 8192 == 0 {
        sign + 0x7C00 + 0x200
    } else if exponent == 255 {
        sign + 0x7C00 + (fraction / 8192) as u16
    } else if exponent < 113 {
        sign
    } else if exponent > 142 {
        sign + 0x7C00
    } else {
        sign + ((exponent - 112) * 1024) as u16 + (fraction / 8192) as u16
    }
}

proof fn lemma_fields(sign: u32, exponent: u32, fraction: u32)
    requires
        sign <= 1,
        exponent < 256,
        fraction < 0x80_0000,
    ensures
        ({
            let b = (sign * 0x8000_0000 + exponent * 0x80_0000 + fraction) as u32;
            &&& single_exponent(b) == exponent
            &&& single_fraction(b) == fraction
            &&& single_negative(b) == (sign == 1)
        }),
{
    let n = (sign * 0x8000_0000 + exponent * 0x80_0000 + fraction) as nat;
    assert(n <= 0xFFFF_FFFF);
    assert(n / 0x80_0000 == sign * 256 + exponent);
}

/// The single of the same value as a half.
pub fn half_to_single_bits(h: u16) -> (r: u32)
    ensures
        shown_as(h, r),
{
    let sign: u32 = if h >= 0x8000 {
        1
    } else {
        0
    };
    let exponent: u32 = ((h / 1024) % 32) as u32;
    let fraction: u32 = (h % 1024) as u32;
    if exponent == 31 {
        if fraction != 0 {
            return 0x7FC0_0000;
        }
        return sign * 0x8000_0000 + 0x7F80_0000;
    }
    if exponent == 0 {
        if fraction == 0 {
            assert(0nat * pow2(125) == 0) by (nonlinear_arith);
            return 0;
        }
        // Shifts the fraction until its leading one stands at place 23.
        let mut f: u32 = fraction;
        let mut e: u32 = 126;
        proof {
            vstd::arithmetic::power2::lemma2_to64();
        }
        while f < 0x80_0000
            invariant
                0 < f < 0x100_0000,
                102 < e <= 126,
                f as nat >= pow2((126 - e) as nat),
                f as nat * pow2((e - 1) as nat) == fraction as nat * pow2(125),
            decreases e,
        {
            proof {
                lemma_pow2_unfold((e - 1) as nat);
                lemma_pow2_unfold((127 - e) as nat);
                let a = f as nat;
                let p = pow2((e - 2) as nat);
                assert(a * (2 * p) == (2 * a) * p) by (nonlinear_arith);
                if e == 103 {
                    lemma_power23();
                }
            }
            f = f * 2;
            e = e - 1;
        }
        proof {
            lemma_fields(sign, e, (f - 0x80_0000) as u32);
            assert(fraction as nat * pow2(125) > 0) by {
                vstd::arithmetic::power2::lemma_pow2_pos(125);
                let a = fraction as nat;
                let p = pow2(125);
                assert(a * p > 0) by (nonlinear_arith)
                    requires
                        a > 0,
                        p > 0,
                ;
            }
        }
        return sign * 0x8000_0000 + e * 0x80_0000 + (f - 0x80_0000);
    }
    proof {
        lemma_fields(sign, (exponent + 112) as u32, (fraction * 8192) as u32);
        let m = (1024 + fraction) as nat;
        lemma_pow2_adds((exponent - 1) as nat, 125);
        lemma_pow2_adds(13, (exponent + 111) as nat);
        lemma_power13();
        let p = pow2((exponent - 1) as nat);
        let q = pow2((exponent + 111) as nat);
        assert((8192 * m) * q == m * (8192 * q)) by (nonlinear_arith);
        assert((m * p) * pow2(125) == m * (p * pow2(125))) by (nonlinear_arith);
        vstd::arithmetic::power2::lemma_pow2_pos((exponent - 1) as nat);
        assert(m * p > 0) by (nonlinear_arith)
            requires
                m > 0,
                p > 0,
        ;
    }
    sign * 0x8000_0000 + (exponent + 112) * 0x80_0000 + fraction * 8192
}

proof fn lemma_power13()
    ensures
        pow2(13) == 8192,
{
    vstd::arithmetic::power2::lemma2_to64();
}

proof fn lemma_power23()
    ensures
        pow2(23) == 0x80_0000,
        pow2(24) == 0x100_0000,
{
    vstd::arithmetic::power2::lemma2_to64();
}

/// A normal half, a zero without sign and an infinity are stored again for the
/// single that they are shown as, and so is the half that by default stands for
/// no number. Smaller halves are stored as zero, and what else is no number
/// becomes that half.
pub proof fn law_half_restored(h: u16, b: u32)
    requires
        shown_as(h, b),
        half_exponent(h) == 0 ==> h == 0,
        half_exponent(h) == 31 ==> half_fraction(h) == 0 || h == 0x7E00,
    ensures
        half_of(b) == h,
{
    if h == 0x7E00 {
        assert(single_fraction(b) == 0x40_0000);
    } else if half_exponent(h) == 31 {
        assert(h as nat == (if half_negative(h) { 0x8000nat } else { 0 }) + 0x7C00);
    } else if half_exponent(h) == 0 {
        assert(0nat * pow2(125) == 0) by (nonlinear_arith);
        vstd::arithmetic::power2::lemma_pow2_pos((single_exponent(b) - 1) as nat);
        let m = (0x80_0000 + single_fraction(b)) as nat;
        let p = pow2((single_exponent(b) - 1) as nat);
        if single_exponent(b) != 0 {
            assert(m * p > 0) by (nonlinear_arith)
                requires
                    m > 0,
                    p > 0,
            ;
        }
    } else {
        lemma_same_value(h, b);
        let m = (1024 + half_fraction(h)) as nat;
        let p = pow2((half_exponent(h) - 1) as nat);
        vstd::arithmetic::power2::lemma_pow2_pos((half_exponent(h) - 1) as nat);
        assert(m * p > 0) by (nonlinear_arith)
            requires
                m > 0,
                p > 0,
        ;
        let sign = (if half_negative(h) { 0x8000nat } else { 0 });
        assert(h as nat == sign + half_exponent(h) * 1024 + half_fraction(h));
    }
}

/// What is no number stays none, and keeps its sign; and an infinity stays one.
pub proof fn law_no_number_stays_none(b: u32)
    requires
        single_exponent(b) == 255,
    ensures
        half_exponent(half_of(b)) == 31,
        half_fraction(half_of(b)) == 0 <==> single_fraction(b) == 0,
        half_negative(half_of(b)) == single_negative(b),
{
}

/// Two singles of the same size have the same fields below the sign.
proof fn lemma_same_size(a: nat, m: nat, e: nat, k: nat)
    requires
        0x80_0000 <= a < 0x100_0000,
        0x80_0000 <= m < 0x100_0000,
        a * pow2(e) == m * pow2(k),
        e <= k,
    ensures
        e == k,
        a == m,
{
    vstd::arithmetic::power2::lemma_pow2_pos(e);
    let p = pow2(e);
    if e < k {
        lemma_pow2_adds(e, (k - e) as nat);
        lemma_pow2_unfold((k - e) as nat);
        vstd::arithmetic::power2::lemma_pow2_pos((k - e - 1) as nat);
        let q = pow2((k - e) as nat);
        assert(q >= 2);
        assert(m * (p * q) >= 0x100_0000 * p) by (nonlinear_arith)
            requires
                m >= 0x80_0000,
                q >= 2,
                p > 0,
        ;
        assert(a * p < 0x100_0000 * p) by (nonlinear_arith)
            requires
                a < 0x100_0000,
                p > 0,
        ;
        assert(false);
    } else {
        assert(a == m) by (nonlinear_arith)
            requires
                a * p == m * p,
                p > 0,
        ;
    }
}

/// A single is known by its fields.
proof fn lemma_single_fields(a: u32)
    ensures
        a == (if single_negative(a) {
            0x8000_0000nat
        } else {
            0
        }) + single_exponent(a) * 0x80_0000 + single_fraction(a),
{
}

/// A single with an exponent is larger than any without.
proof fn lemma_normal_size(a: u32)
    requires
        single_exponent(a) > 0,
    ensures
        single_units(a) >= 0x80_0000,
{
    vstd::arithmetic::power2::lemma_pow2_pos((single_exponent(a) - 1) as nat);
    let m = (0x80_0000 + single_fraction(a)) as nat;
    let p = pow2((single_exponent(a) - 1) as nat);
    assert(m * p >= 0x80_0000) by (nonlinear_arith)
        requires
            m >= 0x80_0000,
            p >= 1,
    ;
}

/// A half is shown as one single only.
pub proof fn lemma_shown_once(h: u16, a: u32, b: u32)
    requires
        shown_as(h, a),
        shown_as(h, b),
    ensures
        a == b,
{
    if half_exponent(h) != 31 {
        lemma_single_fields(a);
        lemma_single_fields(b);
        let e = single_exponent(a);
        let k = single_exponent(b);
        if e > 0 {
            lemma_normal_size(a);
        }
        if k > 0 {
            lemma_normal_size(b);
        }
        if e > 0 && k > 0 {
            let m = (0x80_0000 + single_fraction(a)) as nat;
            let n = (0x80_0000 + single_fraction(b)) as nat;
            if e <= k {
                lemma_same_size(m, n, (e - 1) as nat, (k - 1) as nat);
            } else {
                lemma_same_size(n, m, (k - 1) as nat, (e - 1) as nat);
            }
        }
    }
}

/// A single that has the value of a normal half has its fields.
pub proof fn lemma_same_value(h: u16, b: u32)
    requires
        1 <= half_exponent(h) <= 30,
        single_exponent(b) < 255,
        single_units(b) == half_units(h) * pow2(125),
    ensures
        single_exponent(b) == half_exponent(h) + 112,
        single_fraction(b) == half_fraction(h) * 8192,
{
    let m = (1024 + half_fraction(h)) as nat;
    let e = half_exponent(h);
    lemma_pow2_adds((e - 1) as nat, 125);
    lemma_pow2_adds(13, (e + 111) as nat);
    lemma_power13();
    let p = pow2((e - 1) as nat);
    let q = pow2((e + 111) as nat);
    assert((8192 * m) * q == m * (8192 * q)) by (nonlinear_arith);
    assert((m * p) * pow2(125) == m * (p * pow2(125))) by (nonlinear_arith);
    assert(single_units(b) == (8192 * m) * q);
    vstd::arithmetic::power2::lemma_pow2_pos((e + 111) as nat);
    if single_exponent(b) == 0 {
        assert((8192 * m) * q >= 0x80_0000) by (nonlinear_arith)
            requires
                m >= 1024,
                q >= 1,
        ;
        assert(false);
    } else {
        let a = (0x80_0000 + single_fraction(b)) as nat;
        let k = (single_exponent(b) - 1) as nat;
        if k <= e + 111 {
            lemma_same_size(a, 8192 * m, k, (e + 111) as nat);
        } else {
            lemma_same_size(8192 * m, a, (e + 111) as nat, k);
        }
    }
}

} // verus!

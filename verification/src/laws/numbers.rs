//! Numbers as texts and as registers: what each digit and each register stands
//! for.
use crate::numeral::{
    decimal, digit_value, is_digit, lemma_numeral, lemma_padded, numeral, padded, signed_decimal,
    signed_of, unsigned_of,
};
use crate::words::{arranged, number_of, words_of};
use vstd::arithmetic::power::{lemma_pow0, lemma_pow1, lemma_pow_adds, lemma_pow_positive, pow};
use vstd::prelude::*;

verus! {

/// The digits that there are, the smallest first.
pub open spec fn digit_row() -> Seq<char> {
    "0123456789ABCDEF"@
}

/// Each digit of a number stands for what is left of it at its place.
pub proof fn law_digit_stands_at_its_place(n: nat, radix: nat, k: nat)
    requires
        2 <= radix <= 16,
        k < numeral(n, radix).len(),
    ensures
        ({
            let s = numeral(n, radix);
            let d = (n as int / pow(radix as int, k)) % (radix as int);
            &&& 0 <= d < radix
            &&& s[s.len() - 1 - k] == digit_row()[d]
        }),
    decreases n,
{
    reveal_strlit("0123456789ABCDEF");
    let s = numeral(n, radix);
    let r = radix as int;
    lemma_pow0(r);
    if k == 0 {
        vstd::arithmetic::div_mod::lemma_mod_bound(n as int, r);
        if n < radix {
            vstd::arithmetic::div_mod::lemma_small_mod(n, radix);
        }
    } else {
        vstd::arithmetic::div_mod::lemma_div_decreases(n as int, r);
        law_digit_stands_at_its_place(n / radix, radix, (k - 1) as nat);
        lemma_pow_adds(r, 1, (k - 1) as nat);
        lemma_pow1(r);
        lemma_pow_positive(r, (k - 1) as nat);
        vstd::arithmetic::div_mod::lemma_div_denominator(n as int, r, pow(r, (k - 1) as nat));
        assert(s.drop_last() =~= numeral(n / radix, radix));
        assert(s[s.len() - 1 - k] == s.drop_last()[s.len() - 2 - (k - 1)]);
    }
}

/// A number is written without needless zeros: no digit is missing, and the first
/// is no zero unless it is the only one.
pub proof fn law_no_needless_zeros(n: nat, radix: nat)
    requires
        2 <= radix <= 16,
    ensures
        numeral(n, radix).len() > 0,
        n < pow(radix as int, numeral(n, radix).len()),
        numeral(n, radix).len() > 1 ==> numeral(n, radix)[0] != '0',
    decreases n,
{
    let s = numeral(n, radix);
    let r = radix as int;
    lemma_pow1(r);
    if n >= radix {
        vstd::arithmetic::div_mod::lemma_div_decreases(n as int, r);
        law_no_needless_zeros(n / radix, radix);
        let t = numeral(n / radix, radix);
        assert(s.drop_last() =~= t);
        lemma_pow_adds(r, t.len(), 1);
        vstd::arithmetic::div_mod::lemma_fundamental_div_mod(n as int, r);
        vstd::arithmetic::div_mod::lemma_mod_bound(n as int, r);
        let q = n as int / r;
        let p = pow(r, t.len());
        assert(r * q + r <= p * r) by (nonlinear_arith)
            requires
                q + 1 <= p,
                r > 0,
        ;
        if t.len() == 1 {
            assert(n / radix < radix);
            assert(n / radix >= 1) by (nonlinear_arith)
                requires
                    n >= radix,
                    radix > 0,
            ;
        }
    }
}

/// A number in a width has zeros before its digits, as many as are missing.
pub proof fn law_width_is_filled(n: nat, radix: nat, width: nat, i: int)
    requires
        2 <= radix <= 16,
        n < pow(radix as int, width),
        0 < width,
        0 <= i < width,
    ensures
        padded(n, radix, width).len() == width,
        i < width - numeral(n, radix).len() ==> padded(n, radix, width)[i] == '0',
        i >= width - numeral(n, radix).len() ==> padded(n, radix, width)[i] == numeral(n, radix)[i
            - (width - numeral(n, radix).len())],
{
    lemma_short(n, radix, width);
}

proof fn lemma_short(n: nat, radix: nat, width: nat)
    requires
        2 <= radix <= 16,
        n < pow(radix as int, width),
        0 < width,
    ensures
        numeral(n, radix).len() <= width,
    decreases n,
{
    let r = radix as int;
    if n >= radix {
        vstd::arithmetic::div_mod::lemma_div_decreases(n as int, r);
        lemma_pow1(r);
        if width == 1 {
            assert(false);
        }
        lemma_pow_adds(r, (width - 1) as nat, 1);
        let p = pow(r, (width - 1) as nat);
        vstd::arithmetic::div_mod::lemma_fundamental_div_mod(n as int, r);
        vstd::arithmetic::div_mod::lemma_mod_bound(n as int, r);
        let q = n as int / r;
        assert(q < p) by (nonlinear_arith)
            requires
                r * q <= n,
                n < p * r,
                r > 0,
        ;
        lemma_short(n / radix, radix, (width - 1) as nat);
    }
}

/// A negative number has a minus sign before its size, and no other has.
pub proof fn law_sign_is_shown(i: int)
    ensures
        signed_decimal(i)[0] == '-' <==> i < 0,
        i < 0 ==> signed_decimal(i).skip(1) == decimal((-i) as nat),
        i >= 0 ==> signed_decimal(i) == decimal(i as nat),
{
    lemma_numeral(
        if i < 0 {
            (-i) as nat
        } else {
            i as nat
        },
        10,
    );
    if i >= 0 {
        crate::numeral::lemma_digits_plain(decimal(i as nat), 10, 0);
    } else {
        assert(signed_decimal(i).skip(1) =~= decimal((-i) as nat));
    }
}

/// Only digits are read as numbers, with or without a plus sign before them:
/// decimal digits, and letters in either case for what comes behind nine.
pub proof fn law_only_digits_are_read(s: Seq<char>, radix: nat, max: nat, i: int)
    requires
        2 <= radix <= 16,
        unsigned_of(s, radix, max) is Some,
        0 <= i < s.len(),
    ensures
        unsigned_of(s, radix, max)->0 <= max,
        i == 0 && s[i] == '+' && s.len() > 1 || '0' <= s[i] <= '9' || radix > 10 && ('a' <= s[i]
            <= 'f' || 'A' <= s[i] <= 'F'),
{
    if s[0] == '+' {
        let t = s.skip(1);
        if i > 0 {
            assert(is_digit(t[i - 1], radix));
            assert(t[i - 1] == s[i]);
        }
    } else {
        assert(is_digit(s[i], radix));
    }
}

/// The digits of a number up to a limit are read as that number, however many
/// zeros stand before them and with or without a plus sign; those of a larger
/// number are refused.
pub proof fn law_written_number_is_read(n: nat, radix: nat, width: nat, max: nat)
    requires
        2 <= radix <= 16,
    ensures
        unsigned_of(padded(n, radix, width), radix, max) == if n <= max {
            Some(n)
        } else {
            None
        },
        unsigned_of(seq!['+'] + padded(n, radix, width), radix, max) == if n <= max {
            Some(n)
        } else {
            None
        },
{
    let s = padded(n, radix, width);
    lemma_padded(n, radix, width);
    crate::numeral::lemma_digits_plain(s, radix, 0);
    assert((seq!['+'] + s).skip(1) =~= s);
}

/// A number with its sign is read as itself if it lies within the limits, and
/// refused if it does not.
pub proof fn law_signed_number_is_read(n: int, min: int, max: int)
    requires
        min < 0 <= max,
    ensures
        signed_of(signed_decimal(n), min, max) == if min <= n <= max {
            Some(n)
        } else {
            None
        },
{
    if n < 0 {
        lemma_numeral((-n) as nat, 10);
        assert(signed_decimal(n).skip(1) =~= decimal((-n) as nat));
    } else {
        lemma_numeral(n as nat, 10);
        crate::numeral::lemma_digits_plain(decimal(n as nat), 10, 0);
    }
}

/// Letters stand for the same numbers in either case.
pub proof fn law_case_does_not_matter(k: nat)
    requires
        k < 6,
    ensures
        digit_value(('a' as int + k) as char) == 10 + k,
        digit_value(('A' as int + k) as char) == 10 + k,
{
}

/// The number in one, two, four or eight registers, the first of them counting
/// most.
pub open spec fn weighed(w: Seq<u16>) -> int {
    if w.len() == 1 {
        w[0] as int
    } else if w.len() == 2 {
        w[0] * 0x1_0000 + w[1] as int
    } else if w.len() == 4 {
        w[0] * 0x1_0000_0000_0000 + w[1] * 0x1_0000_0000 + w[2] * 0x1_0000 + w[3] as int
    } else {
        w[0] * 0x1_0000_0000_0000_0000_0000_0000_0000 + w[1]
            * 0x1_0000_0000_0000_0000_0000_0000 + w[2] * 0x1_0000_0000_0000_0000_0000 + w[3]
            * 0x1_0000_0000_0000_0000 + w[4] * 0x1_0000_0000_0000 + w[5] * 0x1_0000_0000
            + w[6] * 0x1_0000 + w[7] as int
    }
}

/// What registers hold is the sum of what each counts at its place.
pub proof fn law_registers_count_by_place(w: Seq<u16>)
    requires
        w.len() == 1 || w.len() == 2 || w.len() == 4 || w.len() == 8,
    ensures
        number_of(w) == weighed(w),
{
    lemma_steps(w, w.len() as int);
    assert(w.take(w.len() as int) =~= w);
    lemma_steps(w, 1);
    if w.len() > 1 {
        lemma_steps(w, 2);
    }
    if w.len() > 2 {
        lemma_steps(w, 3);
        lemma_steps(w, 4);
    }
    if w.len() > 4 {
        lemma_steps(w, 5);
        lemma_steps(w, 6);
        lemma_steps(w, 7);
        lemma_steps(w, 8);
    }
}

proof fn lemma_steps(w: Seq<u16>, k: int)
    requires
        0 < k <= w.len(),
    ensures
        number_of(w.take(k)) == number_of(w.take(k - 1)) * 65536 + w[k - 1] as nat,
        number_of(w.take(0)) == 0,
{
    assert(w.take(k).drop_last() =~= w.take(k - 1));
}

/// A number is spread over registers so that they hold it again.
pub proof fn law_spread_holds_number(v: nat, n: nat)
    requires
        n == 1 && v < 0x1_0000 || n == 2 && v < 0x1_0000_0000 || n == 4 && v
            < 0x1_0000_0000_0000_0000 || n == 8 && v
            < 0x1_0000_0000_0000_0000_0000_0000_0000_0000,
    ensures
        words_of(v, n).len() == n,
        weighed(words_of(v, n)) == v,
{
    crate::words::lemma_spans();
    crate::words::law_words_hold_number(v, n, Seq::empty());
    law_registers_count_by_place(words_of(v, n));
}

/// A device that exchanges bytes has the two bytes of each register the other way
/// round, and one that exchanges registers has them in reverse order; a device that
/// does neither has them as they are read.
pub proof fn law_arranged_by_switches(w: Seq<u16>, swap_bytes: bool, swap_words: bool, i: int)
    requires
        0 <= i < w.len(),
    ensures
        arranged(w, swap_bytes, swap_words).len() == w.len(),
        ({
            let from = w[if swap_words {
                w.len() - 1 - i
            } else {
                i
            }];
            let to = arranged(w, swap_bytes, swap_words)[i];
            if swap_bytes {
                to as int / 256 == from as int % 256 && to as int % 256 == from as int / 256
            } else {
                to == from
            }
        }),
{
    let from = w[if swap_words {
        w.len() - 1 - i
    } else {
        i
    }];
    let e = (from % 256) * 256 + from / 256;
    assert(e < 65536);
    assert(e / 256 == from % 256 && e % 256 == from / 256);
}

/// A signed number may have a plus sign, and zeros before its digits; nothing but digits
/// follows a sign.
pub proof fn law_signs_are_read(n: nat, width: nat, min: int, max: int)
    requires
        min < 0 <= max,
    ensures
        signed_of(seq!['+'] + padded(n, 10, width), min, max) == if n <= max {
            Some(n as int)
        } else {
            None
        },
        signed_of(padded(n, 10, width), min, max) == if n <= max {
            Some(n as int)
        } else {
            None
        },
        signed_of(seq!['-'] + padded(n, 10, width), min, max) == if -n >= min {
            Some(-n)
        } else {
            None
        },
        signed_of(seq!['-', '-'] + padded(n, 10, width), min, max) is None,
        unsigned_of(seq!['-'] + padded(n, 10, width), 10, max as nat) is None,
        unsigned_of(Seq::empty(), 10, max as nat) is None,
{
    let s = padded(n, 10, width);
    lemma_padded(n, 10, width);
    law_written_number_is_read(n, 10, width, max as nat);
    law_written_number_is_read(n, 10, width, (-min) as nat);
    crate::numeral::lemma_digits_plain(s, 10, 0);
    assert((seq!['-'] + s).skip(1) =~= s);
    let two = (seq!['-', '-'] + s).skip(1);
    assert(two[0] == '-');
    assert(!is_digit('-', 10));
    assert((seq!['-'] + s)[0] == '-');
}

} // verus!

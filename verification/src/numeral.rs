//! Numerals: numbers written out in a radix, and read back.
use vstd::prelude::*;

verus! {

/// The number that a digit or letter stands for, and more than any digit for
/// every other character.
pub open spec fn digit_value(c: char) -> nat {
    if '0' <= c <= '9' {
        (c as int - '0' as int) as nat
    } else if 'a' <= c <= 'z' {
        (c as int - 'a' as int + 10) as nat
    } else if 'A' <= c <= 'Z' {
        (c as int - 'A' as int + 10) as nat
    } else {
        99
    }
}

/// Whether a character is a digit in a radix.
pub open spec fn is_digit(c: char, radix: nat) -> bool {
    digit_value(c) < radix
}

/// Whether every character of a text is a digit in a radix.
pub open spec fn all_digits(s: Seq<char>, radix: nat) -> bool {
    forall|i: int| 0 <= i < s.len() ==> is_digit(#[trigger] s[i], radix)
}

/// The digit for a number, letters in upper case.
pub open spec fn digit_char(d: nat) -> char {
    if d < 10 {
        ('0' as int + d) as char
    } else {
        ('A' as int + d - 10) as char
    }
}

/// A number written out in a radix, without leading zeros.
pub open spec fn numeral(n: nat, radix: nat) -> Seq<char>
    decreases n,
{
    if radix < 2 || n < radix {
        seq![digit_char(n)]
    } else {
        proof {
            vstd::arithmetic::div_mod::lemma_div_decreases(n as int, radix as int);
        }
        numeral(n / radix, radix).push(digit_char(n % radix))
    }
}

/// A run of zeros.
pub open spec fn zeros(n: nat) -> Seq<char> {
    Seq::new(n, |i: int| '0')
}

/// A number written out in a radix with zeros in front up to a width.
pub open spec fn padded(n: nat, radix: nat, width: nat) -> Seq<char> {
    let d = numeral(n, radix);
    if d.len() < width {
        zeros((width - d.len()) as nat) + d
    } else {
        d
    }
}

/// A number in decimal.
pub open spec fn decimal(n: nat) -> Seq<char> {
    numeral(n, 10)
}

/// A number in decimal, with a minus sign in front if it is negative.
pub open spec fn signed_decimal(n: int) -> Seq<char> {
    if n < 0 {
        seq!['-'] + decimal((-n) as nat)
    } else {
        decimal(n as nat)
    }
}

/// The number that a text of digits stands for in a radix.
pub open spec fn value_of(s: Seq<char>, radix: nat) -> nat
    decreases s.len(),
{
    if s.len() == 0 {
        0
    } else {
        value_of(s.drop_last(), radix) * radix + digit_value(s.last())
    }
}

/// The number up to `max` that digits stand for in a radix, if they do.
pub open spec fn digits_of(s: Seq<char>, radix: nat, max: nat) -> Option<nat> {
    if s.len() > 0 && all_digits(s, radix) && value_of(s, radix) <= max {
        Some(value_of(s, radix))
    } else {
        None
    }
}

/// The number up to `max` that a text stands for in a radix: digits, with or
/// without a plus sign in front.
pub open spec fn unsigned_of(s: Seq<char>, radix: nat, max: nat) -> Option<nat> {
    if s.len() > 0 && s[0] == '+' {
        digits_of(s.skip(1), radix, max)
    } else {
        digits_of(s, radix, max)
    }
}

/// The number from `min` up to `max` that a text stands for in decimal:
/// digits, with or without a sign in front.
pub open spec fn signed_of(s: Seq<char>, min: int, max: int) -> Option<int>
    recommends
        min < 0 <= max,
{
    if s.len() > 0 && s[0] == '-' {
        match digits_of(s.skip(1), 10, (-min) as nat) {
            Some(n) => Some(-(n as int)),
            None => None,
        }
    } else {
        match unsigned_of(s, 10, max as nat) {
            Some(n) => Some(n as int),
            None => None,
        }
    }
}

/// What a digit stands for is read back from its character.
pub proof fn lemma_digit_char(d: nat)
    requires
        d < 36,
    ensures
        digit_value(digit_char(d)) == d,
        digit_char(d) != '+',
        digit_char(d) != '-',
        !crate::text::is_white(digit_char(d)),
        (digit_char(d) as int) < 128,
{
}

/// A number written out in a radix is read back from its digits.
pub proof fn lemma_numeral(n: nat, radix: nat)
    requires
        2 <= radix <= 36,
    ensures
        numeral(n, radix).len() > 0,
        all_digits(numeral(n, radix), radix),
        value_of(numeral(n, radix), radix) == n,
    decreases n,
{
    if n < radix {
        lemma_digit_char(n);
        let s = numeral(n, radix);
        assert(s.drop_last() =~= Seq::<char>::empty());
        assert(value_of(s.drop_last(), radix) == 0);
        assert(0nat * radix == 0) by (nonlinear_arith);
    } else {
        vstd::arithmetic::div_mod::lemma_div_decreases(n as int, radix as int);
        vstd::arithmetic::div_mod::lemma_mod_bound(n as int, radix as int);
        vstd::arithmetic::div_mod::lemma_fundamental_div_mod(n as int, radix as int);
        lemma_numeral(n / radix, radix);
        lemma_digit_char(n % radix);
        let s = numeral(n, radix);
        assert(s.drop_last() =~= numeral(n / radix, radix));
        assert(value_of(s, radix) == (n / radix) * radix + n % radix);
        assert((n / radix) * radix == radix * (n / radix)) by (nonlinear_arith);
        assert forall|i: int| 0 <= i < s.len() implies is_digit(#[trigger] s[i], radix) by {
            if i < s.len() - 1 {
                assert(s[i] == numeral(n / radix, radix)[i]);
            }
        }
    }
}

/// Zeros in front do not change what digits stand for.
pub proof fn lemma_leading_zeros(k: nat, s: Seq<char>, radix: nat)
    requires
        2 <= radix <= 36,
        all_digits(s, radix),
    ensures
        all_digits(zeros(k) + s, radix),
        value_of(zeros(k) + s, radix) == value_of(s, radix),
    decreases s.len(), k,
{
    assert forall|i: int| 0 <= i < (zeros(k) + s).len() implies is_digit(
        #[trigger] (zeros(k) + s)[i],
        radix,
    ) by {
        if i >= k {
            assert((zeros(k) + s)[i] == s[i - k]);
        }
    }
    if s.len() == 0 {
        if k > 0 {
            assert((zeros(k) + s).drop_last() =~= zeros((k - 1) as nat) + s);
            lemma_leading_zeros((k - 1) as nat, s, radix);
            assert(0nat * radix == 0) by (nonlinear_arith);
        } else {
            assert(zeros(k) + s =~= s);
        }
    } else {
        assert((zeros(k) + s).drop_last() =~= zeros(k) + s.drop_last());
        lemma_leading_zeros(k, s.drop_last(), radix);
    }
}

/// A number written out with zeros in front is read back from its digits.
pub proof fn lemma_padded(n: nat, radix: nat, width: nat)
    requires
        2 <= radix <= 36,
    ensures
        padded(n, radix, width).len() > 0,
        padded(n, radix, width).len() >= width,
        all_digits(padded(n, radix, width), radix),
        value_of(padded(n, radix, width), radix) == n,
{
    lemma_numeral(n, radix);
    let d = numeral(n, radix);
    if d.len() < width {
        lemma_leading_zeros((width - d.len()) as nat, d, radix);
    }
}

/// A text of digits has no sign and no white space in it.
pub proof fn lemma_digits_plain(s: Seq<char>, radix: nat, i: int)
    requires
        radix <= 36,
        all_digits(s, radix),
        0 <= i < s.len(),
    ensures
        s[i] != '+',
        s[i] != '-',
        s[i] != ',',
        s[i] != ';',
        s[i] != '"',
        s[i] != '[',
        s[i] != ']',
        s[i] != '\n',
        !crate::text::is_white(s[i]),
        (s[i] as int) < 128,
{
    assert(is_digit(s[i], radix));
}

/// A number in decimal is read back as itself.
pub proof fn lemma_decimal_read(n: nat, max: nat)
    requires
        n <= max,
    ensures
        unsigned_of(decimal(n), 10, max) == Some(n),
{
    lemma_numeral(n, 10);
    lemma_digits_plain(decimal(n), 10, 0);
}

/// A number in decimal with its sign is read back as itself.
pub proof fn lemma_signed_decimal_read(n: int, min: int, max: int)
    requires
        min <= n <= max,
        min < 0 <= max,
    ensures
        signed_of(signed_decimal(n), min, max) == Some(n),
{
    if n < 0 {
        lemma_numeral((-n) as nat, 10);
        assert(signed_decimal(n).skip(1) =~= decimal((-n) as nat));
    } else {
        lemma_numeral(n as nat, 10);
        lemma_digits_plain(decimal(n as nat), 10, 0);
        lemma_decimal_read(n as nat, max as nat);
    }
}

/// Digits that come later do not make a number smaller.
proof fn lemma_value_grows(s: Seq<char>, k: int, radix: nat)
    requires
        0 <= k <= s.len(),
        radix >= 1,
    ensures
        value_of(s.take(k), radix) <= value_of(s, radix),
    decreases s.len(),
{
    if k == s.len() {
        assert(s.take(k) =~= s);
    } else {
        assert(s.drop_last().take(k) =~= s.take(k));
        lemma_value_grows(s.drop_last(), k, radix);
        let v = value_of(s.drop_last(), radix);
        assert(v <= v * radix) by (nonlinear_arith)
            requires
                radix >= 1,
        ;
    }
}

/// The number that a digit or letter stands for.
pub fn digit_number(c: char) -> (r: u32)
    ensures
        r == digit_value(c),
{
    let n: u32 = c as u32;
    if '0' <= c && c <= '9' {
        n - 48
    } else if 'a' <= c && c <= 'z' {
        n - 87
    } else if 'A' <= c && c <= 'Z' {
        n - 55
    } else {
        99
    }
}

/// Writes a number in a radix at the end of a text.
pub fn push_numeral(out: &mut String, n: u128, radix: u128)
    requires
        2 <= radix <= 36,
    ensures
        final(out)@ == old(out)@ + numeral(n as nat, radix as nat),
    decreases n,
{
    if n >= radix {
        proof {
            vstd::arithmetic::div_mod::lemma_div_decreases(n as int, radix as int);
        }
        push_numeral(out, n / radix, radix);
    }
    proof {
        vstd::arithmetic::div_mod::lemma_mod_bound(n as int, radix as int);
        if n < radix {
            vstd::arithmetic::div_mod::lemma_small_mod(n as nat, radix as nat);
        }
    }
    let d: u8 = (n % radix) as u8;
    let c: char = if d < 10 {
        (48 + d) as char
    } else {
        (55 + d) as char
    };
    assert(c == digit_char((n % radix) as nat));
    out.push(c);
    assert(out@ =~= old(out)@ + numeral(n as nat, radix as nat));
}

/// Writes a number in decimal at the end of a text.
pub fn push_decimal(out: &mut String, n: u128)
    ensures
        final(out)@ == old(out)@ + decimal(n as nat),
{
    push_numeral(out, n, 10);
}

/// A number in decimal.
pub fn decimal_text(n: u128) -> (r: String)
    ensures
        r@ == decimal(n as nat),
{
    let mut r = String::new();
    push_numeral(&mut r, n, 10);
    assert(r@ =~= decimal(n as nat));
    r
}

/// Writes a number in decimal with its sign at the end of a text.
pub fn push_signed(out: &mut String, n: i128)
    ensures
        final(out)@ == old(out)@ + signed_decimal(n as int),
{
    if n < 0 {
        out.push('-');
        let m: u128 = if n == i128::MIN {
            0x8000_0000_0000_0000_0000_0000_0000_0000
        } else {
            (-n) as u128
        };
        push_numeral(out, m, 10);
        assert(out@ =~= old(out)@ + signed_decimal(n as int));
    } else {
        push_numeral(out, n as u128, 10);
    }
}

/// Writes a number in a radix with zeros in front at the end of a text.
pub fn push_padded(out: &mut String, n: u128, radix: u128, width: usize)
    requires
        2 <= radix <= 36,
    ensures
        final(out)@ == old(out)@ + padded(n as nat, radix as nat, width as nat),
{
    let mut d = String::new();
    push_numeral(&mut d, n, radix);
    let ghost digits = numeral(n as nat, radix as nat);
    assert(d@ =~= digits);
    let k: usize = crate::text::chars_of(d.as_str()).len();
    let mut i: usize = k;
    assert(zeros(0) =~= Seq::<char>::empty());
    assert(out@ =~= old(out)@ + zeros(0));
    while i < width
        invariant
            k == digits.len(),
            k <= i,
            i <= width || i == k,
            out@ == old(out)@ + zeros((i - k) as nat),
        decreases width - i,
    {
        out.push('0');
        assert(out@ =~= old(out)@ + zeros((i + 1 - k) as nat));
        i += 1;
    }
    out.append(d.as_str());
    assert(out@ =~= old(out)@ + padded(n as nat, radix as nat, width as nat));
}

/// The number up to `max` that the digits from place `from` on stand for.
fn read_digits(v: &Vec<char>, from: usize, radix: u128, max: u128) -> (r: Option<u128>)
    requires
        2 <= radix <= 36,
        from <= v@.len(),
    ensures
        match r {
            Some(n) => digits_of(v@.skip(from as int), radix as nat, max as nat) == Some(n as nat),
            None => digits_of(v@.skip(from as int), radix as nat, max as nat) is None,
        },
{
    let ghost s = v@.skip(from as int);
    let n: usize = v.len();
    if from == n {
        return None;
    }
    let mut acc: u128 = 0;
    let mut i: usize = from;
    assert(s.take(0) =~= Seq::<char>::empty());
    while i < n
        invariant
            2 <= radix <= 36,
            from <= i <= n == v@.len(),
            s == v@.skip(from as int),
            acc <= max,
            all_digits(s.take(i - from), radix as nat),
            acc == value_of(s.take(i - from), radix as nat),
        decreases n - i,
    {
        let d: u32 = digit_number(v[i]);
        let ghost k = i - from;
        assert(s.take(k + 1).drop_last() =~= s.take(k));
        assert(s.take(k + 1).last() == v@[i as int]);
        assert(s[k] == v@[i as int]);
        if d as u128 >= radix {
            return None;
        }
        proof {
            lemma_value_grows(s, k + 1, radix as nat);
        }
        let m: u128 = match acc.checked_mul(radix) {
            Some(m) => m,
            None => {
                return None;
            },
        };
        let a: u128 = match m.checked_add(d as u128) {
            Some(a) => a,
            None => {
                return None;
            },
        };
        if a > max {
            return None;
        }
        assert forall|j: int| 0 <= j < k + 1 implies is_digit(
            #[trigger] s.take(k + 1)[j],
            radix as nat,
        ) by {
            if j < k {
                assert(s.take(k)[j] == s.take(k + 1)[j]);
            }
        }
        acc = a;
        i += 1;
    }
    assert(s.take(n - from) =~= s);
    Some(acc)
}

/// The number up to `max` that a text stands for in a radix.
pub fn read_unsigned(v: &Vec<char>, radix: u128, max: u128) -> (r: Option<u128>)
    requires
        2 <= radix <= 36,
    ensures
        match r {
            Some(n) => unsigned_of(v@, radix as nat, max as nat) == Some(n as nat),
            None => unsigned_of(v@, radix as nat, max as nat) is None,
        },
{
    assert(v@.skip(0) =~= v@);
    if v.len() > 0 && v[0] == '+' {
        read_digits(v, 1, radix, max)
    } else {
        read_digits(v, 0, radix, max)
    }
}

/// The number from `-max - 1` up to `max` that a text stands for in decimal.
pub fn read_signed(v: &Vec<char>, max: i128) -> (r: Option<i128>)
    requires
        0 <= max,
    ensures
        match r {
            Some(n) => signed_of(v@, -max - 1, max as int) == Some(n as int),
            None => signed_of(v@, -max - 1, max as int) is None,
        },
{
    if v.len() > 0 && v[0] == '-' {
        match read_digits(v, 1, 10, max as u128 + 1) {
            Some(n) => {
                if n == max as u128 + 1 {
                    Some(-max - 1)
                } else {
                    Some(-(n as i128))
                }
            },
            None => None,
        }
    } else {
        match read_unsigned(v, 10, max as u128) {
            Some(n) => Some(n as i128),
            None => None,
        }
    }
}

} // verus!

//! Register values as texts: how they are shown, and what an entry stores.
use crate::format::{RegDataFormat, RegDataType, RegDataWidth};
use crate::half::{f32_to_f16_bits, half_to_single_bits};
use crate::numeral::{push_decimal, push_padded, push_signed, read_signed, read_unsigned};
use crate::text::{chars_of, cut, trim_chars};
use crate::words::{arrange, join_words, largest, split_number, to_bits, to_signed};
use vstd::prelude::*;

verus! {

/// Why an entry is refused.
#[derive(Copy, Clone, Debug, PartialEq, Eq, Structural)]
pub enum ParseError {
    /// Nothing was entered.
    Empty,
    /// What follows `0x` is no number that fits.
    HexPrefix,
    /// What follows `0b` is no number that fits.
    BinPrefix,
    /// No hexadecimal number that fits.
    Hex,
    /// No binary number that fits.
    Bin,
    /// No decimal number that fits.
    Dec,
}

/// The key of the message that says why an entry is refused.
pub open spec fn refusal(e: ParseError) -> Seq<char> {
    match e {
        ParseError::Empty => "main.parse_empty"@,
        ParseError::HexPrefix => "main.parse_hex_prefix"@,
        ParseError::BinPrefix => "main.parse_bin_prefix"@,
        ParseError::Hex => "main.parse_hex"@,
        ParseError::Bin => "main.parse_bin"@,
        ParseError::Dec => "main.parse_dec"@,
    }
}

impl ParseError {
    /// The key of the message that says why an entry is refused.
    pub fn key(self) -> (r: &'static str)
        ensures
            r@ == refusal(self),
    {
        match self {
            ParseError::Empty => "main.parse_empty",
            ParseError::HexPrefix => "main.parse_hex_prefix",
            ParseError::BinPrefix => "main.parse_bin_prefix",
            ParseError::Hex => "main.parse_hex",
            ParseError::Bin => "main.parse_bin",
            ParseError::Dec => "main.parse_dec",
        }
    }
}

/// What an entry is as a floating-point number, by the bits: in single and in
/// double precision, as far as it can be read as one.
#[derive(Copy, Clone, Debug, PartialEq, Eq, Structural)]
pub struct FloatBits {
    pub single: Option<u32>,
    pub double: Option<u64>,
}

/// How a register is shown: a text, or a floating-point number by its bits,
/// a single with six and a double with ten places after the point.
#[derive(Debug)]
pub enum RegisterText {
    Text(String),
    Single(u32),
    Double(u64),
}

/// What a register text shows.
pub enum Shown {
    Text(Seq<char>),
    Single(u32),
    Double(u64),
}

impl View for RegisterText {
    type V = Shown;

    open spec fn view(&self) -> Shown {
        match self {
            RegisterText::Text(s) => Shown::Text(s@),
            RegisterText::Single(b) => Shown::Single(*b),
            RegisterText::Double(b) => Shown::Double(*b),
        }
    }
}

/// Whether values of a format are shown and entered by one register, whatever
/// the width.
pub open spec fn single_register(t: RegDataType) -> bool {
    t is Hex || t is Binary || t is Ascii
}

/// How many registers an entry stores.
pub open spec fn entry_regs(f: RegDataFormat) -> nat {
    if single_register(f.data_type) {
        1
    } else {
        crate::format::regs_of(f.width)
    }
}

/// A number of `n` registers as a text.
pub open spec fn number_text(v: nat, n: nat, t: RegDataType) -> Seq<char> {
    match t {
        RegDataType::Hex => "0x"@ + crate::numeral::padded(v, 16, 4 * n),
        RegDataType::Binary => "0b"@ + crate::numeral::padded(v, 2, 16 * n),
        _ => crate::numeral::decimal(v),
    }
}

/// How the arranged registers of a value are shown.
pub open spec fn words_shown(words: Seq<u16>, f: RegDataFormat, shown: Shown) -> bool {
    let n = words.len();
    let v = crate::words::number_of(words);
    match f.data_type {
        RegDataType::Hex | RegDataType::Binary | RegDataType::Ascii => shown == Shown::Text(
            number_text(words[0] as nat, 1, f.data_type),
        ),
        RegDataType::Uint => shown == Shown::Text(crate::numeral::decimal(v)),
        RegDataType::Int => shown == Shown::Text(
            crate::numeral::signed_decimal(crate::words::signed_number(v, n)),
        ),
        RegDataType::Float => match f.width {
            RegDataWidth::Bits16 => shown matches Shown::Single(b) && crate::half::shown_as(
                words[0],
                b,
            ),
            RegDataWidth::Bits32 => shown == Shown::Single(v as u32),
            RegDataWidth::Bits64 => shown == Shown::Double(v as u64),
            RegDataWidth::Bits128 => shown == Shown::Text(crate::numeral::decimal(v)),
        },
    }
}

/// How the value at an address of a table is shown.
pub open spec fn register_shown(
    regs: Seq<u16>,
    addr: int,
    f: RegDataFormat,
    swap_bytes: bool,
    swap_words: bool,
    shown: Shown,
) -> bool {
    let n = crate::format::regs_of(f.width);
    if addr + n > regs.len() {
        shown == Shown::Text("-- (need "@ + crate::numeral::decimal(n) + ")"@)
    } else {
        words_shown(
            crate::words::arranged(regs.subrange(addr, addr + n), swap_bytes, swap_words),
            f,
            shown,
        )
    }
}

/// The number that a text stands for after `0x`, after `0b`, or as the data
/// type has it, in `n` registers. A signed number of one register may be entered
/// by its bits too, without a sign.
pub open spec fn number_read(t: Seq<char>, ty: RegDataType, n: nat) -> Result<nat, ParseError> {
    let max = (crate::words::span(n) - 1) as nat;
    if hex_marked(t) {
        read_as(crate::numeral::unsigned_of(t.skip(2), 16, max), ParseError::HexPrefix)
    } else if bin_marked(t) {
        read_as(crate::numeral::unsigned_of(t.skip(2), 2, max), ParseError::BinPrefix)
    } else {
        match ty {
            RegDataType::Hex => read_as(
                crate::numeral::unsigned_of(t, 16, max),
                ParseError::Hex,
            ),
            RegDataType::Binary => read_as(
                crate::numeral::unsigned_of(t, 2, max),
                ParseError::Bin,
            ),
            RegDataType::Int => match crate::numeral::signed_of(
                t,
                -(max / 2) - 1,
                if n == 1 {
                    max as int
                } else {
                    (max / 2) as int
                },
            ) {
                Some(i) => Ok(crate::words::signed_bits(i, n)),
                None => Err(ParseError::Dec),
            },
            _ => read_as(crate::numeral::unsigned_of(t, 10, max), ParseError::Dec),
        }
    }
}

/// Whether a text starts with the mark of hexadecimal numbers.
pub open spec fn hex_marked(t: Seq<char>) -> bool {
    t.len() >= 2 && t[0] == '0' && (t[1] == 'x' || t[1] == 'X')
}

/// Whether a text starts with the mark of binary numbers.
pub open spec fn bin_marked(t: Seq<char>) -> bool {
    t.len() >= 2 && t[0] == '0' && (t[1] == 'b' || t[1] == 'B')
}

/// A number, or an error where there is none.
pub open spec fn read_as(n: Option<nat>, e: ParseError) -> Result<nat, ParseError> {
    match n {
        Some(v) => Ok(v),
        None => Err(e),
    }
}

/// The bits that an entry stands for in a format.
pub open spec fn bits_read(t: Seq<char>, f: RegDataFormat, floats: FloatBits) -> Result<
    nat,
    ParseError,
> {
    match f.data_type {
        RegDataType::Float => match f.width {
            RegDataWidth::Bits16 => match floats.single {
                Some(b) => Ok(crate::half::half_of(b) as nat),
                None => Err(ParseError::Dec),
            },
            RegDataWidth::Bits32 => match floats.single {
                Some(b) => Ok(b as nat),
                None => Err(ParseError::Dec),
            },
            RegDataWidth::Bits64 => match floats.double {
                Some(b) => Ok(b as nat),
                None => Err(ParseError::Dec),
            },
            RegDataWidth::Bits128 => if hex_marked(t) || bin_marked(t) {
                number_read(t, f.data_type, 8)
            } else {
                match floats.double {
                    Some(b) => Ok(b as nat),
                    None => Err(ParseError::Dec),
                }
            },
        },
        _ => number_read(t, f.data_type, entry_regs(f)),
    }
}

/// The registers that an entry stores, or why it is refused.
pub open spec fn entry_words(
    s: Seq<char>,
    f: RegDataFormat,
    swap_bytes: bool,
    swap_words: bool,
    floats: FloatBits,
) -> Result<Seq<u16>, ParseError> {
    let t = crate::text::trim(s);
    if t.len() == 0 {
        Err(ParseError::Empty)
    } else {
        match bits_read(t, f, floats) {
            Ok(v) => Ok(
                crate::words::arranged(
                    crate::words::words_of(v, entry_regs(f)),
                    swap_bytes,
                    swap_words,
                ),
            ),
            Err(e) => Err(e),
        }
    }
}

/// Writes a number of `n` registers at the end of a text.
fn push_number(out: &mut String, v: u128, n: usize, t: RegDataType)
    requires
        n <= 8,
    ensures
        final(out)@ == old(out)@ + number_text(v as nat, n as nat, t),
{
    match t {
        RegDataType::Hex => {
            out.append("0x");
            push_padded(out, v, 16, 4 * n);
        },
        RegDataType::Binary => {
            out.append("0b");
            push_padded(out, v, 2, 16 * n);
        },
        _ => {
            push_decimal(out, v);
        },
    }
    assert(out@ =~= old(out)@ + number_text(v as nat, n as nat, t));
}

/// One register as a text.
pub fn format_u16(v: u16, fmt: RegDataFormat) -> (r: String)
    ensures
        r@ == number_text(v as nat, 1, fmt.data_type),
{
    let mut r = String::new();
    push_number(&mut r, v as u128, 1, fmt.data_type);
    assert(r@ =~= number_text(v as nat, 1, fmt.data_type));
    r
}

fn format_unsigned(v: u128) -> (r: String)
    ensures
        r@ == crate::numeral::decimal(v as nat),
{
    let mut r = String::new();
    push_decimal(&mut r, v);
    assert(r@ =~= crate::numeral::decimal(v as nat));
    r
}

fn format_signed(v: i128) -> (r: String)
    ensures
        r@ == crate::numeral::signed_decimal(v as int),
{
    let mut r = String::new();
    push_signed(&mut r, v);
    assert(r@ =~= crate::numeral::signed_decimal(v as int));
    r
}

/// The value at an address of a table, as it is shown in a format.
pub fn format_register_value(
    regs: &Vec<u16>,
    addr: usize,
    format: RegDataFormat,
    swap_bytes: bool,
    swap_words: bool,
) -> (r: RegisterText)
    ensures
        register_shown(regs@, addr as int, format, swap_bytes, swap_words, r@),
{
    let needed: usize = format.regs_needed();
    let count: usize = regs.len();
    if addr > count || needed > count - addr {
        let mut s = "-- (need ".to_string();
        push_decimal(&mut s, needed as u128);
        s.append(")");
        return RegisterText::Text(s);
    }
    let mut raw: Vec<u16> = Vec::new();
    for i in 0..needed
        invariant
            addr + needed <= count,
            count == regs@.len(),
            raw@ == regs@.subrange(addr as int, addr + i),
    {
        raw.push(regs[addr + i]);
    }
    let words: Vec<u16> = arrange(&raw, swap_bytes, swap_words);
    let ghost n = words@.len();
    proof {
        crate::words::lemma_spans();
        crate::words::lemma_number_bound(words@);
    }
    match format.data_type {
        RegDataType::Hex | RegDataType::Binary | RegDataType::Ascii => {
            RegisterText::Text(format_u16(words[0], format))
        },
        RegDataType::Uint => RegisterText::Text(format_unsigned(join_words(&words))),
        RegDataType::Int => {
            RegisterText::Text(format_signed(to_signed(join_words(&words), needed)))
        },
        RegDataType::Float => match format.width {
            RegDataWidth::Bits16 => RegisterText::Single(half_to_single_bits(words[0])),
            RegDataWidth::Bits32 => RegisterText::Single(join_words(&words) as u32),
            RegDataWidth::Bits64 => RegisterText::Double(join_words(&words) as u64),
            RegDataWidth::Bits128 => RegisterText::Text(format_unsigned(join_words(&words))),
        },
    }
}

fn has_mark(t: &Vec<char>, lower: char, upper: char) -> (r: bool)
    ensures
        r == (t@.len() >= 2 && t@[0] == '0' && (t@[1] == lower || t@[1] == upper)),
{
    t.len() >= 2 && t[0] == '0' && (t[1] == lower || t[1] == upper)
}

fn or_refuse(n: Option<u128>, e: ParseError) -> (r: Result<u128, ParseError>)
    ensures
        r == (match n {
            Some(v) => Ok::<u128, ParseError>(v),
            None => Err(e),
        }),
{
    match n {
        Some(v) => Ok(v),
        None => Err(e),
    }
}

/// The number that a text stands for in `n` registers.
fn read_number(t: &Vec<char>, ty: RegDataType, n: usize) -> (r: Result<u128, ParseError>)
    requires
        n == 1 || n == 2 || n == 4 || n == 8,
    ensures
        match r {
            Ok(v) => number_read(t@, ty, n as nat) == Ok::<nat, ParseError>(v as nat),
            Err(e) => number_read(t@, ty, n as nat) == Err::<nat, ParseError>(e),
        },
{
    let max: u128 = largest(n);
    proof {
        crate::words::lemma_spans();
    }
    if has_mark(t, 'x', 'X') {
        let rest: Vec<char> = cut(t, 2, t.len());
        assert(rest@ =~= t@.skip(2));
        return or_refuse(read_unsigned(&rest, 16, max), ParseError::HexPrefix);
    }
    if has_mark(t, 'b', 'B') {
        let rest: Vec<char> = cut(t, 2, t.len());
        assert(rest@ =~= t@.skip(2));
        return or_refuse(read_unsigned(&rest, 2, max), ParseError::BinPrefix);
    }
    match ty {
        RegDataType::Hex => or_refuse(read_unsigned(t, 16, max), ParseError::Hex),
        RegDataType::Binary => or_refuse(read_unsigned(t, 2, max), ParseError::Bin),
        RegDataType::Int => {
            if n > 1 || (t.len() > 0 && t[0] == '-') {
                match read_signed(t, (max / 2) as i128) {
                    Some(i) => Ok(to_bits(i, n)),
                    None => Err(ParseError::Dec),
                }
            } else {
                or_refuse(read_unsigned(t, 10, max), ParseError::Dec)
            }
        },
        _ => or_refuse(read_unsigned(t, 10, max), ParseError::Dec),
    }
}

/// The data type by which an entry of one register without a sign is read.
pub open spec fn unsigned_type(t: RegDataType) -> RegDataType {
    if t is Int {
        RegDataType::Uint
    } else {
        t
    }
}

/// The register that an entry of one register without a sign stores, before any
/// reordering.
pub fn parse_u16_str(s: &str, fmt: RegDataFormat) -> (r: Result<u16, ParseError>)
    ensures
        ({
            let t = crate::text::trim(s@);
            match r {
                Ok(v) => t.len() > 0 && number_read(t, unsigned_type(fmt.data_type), 1) == Ok::<
                    nat,
                    ParseError,
                >(v as nat),
                Err(e) => if t.len() == 0 {
                    e == ParseError::Empty
                } else {
                    number_read(t, unsigned_type(fmt.data_type), 1) == Err::<nat, ParseError>(e)
                },
            }
        }),
{
    let t: Vec<char> = trim_chars(&chars_of(s));
    if t.len() == 0 {
        return Err(ParseError::Empty);
    }
    let ty = match fmt.data_type {
        RegDataType::Int => RegDataType::Uint,
        other => other,
    };
    proof {
        crate::words::lemma_spans();
        lemma_number_read_bound(t@, ty, 1);
    }
    match read_number(&t, ty, 1) {
        Ok(v) => Ok(v as u16),
        Err(e) => Err(e),
    }
}

/// A number that was read fits in its registers.
pub proof fn lemma_number_read_bound(t: Seq<char>, ty: RegDataType, n: nat)
    requires
        n == 1 || n == 2 || n == 4 || n == 8,
    ensures
        number_read(t, ty, n) matches Ok(v) ==> v < crate::words::span(n),
{
    crate::words::lemma_spans();
}

/// The registers that an entry stores at an address of a table, so that they
/// show the entered value.
pub fn parse_register_value(
    s: &str,
    fmt: RegDataFormat,
    swap_bytes: bool,
    swap_words: bool,
    floats: FloatBits,
) -> (r: Result<Vec<u16>, ParseError>)
    ensures
        match r {
            Ok(v) => entry_words(s@, fmt, swap_bytes, swap_words, floats) == Ok::<
                Seq<u16>,
                ParseError,
            >(v@),
            Err(e) => entry_words(s@, fmt, swap_bytes, swap_words, floats) == Err::<
                Seq<u16>,
                ParseError,
            >(e),
        },
{
    let t: Vec<char> = trim_chars(&chars_of(s));
    if t.len() == 0 {
        return Err(ParseError::Empty);
    }
    let (n, bits): (usize, Result<u128, ParseError>) = match fmt.data_type {
        RegDataType::Hex | RegDataType::Binary | RegDataType::Ascii => (
            1,
            read_number(&t, fmt.data_type, 1),
        ),
        RegDataType::Uint | RegDataType::Int => {
            let n: usize = fmt.regs_needed();
            (n, read_number(&t, fmt.data_type, n))
        },
        RegDataType::Float => {
            let single = match floats.single {
                Some(b) => Some(b as u128),
                None => None,
            };
            let double = match floats.double {
                Some(b) => Some(b as u128),
                None => None,
            };
            match fmt.width {
                RegDataWidth::Bits16 => (
                    1,
                    match floats.single {
                        Some(b) => Ok(f32_to_f16_bits(b) as u128),
                        None => Err(ParseError::Dec),
                    },
                ),
                RegDataWidth::Bits32 => (2, or_refuse(single, ParseError::Dec)),
                RegDataWidth::Bits64 => (4, or_refuse(double, ParseError::Dec)),
                RegDataWidth::Bits128 => (
                    8,
                    if has_mark(&t, 'x', 'X') || has_mark(&t, 'b', 'B') {
                        read_number(&t, fmt.data_type, 8)
                    } else {
                        or_refuse(double, ParseError::Dec)
                    },
                ),
            }
        },
    };
    match bits {
        Ok(v) => {
            let words: Vec<u16> = split_number(v, n);
            Ok(arrange(&words, swap_bytes, swap_words))
        },
        Err(e) => Err(e),
    }
}

/// A text that shows arranged registers is read as the number in them.
pub proof fn lemma_shown_read(w: Seq<u16>, f: RegDataFormat, s: Seq<char>, floats: FloatBits)
    requires
        w.len() == crate::format::regs_of(f.width),
        words_shown(w, f, Shown::Text(s)),
        single_register(f.data_type) ==> f.width is Bits16,
        !(f.data_type is Float),
    ensures
        crate::text::trim(s) == s,
        s.len() > 0,
        bits_read(s, f, floats) == Ok::<nat, ParseError>(crate::words::number_of(w)),
{
    let n = w.len();
    let v = crate::words::number_of(w);
    crate::words::lemma_spans();
    crate::words::lemma_number_bound(w);
    let max = (crate::words::span(n) - 1) as nat;
    if n == 1 {
        assert(w.drop_last() =~= Seq::<u16>::empty());
        assert(v == w[0] as nat);
    }
    match f.data_type {
        RegDataType::Hex => {
            reveal_strlit("0x");
            let d = crate::numeral::padded(v, 16, 4);
            crate::numeral::lemma_padded(v, 16, 4);
            crate::numeral::lemma_digits_plain(d, 16, 0);
            crate::numeral::lemma_digits_plain(d, 16, d.len() - 1);
            assert(s.skip(2) =~= d);
        },
        RegDataType::Binary => {
            reveal_strlit("0b");
            let d = crate::numeral::padded(v, 2, 16);
            crate::numeral::lemma_padded(v, 2, 16);
            crate::numeral::lemma_digits_plain(d, 2, 0);
            crate::numeral::lemma_digits_plain(d, 2, d.len() - 1);
            assert(s.skip(2) =~= d);
        },
        RegDataType::Int => {
            let i = crate::words::signed_number(v, n);
            crate::words::law_signed_bits(v, n);
            crate::numeral::lemma_numeral(if i < 0 { (-i) as nat } else { i as nat }, 10);
            let d = crate::numeral::decimal(if i < 0 { (-i) as nat } else { i as nat });
            crate::numeral::lemma_digits_plain(d, 10, 0);
            crate::numeral::lemma_digits_plain(d, 10, d.len() - 1);
            if d.len() > 1 {
                assert(crate::numeral::is_digit(d[1], 10));
            }
            let most = if n == 1 {
                max as int
            } else {
                (max / 2) as int
            };
            crate::numeral::lemma_signed_decimal_read(i, -(max / 2) - 1, most);
        },
        _ => {
            crate::numeral::lemma_numeral(v, 10);
            let d = crate::numeral::decimal(v);
            crate::numeral::lemma_digits_plain(d, 10, 0);
            crate::numeral::lemma_digits_plain(d, 10, d.len() - 1);
            if d.len() > 1 {
                assert(crate::numeral::is_digit(d[1], 10));
            }
            crate::numeral::lemma_decimal_read(v, max);
        },
    }
    crate::text::lemma_trim_plain(s);
}

/// An entry of the text that shows registers stores these registers again,
/// however the device reorders them. Left out are the formats whose text shows
/// less than the registers hold: one register of a wider format, and the rounded
/// digits of floating point.
pub proof fn law_entry_restores_registers(
    regs: Seq<u16>,
    addr: int,
    f: RegDataFormat,
    swap_bytes: bool,
    swap_words: bool,
    s: Seq<char>,
    floats: FloatBits,
)
    requires
        0 <= addr,
        addr + crate::format::regs_of(f.width) <= regs.len(),
        register_shown(regs, addr, f, swap_bytes, swap_words, Shown::Text(s)),
        single_register(f.data_type) ==> f.width is Bits16,
        !(f.data_type is Float),
    ensures
        entry_words(s, f, swap_bytes, swap_words, floats) == Ok::<Seq<u16>, ParseError>(
            regs.subrange(addr, addr + crate::format::regs_of(f.width)),
        ),
{
    let n = crate::format::regs_of(f.width);
    let raw = regs.subrange(addr, addr + n);
    let w = crate::words::arranged(raw, swap_bytes, swap_words);
    lemma_shown_read(w, f, s, floats);
    crate::words::lemma_number_bound(w);
    crate::words::law_words_hold_number(crate::words::number_of(w), n, w);
    crate::words::law_arranged_twice(raw, swap_bytes, swap_words);
}

/// A shown value depends on its own registers only: where the registers from two
/// addresses are the same, so is what is shown of them.
pub proof fn law_shown_by_own_registers(
    regs: Seq<u16>,
    addr: int,
    others: Seq<u16>,
    at: int,
    f: RegDataFormat,
    swap_bytes: bool,
    swap_words: bool,
    a: Shown,
    b: Shown,
)
    requires
        0 <= addr && addr + crate::format::regs_of(f.width) <= regs.len(),
        0 <= at && at + crate::format::regs_of(f.width) <= others.len(),
        regs.subrange(addr, addr + crate::format::regs_of(f.width)) == others.subrange(
            at,
            at + crate::format::regs_of(f.width),
        ),
        register_shown(regs, addr, f, swap_bytes, swap_words, a),
        register_shown(others, at, f, swap_bytes, swap_words, b),
    ensures
        a == b,
{
    let n = crate::format::regs_of(f.width);
    let w = crate::words::arranged(regs.subrange(addr, addr + n), swap_bytes, swap_words);
    if f.data_type is Float && f.width is Bits16 {
        crate::half::lemma_shown_once(w[0], a->Single_0, b->Single_0);
    }
}

/// It is told that registers are missing where too few are left from an address
/// on, and only there: no value is shown by that text.
pub proof fn law_missing_registers_are_told(
    regs: Seq<u16>,
    addr: int,
    f: RegDataFormat,
    swap_bytes: bool,
    swap_words: bool,
    shown: Shown,
)
    requires
        0 <= addr,
        register_shown(regs, addr, f, swap_bytes, swap_words, shown),
    ensures
        shown == Shown::Text(
            "-- (need "@ + crate::numeral::decimal(crate::format::regs_of(f.width)) + ")"@,
        ) <==> addr + crate::format::regs_of(f.width) > regs.len(),
{
    let n = crate::format::regs_of(f.width);
    let told = "-- (need "@ + crate::numeral::decimal(n) + ")"@;
    reveal_strlit("-- (need ");
    assert(told[0] == '-' && told[1] == '-');
    if addr + n <= regs.len() {
        let w = crate::words::arranged(regs.subrange(addr, addr + n), swap_bytes, swap_words);
        match shown {
            Shown::Text(s) => {
                lemma_value_text(w, f, s);
            },
            _ => {},
        }
    }
}

/// The text of a value does not start with two minus signs.
proof fn lemma_value_text(w: Seq<u16>, f: RegDataFormat, s: Seq<char>)
    requires
        words_shown(w, f, Shown::Text(s)),
    ensures
        s.len() >= 2 ==> s[0] != '-' || s[1] != '-',
{
    let v = crate::words::number_of(w);
    match f.data_type {
        RegDataType::Hex => {
            reveal_strlit("0x");
            assert(s[0] == '0');
        },
        RegDataType::Binary => {
            reveal_strlit("0b");
            assert(s[0] == '0');
        },
        RegDataType::Ascii => {
            lemma_decimal_start(w[0] as nat);
        },
        RegDataType::Int => {
            let i = crate::words::signed_number(v, w.len());
            if i < 0 {
                lemma_decimal_start((-i) as nat);
                assert(s[1] == crate::numeral::decimal((-i) as nat)[0]);
            } else {
                lemma_decimal_start(i as nat);
            }
        },
        _ => {
            lemma_decimal_start(v);
        },
    }
}

proof fn lemma_decimal_start(n: nat)
    ensures
        crate::numeral::decimal(n).len() > 0,
        crate::numeral::decimal(n)[0] != '-',
{
    crate::numeral::lemma_numeral(n, 10);
    crate::numeral::lemma_digits_plain(crate::numeral::decimal(n), 10, 0);
}

/// An accepted entry fills as many registers as its format shows, and one for
/// the formats that show one.
pub proof fn law_entry_size(
    s: Seq<char>,
    f: RegDataFormat,
    swap_bytes: bool,
    swap_words: bool,
    floats: FloatBits,
)
    ensures
        entry_words(s, f, swap_bytes, swap_words, floats) matches Ok(w) ==> w.len() == entry_regs(
            f,
        ),
{
    let t = crate::text::trim(s);
    match bits_read(t, f, floats) {
        Ok(v) => {
            crate::words::lemma_words_len(v, entry_regs(f));
        },
        Err(_) => {},
    }
}

/// The registers that an entry in floating point stores show the very number
/// that was entered, in single and in double precision.
pub proof fn law_float_entry_is_shown(
    s: Seq<char>,
    f: RegDataFormat,
    swap_bytes: bool,
    swap_words: bool,
    floats: FloatBits,
    regs: Seq<u16>,
    shown: Shown,
)
    requires
        f.data_type is Float,
        f.width is Bits32 || f.width is Bits64,
        entry_words(s, f, swap_bytes, swap_words, floats) == Ok::<Seq<u16>, ParseError>(regs),
        register_shown(regs, 0, f, swap_bytes, swap_words, shown),
    ensures
        f.width is Bits32 ==> (floats.single matches Some(b) && shown == Shown::Single(b)),
        f.width is Bits64 ==> (floats.double matches Some(b) && shown == Shown::Double(b)),
{
    let t = crate::text::trim(s);
    let n = entry_regs(f);
    crate::words::lemma_spans();
    match bits_read(t, f, floats) {
        Ok(v) => {
            crate::words::law_words_hold_number(v, n, regs);
            let w = crate::words::words_of(v, n);
            crate::words::law_arranged_twice(w, swap_bytes, swap_words);
            assert(regs.subrange(0, n as int) =~= regs);
        },
        Err(_) => {},
    }
}

/// Text that starts with a mark is read by the mark alone, whatever the data
/// type, where whole numbers are entered.
pub proof fn law_mark_decides(t: Seq<char>, a: RegDataType, b: RegDataType, n: nat)
    requires
        hex_marked(t) || bin_marked(t),
    ensures
        number_read(t, a, n) == number_read(t, b, n),
{
}

} // verus!

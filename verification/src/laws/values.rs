//! Values that are entered for registers, and registers that are shown: every
//! width, every type, however a device has its bytes and registers.
use crate::format::{regs_of, RegDataFormat, RegDataType, RegDataWidth};
use crate::half::{
    half_exponent, half_fraction, half_negative, half_of, shown_as, single_exponent,
    single_fraction, single_negative, single_units,
};
use crate::laws::numbers::{
    law_registers_count_by_place, law_signed_number_is_read, law_spread_holds_number,
    law_written_number_is_read, weighed,
};
use crate::numeral::{decimal, lemma_numeral, lemma_padded, numeral, padded, signed_decimal};
use crate::value::{
    bin_marked, entry_words, hex_marked, number_read, register_shown, FloatBits, ParseError, Shown,
};
use crate::words::{arranged, lemma_spans, span};
use vstd::arithmetic::power2::pow2;
use vstd::prelude::*;

verus! {

/// How many numbers the registers of a width tell apart.
pub open spec fn room(w: RegDataWidth) -> int {
    match w {
        RegDataWidth::Bits16 => 0x1_0000,
        RegDataWidth::Bits32 => 0x1_0000_0000,
        RegDataWidth::Bits64 => 0x1_0000_0000_0000_0000,
        RegDataWidth::Bits128 => 0x1_0000_0000_0000_0000_0000_0000_0000_0000int,
    }
}

/// How many registers of 16 bits a width has.
pub open spec fn count(w: RegDataWidth) -> nat {
    match w {
        RegDataWidth::Bits16 => 1,
        RegDataWidth::Bits32 => 2,
        RegDataWidth::Bits64 => 4,
        RegDataWidth::Bits128 => 8,
    }
}

/// Whether an entry was taken for a number: it stores as many registers as there
/// are to be, and a device that has them so holds the number in them.
pub open spec fn stores(
    r: Result<Seq<u16>, ParseError>,
    n: nat,
    swap_bytes: bool,
    swap_words: bool,
    v: int,
) -> bool {
    r matches Ok(w) && w.len() == n && weighed(arranged(w, swap_bytes, swap_words)) == v
}

/// Whether a mark is that of hexadecimal or of binary numbers.
pub open spec fn radix_of(mark: Seq<char>) -> nat {
    if mark == "0x"@ || mark == "0X"@ {
        16
    } else {
        2
    }
}

proof fn lemma_marked(mark: Seq<char>, v: nat, width: nat)
    requires
        mark == "0x"@ || mark == "0X"@ || mark == "0b"@ || mark == "0B"@,
    ensures
        ({
            let s = mark + padded(v, radix_of(mark), width);
            &&& crate::text::trim(s) == s
            &&& s.skip(2) == padded(v, radix_of(mark), width)
            &&& s.len() > 2
            &&& hex_marked(s) <==> radix_of(mark) == 16
            &&& bin_marked(s) <==> radix_of(mark) == 2
        }),
{
    reveal_strlit("0x");
    reveal_strlit("0X");
    reveal_strlit("0b");
    reveal_strlit("0B");
    let d = padded(v, radix_of(mark), width);
    let s = mark + d;
    lemma_padded(v, radix_of(mark), width);
    crate::numeral::lemma_digits_plain(d, radix_of(mark), d.len() - 1);
    assert(s.skip(2) =~= d);
    assert(s[0] == '0' && s.last() == d.last());
    crate::text::lemma_trim_plain(s);
    assert("0b"@[1] == 'b' && "0x"@[1] == 'x' && "0B"@[1] == 'B' && "0X"@[1] == 'X');
}

proof fn lemma_stored(v: nat, n: nat, swap_bytes: bool, swap_words: bool)
    requires
        n == 1 && v < 0x1_0000 || n == 2 && v < 0x1_0000_0000 || n == 4 && v
            < 0x1_0000_0000_0000_0000 || n == 8 && v
            < 0x1_0000_0000_0000_0000_0000_0000_0000_0000int,
    ensures
        ({
            let w = arranged(crate::words::words_of(v, n), swap_bytes, swap_words);
            w.len() == n && weighed(arranged(w, swap_bytes, swap_words)) == v
        }),
{
    law_spread_holds_number(v, n);
    crate::words::law_arranged_twice(crate::words::words_of(v, n), swap_bytes, swap_words);
}

/// A number behind `0x` or `0b` is accepted in every format of whole numbers, and in
/// floating point of eight registers, if and only if it fits in the registers of the
/// format, and these then hold it. It may have zeros before it, and the mark may be in
/// either case.
pub proof fn law_marked_entry_fills_its_width(
    mark: Seq<char>,
    v: nat,
    width: nat,
    f: RegDataFormat,
    swap_bytes: bool,
    swap_words: bool,
    floats: FloatBits,
)
    requires
        mark == "0x"@ || mark == "0X"@ || mark == "0b"@ || mark == "0B"@,
        f.data_type is Uint || f.data_type is Int || f.data_type is Float && f.width is Bits128,
    ensures
        ({
            let s = mark + padded(v, radix_of(mark), width);
            let r = entry_words(s, f, swap_bytes, swap_words, floats);
            &&& v < room(f.width) ==> stores(
                r,
                count(f.width),
                swap_bytes,
                swap_words,
                v as int,
            )
            &&& v >= room(f.width) ==> r == Err::<Seq<u16>, ParseError>(
                if radix_of(mark) == 16 {
                    ParseError::HexPrefix
                } else {
                    ParseError::BinPrefix
                },
            )
        }),
{
    lemma_spans();
    lemma_marked(mark, v, width);
    law_written_number_is_read(v, radix_of(mark), width, (room(f.width) - 1) as nat);
    if v < room(f.width) {
        lemma_stored(v, count(f.width), swap_bytes, swap_words);
    }
}

/// A number behind `0x` or `0b` is accepted in the formats that are entered by one
/// register if and only if it fits in one, and the register then holds it.
pub proof fn law_marked_entry_fills_one_register(
    mark: Seq<char>,
    v: nat,
    width: nat,
    f: RegDataFormat,
    swap_bytes: bool,
    swap_words: bool,
    floats: FloatBits,
)
    requires
        mark == "0x"@ || mark == "0X"@ || mark == "0b"@ || mark == "0B"@,
        f.data_type is Hex || f.data_type is Binary || f.data_type is Ascii,
    ensures
        ({
            let s = mark + padded(v, radix_of(mark), width);
            let r = entry_words(s, f, swap_bytes, swap_words, floats);
            &&& v < 0x1_0000 ==> stores(r, 1, swap_bytes, swap_words, v as int)
            &&& v >= 0x1_0000 ==> r is Err
        }),
{
    lemma_spans();
    lemma_marked(mark, v, width);
    law_written_number_is_read(v, radix_of(mark), width, 0xFFFF);
    if v < 0x1_0000 {
        lemma_stored(v, 1, swap_bytes, swap_words);
    }
}

proof fn lemma_plain_number(v: nat, radix: nat)
    requires
        radix == 10 || radix == 16 || radix == 2,
    ensures
        ({
            let s = numeral(v, radix);
            &&& crate::text::trim(s) == s
            &&& s.len() > 0
            &&& !hex_marked(s)
            &&& !bin_marked(s)
            &&& padded(v, radix, 0) == s
            &&& s[0] != '-'
        }),
{
    let s = numeral(v, radix);
    lemma_numeral(v, radix);
    crate::laws::numbers::law_no_needless_zeros(v, radix);
    crate::numeral::lemma_digits_plain(s, radix, 0);
    crate::numeral::lemma_digits_plain(s, radix, s.len() - 1);
    crate::text::lemma_trim_plain(s);
}

/// A decimal number without a sign is accepted in the unsigned formats if and only
/// if it fits in their registers, which then hold it.
pub proof fn law_decimal_entry_fills_its_width(
    v: nat,
    f: RegDataFormat,
    swap_bytes: bool,
    swap_words: bool,
    floats: FloatBits,
)
    requires
        f.data_type is Uint,
    ensures
        ({
            let r = entry_words(decimal(v), f, swap_bytes, swap_words, floats);
            &&& v < room(f.width) ==> stores(
                r,
                count(f.width),
                swap_bytes,
                swap_words,
                v as int,
            )
            &&& v >= room(f.width) ==> r == Err::<Seq<u16>, ParseError>(ParseError::Dec)
        }),
{
    lemma_spans();
    lemma_plain_number(v, 10);
    law_written_number_is_read(v, 10, 0, (room(f.width) - 1) as nat);
    if v < room(f.width) {
        lemma_stored(v, count(f.width), swap_bytes, swap_words);
    }
}

/// A decimal number with its sign is accepted in the signed formats if it lies
/// within half of what their registers tell apart, on either side of zero; a
/// negative one is held as what it is short of that. One register takes all
/// numbers without a sign that fit in it.
pub proof fn law_signed_entry_fills_its_width(
    i: int,
    f: RegDataFormat,
    swap_bytes: bool,
    swap_words: bool,
    floats: FloatBits,
)
    requires
        f.data_type is Int,
    ensures
        ({
            let r = entry_words(signed_decimal(i), f, swap_bytes, swap_words, floats);
            let top = if f.width is Bits16 {
                0xFFFF
            } else {
                room(f.width) / 2 - 1
            };
            &&& 0 <= i <= top ==> stores(r, count(f.width), swap_bytes, swap_words, i)
            &&& -(room(f.width) / 2) <= i < 0 ==> stores(
                r,
                count(f.width),
                swap_bytes,
                swap_words,
                i + room(f.width),
            )
            &&& i > top || i < -(room(f.width) / 2) ==> r == Err::<Seq<u16>, ParseError>(
                ParseError::Dec,
            )
        }),
{
    lemma_spans();
    let s = signed_decimal(i);
    let top = if f.width is Bits16 {
        0xFFFF
    } else {
        room(f.width) / 2 - 1
    };
    let max = (span(count(f.width)) - 1) as nat;
    assert(-(max / 2) - 1 == -(room(f.width) / 2));
    law_signed_number_is_read(i, -(max / 2) - 1, top);
    if i < 0 {
        let d = decimal((-i) as nat);
        lemma_numeral((-i) as nat, 10);
        crate::numeral::lemma_digits_plain(d, 10, d.len() - 1);
        assert(s.last() == d.last() && s[0] == '-');
        crate::text::lemma_trim_plain(s);
        if -(room(f.width) / 2) <= i {
            lemma_stored((i + room(f.width)) as nat, count(f.width), swap_bytes, swap_words);
        }
    } else {
        lemma_plain_number(i as nat, 10);
        if i <= top {
            lemma_stored(i as nat, count(f.width), swap_bytes, swap_words);
        }
    }
}

/// A hexadecimal or binary number without a mark is accepted in its own format if
/// and only if it fits in one register, which then holds it.
pub proof fn law_plain_entry_fills_one_register(
    v: nat,
    f: RegDataFormat,
    swap_bytes: bool,
    swap_words: bool,
    floats: FloatBits,
)
    requires
        f.data_type is Hex || f.data_type is Binary || f.data_type is Ascii,
    ensures
        ({
            let radix = match f.data_type {
                RegDataType::Hex => 16nat,
                RegDataType::Binary => 2,
                _ => 10,
            };
            let r = entry_words(numeral(v, radix), f, swap_bytes, swap_words, floats);
            &&& v < 0x1_0000 ==> stores(r, 1, swap_bytes, swap_words, v as int)
            &&& v >= 0x1_0000 ==> r == Err::<Seq<u16>, ParseError>(
                match f.data_type {
                    RegDataType::Hex => ParseError::Hex,
                    RegDataType::Binary => ParseError::Bin,
                    _ => ParseError::Dec,
                },
            )
        }),
{
    lemma_spans();
    let radix: nat = match f.data_type {
        RegDataType::Hex => 16nat,
        RegDataType::Binary => 2,
        _ => 10,
    };
    lemma_plain_number(v, radix);
    law_written_number_is_read(v, radix, 0, 0xFFFF);
    if v < 0x1_0000 {
        lemma_stored(v, 1, swap_bytes, swap_words);
    }
}

/// White space around an entry changes nothing, and nothing but white space is no
/// entry.
pub proof fn law_white_space_is_no_entry(
    s: Seq<char>,
    f: RegDataFormat,
    swap_bytes: bool,
    swap_words: bool,
    floats: FloatBits,
)
    ensures
        entry_words(s, f, swap_bytes, swap_words, floats) == Err::<Seq<u16>, ParseError>(
            ParseError::Empty,
        ) <==> crate::text::trim(s).len() == 0,
        crate::text::trim(crate::text::trim(s)) == crate::text::trim(s) ==> entry_words(
            s,
            f,
            swap_bytes,
            swap_words,
            floats,
        ) == entry_words(crate::text::trim(s), f, swap_bytes, swap_words, floats),
{
}

/// An entry in floating point stores the bits of the number that was entered: in
/// two registers those of single precision, in four those of double precision, and
/// so in eight, where a marked number is read as a whole one.
pub proof fn law_float_entry_stores_bits(
    s: Seq<char>,
    f: RegDataFormat,
    swap_bytes: bool,
    swap_words: bool,
    floats: FloatBits,
)
    requires
        f.data_type is Float,
        crate::text::trim(s).len() > 0,
    ensures
        ({
            let r = entry_words(s, f, swap_bytes, swap_words, floats);
            match f.width {
                RegDataWidth::Bits16 => match floats.single {
                    Some(b) => stores(r, 1, swap_bytes, swap_words, half_of(b) as int),
                    None => r == Err::<Seq<u16>, ParseError>(ParseError::Dec),
                },
                RegDataWidth::Bits32 => match floats.single {
                    Some(b) => stores(r, 2, swap_bytes, swap_words, b as int),
                    None => r == Err::<Seq<u16>, ParseError>(ParseError::Dec),
                },
                RegDataWidth::Bits64 => match floats.double {
                    Some(b) => stores(r, 4, swap_bytes, swap_words, b as int),
                    None => r == Err::<Seq<u16>, ParseError>(ParseError::Dec),
                },
                RegDataWidth::Bits128 => if hex_marked(crate::text::trim(s)) || bin_marked(
                    crate::text::trim(s),
                ) {
                    r is Err || r->Ok_0.len() == 8
                } else {
                    match floats.double {
                        Some(b) => stores(r, 8, swap_bytes, swap_words, b as int),
                        None => r == Err::<Seq<u16>, ParseError>(ParseError::Dec),
                    }
                },
            }
        }),
{
    match f.width {
        RegDataWidth::Bits16 => {
            if floats.single is Some {
                lemma_stored(half_of(floats.single->0) as nat, 1, swap_bytes, swap_words);
            }
        },
        RegDataWidth::Bits32 => {
            if floats.single is Some {
                lemma_stored(floats.single->0 as nat, 2, swap_bytes, swap_words);
            }
        },
        RegDataWidth::Bits64 => {
            if floats.double is Some {
                lemma_stored(floats.double->0 as nat, 4, swap_bytes, swap_words);
            }
        },
        RegDataWidth::Bits128 => {
            if hex_marked(crate::text::trim(s)) || bin_marked(crate::text::trim(s)) {
                crate::value::law_entry_size(s, f, swap_bytes, swap_words, floats);
            } else if floats.double is Some {
                lemma_stored(floats.double->0 as nat, 8, swap_bytes, swap_words);
            }
        },
    }
}

/// The entry of one register on the screen: a number that fits is taken as it
/// stands, by its mark or by its type.
pub proof fn law_one_register_is_read(mark: Seq<char>, v: nat, width: nat, t: RegDataType)
    requires
        mark == "0x"@ || mark == "0X"@ || mark == "0b"@ || mark == "0B"@,
    ensures
        number_read(mark + padded(v, radix_of(mark), width), t, 1) is Ok <==> v < 0x1_0000,
        v < 0x1_0000 ==> number_read(mark + padded(v, radix_of(mark), width), t, 1) == Ok::<
            nat,
            ParseError,
        >(v),
        t is Uint && v < 0x1_0000 ==> number_read(decimal(v), t, 1) == Ok::<nat, ParseError>(v),
        t is Uint && v >= 0x1_0000 ==> number_read(decimal(v), t, 1) == Err::<nat, ParseError>(
            ParseError::Dec,
        ),
        t is Hex && v < 0x1_0000 ==> number_read(numeral(v, 16), t, 1) == Ok::<nat, ParseError>(
            v,
        ),
        t is Hex && v >= 0x1_0000 ==> number_read(numeral(v, 16), t, 1) == Err::<
            nat,
            ParseError,
        >(ParseError::Hex),
        t is Binary && v < 0x1_0000 ==> number_read(numeral(v, 2), t, 1) == Ok::<
            nat,
            ParseError,
        >(v),
        t is Binary && v >= 0x1_0000 ==> number_read(numeral(v, 2), t, 1) == Err::<
            nat,
            ParseError,
        >(ParseError::Bin),
{
    lemma_spans();
    lemma_marked(mark, v, width);
    law_written_number_is_read(v, radix_of(mark), width, 0xFFFF);
    lemma_plain_number(v, 10);
    lemma_plain_number(v, 16);
    lemma_plain_number(v, 2);
    law_written_number_is_read(v, 10, 0, 0xFFFF);
    law_written_number_is_read(v, 16, 0, 0xFFFF);
    law_written_number_is_read(v, 2, 0, 0xFFFF);
}

/// Whether registers that hold a number are shown as it, in a format.
pub open spec fn shows(shown: Shown, w: Seq<u16>, v: int, f: RegDataFormat) -> bool {
    match f.data_type {
        RegDataType::Uint => shown == Shown::Text(decimal(v as nat)),
        RegDataType::Int => shown == Shown::Text(
            signed_decimal(
                if v < room(f.width) / 2 {
                    v
                } else {
                    v - room(f.width)
                },
            ),
        ),
        RegDataType::Hex => shown == Shown::Text("0x"@ + padded(w[0] as nat, 16, 4)),
        RegDataType::Binary => shown == Shown::Text("0b"@ + padded(w[0] as nat, 2, 16)),
        RegDataType::Ascii => shown == Shown::Text(decimal(w[0] as nat)),
        RegDataType::Float => match f.width {
            RegDataWidth::Bits16 => shown matches Shown::Single(b) && shown_as(w[0], b),
            RegDataWidth::Bits32 => shown matches Shown::Single(b) && b == v,
            RegDataWidth::Bits64 => shown matches Shown::Double(b) && b == v,
            RegDataWidth::Bits128 => shown == Shown::Text(decimal(v as nat)),
        },
    }
}

proof fn lemma_shows(w: Seq<u16>, f: RegDataFormat, shown: Shown)
    requires
        w.len() == count(f.width),
        crate::value::words_shown(w, f, shown),
    ensures
        shows(shown, w, crate::words::number_of(w) as int, f),
{
    lemma_spans();
    crate::words::lemma_number_bound(w);
}

/// A value is shown as the number that its registers hold, in the order in which
/// the device has them: an unsigned one as it is, a signed one by what it stands
/// for in two's complement, the first register in hexadecimal or binary digits, and
/// floating point by its bits. Where registers are missing, it is said how many
/// there must be.
pub proof fn law_value_shows_its_number(
    regs: Seq<u16>,
    addr: int,
    f: RegDataFormat,
    swap_bytes: bool,
    swap_words: bool,
    shown: Shown,
)
    requires
        0 <= addr,
        register_shown(regs, addr, f, swap_bytes, swap_words, shown),
    ensures
        ({
            let n = count(f.width);
            let w = arranged(regs.subrange(addr, addr + n), swap_bytes, swap_words);
            &&& addr + n <= regs.len() ==> shows(shown, w, weighed(w), f)
            &&& addr + n > regs.len() ==> shown == Shown::Text("-- (need "@ + decimal(n) + ")"@)
        }),
{
    let n = count(f.width);
    if addr + n <= regs.len() {
        let own = regs.subrange(addr, addr + n);
        let w = arranged(own, swap_bytes, swap_words);
        assert(w.len() == own.len());
        lemma_shows(w, f, shown);
        law_registers_count_by_place(w);
    }
}

/// A format takes as many registers as its width has bits.
pub proof fn law_width_takes_registers(w: RegDataWidth)
    ensures
        regs_of(w) == count(w),
        crate::words::span(regs_of(w)) == room(w),
{
    lemma_spans();
}

/// A normal half has the sign of the single that it is shown as, the exponent of
/// the single but for what the two count from, and the first bits of its fraction;
/// an infinity is shown as one, and what is no number as none.
pub proof fn law_half_is_shown_by_its_fields(h: u16, b: u32)
    requires
        shown_as(h, b),
    ensures
        1 <= half_exponent(h) <= 30 ==> single_exponent(b) == half_exponent(h) + 112
            && single_fraction(b) == half_fraction(h) * 8192 && single_negative(b)
            == half_negative(h),
        half_exponent(h) == 0 ==> single_exponent(b) < 255 && single_units(b) == half_fraction(h)
            * pow2(125),
        h == 0 || h == 0x8000 ==> single_units(b) == 0,
        half_exponent(h) == 31 ==> single_exponent(b) == 255 && (single_fraction(b) == 0
            <==> half_fraction(h) == 0),
        half_exponent(h) == 31 && half_fraction(h) == 0 ==> single_negative(b) == half_negative(
            h,
        ),
{
    if 1 <= half_exponent(h) <= 30 {
        crate::half::lemma_same_value(h, b);
        let m = (1024 + half_fraction(h)) as nat;
        let p = pow2((half_exponent(h) - 1) as nat);
        vstd::arithmetic::power2::lemma_pow2_pos((half_exponent(h) - 1) as nat);
        assert(m * p > 0) by (nonlinear_arith)
            requires
                m > 0,
                p > 0,
        ;
    } else if half_exponent(h) == 0 {
        assert(h == 0 || h == 0x8000 ==> half_fraction(h) == 0);
        assert(0nat * pow2(125) == 0) by (nonlinear_arith);
    }
}

/// A single within the range of a half keeps its sign, its exponent and the first
/// ten bits of its fraction; a larger one becomes infinite and a smaller one zero,
/// with its sign.
pub proof fn law_single_is_cut_to_half(b: u32)
    ensures
        half_negative(half_of(b)) == single_negative(b),
        113 <= single_exponent(b) <= 142 ==> half_exponent(half_of(b)) == single_exponent(b) - 112
            && half_fraction(half_of(b)) == single_fraction(b) / 8192,
        single_exponent(b) < 113 ==> half_exponent(half_of(b)) == 0 && half_fraction(half_of(b))
            == 0,
        142 < single_exponent(b) < 255 ==> half_exponent(half_of(b)) == 31 && half_fraction(
            half_of(b),
        ) == 0,
{
}

/// The fields of a half and of a single: a sign, an exponent and a fraction, which
/// together are the number.
pub proof fn law_fields_are_the_number(h: u16, b: u32)
    ensures
        h == (if half_negative(h) {
            0x8000int
        } else {
            0
        }) + half_exponent(h) * 1024 + half_fraction(h),
        half_exponent(h) < 32 && half_fraction(h) < 1024,
        b == (if single_negative(b) {
            0x8000_0000int
        } else {
            0
        }) + single_exponent(b) * 0x80_0000 + single_fraction(b),
        single_exponent(b) < 256 && single_fraction(b) < 0x80_0000,
{
}

} // verus!

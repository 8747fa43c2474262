//! Formats: how they follow each other and what they are called.
use crate::format::{
    after_combination, after_type, after_width, before_combination, before_type, before_width,
    label_of, typed, RegDataFormat, RegDataType, RegDataWidth,
};
use vstd::prelude::*;

verus! {

/// A step on goes from unsigned to signed numbers, to floating point, to hexadecimal,
/// to binary and to unsigned numbers again; a step back goes the other way. The width
/// stays, but that floating point has none of 128 bits.
pub proof fn law_types_follow_each_other(f: RegDataFormat)
    ensures
        ({
            let on = after_type(f);
            let back = before_type(f);
            &&& match f.data_type {
                RegDataType::Uint => on.data_type is Int && back.data_type is Binary,
                RegDataType::Int => on.data_type is Float && back.data_type is Uint,
                RegDataType::Float => on.data_type is Hex && back.data_type is Int,
                RegDataType::Hex => on.data_type is Binary && back.data_type is Float,
                RegDataType::Binary | RegDataType::Ascii => on.data_type is Uint && back.data_type
                    is Hex,
            }
            &&& !(f.width is Bits128) ==> on.width == f.width && back.width == f.width
            &&& f.width is Bits128 ==> (on.width == if on.data_type is Float {
                RegDataWidth::Bits64
            } else {
                RegDataWidth::Bits128
            }) && (back.width == if back.data_type is Float {
                RegDataWidth::Bits64
            } else {
                RegDataWidth::Bits128
            })
        }),
{
}

/// A step on doubles the width, and the narrowest follows the widest; a step back goes
/// the other way. The type stays, and floating point has none of 128 bits.
pub proof fn law_widths_follow_each_other(f: RegDataFormat)
    ensures
        ({
            let on = after_width(f);
            let back = before_width(f);
            let widest = if f.data_type is Float {
                RegDataWidth::Bits64
            } else {
                RegDataWidth::Bits128
            };
            &&& on.data_type == f.data_type && back.data_type == f.data_type
            &&& match f.width {
                RegDataWidth::Bits16 => on.width is Bits32 && back.width == widest,
                RegDataWidth::Bits32 => on.width is Bits64 && back.width is Bits16,
                RegDataWidth::Bits64 => on.width == widest && back.width is Bits32,
                RegDataWidth::Bits128 => on.width is Bits16 && back.width is Bits64,
            }
        }),
{
}

/// A type is taken at a width as it is, but for floating point of 128 bits, which is
/// taken at 64.
pub proof fn law_type_at_width(t: RegDataType, w: RegDataWidth)
    ensures
        typed(t, w).data_type == t,
        !(t is Float && w is Bits128) ==> typed(t, w).width == w,
        t is Float && w is Bits128 ==> typed(t, w).width is Bits64,
{
}

/// Numbers are called by a letter and their width, all else by name.
pub proof fn law_formats_have_names(f: RegDataFormat)
    ensures
        ({
            let bits = match f.width {
                RegDataWidth::Bits16 => "16"@,
                RegDataWidth::Bits32 => "32"@,
                RegDataWidth::Bits64 => "64"@,
                RegDataWidth::Bits128 => "128"@,
            };
            match f.data_type {
                RegDataType::Uint => label_of(f) == "u"@ + bits,
                RegDataType::Int => label_of(f) == "i"@ + bits,
                RegDataType::Float => label_of(f) == "f"@ + bits,
                RegDataType::Hex => label_of(f) == "hex"@,
                RegDataType::Binary => label_of(f) == "bin"@,
                RegDataType::Ascii => label_of(f) == "ascii"@,
            }
        }),
{
}

/// Single registers go from unsigned numbers of 16 bits to signed ones of 32, unsigned
/// ones of 64, signed ones of 128 and round again; every other format counts as the
/// first.
pub proof fn law_combinations_follow_each_other(f: RegDataFormat)
    ensures
        ({
            let u16bit = RegDataFormat {
                data_type: RegDataType::Uint,
                width: RegDataWidth::Bits16,
            };
            let i32bit = RegDataFormat {
                data_type: RegDataType::Int,
                width: RegDataWidth::Bits32,
            };
            let u64bit = RegDataFormat {
                data_type: RegDataType::Uint,
                width: RegDataWidth::Bits64,
            };
            let i128bit = RegDataFormat {
                data_type: RegDataType::Int,
                width: RegDataWidth::Bits128,
            };
            if f == i32bit {
                after_combination(f) == u64bit && before_combination(f) == u16bit
            } else if f == u64bit {
                after_combination(f) == i128bit && before_combination(f) == i32bit
            } else if f == i128bit {
                after_combination(f) == u16bit && before_combination(f) == u64bit
            } else {
                after_combination(f) == i32bit && before_combination(f) == i128bit
            }
        }),
{
}

/// All types are offered, numbers first.
pub proof fn law_all_types_are_offered(t: RegDataType)
    ensures
        crate::format::type_list().len() == 6,
        crate::format::type_list().contains(t),
        crate::format::type_list()[0] is Uint,
        crate::format::type_list()[1] is Int,
        crate::format::type_list()[2] is Float,
        crate::format::type_list()[3] is Hex,
        crate::format::type_list()[4] is Binary,
        crate::format::type_list()[5] is Ascii,
{
    let l = crate::format::type_list();
    assert(l[0] is Uint && l[1] is Int && l[2] is Float && l[3] is Hex && l[4] is Binary && l[5]
        is Ascii);
}

} // verus!

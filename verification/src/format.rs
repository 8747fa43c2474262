//! How registers are read as numbers: a data type and a width.
use vstd::prelude::*;

verus! {

/// What the bits of a value stand for.
#[derive(Copy, Clone, Debug, PartialEq, Eq, Structural)]
pub enum RegDataType {
    Uint,
    Int,
    Float,
    Hex,
    Binary,
    Ascii,
}

/// How many bits a value has.
#[derive(Copy, Clone, Debug, PartialEq, Eq, Structural)]
pub enum RegDataWidth {
    Bits16,
    Bits32,
    Bits64,
    Bits128,
}

/// A data type and a width.
#[derive(Copy, Clone, Debug, PartialEq, Eq, Structural)]
pub struct RegDataFormat {
    pub data_type: RegDataType,
    pub width: RegDataWidth,
}

impl Default for RegDataType {
    fn default() -> (r: RegDataType)
        ensures
            r == RegDataType::Uint,
    {
        RegDataType::Uint
    }
}

impl Default for RegDataWidth {
    fn default() -> (r: RegDataWidth)
        ensures
            r == RegDataWidth::Bits16,
    {
        RegDataWidth::Bits16
    }
}

/// The format of a register that nothing else was said of.
pub open spec fn plain_format() -> RegDataFormat {
    RegDataFormat { data_type: RegDataType::Uint, width: RegDataWidth::Bits16 }
}

impl Default for RegDataFormat {
    fn default() -> (r: RegDataFormat)
        ensures
            r == plain_format(),
    {
        RegDataFormat { data_type: RegDataType::Uint, width: RegDataWidth::Bits16 }
    }
}

/// The data types in the order in which they are offered.
pub open spec fn type_list() -> Seq<RegDataType> {
    seq![
        RegDataType::Uint,
        RegDataType::Int,
        RegDataType::Float,
        RegDataType::Hex,
        RegDataType::Binary,
        RegDataType::Ascii,
    ]
}

/// The place of a data type in the cycle of the first five of `type_list`.
/// Text is not part of the cycle and leaves it where binary does.
pub open spec fn type_place(t: RegDataType) -> int {
    match t {
        RegDataType::Uint => 0,
        RegDataType::Int => 1,
        RegDataType::Float => 2,
        RegDataType::Hex => 3,
        RegDataType::Binary | RegDataType::Ascii => 4,
    }
}

/// The widths from the narrowest to the widest.
pub open spec fn width_list() -> Seq<RegDataWidth> {
    seq![RegDataWidth::Bits16, RegDataWidth::Bits32, RegDataWidth::Bits64, RegDataWidth::Bits128]
}

/// The place of a width in `width_list`.
pub open spec fn width_place(w: RegDataWidth) -> int {
    match w {
        RegDataWidth::Bits16 => 0,
        RegDataWidth::Bits32 => 1,
        RegDataWidth::Bits64 => 2,
        RegDataWidth::Bits128 => 3,
    }
}

/// The width that a data type can have in place of a width: there is no
/// floating-point number of 128 bits.
pub open spec fn fitting(t: RegDataType, w: RegDataWidth) -> RegDataWidth {
    if t == RegDataType::Float && w == RegDataWidth::Bits128 {
        RegDataWidth::Bits64
    } else {
        w
    }
}

/// A data type at a width, as far as the type has that width.
pub open spec fn typed(t: RegDataType, w: RegDataWidth) -> RegDataFormat {
    RegDataFormat { data_type: t, width: fitting(t, w) }
}

/// How many registers of 16 bits a value takes.
pub open spec fn regs_of(w: RegDataWidth) -> nat {
    match w {
        RegDataWidth::Bits16 => 1,
        RegDataWidth::Bits32 => 2,
        RegDataWidth::Bits64 => 4,
        RegDataWidth::Bits128 => 8,
    }
}

/// The short name of a data type.
pub open spec fn type_mark(t: RegDataType) -> Seq<char> {
    match t {
        RegDataType::Uint => "u"@,
        RegDataType::Int => "i"@,
        RegDataType::Float => "f"@,
        RegDataType::Hex => "hex"@,
        RegDataType::Binary => "bin"@,
        RegDataType::Ascii => "ascii"@,
    }
}

/// The number of bits of a width, written out.
pub open spec fn width_name(w: RegDataWidth) -> Seq<char> {
    match w {
        RegDataWidth::Bits16 => "16"@,
        RegDataWidth::Bits32 => "32"@,
        RegDataWidth::Bits64 => "64"@,
        RegDataWidth::Bits128 => "128"@,
    }
}

/// Whether the label of a data type tells the width.
pub open spec fn shows_width(t: RegDataType) -> bool {
    t is Uint || t is Int || t is Float
}

/// The label of a format: the type's name, and for numbers the width.
pub open spec fn label_of(f: RegDataFormat) -> Seq<char> {
    if shows_width(f.data_type) {
        type_mark(f.data_type) + width_name(f.width)
    } else {
        type_mark(f.data_type)
    }
}

/// The next data type of the cycle, at the same width as far as it has it.
pub open spec fn after_type(f: RegDataFormat) -> RegDataFormat {
    typed(type_list()[(type_place(f.data_type) + 1) % 5], f.width)
}

/// The data type before in the cycle, at the same width as far as it has it.
pub open spec fn before_type(f: RegDataFormat) -> RegDataFormat {
    typed(type_list()[(type_place(f.data_type) + 4) % 5], f.width)
}

/// The next wider width, and the narrowest behind the widest, as far as the
/// data type has it.
pub open spec fn after_width(f: RegDataFormat) -> RegDataFormat {
    typed(f.data_type, width_list()[(width_place(f.width) + 1) % 4])
}

/// The next narrower width, and the widest behind the narrowest, as far as the
/// data type has it.
pub open spec fn before_width(f: RegDataFormat) -> RegDataFormat {
    typed(f.data_type, width_list()[(width_place(f.width) + 3) % 4])
}

impl RegDataFormat {
    /// How many registers in a row a value of this format takes.
    pub fn regs_needed(self) -> (r: usize)
        ensures
            r == regs_of(self.width),
    {
        match self.width {
            RegDataWidth::Bits16 => 1,
            RegDataWidth::Bits32 => 2,
            RegDataWidth::Bits64 => 4,
            RegDataWidth::Bits128 => 8,
        }
    }

    fn type_prefix(self) -> (r: &'static str)
        ensures
            r@ == type_mark(self.data_type),
    {
        match self.data_type {
            RegDataType::Uint => "u",
            RegDataType::Int => "i",
            RegDataType::Float => "f",
            RegDataType::Hex => "hex",
            RegDataType::Binary => "bin",
            RegDataType::Ascii => "ascii",
        }
    }

    fn width_suffix(self) -> (r: &'static str)
        ensures
            r@ == width_name(self.width),
    {
        match self.width {
            RegDataWidth::Bits16 => "16",
            RegDataWidth::Bits32 => "32",
            RegDataWidth::Bits64 => "64",
            RegDataWidth::Bits128 => "128",
        }
    }

    /// The label shown for this format.
    pub fn short_label(self) -> (r: String)
        ensures
            r@ == label_of(self),
    {
        let mut r = self.type_prefix().to_string();
        match self.data_type {
            RegDataType::Hex | RegDataType::Binary | RegDataType::Ascii => {},
            _ => {
                r.append(self.width_suffix());
            },
        }
        r
    }

    /// The data types in the order in which they are offered.
    pub fn all_types() -> (r: &'static [RegDataType])
        ensures
            r@ == type_list(),
    {
        &[
            RegDataType::Uint,
            RegDataType::Int,
            RegDataType::Float,
            RegDataType::Hex,
            RegDataType::Binary,
            RegDataType::Ascii,
        ]
    }

    /// The width that a data type can have in place of a width.
    fn sanitize_width(data_type: RegDataType, width: RegDataWidth) -> (r: RegDataWidth)
        ensures
            r == fitting(data_type, width),
    {
        match data_type {
            RegDataType::Float => match width {
                RegDataWidth::Bits128 => RegDataWidth::Bits64,
                w => w,
            },
            _ => width,
        }
    }

    /// The next data type of the cycle, at this width as far as it has it.
    pub fn next_type(self) -> (r: RegDataFormat)
        ensures
            r == after_type(self),
    {
        let next = match self.data_type {
            RegDataType::Uint => RegDataType::Int,
            RegDataType::Int => RegDataType::Float,
            RegDataType::Float => RegDataType::Hex,
            RegDataType::Hex => RegDataType::Binary,
            RegDataType::Binary | RegDataType::Ascii => RegDataType::Uint,
        };
        RegDataFormat { data_type: next, width: RegDataFormat::sanitize_width(next, self.width) }
    }

    /// The data type before this one in the cycle, at this width as far as it
    /// has it.
    pub fn prev_type(self) -> (r: RegDataFormat)
        ensures
            r == before_type(self),
    {
        let prev = match self.data_type {
            RegDataType::Uint => RegDataType::Binary,
            RegDataType::Int => RegDataType::Uint,
            RegDataType::Float => RegDataType::Int,
            RegDataType::Hex => RegDataType::Float,
            RegDataType::Binary | RegDataType::Ascii => RegDataType::Hex,
        };
        RegDataFormat { data_type: prev, width: RegDataFormat::sanitize_width(prev, self.width) }
    }

    /// The next wider width, and the narrowest behind the widest; a
    /// floating-point format of 64 bits stays as it is.
    pub fn next_width(self) -> (r: RegDataFormat)
        ensures
            r == after_width(self),
    {
        let w = match self.width {
            RegDataWidth::Bits16 => RegDataWidth::Bits32,
            RegDataWidth::Bits32 => RegDataWidth::Bits64,
            RegDataWidth::Bits64 => RegDataWidth::Bits128,
            RegDataWidth::Bits128 => RegDataWidth::Bits16,
        };
        RegDataFormat {
            data_type: self.data_type,
            width: RegDataFormat::sanitize_width(self.data_type, w),
        }
    }

    /// The next narrower width, and the widest behind the narrowest.
    pub fn prev_width(self) -> (r: RegDataFormat)
        ensures
            r == before_width(self),
    {
        let w = match self.width {
            RegDataWidth::Bits16 => RegDataWidth::Bits128,
            RegDataWidth::Bits32 => RegDataWidth::Bits16,
            RegDataWidth::Bits64 => RegDataWidth::Bits32,
            RegDataWidth::Bits128 => RegDataWidth::Bits64,
        };
        RegDataFormat {
            data_type: self.data_type,
            width: RegDataFormat::sanitize_width(self.data_type, w),
        }
    }

    /// Unsigned numbers at this width.
    pub fn to_uint(self) -> (r: RegDataFormat)
        ensures
            r == typed(RegDataType::Uint, self.width),
    {
        RegDataFormat { data_type: RegDataType::Uint, width: self.width }
    }

    /// Signed numbers at this width.
    pub fn to_int(self) -> (r: RegDataFormat)
        ensures
            r == typed(RegDataType::Int, self.width),
    {
        RegDataFormat { data_type: RegDataType::Int, width: self.width }
    }

    /// Floating-point numbers at this width, and at 64 bits for 128.
    pub fn to_float(self) -> (r: RegDataFormat)
        ensures
            r == typed(RegDataType::Float, self.width),
    {
        RegDataFormat {
            data_type: RegDataType::Float,
            width: RegDataFormat::sanitize_width(RegDataType::Float, self.width),
        }
    }

    /// Hexadecimal at this width.
    pub fn to_hex(self) -> (r: RegDataFormat)
        ensures
            r == typed(RegDataType::Hex, self.width),
    {
        RegDataFormat {
            data_type: RegDataType::Hex,
            width: RegDataFormat::sanitize_width(RegDataType::Hex, self.width),
        }
    }

    /// Binary at this width.
    pub fn to_binary(self) -> (r: RegDataFormat)
        ensures
            r == typed(RegDataType::Binary, self.width),
    {
        RegDataFormat {
            data_type: RegDataType::Binary,
            width: RegDataFormat::sanitize_width(RegDataType::Binary, self.width),
        }
    }

    /// Text at this width.
    pub fn to_ascii(self) -> (r: RegDataFormat)
        ensures
            r == typed(RegDataType::Ascii, self.width),
    {
        RegDataFormat {
            data_type: RegDataType::Ascii,
            width: RegDataFormat::sanitize_width(RegDataType::Ascii, self.width),
        }
    }
}

/// Stepping the data type forward and back, or back and forward, ends where
/// it began. Text is not part of the cycle, and a step to or from floating
/// point narrows 128 bits.
pub proof fn law_types_step_back(f: RegDataFormat)
    requires
        !(f.data_type is Ascii),
    ensures
        f.width is Bits128 && (f.data_type is Int || f.data_type is Float) || before_type(
            after_type(f),
        ) == f,
        f.width is Bits128 && (f.data_type is Hex || f.data_type is Float) || after_type(
            before_type(f),
        ) == f,
{
}

/// Five steps of the data type go through the whole cycle, in either
/// direction.
pub proof fn law_types_cycle(f: RegDataFormat)
    requires
        !(f.data_type is Ascii),
        !(f.width is Bits128),
    ensures
        after_type(after_type(after_type(after_type(after_type(f))))) == f,
        before_type(before_type(before_type(before_type(before_type(f))))) == f,
{
}

/// Stepping the width up and down, or down and up, ends where it began;
/// floating point has no 128 bits to step through.
pub proof fn law_widths_step_back(f: RegDataFormat)
    ensures
        f.data_type is Float && (f.width is Bits64 || f.width is Bits128) || before_width(
            after_width(f),
        ) == f,
        f.data_type is Float && (f.width is Bits16 || f.width is Bits128) || after_width(
            before_width(f),
        ) == f,
{
}

/// Four steps of the width go through all of them, in either direction.
pub proof fn law_widths_cycle(f: RegDataFormat)
    requires
        !(f.data_type is Float),
    ensures
        after_width(after_width(after_width(after_width(f)))) == f,
        before_width(before_width(before_width(before_width(f)))) == f,
{
}

/// No step ends in a floating-point format of 128 bits.
pub proof fn law_no_wide_float(f: RegDataFormat)
    ensures
        !(after_type(f).data_type is Float && after_type(f).width is Bits128),
        !(before_type(f).data_type is Float && before_type(f).width is Bits128),
        !(after_width(f).data_type is Float && after_width(f).width is Bits128),
        !(before_width(f).data_type is Float && before_width(f).width is Bits128),
{
}

/// Formats whose labels show the width are told apart by their labels.
pub proof fn law_labels_tell_apart(f: RegDataFormat, g: RegDataFormat)
    requires
        label_of(f) == label_of(g),
    ensures
        f.data_type == g.data_type,
        shows_width(f.data_type) ==> f == g,
{
    reveal_strlit("u");
    reveal_strlit("i");
    reveal_strlit("f");
    reveal_strlit("hex");
    reveal_strlit("bin");
    reveal_strlit("ascii");
    reveal_strlit("16");
    reveal_strlit("32");
    reveal_strlit("64");
    reveal_strlit("128");
    let s = label_of(f);
    assert(s[0] == label_of(g)[0] && s[1] == label_of(g)[1] && s[2] == label_of(g)[2]);
}

/// A format of a data type and a width.
pub open spec fn format_of(t: RegDataType, w: RegDataWidth) -> RegDataFormat {
    RegDataFormat { data_type: t, width: w }
}

/// The formats that single registers go through, from the plain one on.
pub open spec fn combinations() -> Seq<RegDataFormat> {
    seq![
        plain_format(),
        format_of(RegDataType::Int, RegDataWidth::Bits32),
        format_of(RegDataType::Uint, RegDataWidth::Bits64),
        format_of(RegDataType::Int, RegDataWidth::Bits128),
    ]
}

/// The format behind one of those that single registers go through; any other
/// format counts as the plain one.
pub open spec fn after_combination(f: RegDataFormat) -> RegDataFormat {
    let c = combinations();
    if f == c[1] {
        c[2]
    } else if f == c[2] {
        c[3]
    } else if f == c[3] {
        c[0]
    } else {
        c[1]
    }
}

/// The format before one of those that single registers go through; any other
/// format counts as the plain one.
pub open spec fn before_combination(f: RegDataFormat) -> RegDataFormat {
    let c = combinations();
    if f == c[1] {
        c[0]
    } else if f == c[2] {
        c[1]
    } else if f == c[3] {
        c[2]
    } else {
        c[3]
    }
}

impl RegDataFormat {
    /// The next of the formats that single registers go through.
    pub fn next_combination(self) -> (r: RegDataFormat)
        ensures
            r == after_combination(self),
    {
        match (self.data_type, self.width) {
            (RegDataType::Int, RegDataWidth::Bits32) => RegDataFormat {
                data_type: RegDataType::Uint,
                width: RegDataWidth::Bits64,
            },
            (RegDataType::Uint, RegDataWidth::Bits64) => RegDataFormat {
                data_type: RegDataType::Int,
                width: RegDataWidth::Bits128,
            },
            (RegDataType::Int, RegDataWidth::Bits128) => RegDataFormat::default(),
            _ => RegDataFormat { data_type: RegDataType::Int, width: RegDataWidth::Bits32 },
        }
    }

    /// The one before of the formats that single registers go through.
    pub fn prev_combination(self) -> (r: RegDataFormat)
        ensures
            r == before_combination(self),
    {
        match (self.data_type, self.width) {
            (RegDataType::Int, RegDataWidth::Bits32) => RegDataFormat::default(),
            (RegDataType::Uint, RegDataWidth::Bits64) => RegDataFormat {
                data_type: RegDataType::Int,
                width: RegDataWidth::Bits32,
            },
            (RegDataType::Int, RegDataWidth::Bits128) => RegDataFormat {
                data_type: RegDataType::Uint,
                width: RegDataWidth::Bits64,
            },
            _ => RegDataFormat { data_type: RegDataType::Int, width: RegDataWidth::Bits128 },
        }
    }
}

/// The formats that single registers go through come round after all of them,
/// and a step back undoes a step on.
pub proof fn law_combinations_cycle(i: int)
    requires
        0 <= i < combinations().len(),
    ensures
        after_combination(combinations()[i]) == combinations()[(i + 1) % 4],
        before_combination(after_combination(combinations()[i])) == combinations()[i],
        after_combination(before_combination(combinations()[i])) == combinations()[i],
{
}

} // verus!

//! The settings of the program: modes, lines, and how many registers there are.
use crate::format::{RegDataFormat, RegDataType, RegDataWidth};
use crate::text::{chars_of, cut, lower, same, text_of, to_ascii_lower, trimmed};
use vstd::prelude::*;

verus! {

/// What the program does.
#[derive(Copy, Clone, Debug, PartialEq, Eq, Structural)]
pub enum MainMode {
    TcpServer,
    TcpClient,
    RTUServer,
    RTUClient,
    TcpMonitor,
    RtuMonitor,
}

/// The parity of a serial line.
#[derive(Copy, Clone, Debug, PartialEq, Eq, Structural)]
pub enum Parity {
    Off,
    Odd,
    Even,
}

/// The flow control of a serial line.
#[derive(Copy, Clone, Debug, PartialEq, Eq, Structural)]
pub enum FlowControl {
    Off,
    Software,
    Hardware,
}

/// The number of data bits of a serial line.
#[derive(Copy, Clone, Debug, PartialEq, Eq, Structural)]
pub enum DataBits {
    Five,
    Six,
    Seven,
    Eight,
}

/// The number of stop bits of a serial line.
#[derive(Copy, Clone, Debug, PartialEq, Eq, Structural)]
pub enum StopBits {
    One,
    Two,
}

/// Why a setting is refused. The setting itself is what the caller passed.
#[derive(Copy, Clone, Debug, PartialEq, Eq, Structural)]
pub enum SettingError {
    InvalidMainMode,
    InvalidParity,
    InvalidFlow,
    InvalidDatabits,
    InvalidStopbits,
}

/// The name of a mode.
pub open spec fn mode_name(m: MainMode) -> Seq<char> {
    match m {
        MainMode::TcpServer => "tcp-server"@,
        MainMode::TcpClient => "tcp-client"@,
        MainMode::RTUServer => "rtu-server"@,
        MainMode::RTUClient => "rtu-client"@,
        MainMode::TcpMonitor => "tcp-monitor"@,
        MainMode::RtuMonitor => "rtu-monitor"@,
    }
}

/// The two letters that stand for a mode.
pub open spec fn mode_mark(m: MainMode) -> Seq<char> {
    match m {
        MainMode::TcpServer => "ts"@,
        MainMode::TcpClient => "tc"@,
        MainMode::RTUServer => "rs"@,
        MainMode::RTUClient => "rc"@,
        MainMode::TcpMonitor => "tm"@,
        MainMode::RtuMonitor => "rm"@,
    }
}

/// Whether a text in lower case stands for a mode.
pub open spec fn stands_for_mode(t: Seq<char>, m: MainMode) -> bool {
    t == mode_name(m) || t == mode_mark(m)
}

/// The name of a mode.
pub fn main_mode_name(m: MainMode) -> (r: &'static str)
    ensures
        r@ == mode_name(m),
{
    match m {
        MainMode::TcpServer => "tcp-server",
        MainMode::TcpClient => "tcp-client",
        MainMode::RTUServer => "rtu-server",
        MainMode::RTUClient => "rtu-client",
        MainMode::TcpMonitor => "tcp-monitor",
        MainMode::RtuMonitor => "rtu-monitor",
    }
}

/// The mode that a text in lower case stands for, if any.
pub fn mode_from(t: &str) -> (r: Option<MainMode>)
    ensures
        match r {
            Some(m) => stands_for_mode(t@, m),
            None => forall|m: MainMode| !stands_for_mode(t@, m),
        },
{
    if same(t, "ts") || same(t, "tcp-server") {
        Some(MainMode::TcpServer)
    } else if same(t, "tc") || same(t, "tcp-client") {
        Some(MainMode::TcpClient)
    } else if same(t, "tm") || same(t, "tcp-monitor") {
        Some(MainMode::TcpMonitor)
    } else if same(t, "rs") || same(t, "rtu-server") {
        Some(MainMode::RTUServer)
    } else if same(t, "rc") || same(t, "rtu-client") {
        Some(MainMode::RTUClient)
    } else if same(t, "rm") || same(t, "rtu-monitor") {
        Some(MainMode::RtuMonitor)
    } else {
        None
    }
}

/// The mode that a text stands for, in whatever case.
pub fn parse_mainmode(s: &str) -> (r: Result<MainMode, SettingError>)
    ensures
        match r {
            Ok(m) => stands_for_mode(crate::text::ascii_lower(s@), m),
            Err(e) => e == SettingError::InvalidMainMode && forall|m: MainMode|
                !stands_for_mode(crate::text::ascii_lower(s@), m),
        },
{
    let t = to_ascii_lower(s);
    match mode_from(t.as_str()) {
        Some(m) => Ok(m),
        None => Err(SettingError::InvalidMainMode),
    }
}

/// The names and letters of modes are in lower case, and those of one mode are no other's.
pub proof fn lemma_mode_texts()
    ensures
        forall|m: MainMode| #[trigger]
            crate::text::ascii_lower(mode_name(m)) == mode_name(m) && crate::text::ascii_lower(
                mode_mark(m),
            ) == mode_mark(m),
        forall|m: MainMode, n: MainMode|
            stands_for_mode(#[trigger] mode_name(m), n) || stands_for_mode(mode_mark(m), n)
                ==> #[trigger] mode_name(n) == mode_name(m) && m == n,
{
    reveal_strlit("tcp-server");
    reveal_strlit("tcp-client");
    reveal_strlit("rtu-server");
    reveal_strlit("rtu-client");
    reveal_strlit("tcp-monitor");
    reveal_strlit("rtu-monitor");
    reveal_strlit("ts");
    reveal_strlit("tc");
    reveal_strlit("rs");
    reveal_strlit("rc");
    reveal_strlit("tm");
    reveal_strlit("rm");
    assert forall|m: MainMode| #[trigger]
        crate::text::ascii_lower(mode_name(m)) == mode_name(m) && crate::text::ascii_lower(
            mode_mark(m),
        ) == mode_mark(m) by {
        assert(crate::text::ascii_lower(mode_name(m)) =~= mode_name(m));
        assert(crate::text::ascii_lower(mode_mark(m)) =~= mode_mark(m));
    }
    assert forall|m: MainMode, n: MainMode|
        stands_for_mode(#[trigger] mode_name(m), n) || stands_for_mode(
            mode_mark(m),
            n,
        ) implies #[trigger] mode_name(n) == mode_name(m) && m == n by {
        let a = mode_name(m);
        let b = mode_mark(m);
        let c = mode_name(n);
        let d = mode_mark(n);
        assert(a.len() >= 10 && c.len() >= 10 && b.len() == 2 && d.len() == 2);
        if a == c {
            assert(a[0] == c[0] && a[4] == c[4]);
        }
        if b == d {
            assert(b[0] == d[0] && b[1] == d[1]);
        }
    }
}

/// A mode is found by its name and by its two letters, and by no other mode's.
pub proof fn law_mode_found_by_name(m: MainMode, n: MainMode)
    ensures
        stands_for_mode(crate::text::ascii_lower(mode_name(m)), n) <==> m == n,
        stands_for_mode(crate::text::ascii_lower(mode_mark(m)), n) <==> m == n,
{
    lemma_mode_texts();
    assert(crate::text::ascii_lower(mode_name(m)) == mode_name(m));
    assert(mode_name(n) == mode_name(n));
}

/// The parity that a text in lower case stands for.
pub open spec fn parity_of(t: Seq<char>) -> Option<Parity> {
    if t == "n"@ || t == "none"@ {
        Some(Parity::Off)
    } else if t == "e"@ || t == "even"@ {
        Some(Parity::Even)
    } else if t == "o"@ || t == "odd"@ {
        Some(Parity::Odd)
    } else {
        None
    }
}

/// The parity that a text stands for, in whatever case.
pub fn parse_parity(s: &str) -> (r: Result<Parity, SettingError>)
    ensures
        match r {
            Ok(p) => parity_of(crate::text::ascii_lower(s@)) == Some(p),
            Err(e) => e == SettingError::InvalidParity && parity_of(crate::text::ascii_lower(s@))
                is None,
        },
{
    let t = to_ascii_lower(s);
    let t = t.as_str();
    if same(t, "n") || same(t, "none") {
        Ok(Parity::Off)
    } else if same(t, "e") || same(t, "even") {
        Ok(Parity::Even)
    } else if same(t, "o") || same(t, "odd") {
        Ok(Parity::Odd)
    } else {
        Err(SettingError::InvalidParity)
    }
}

/// The flow control that a text in lower case stands for.
pub open spec fn flow_of(t: Seq<char>) -> Option<FlowControl> {
    if t == "none"@ {
        Some(FlowControl::Off)
    } else if t == "hard"@ || t == "hw"@ || t == "rtscts"@ {
        Some(FlowControl::Hardware)
    } else if t == "soft"@ || t == "sw"@ || t == "xonxoff"@ {
        Some(FlowControl::Software)
    } else {
        None
    }
}

/// The flow control that a text stands for, in whatever case.
pub fn parse_flow(s: &str) -> (r: Result<FlowControl, SettingError>)
    ensures
        match r {
            Ok(f) => flow_of(crate::text::ascii_lower(s@)) == Some(f),
            Err(e) => e == SettingError::InvalidFlow && flow_of(crate::text::ascii_lower(s@))
                is None,
        },
{
    let t = to_ascii_lower(s);
    let t = t.as_str();
    if same(t, "none") {
        Ok(FlowControl::Off)
    } else if same(t, "hard") || same(t, "hw") || same(t, "rtscts") {
        Ok(FlowControl::Hardware)
    } else if same(t, "soft") || same(t, "sw") || same(t, "xonxoff") {
        Ok(FlowControl::Software)
    } else {
        Err(SettingError::InvalidFlow)
    }
}

/// The data bits of a number.
pub fn parse_databits(v: u8) -> (r: Result<DataBits, SettingError>)
    ensures
        r == (match v {
            5 => Ok::<DataBits, SettingError>(DataBits::Five),
            6 => Ok(DataBits::Six),
            7 => Ok(DataBits::Seven),
            8 => Ok(DataBits::Eight),
            _ => Err(SettingError::InvalidDatabits),
        }),
{
    match v {
        5 => Ok(DataBits::Five),
        6 => Ok(DataBits::Six),
        7 => Ok(DataBits::Seven),
        8 => Ok(DataBits::Eight),
        _ => Err(SettingError::InvalidDatabits),
    }
}

/// The stop bits of a number.
pub fn parse_stopbits(v: u8) -> (r: Result<StopBits, SettingError>)
    ensures
        r == (match v {
            1 => Ok::<StopBits, SettingError>(StopBits::One),
            2 => Ok(StopBits::Two),
            _ => Err(SettingError::InvalidStopbits),
        }),
{
    match v {
        1 => Ok(StopBits::One),
        2 => Ok(StopBits::Two),
        _ => Err(SettingError::InvalidStopbits),
    }
}

/// The width that a text stands for, and the narrowest where it stands for none.
pub open spec fn width_of(t: Seq<char>) -> RegDataWidth {
    if t == "32"@ {
        RegDataWidth::Bits32
    } else if t == "64"@ {
        RegDataWidth::Bits64
    } else if t == "128"@ {
        RegDataWidth::Bits128
    } else {
        RegDataWidth::Bits16
    }
}

/// The data type that a letter stands for.
pub open spec fn type_of(c: char) -> Option<RegDataType> {
    if c == 'u' {
        Some(RegDataType::Uint)
    } else if c == 'i' {
        Some(RegDataType::Int)
    } else if c == 'f' {
        Some(RegDataType::Float)
    } else {
        None
    }
}

/// A data type at a width.
pub open spec fn fmt(data_type: RegDataType, width: RegDataWidth) -> RegDataFormat {
    RegDataFormat { data_type, width }
}

/// The format that is known by a long name.
pub open spec fn named_format(t: Seq<char>) -> Option<RegDataFormat> {
    if t == "int32"@ {
        Some(fmt(RegDataType::Int, RegDataWidth::Bits32))
    } else if t == "uint32"@ {
        Some(fmt(RegDataType::Uint, RegDataWidth::Bits32))
    } else if t == "uint64"@ {
        Some(fmt(RegDataType::Uint, RegDataWidth::Bits64))
    } else if t == "int64"@ {
        Some(fmt(RegDataType::Int, RegDataWidth::Bits64))
    } else if t == "uint128"@ {
        Some(fmt(RegDataType::Uint, RegDataWidth::Bits128))
    } else if t == "int128"@ {
        Some(fmt(RegDataType::Int, RegDataWidth::Bits128))
    } else if t == "half"@ {
        Some(fmt(RegDataType::Float, RegDataWidth::Bits16))
    } else if t == "float"@ {
        Some(fmt(RegDataType::Float, RegDataWidth::Bits32))
    } else if t == "double"@ {
        Some(fmt(RegDataType::Float, RegDataWidth::Bits64))
    } else if t == "bin"@ || t == "binary"@ {
        Some(fmt(RegDataType::Binary, RegDataWidth::Bits16))
    } else if t == "ascii"@ {
        Some(fmt(RegDataType::Ascii, RegDataWidth::Bits16))
    } else {
        None
    }
}

/// The format that a text in lower case stands for: a long name, or a letter
/// for the type and the number of bits. What stands for none is a plain
/// register.
pub open spec fn combination_of(t: Seq<char>) -> RegDataFormat {
    match named_format(t) {
        Some(f) => f,
        None => if t == "hex"@ {
            fmt(RegDataType::Hex, RegDataWidth::Bits16)
        } else if t.len() < 3 {
            crate::format::plain_format()
        } else {
            match type_of(t[0]) {
                Some(d) => fmt(d, width_of(t.skip(1))),
                None => crate::format::plain_format(),
            }
        },
    }
}

/// The format that is known by a long name.
fn format_named(t: &str) -> (r: Option<RegDataFormat>)
    ensures
        r == named_format(t@),
{
    let (data_type, width) = if same(t, "int32") {
        (RegDataType::Int, RegDataWidth::Bits32)
    } else if same(t, "uint32") {
        (RegDataType::Uint, RegDataWidth::Bits32)
    } else if same(t, "uint64") {
        (RegDataType::Uint, RegDataWidth::Bits64)
    } else if same(t, "int64") {
        (RegDataType::Int, RegDataWidth::Bits64)
    } else if same(t, "uint128") {
        (RegDataType::Uint, RegDataWidth::Bits128)
    } else if same(t, "int128") {
        (RegDataType::Int, RegDataWidth::Bits128)
    } else if same(t, "half") {
        (RegDataType::Float, RegDataWidth::Bits16)
    } else if same(t, "float") {
        (RegDataType::Float, RegDataWidth::Bits32)
    } else if same(t, "double") {
        (RegDataType::Float, RegDataWidth::Bits64)
    } else if same(t, "bin") || same(t, "binary") {
        (RegDataType::Binary, RegDataWidth::Bits16)
    } else if same(t, "ascii") {
        (RegDataType::Ascii, RegDataWidth::Bits16)
    } else {
        return None;
    };
    Some(RegDataFormat { data_type, width })
}

/// The format that a text in lower case stands for.
pub fn combination_format(t: &str) -> (r: RegDataFormat)
    ensures
        r == combination_of(t@),
{
    match format_named(t) {
        Some(f) => {
            return f;
        },
        None => {},
    }
    if same(t, "hex") {
        return RegDataFormat { data_type: RegDataType::Hex, width: RegDataWidth::Bits16 };
    }
    let v: Vec<char> = chars_of(t);
    if v.len() < 3 {
        return RegDataFormat::default();
    }
    let data_type = if v[0] == 'u' {
        RegDataType::Uint
    } else if v[0] == 'i' {
        RegDataType::Int
    } else if v[0] == 'f' {
        RegDataType::Float
    } else {
        return RegDataFormat::default();
    };
    let rest: Vec<char> = cut(&v, 1, v.len());
    assert(rest@ =~= t@.skip(1));
    let rest = text_of(&rest);
    let rest = rest.as_str();
    let width = if same(rest, "32") {
        RegDataWidth::Bits32
    } else if same(rest, "64") {
        RegDataWidth::Bits64
    } else if same(rest, "128") {
        RegDataWidth::Bits128
    } else {
        RegDataWidth::Bits16
    };
    RegDataFormat { data_type, width }
}

/// The format that a text stands for, in whatever case and with white space
/// around it.
pub fn parse_combination_format(s: &str) -> (r: RegDataFormat)
    ensures
        r == combination_of(crate::text::lowered(crate::text::trim(s@))),
{
    let t = lower(trimmed(s).as_str());
    combination_format(t.as_str())
}

/// The format for all registers that a text in lower case stands for: a long
/// name, or one of the labels of numbers that are no plain register. Anything
/// else, hexadecimal too, is a plain register.
pub open spec fn reg_format_of(t: Seq<char>) -> RegDataFormat {
    match named_format(t) {
        Some(f) => f,
        None => if t == "i16"@ {
            fmt(RegDataType::Int, RegDataWidth::Bits16)
        } else if t == "u32"@ {
            fmt(RegDataType::Uint, RegDataWidth::Bits32)
        } else if t == "i32"@ {
            fmt(RegDataType::Int, RegDataWidth::Bits32)
        } else if t == "u64"@ {
            fmt(RegDataType::Uint, RegDataWidth::Bits64)
        } else if t == "i64"@ {
            fmt(RegDataType::Int, RegDataWidth::Bits64)
        } else if t == "u128"@ {
            fmt(RegDataType::Uint, RegDataWidth::Bits128)
        } else if t == "i128"@ {
            fmt(RegDataType::Int, RegDataWidth::Bits128)
        } else if t == "f16"@ {
            fmt(RegDataType::Float, RegDataWidth::Bits16)
        } else if t == "f32"@ {
            fmt(RegDataType::Float, RegDataWidth::Bits32)
        } else if t == "f64"@ {
            fmt(RegDataType::Float, RegDataWidth::Bits64)
        } else {
            crate::format::plain_format()
        },
    }
}

/// The format for all registers that a text in lower case stands for.
pub fn reg_format(t: &str) -> (r: RegDataFormat)
    ensures
        r == reg_format_of(t@),
{
    match format_named(t) {
        Some(f) => {
            return f;
        },
        None => {},
    }
    let (data_type, width) = if same(t, "i16") {
        (RegDataType::Int, RegDataWidth::Bits16)
    } else if same(t, "u32") {
        (RegDataType::Uint, RegDataWidth::Bits32)
    } else if same(t, "i32") {
        (RegDataType::Int, RegDataWidth::Bits32)
    } else if same(t, "u64") {
        (RegDataType::Uint, RegDataWidth::Bits64)
    } else if same(t, "i64") {
        (RegDataType::Int, RegDataWidth::Bits64)
    } else if same(t, "u128") {
        (RegDataType::Uint, RegDataWidth::Bits128)
    } else if same(t, "i128") {
        (RegDataType::Int, RegDataWidth::Bits128)
    } else if same(t, "f16") {
        (RegDataType::Float, RegDataWidth::Bits16)
    } else if same(t, "f32") {
        (RegDataType::Float, RegDataWidth::Bits32)
    } else if same(t, "f64") {
        (RegDataType::Float, RegDataWidth::Bits64)
    } else {
        (RegDataType::Uint, RegDataWidth::Bits16)
    };
    RegDataFormat { data_type, width }
}

/// The format for all registers that a text stands for, in whatever case and
/// with white space around it.
pub fn parse_reg_format(s: &str) -> (r: RegDataFormat)
    ensures
        r == reg_format_of(crate::text::lowered(crate::text::trim(s@))),
{
    let t = lower(trimmed(s).as_str());
    reg_format(t.as_str())
}

/// Long names have a letter in the second place.
pub proof fn lemma_long_names(t: Seq<char>)
    requires
        t.len() >= 2,
        '0' <= t[1] <= '9',
    ensures
        named_format(t) is None,
        t != "hex"@,
{
    reveal_strlit("int32");
    reveal_strlit("uint32");
    reveal_strlit("uint64");
    reveal_strlit("int64");
    reveal_strlit("uint128");
    reveal_strlit("int128");
    reveal_strlit("half");
    reveal_strlit("float");
    reveal_strlit("double");
    reveal_strlit("bin");
    reveal_strlit("binary");
    reveal_strlit("ascii");
    reveal_strlit("hex");
}

/// The label of a format is in lower case already, and without white space.
proof fn lemma_label_plain(f: RegDataFormat)
    ensures
        crate::text::trim(crate::format::label_of(f)) == crate::format::label_of(f),
        crate::text::lowered(crate::format::label_of(f)) == crate::format::label_of(f),
        crate::format::label_of(f).len() >= 3,
{
    reveal_strlit("u");
    reveal_strlit("i");
    reveal_strlit("f");
    reveal_strlit("hex");
    reveal_strlit("bin");
    reveal_strlit("ascii");
    reveal_strlit("16");
    reveal_strlit("32");
    reveal_strlit("64");
    reveal_strlit("128");
    let t = crate::format::label_of(f);
    crate::text::lemma_trim_plain(t);
    assert forall|i: int| 0 <= i < t.len() implies crate::text::is_ascii_char(t[i])
        && crate::text::ascii_lower_char(t[i]) == t[i] by {}
    assert(crate::text::ascii_lower(t) =~= t);
}

/// The label of a format stands for the format, as far as the label tells the
/// width.
pub proof fn law_label_stands_for_format(f: RegDataFormat)
    requires
        crate::format::shows_width(f.data_type) || f.width is Bits16,
    ensures
        combination_of(
            crate::text::lowered(crate::text::trim(crate::format::label_of(f))),
        ) == f,
{
    lemma_label_plain(f);
    let t = crate::format::label_of(f);
    reveal_strlit("u");
    reveal_strlit("i");
    reveal_strlit("f");
    reveal_strlit("16");
    reveal_strlit("32");
    reveal_strlit("64");
    reveal_strlit("128");
    if crate::format::shows_width(f.data_type) {
        lemma_long_names(t);
        let w = crate::format::width_name(f.width);
        assert(t.skip(1) =~= w);
        assert("16"@[0] != "32"@[0] && "64"@[0] != "32"@[0] && "64"@[0] != "16"@[0]);
        assert("128"@.len() == 3);
    } else {
        lemma_word_labels();
    }
}

proof fn lemma_word_labels()
    ensures
        combination_of("hex"@) == fmt(RegDataType::Hex, RegDataWidth::Bits16),
        combination_of("bin"@) == fmt(RegDataType::Binary, RegDataWidth::Bits16),
        combination_of("ascii"@) == fmt(RegDataType::Ascii, RegDataWidth::Bits16),
{
    reveal_strlit("int32");
    reveal_strlit("uint32");
    reveal_strlit("uint64");
    reveal_strlit("int64");
    reveal_strlit("uint128");
    reveal_strlit("int128");
    reveal_strlit("half");
    reveal_strlit("float");
    reveal_strlit("double");
    reveal_strlit("bin");
    reveal_strlit("binary");
    reveal_strlit("ascii");
    reveal_strlit("hex");
    assert("ascii"@[0] == 'a' && "int32"@[0] == 'i' && "int64"@[0] == 'i' && "float"@[0] == 'f');
    assert("hex"@[0] == 'h' && "bin"@[0] == 'b');
    assert("hex"@.len() == 3 && "int32"@.len() == 5 && "uint32"@.len() == 6 && "half"@.len() == 4);
    assert("uint64"@.len() == 6 && "int64"@.len() == 5 && "uint128"@.len() == 7);
    assert("int128"@.len() == 6 && "float"@.len() == 5 && "double"@.len() == 6);
    assert("binary"@.len() == 6 && "ascii"@.len() == 5);
}

/// The settings of a run of the program, or of a profile. The lists hold pairs of
/// a key and a value.
#[derive(Debug)]
pub struct Args {
    /// The file that holds the profiles.
    pub config: String,
    /// The profile that was asked for.
    pub profile: Option<String>,
    /// The name of the mode.
    pub main_mode: String,
    /// The port over TCP.
    pub tcp_port: u16,
    /// The unit, from 1 to 247.
    pub unit: u8,
    /// How many holding registers there are.
    pub holding_count: usize,
    /// How many coils there are.
    pub coil_count: usize,
    /// How many discrete inputs there are.
    pub discrete_count: usize,
    /// How many input registers there are.
    pub input_count: usize,
    /// How many milliseconds a client waits between two rounds.
    pub client_tick_ms: u64,
    /// How many milliseconds the screen waits between two drawings.
    pub ui_tick_ms: u64,
    /// The serial device, or the host over TCP.
    pub device: String,
    /// The speed of the serial line.
    pub baudrate: u32,
    /// The data bits of the serial line.
    pub databits: u8,
    /// The parity of the serial line.
    pub parity: String,
    /// The stop bits of the serial line.
    pub stopbits: u8,
    /// The flow control of the serial line.
    pub flow: String,
    /// The format of all registers.
    pub reg_format: String,
    /// Notes on holding registers, by address.
    pub labels: Vec<(String, String)>,
    /// Formats of single registers, by address; input registers are marked by
    /// `i:` before the address.
    pub reg_combinations: Vec<(String, String)>,
    /// Which registers have their bytes exchanged, by address.
    pub swap_bytes_reg: Vec<(String, String)>,
    /// Which values have their registers in reverse order, by address.
    pub swap_words_reg: Vec<(String, String)>,
    /// The language of the screen.
    pub lang: String,
}

/// The settings of a run of the program, mathematically.
pub struct Settings {
    pub config: Seq<char>,
    pub profile: Option<Seq<char>>,
    pub main_mode: Seq<char>,
    pub tcp_port: u16,
    pub unit: u8,
    pub holding_count: usize,
    pub coil_count: usize,
    pub discrete_count: usize,
    pub input_count: usize,
    pub client_tick_ms: u64,
    pub ui_tick_ms: u64,
    pub device: Seq<char>,
    pub baudrate: u32,
    pub databits: u8,
    pub parity: Seq<char>,
    pub stopbits: u8,
    pub flow: Seq<char>,
    pub reg_format: Seq<char>,
    pub labels: Seq<(Seq<char>, Seq<char>)>,
    pub reg_combinations: Seq<(Seq<char>, Seq<char>)>,
    pub swap_bytes_reg: Seq<(Seq<char>, Seq<char>)>,
    pub swap_words_reg: Seq<(Seq<char>, Seq<char>)>,
    pub lang: Seq<char>,
}

/// Pairs of texts.
pub open spec fn pairs(v: Seq<(String, String)>) -> Seq<(Seq<char>, Seq<char>)> {
    Seq::new(v.len(), |i: int| (v[i].0@, v[i].1@))
}

impl View for Args {
    type V = Settings;

    open spec fn view(&self) -> Settings {
        Settings {
            config: self.config@,
            profile: match self.profile {
                Some(p) => Some(p@),
                None => None,
            },
            main_mode: self.main_mode@,
            tcp_port: self.tcp_port,
            unit: self.unit,
            holding_count: self.holding_count,
            coil_count: self.coil_count,
            discrete_count: self.discrete_count,
            input_count: self.input_count,
            client_tick_ms: self.client_tick_ms,
            ui_tick_ms: self.ui_tick_ms,
            device: self.device@,
            baudrate: self.baudrate,
            databits: self.databits,
            parity: self.parity@,
            stopbits: self.stopbits,
            flow: self.flow@,
            reg_format: self.reg_format@,
            labels: pairs(self.labels@),
            reg_combinations: pairs(self.reg_combinations@),
            swap_bytes_reg: pairs(self.swap_bytes_reg@),
            swap_words_reg: pairs(self.swap_words_reg@),
            lang: self.lang@,
        }
    }
}

/// A copy of a list of pairs.
pub fn copy_pairs(v: &Vec<(String, String)>) -> (r: Vec<(String, String)>)
    ensures
        pairs(r@) == pairs(v@),
{
    let mut r: Vec<(String, String)> = Vec::new();
    let n: usize = v.len();
    for i in 0..n
        invariant
            n == v@.len(),
            pairs(r@) == pairs(v@).take(i as int),
    {
        let ghost before = r@;
        let pair = (v[i].0.clone(), v[i].1.clone());
        let ghost p = (pair.0@, pair.1@);
        r.push(pair);
        assert(pairs(r@) =~= pairs(before).push(p));
        assert(pairs(v@).take(i + 1) =~= pairs(v@).take(i as int).push(p));
    }
    assert(pairs(v@).take(n as int) =~= pairs(v@));
    r
}

impl Clone for Args {
    fn clone(&self) -> (r: Args)
        ensures
            r@ == self@,
    {
        Args {
            config: self.config.clone(),
            profile: match &self.profile {
                Some(p) => Some(p.clone()),
                None => None,
            },
            main_mode: self.main_mode.clone(),
            tcp_port: self.tcp_port,
            unit: self.unit,
            holding_count: self.holding_count,
            coil_count: self.coil_count,
            discrete_count: self.discrete_count,
            input_count: self.input_count,
            client_tick_ms: self.client_tick_ms,
            ui_tick_ms: self.ui_tick_ms,
            device: self.device.clone(),
            baudrate: self.baudrate,
            databits: self.databits,
            parity: self.parity.clone(),
            stopbits: self.stopbits,
            flow: self.flow.clone(),
            reg_format: self.reg_format.clone(),
            labels: copy_pairs(&self.labels),
            reg_combinations: copy_pairs(&self.reg_combinations),
            swap_bytes_reg: copy_pairs(&self.swap_bytes_reg),
            swap_words_reg: copy_pairs(&self.swap_words_reg),
            lang: self.lang.clone(),
        }
    }
}

/// The settings where nothing else was said.
pub open spec fn default_settings() -> Settings {
    Settings {
        config: "config.toml"@,
        profile: None,
        main_mode: "tcp-client"@,
        tcp_port: 502,
        unit: 1,
        holding_count: 512,
        coil_count: 512,
        discrete_count: 512,
        input_count: 512,
        client_tick_ms: 200,
        ui_tick_ms: 10,
        device: "dev/null"@,
        baudrate: 9600,
        databits: 8,
        parity: "n"@,
        stopbits: 1,
        flow: "none"@,
        reg_format: "u16"@,
        labels: Seq::empty(),
        reg_combinations: Seq::empty(),
        swap_bytes_reg: Seq::empty(),
        swap_words_reg: Seq::empty(),
        lang: "zh-CN"@,
    }
}

impl Default for Args {
    fn default() -> (r: Args)
        ensures
            r@ == default_settings(),
    {
        let r = Args {
            config: "config.toml".to_string(),
            profile: None,
            main_mode: "tcp-client".to_string(),
            tcp_port: 502,
            unit: 1,
            holding_count: 512,
            coil_count: 512,
            discrete_count: 512,
            input_count: 512,
            client_tick_ms: 200,
            ui_tick_ms: 10,
            device: "dev/null".to_string(),
            baudrate: 9600,
            databits: 8,
            parity: "n".to_string(),
            stopbits: 1,
            flow: "none".to_string(),
            reg_format: "u16".to_string(),
            labels: Vec::new(),
            reg_combinations: Vec::new(),
            swap_bytes_reg: Vec::new(),
            swap_words_reg: Vec::new(),
            lang: "zh-CN".to_string(),
        };
        assert(pairs(r.labels@) =~= Seq::<(Seq<char>, Seq<char>)>::empty());
        assert(pairs(r.reg_combinations@) =~= Seq::<(Seq<char>, Seq<char>)>::empty());
        assert(pairs(r.swap_bytes_reg@) =~= Seq::<(Seq<char>, Seq<char>)>::empty());
        assert(pairs(r.swap_words_reg@) =~= Seq::<(Seq<char>, Seq<char>)>::empty());
        r
    }
}

} // verus!

//! The fields of a profile that can be edited.
use crate::args::{mode_from, main_mode_name, Args, Settings};
use crate::numeral::{decimal_text, read_unsigned};
use crate::text::{chars_of, lower, same, trim_chars, trimmed};
use vstd::prelude::*;

verus! {

/// A field of a profile.
#[derive(Copy, Clone, Debug, PartialEq, Eq, Structural)]
pub enum ProfileField {
    MainMode,
    TcpPort,
    Unit,
    HoldingCount,
    ClientTickMs,
    Device,
    Baudrate,
    Parity,
    Flow,
    Databits,
    Stopbits,
}

/// Where a field matters.
#[derive(Copy, Clone, Debug, PartialEq, Eq, Structural)]
pub enum FieldScope {
    All,
    Tcp,
    Rtu,
}

/// How many fields there are.
pub const FIELD_COUNT: usize = 11;

/// The fields in the order in which they are shown.
pub open spec fn field_list() -> Seq<ProfileField> {
    seq![
        ProfileField::MainMode,
        ProfileField::TcpPort,
        ProfileField::Unit,
        ProfileField::HoldingCount,
        ProfileField::ClientTickMs,
        ProfileField::Device,
        ProfileField::Baudrate,
        ProfileField::Parity,
        ProfileField::Flow,
        ProfileField::Databits,
        ProfileField::Stopbits,
    ]
}

/// The field at a place of the list.
pub fn field_at(i: usize) -> (r: ProfileField)
    requires
        i < FIELD_COUNT,
    ensures
        r == field_list()[i as int],
{
    if i == 0 {
        ProfileField::MainMode
    } else if i == 1 {
        ProfileField::TcpPort
    } else if i == 2 {
        ProfileField::Unit
    } else if i == 3 {
        ProfileField::HoldingCount
    } else if i == 4 {
        ProfileField::ClientTickMs
    } else if i == 5 {
        ProfileField::Device
    } else if i == 6 {
        ProfileField::Baudrate
    } else if i == 7 {
        ProfileField::Parity
    } else if i == 8 {
        ProfileField::Flow
    } else if i == 9 {
        ProfileField::Databits
    } else {
        ProfileField::Stopbits
    }
}

/// The fields in the order in which they are shown.
pub fn profile_fields() -> (r: Vec<ProfileField>)
    ensures
        r@ == field_list(),
{
    let mut r: Vec<ProfileField> = Vec::new();
    for i in 0..FIELD_COUNT
        invariant
            r@ == field_list().take(i as int),
    {
        r.push(field_at(i));
    }
    r
}

/// The key of the message that names a field.
pub open spec fn field_key(f: ProfileField) -> Seq<char> {
    match f {
        ProfileField::MainMode => "profile_edit.main_mode"@,
        ProfileField::TcpPort => "profile_edit.tcp_port"@,
        ProfileField::Unit => "profile_edit.unit"@,
        ProfileField::HoldingCount => "profile_edit.holding_count"@,
        ProfileField::ClientTickMs => "profile_edit.client_tick_ms"@,
        ProfileField::Device => "profile_edit.device"@,
        ProfileField::Baudrate => "profile_edit.baudrate"@,
        ProfileField::Parity => "profile_edit.parity"@,
        ProfileField::Flow => "profile_edit.flow"@,
        ProfileField::Databits => "profile_edit.databits"@,
        ProfileField::Stopbits => "profile_edit.stopbits"@,
    }
}

/// Where a field matters.
pub open spec fn scope_of(f: ProfileField) -> FieldScope {
    match f {
        ProfileField::TcpPort => FieldScope::Tcp,
        ProfileField::MainMode
        | ProfileField::Unit
        | ProfileField::HoldingCount
        | ProfileField::ClientTickMs => FieldScope::All,
        _ => FieldScope::Rtu,
    }
}

/// The value of a field, as it is shown.
pub open spec fn field_text(f: ProfileField, a: Settings) -> Seq<char> {
    match f {
        ProfileField::MainMode => a.main_mode,
        ProfileField::TcpPort => crate::numeral::decimal(a.tcp_port as nat),
        ProfileField::Unit => crate::numeral::decimal(a.unit as nat),
        ProfileField::HoldingCount => crate::numeral::decimal(a.holding_count as nat),
        ProfileField::ClientTickMs => crate::numeral::decimal(a.client_tick_ms as nat),
        ProfileField::Device => a.device,
        ProfileField::Baudrate => crate::numeral::decimal(a.baudrate as nat),
        ProfileField::Parity => a.parity,
        ProfileField::Flow => a.flow,
        ProfileField::Databits => crate::numeral::decimal(a.databits as nat),
        ProfileField::Stopbits => crate::numeral::decimal(a.stopbits as nat),
    }
}

/// The largest number that a field takes.
pub open spec fn field_max(f: ProfileField) -> nat {
    match f {
        ProfileField::TcpPort => u16::MAX as nat,
        ProfileField::HoldingCount => usize::MAX as nat,
        ProfileField::ClientTickMs => u64::MAX as nat,
        ProfileField::Baudrate => u32::MAX as nat,
        _ => u8::MAX as nat,
    }
}

/// What is said where a field is no number.
pub open spec fn no_number(f: ProfileField) -> Seq<char> {
    match f {
        ProfileField::TcpPort => "TCP端口 必须是有效数字"@,
        ProfileField::Unit => "从站地址 必须是有效数字"@,
        ProfileField::HoldingCount => "寄存器数 必须是有效数字"@,
        ProfileField::ClientTickMs => "轮询间隔 必须是有效数字"@,
        ProfileField::Baudrate => "波特率 必须是有效数字"@,
        ProfileField::Databits => "数据位必须是数字"@,
        ProfileField::Stopbits => "停止位必须是数字"@,
        _ => Seq::empty(),
    }
}

/// Settings in which a field that holds a number has another.
pub open spec fn with_number(f: ProfileField, a: Settings, n: nat) -> Settings {
    match f {
        ProfileField::TcpPort => Settings { tcp_port: n as u16, ..a },
        ProfileField::Unit => Settings { unit: n as u8, ..a },
        ProfileField::HoldingCount => Settings { holding_count: n as usize, ..a },
        ProfileField::ClientTickMs => Settings { client_tick_ms: n as u64, ..a },
        ProfileField::Baudrate => Settings { baudrate: n as u32, ..a },
        ProfileField::Databits => Settings { databits: n as u8, ..a },
        ProfileField::Stopbits => Settings { stopbits: n as u8, ..a },
        _ => a,
    }
}

/// The parity that is kept for an entry in lower case.
pub open spec fn parity_kept(t: Seq<char>) -> Option<Seq<char>> {
    if t == "n"@ || t == "none"@ {
        Some("n"@)
    } else if t == "e"@ || t == "even"@ {
        Some("e"@)
    } else if t == "o"@ || t == "odd"@ {
        Some("o"@)
    } else {
        None
    }
}

/// The flow control that is kept for an entry in lower case.
pub open spec fn flow_kept(t: Seq<char>) -> Option<Seq<char>> {
    if t == "none"@ {
        Some("none"@)
    } else if t == "hardware"@ || t == "hard"@ {
        Some("hard"@)
    } else if t == "software"@ || t == "soft"@ {
        Some("soft"@)
    } else {
        None
    }
}

/// Whether an entry leads from settings to others, or why it is refused.
pub open spec fn field_applied(
    f: ProfileField,
    a: Settings,
    v: Seq<char>,
    b: Settings,
    r: Result<(), Seq<char>>,
) -> bool {
    let t = crate::text::lowered(crate::text::trim(v));
    match f {
        ProfileField::MainMode => match r {
            Ok(_) => exists|m: crate::args::MainMode| #[trigger]
                crate::args::stands_for_mode(t, m) && b == (Settings {
                    main_mode: crate::args::mode_name(m),
                    ..a
                }),
            Err(e) => b == a && e == "无效模式: "@ + t + " (ts/tc/tm/rs/rc/rm)"@ && forall|
                m: crate::args::MainMode,
            |
                !crate::args::stands_for_mode(t, m),
        },
        ProfileField::Device => r is Ok && b == (Settings { device: v, ..a }),
        ProfileField::Parity => match parity_kept(t) {
            Some(p) => r is Ok && b == (Settings { parity: p, ..a }),
            None => b == a && r == Err::<(), Seq<char>>("无效校验位: "@ + t + " (n/e/o)"@),
        },
        ProfileField::Flow => match flow_kept(t) {
            Some(p) => r is Ok && b == (Settings { flow: p, ..a }),
            None => b == a && r == Err::<(), Seq<char>>(
                "无效流控: "@ + t + " (none/hard/soft)"@,
            ),
        },
        _ => match crate::numeral::unsigned_of(crate::text::trim(v), 10, field_max(f)) {
            Some(n) => if f is Databits && !(5 <= n <= 8) {
                b == a && r == Err::<(), Seq<char>>("数据位必须是 5/6/7/8"@)
            } else if f is Stopbits && !(1 <= n <= 2) {
                b == a && r == Err::<(), Seq<char>>("停止位必须是 1 或 2"@)
            } else {
                r is Ok && b == with_number(f, a, n)
            },
            None => b == a && r == Err::<(), Seq<char>>(no_number(f)),
        },
    }
}

/// A result of which the error is a text, mathematically.
pub open spec fn told(r: Result<(), String>) -> Result<(), Seq<char>> {
    match r {
        Ok(_) => Ok(()),
        Err(e) => Err(e@),
    }
}

impl ProfileField {
    /// The key of the message that names a field.
    pub fn key(self) -> (r: &'static str)
        ensures
            r@ == field_key(self),
    {
        match self {
            ProfileField::MainMode => "profile_edit.main_mode",
            ProfileField::TcpPort => "profile_edit.tcp_port",
            ProfileField::Unit => "profile_edit.unit",
            ProfileField::HoldingCount => "profile_edit.holding_count",
            ProfileField::ClientTickMs => "profile_edit.client_tick_ms",
            ProfileField::Device => "profile_edit.device",
            ProfileField::Baudrate => "profile_edit.baudrate",
            ProfileField::Parity => "profile_edit.parity",
            ProfileField::Flow => "profile_edit.flow",
            ProfileField::Databits => "profile_edit.databits",
            ProfileField::Stopbits => "profile_edit.stopbits",
        }
    }

    /// Where a field matters.
    pub fn scope(self) -> (r: FieldScope)
        ensures
            r == scope_of(self),
    {
        match self {
            ProfileField::TcpPort => FieldScope::Tcp,
            ProfileField::MainMode
            | ProfileField::Unit
            | ProfileField::HoldingCount
            | ProfileField::ClientTickMs => FieldScope::All,
            _ => FieldScope::Rtu,
        }
    }

    /// The value of a field, as it is shown.
    pub fn display(self, args: &Args) -> (r: String)
        ensures
            r@ == field_text(self, args@),
    {
        match self {
            ProfileField::MainMode => args.main_mode.clone(),
            ProfileField::TcpPort => decimal_text(args.tcp_port as u128),
            ProfileField::Unit => decimal_text(args.unit as u128),
            ProfileField::HoldingCount => decimal_text(args.holding_count as u128),
            ProfileField::ClientTickMs => decimal_text(args.client_tick_ms as u128),
            ProfileField::Device => args.device.clone(),
            ProfileField::Baudrate => decimal_text(args.baudrate as u128),
            ProfileField::Parity => args.parity.clone(),
            ProfileField::Flow => args.flow.clone(),
            ProfileField::Databits => decimal_text(args.databits as u128),
            ProfileField::Stopbits => decimal_text(args.stopbits as u128),
        }
    }

    /// Puts an entry into a field, or says why not.
    pub fn apply(self, args: &mut Args, v: &str) -> (r: Result<(), String>)
        ensures
            field_applied(self, old(args)@, v@, final(args)@, told(r)),
    {
        match self {
            ProfileField::MainMode => apply_main_mode(args, v),
            ProfileField::Device => {
                args.device = v.to_string();
                Ok(())
            },
            ProfileField::Parity => apply_parity(args, v),
            ProfileField::Flow => apply_flow(args, v),
            _ => apply_number(self, args, v),
        }
    }
}

fn refusal(start: &str, t: &str, end: &str) -> (r: String)
    ensures
        r@ == start@ + t@ + end@,
{
    let mut s = start.to_string();
    s.append(t);
    s.append(end);
    s
}

fn apply_main_mode(args: &mut Args, v: &str) -> (r: Result<(), String>)
    ensures
        field_applied(ProfileField::MainMode, old(args)@, v@, final(args)@, told(r)),
{
    let t = lower(trimmed(v).as_str());
    match mode_from(t.as_str()) {
        Some(m) => {
            args.main_mode = main_mode_name(m).to_string();
            assert(crate::args::stands_for_mode(t@, m));
            Ok(())
        },
        None => Err(refusal("无效模式: ", t.as_str(), " (ts/tc/tm/rs/rc/rm)")),
    }
}

fn apply_parity(args: &mut Args, v: &str) -> (r: Result<(), String>)
    ensures
        field_applied(ProfileField::Parity, old(args)@, v@, final(args)@, told(r)),
{
    let t = lower(trimmed(v).as_str());
    let t = t.as_str();
    if same(t, "n") || same(t, "none") {
        args.parity = "n".to_string();
    } else if same(t, "e") || same(t, "even") {
        args.parity = "e".to_string();
    } else if same(t, "o") || same(t, "odd") {
        args.parity = "o".to_string();
    } else {
        return Err(refusal("无效校验位: ", t, " (n/e/o)"));
    }
    Ok(())
}

fn apply_flow(args: &mut Args, v: &str) -> (r: Result<(), String>)
    ensures
        field_applied(ProfileField::Flow, old(args)@, v@, final(args)@, told(r)),
{
    let t = lower(trimmed(v).as_str());
    let t = t.as_str();
    if same(t, "none") {
        args.flow = "none".to_string();
    } else if same(t, "hardware") || same(t, "hard") {
        args.flow = "hard".to_string();
    } else if same(t, "software") || same(t, "soft") {
        args.flow = "soft".to_string();
    } else {
        return Err(refusal("无效流控: ", t, " (none/hard/soft)"));
    }
    Ok(())
}

fn apply_number(f: ProfileField, args: &mut Args, v: &str) -> (r: Result<(), String>)
    requires
        !(f is MainMode || f is Device || f is Parity || f is Flow),
    ensures
        field_applied(f, old(args)@, v@, final(args)@, told(r)),
{
    let (max, why): (u128, &'static str) = match f {
        ProfileField::TcpPort => (u16::MAX as u128, "TCP端口 必须是有效数字"),
        ProfileField::Unit => (u8::MAX as u128, "从站地址 必须是有效数字"),
        ProfileField::HoldingCount => (usize::MAX as u128, "寄存器数 必须是有效数字"),
        ProfileField::ClientTickMs => (u64::MAX as u128, "轮询间隔 必须是有效数字"),
        ProfileField::Baudrate => (u32::MAX as u128, "波特率 必须是有效数字"),
        ProfileField::Databits => (u8::MAX as u128, "数据位必须是数字"),
        _ => (u8::MAX as u128, "停止位必须是数字"),
    };
    let n: u128 = match read_unsigned(&trim_chars(&chars_of(v)), 10, max) {
        Some(n) => n,
        None => {
            return Err(why.to_string());
        },
    };
    match f {
        ProfileField::TcpPort => {
            args.tcp_port = n as u16;
        },
        ProfileField::Unit => {
            args.unit = n as u8;
        },
        ProfileField::HoldingCount => {
            args.holding_count = n as usize;
        },
        ProfileField::ClientTickMs => {
            args.client_tick_ms = n as u64;
        },
        ProfileField::Baudrate => {
            args.baudrate = n as u32;
        },
        ProfileField::Databits => {
            if !(5 <= n && n <= 8) {
                return Err("数据位必须是 5/6/7/8".to_string());
            }
            args.databits = n as u8;
        },
        _ => {
            if n != 1 && n != 2 {
                return Err("停止位必须是 1 或 2".to_string());
            }
            args.stopbits = n as u8;
        },
    }
    Ok(())
}

/// Whether the settings of a field could have been entered in it.
pub open spec fn field_valid(f: ProfileField, a: Settings) -> bool {
    match f {
        ProfileField::MainMode => exists|m: crate::args::MainMode|
            a.main_mode == #[trigger] crate::args::mode_name(m),
        ProfileField::Parity => a.parity == "n"@ || a.parity == "e"@ || a.parity == "o"@,
        ProfileField::Flow => a.flow == "none"@ || a.flow == "hard"@ || a.flow == "soft"@,
        ProfileField::Databits => 5 <= a.databits <= 8,
        ProfileField::Stopbits => 1 <= a.stopbits <= 2,
        _ => true,
    }
}

/// An entry of what a field shows changes nothing, and is accepted, if the field
/// holds what can be entered.
pub proof fn law_shown_field_is_accepted(
    f: ProfileField,
    a: Settings,
    b: Settings,
    r: Result<(), Seq<char>>,
)
    requires
        field_valid(f, a),
        field_applied(f, a, field_text(f, a), b, r),
    ensures
        r is Ok,
        b == a,
{
    let v = field_text(f, a);
    match f {
        ProfileField::Device => {},
        ProfileField::MainMode => {
            let m = choose|m: crate::args::MainMode|
                a.main_mode == #[trigger] crate::args::mode_name(m);
            lemma_mode_entry(m);
            match r {
                Ok(_) => {
                    let n = choose|n: crate::args::MainMode| #[trigger]
                        crate::args::stands_for_mode(
                            crate::text::lowered(crate::text::trim(v)),
                            n,
                        ) && b == (Settings { main_mode: crate::args::mode_name(n), ..a });
                    crate::args::law_mode_found_by_name(m, n);
                },
                Err(_) => {
                    assert(crate::args::stands_for_mode(
                        crate::text::lowered(crate::text::trim(v)),
                        m,
                    ));
                },
            }
        },
        ProfileField::Parity => {
            lemma_parity_entry();
        },
        ProfileField::Flow => {
            lemma_flow_entry();
        },
        _ => {
            let n: nat = match f {
                ProfileField::TcpPort => a.tcp_port as nat,
                ProfileField::Unit => a.unit as nat,
                ProfileField::HoldingCount => a.holding_count as nat,
                ProfileField::ClientTickMs => a.client_tick_ms as nat,
                ProfileField::Baudrate => a.baudrate as nat,
                ProfileField::Databits => a.databits as nat,
                _ => a.stopbits as nat,
            };
            assert(v == crate::numeral::decimal(n));
            crate::numeral::lemma_numeral(n, 10);
            crate::numeral::lemma_digits_plain(v, 10, 0);
            crate::numeral::lemma_digits_plain(v, 10, v.len() - 1);
            crate::text::lemma_trim_plain(v);
            crate::numeral::lemma_decimal_read(n, field_max(f));
        },
    }
}

/// A text of lower case ASCII letters and signs is an entry as it stands.
proof fn lemma_plain_entry(t: Seq<char>)
    requires
        t.len() > 0,
        forall|i: int|
            0 <= i < t.len() ==> (#[trigger] t[i] == '-' || crate::text::is_ascii_lower(t[i])),
    ensures
        crate::text::lowered(crate::text::trim(t)) == t,
        crate::text::ascii_lower(t) == t,
{
    assert(t[0] == '-' || crate::text::is_ascii_lower(t[0]));
    assert(t[t.len() - 1] == '-' || crate::text::is_ascii_lower(t[t.len() - 1]));
    crate::text::lemma_trim_plain(t);
    assert(crate::text::ascii_lower(t) =~= t);
}

proof fn lemma_mode_entry(m: crate::args::MainMode)
    ensures
        crate::text::lowered(crate::text::trim(crate::args::mode_name(m)))
            == crate::args::mode_name(m),
        crate::text::ascii_lower(crate::args::mode_name(m)) == crate::args::mode_name(m),
{
    reveal_strlit("tcp-server");
    reveal_strlit("tcp-client");
    reveal_strlit("rtu-server");
    reveal_strlit("rtu-client");
    reveal_strlit("tcp-monitor");
    reveal_strlit("rtu-monitor");
    lemma_plain_entry(crate::args::mode_name(m));
}

proof fn lemma_parity_entry()
    ensures
        parity_kept(crate::text::lowered(crate::text::trim("n"@))) == Some("n"@),
        parity_kept(crate::text::lowered(crate::text::trim("e"@))) == Some("e"@),
        parity_kept(crate::text::lowered(crate::text::trim("o"@))) == Some("o"@),
        crate::text::ascii_lower("n"@) == "n"@,
        crate::text::ascii_lower("e"@) == "e"@,
        crate::text::ascii_lower("o"@) == "o"@,
{
    reveal_strlit("n");
    reveal_strlit("e");
    reveal_strlit("o");
    reveal_strlit("none");
    reveal_strlit("even");
    reveal_strlit("odd");
    lemma_plain_entry("n"@);
    lemma_plain_entry("e"@);
    lemma_plain_entry("o"@);
    assert("n"@[0] == 'n' && "e"@[0] == 'e' && "o"@[0] == 'o');
}

proof fn lemma_flow_entry()
    ensures
        flow_kept(crate::text::lowered(crate::text::trim("none"@))) == Some("none"@),
        flow_kept(crate::text::lowered(crate::text::trim("hard"@))) == Some("hard"@),
        flow_kept(crate::text::lowered(crate::text::trim("soft"@))) == Some("soft"@),
        crate::text::ascii_lower("none"@) == "none"@,
        crate::text::ascii_lower("hard"@) == "hard"@,
        crate::text::ascii_lower("soft"@) == "soft"@,
{
    reveal_strlit("none");
    reveal_strlit("hardware");
    reveal_strlit("hard");
    reveal_strlit("software");
    reveal_strlit("soft");
    lemma_plain_entry("none"@);
    lemma_plain_entry("hard"@);
    lemma_plain_entry("soft"@);
    assert("none"@[0] == 'n' && "hard"@[0] == 'h' && "soft"@[0] == 's');
    assert("hardware"@[0] == 'h' && "software"@[0] == 's');
}

/// What a field keeps of an entry that it accepts is a setting with which a
/// device can be opened: a mode, a parity and a flow control that are known, and
/// numbers of data and stop bits that there are.
pub proof fn law_accepted_setting_is_known(
    f: ProfileField,
    a: Settings,
    v: Seq<char>,
    b: Settings,
    r: Result<(), Seq<char>>,
)
    requires
        field_applied(f, a, v, b, r),
        r is Ok,
    ensures
        f is MainMode ==> exists|m: crate::args::MainMode| #[trigger]
            crate::args::stands_for_mode(crate::text::ascii_lower(b.main_mode), m),
        f is Parity ==> crate::args::parity_of(crate::text::ascii_lower(b.parity)) is Some,
        f is Flow ==> crate::args::flow_of(crate::text::ascii_lower(b.flow)) is Some,
        f is Databits ==> 5 <= b.databits <= 8,
        f is Stopbits ==> 1 <= b.stopbits <= 2,
        field_valid(f, b),
{
    match f {
        ProfileField::MainMode => {
            let m = choose|m: crate::args::MainMode| #[trigger]
                crate::args::stands_for_mode(
                    crate::text::lowered(crate::text::trim(v)),
                    m,
                ) && b == (Settings { main_mode: crate::args::mode_name(m), ..a });
            lemma_mode_entry(m);
            crate::args::law_mode_found_by_name(m, m);
            assert(b.main_mode == crate::args::mode_name(m));
        },
        ProfileField::Parity => {
            lemma_parity_entry();
        },
        ProfileField::Flow => {
            lemma_flow_entry();
        },
        _ => {},
    }
}

} // verus!

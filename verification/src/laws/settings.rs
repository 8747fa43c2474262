//! Settings and profiles: what texts stand for, and what a run starts with.
use crate::args::{
    combination_of, default_settings, flow_of, mode_mark, mode_name, named_format, parity_of,
    reg_format_of, stands_for_mode, FlowControl, MainMode, Parity, Settings,
};
use crate::format::{label_of, RegDataFormat, RegDataType, RegDataWidth};
use crate::laws::numbers::law_written_number_is_read;
use crate::numeral::{decimal, padded};
use crate::profile::{
    brief, default_mark, menu_place, monitor_label, named_rtu, named_tcp, offered,
    offered_names, offered_to_monitor, pick_start, place_count, short_mode, stored,
};
use crate::setup::{
    combinations_of, key_address, labels_of, largest_of, over_tcp, starts, switches_of,
};
use crate::state::AppState;
use crate::text::{has_infix, lowered, stands_at, starts_with, trim};
use vstd::prelude::*;

verus! {

/// Each mode has its name and its two letters.
pub proof fn law_modes_have_names(t: Seq<char>)
    ensures
        mode_name(MainMode::TcpServer) == "tcp-server"@ && mode_mark(MainMode::TcpServer) == "ts"@,
        mode_name(MainMode::TcpClient) == "tcp-client"@ && mode_mark(MainMode::TcpClient) == "tc"@,
        mode_name(MainMode::RTUServer) == "rtu-server"@ && mode_mark(MainMode::RTUServer) == "rs"@,
        mode_name(MainMode::RTUClient) == "rtu-client"@ && mode_mark(MainMode::RTUClient) == "rc"@,
        mode_name(MainMode::TcpMonitor) == "tcp-monitor"@ && mode_mark(MainMode::TcpMonitor)
            == "tm"@,
        mode_name(MainMode::RtuMonitor) == "rtu-monitor"@ && mode_mark(MainMode::RtuMonitor)
            == "rm"@,
        stands_for_mode(t, MainMode::TcpServer) <==> t == "tcp-server"@ || t == "ts"@,
        stands_for_mode(t, MainMode::TcpClient) <==> t == "tcp-client"@ || t == "tc"@,
        stands_for_mode(t, MainMode::RTUServer) <==> t == "rtu-server"@ || t == "rs"@,
        stands_for_mode(t, MainMode::RTUClient) <==> t == "rtu-client"@ || t == "rc"@,
        stands_for_mode(t, MainMode::TcpMonitor) <==> t == "tcp-monitor"@ || t == "tm"@,
        stands_for_mode(t, MainMode::RtuMonitor) <==> t == "rtu-monitor"@ || t == "rm"@,
{
}

/// Parities are named by a word or by its first letter.
pub proof fn law_parities_have_names(t: Seq<char>)
    ensures
        parity_of(t) == Some(Parity::Off) <==> t == "n"@ || t == "none"@,
        parity_of(t) == Some(Parity::Even) <==> t == "e"@ || t == "even"@,
        parity_of(t) == Some(Parity::Odd) <==> t == "o"@ || t == "odd"@,
{
    reveal_strlit("n");
    reveal_strlit("none");
    reveal_strlit("e");
    reveal_strlit("even");
    reveal_strlit("o");
    reveal_strlit("odd");
    if t.len() > 0 {
        let c = t[0];
        assert("n"@[0] == 'n' && "none"@[0] == 'n');
        assert("e"@[0] == 'e' && "even"@[0] == 'e');
        assert("o"@[0] == 'o' && "odd"@[0] == 'o');
    }
}

/// Flow control is named by a word, by two letters or by its lines.
pub proof fn law_flows_have_names(t: Seq<char>)
    ensures
        flow_of(t) == Some(FlowControl::Off) <==> t == "none"@,
        flow_of(t) == Some(FlowControl::Hardware) <==> t == "hard"@ || t == "hw"@ || t
            == "rtscts"@,
        flow_of(t) == Some(FlowControl::Software) <==> t == "soft"@ || t == "sw"@ || t
            == "xonxoff"@,
{
    reveal_strlit("none");
    reveal_strlit("hard");
    reveal_strlit("hw");
    reveal_strlit("rtscts");
    reveal_strlit("soft");
    reveal_strlit("sw");
    reveal_strlit("xonxoff");
    assert("none"@[0] == 'n' && "hard"@[0] == 'h' && "hw"@[0] == 'h' && "rtscts"@[0] == 'r'
        && "soft"@[0] == 's' && "sw"@[0] == 's' && "xonxoff"@[0] == 'x');
}

/// Whether a format is one of a type and a width.
pub open spec fn is_one(f: Option<RegDataFormat>, t: RegDataType, w: RegDataWidth) -> bool {
    f matches Some(g) && g.data_type == t && g.width == w
}

/// Long names stand for one format each.
pub proof fn law_long_names_stand_for_formats(t: Seq<char>)
    ensures
        is_one(named_format(t), RegDataType::Int, RegDataWidth::Bits32) <==> t == "int32"@,
        is_one(named_format(t), RegDataType::Uint, RegDataWidth::Bits32) <==> t == "uint32"@,
        is_one(named_format(t), RegDataType::Uint, RegDataWidth::Bits64) <==> t == "uint64"@,
        is_one(named_format(t), RegDataType::Int, RegDataWidth::Bits64) <==> t == "int64"@,
        is_one(named_format(t), RegDataType::Uint, RegDataWidth::Bits128) <==> t == "uint128"@,
        is_one(named_format(t), RegDataType::Int, RegDataWidth::Bits128) <==> t == "int128"@,
        is_one(named_format(t), RegDataType::Float, RegDataWidth::Bits16) <==> t == "half"@,
        is_one(named_format(t), RegDataType::Float, RegDataWidth::Bits32) <==> t == "float"@,
        is_one(named_format(t), RegDataType::Float, RegDataWidth::Bits64) <==> t == "double"@,
        is_one(named_format(t), RegDataType::Binary, RegDataWidth::Bits16) <==> t == "bin"@ || t
            == "binary"@,
        is_one(named_format(t), RegDataType::Ascii, RegDataWidth::Bits16) <==> t == "ascii"@,
{
    reveal_strlit("int32");
    reveal_strlit("uint32");
    reveal_strlit("uint64");
    reveal_strlit("int64");
    reveal_strlit("uint128");
    reveal_strlit("int128");
    reveal_strlit("half");
    reveal_strlit("float");
    reveal_strlit("double");
    reveal_strlit("bin");
    reveal_strlit("binary");
    reveal_strlit("ascii");
    assert("int32"@[0] == 'i' && "int64"@[0] == 'i' && "int128"@[0] == 'i' && "float"@[0] == 'f'
        && "ascii"@[0] == 'a' && "half"@[0] == 'h' && "double"@[0] == 'd' && "binary"@[0] == 'b');
    assert("uint32"@[0] == 'u' && "uint64"@[0] == 'u' && "uint128"@[0] == 'u');
    assert("int32"@[3] == '3' && "int64"@[3] == '6' && "uint32"@[4] == '3' && "uint64"@[4] == '6');
}

/// A letter for the type and the number of bits stand for a format: as that of a single
/// register, and as that of all.
#[verifier::spinoff_prover]
pub proof fn law_short_names_stand_for_formats(f: RegDataFormat)
    requires
        f.data_type is Uint || f.data_type is Int || f.data_type is Float,
    ensures
        combination_of(label_of(f)) == f,
        !(f.data_type is Float && f.width is Bits128) ==> reg_format_of(label_of(f)) == f,
{
    reveal_strlit("u");
    reveal_strlit("i");
    reveal_strlit("f");
    reveal_strlit("16");
    reveal_strlit("32");
    reveal_strlit("64");
    reveal_strlit("128");
    let t = label_of(f);
    let d = crate::format::width_name(f.width);
    assert(t.skip(1) =~= d);
    assert(d[0] == '1' || d[0] == '3' || d[0] == '6');
    assert(t[1] == d[0] && t[0] == crate::format::type_mark(f.data_type)[0]);
    crate::args::lemma_long_names(t);
    assert("16"@[0] == '1' && "32"@[0] == '3' && "64"@[0] == '6' && "128"@[0] == '1');
    lemma_reg_names(t);
    assert("i"@[0] == 'i' && "u"@[0] == 'u' && "f"@[0] == 'f');
    assert(t =~= seq![t[0]] + d);
}

proof fn lemma_reg_names(t: Seq<char>)
    requires
        t.len() >= 3,
        named_format(t) is None,
    ensures
        t == seq!['u'] + "32"@ ==> reg_format_of(t) == crate::format::format_of(
            RegDataType::Uint,
            RegDataWidth::Bits32,
        ),
        t == seq!['u'] + "64"@ ==> reg_format_of(t) == crate::format::format_of(
            RegDataType::Uint,
            RegDataWidth::Bits64,
        ),
        t == seq!['u'] + "128"@ ==> reg_format_of(t) == crate::format::format_of(
            RegDataType::Uint,
            RegDataWidth::Bits128,
        ),
        t == seq!['u'] + "16"@ ==> reg_format_of(t) == crate::format::plain_format(),
        t == seq!['i'] + "16"@ ==> reg_format_of(t) == crate::format::format_of(
            RegDataType::Int,
            RegDataWidth::Bits16,
        ),
        t == seq!['i'] + "32"@ ==> reg_format_of(t) == crate::format::format_of(
            RegDataType::Int,
            RegDataWidth::Bits32,
        ),
        t == seq!['i'] + "64"@ ==> reg_format_of(t) == crate::format::format_of(
            RegDataType::Int,
            RegDataWidth::Bits64,
        ),
        t == seq!['i'] + "128"@ ==> reg_format_of(t) == crate::format::format_of(
            RegDataType::Int,
            RegDataWidth::Bits128,
        ),
        t == seq!['f'] + "16"@ ==> reg_format_of(t) == crate::format::format_of(
            RegDataType::Float,
            RegDataWidth::Bits16,
        ),
        t == seq!['f'] + "32"@ ==> reg_format_of(t) == crate::format::format_of(
            RegDataType::Float,
            RegDataWidth::Bits32,
        ),
        t == seq!['f'] + "64"@ ==> reg_format_of(t) == crate::format::format_of(
            RegDataType::Float,
            RegDataWidth::Bits64,
        ),
{
    reveal_strlit("16");
    reveal_strlit("32");
    reveal_strlit("64");
    reveal_strlit("128");
    reveal_strlit("i16");
    reveal_strlit("u32");
    reveal_strlit("i32");
    reveal_strlit("u64");
    reveal_strlit("i64");
    reveal_strlit("u128");
    reveal_strlit("i128");
    reveal_strlit("f16");
    reveal_strlit("f32");
    reveal_strlit("f64");
    assert(seq!['u'] + "32"@ =~= "u32"@);
    assert(seq!['u'] + "64"@ =~= "u64"@);
    assert(seq!['u'] + "128"@ =~= "u128"@);
    assert(seq!['i'] + "16"@ =~= "i16"@);
    assert(seq!['i'] + "32"@ =~= "i32"@);
    assert(seq!['i'] + "64"@ =~= "i64"@);
    assert(seq!['i'] + "128"@ =~= "i128"@);
    assert(seq!['f'] + "16"@ =~= "f16"@);
    assert(seq!['f'] + "32"@ =~= "f32"@);
    assert(seq!['f'] + "64"@ =~= "f64"@);
    let a = t[0];
    let b = t[1];
    assert("u32"@[0] == 'u' && "u64"@[0] == 'u' && "u128"@[0] == 'u');
    assert("i16"@[0] == 'i' && "i32"@[0] == 'i' && "i64"@[0] == 'i' && "i128"@[0] == 'i');
    assert("f16"@[0] == 'f' && "f32"@[0] == 'f' && "f64"@[0] == 'f');
    assert("u32"@[1] == '3' && "u64"@[1] == '6' && "u128"@[1] == '1');
    assert("i16"@[1] == '1' && "i32"@[1] == '3' && "i64"@[1] == '6' && "i128"@[1] == '1');
    assert("f16"@[1] == '1' && "f32"@[1] == '3' && "f64"@[1] == '6');
    assert((seq!['u'] + "16"@)[0] == 'u' && (seq!['u'] + "16"@)[1] == '1');
}

proof fn lemma_plain_address(n: nat)
    requires
        n <= usize::MAX,
    ensures
        crate::setup::address_of(decimal(n)) == Some(n),
        decimal(n).len() > 0,
        decimal(n)[0] != 'i',
{
    law_written_number_is_read(n, 10, 0, usize::MAX as nat);
    assert(padded(n, 10, 0) =~= decimal(n));
    crate::numeral::lemma_numeral(n, 10);
    crate::numeral::lemma_digits_plain(decimal(n), 10, 0);
    let s = decimal(n);
    crate::laws::numbers::law_only_digits_are_read(s, 10, usize::MAX as nat, 0);
}

/// A number stands for the holding register of that address, and a number behind `i:`
/// for the input register.
pub proof fn law_keys_stand_for_registers(n: nat)
    requires
        n <= usize::MAX,
    ensures
        key_address(decimal(n), false) == Some(n),
        key_address(decimal(n), true) is None,
        key_address("i:"@ + decimal(n), true) == Some(n),
        key_address("i:"@ + decimal(n), false) is None,
{
    reveal_strlit("i:");
    lemma_plain_address(n);
    let d = decimal(n);
    let k = "i:"@ + d;
    assert(k.skip(2) =~= d);
    assert(k.subrange(0, 2) =~= "i:"@);
    assert(starts_with(k, "i:"@));
    if starts_with(d, "i:"@) {
        assert(d.subrange(0, 2)[0] == d[0]);
        assert("i:"@[0] == 'i');
    }
}

/// A register starts with the note that was given last for its address; without one it
/// has none. What names no register of the table is passed over.
pub proof fn law_notes_go_to_registers(
    list: Seq<(Seq<char>, Seq<char>)>,
    n: int,
    i: nat,
    note: Seq<char>,
    j: int,
)
    requires
        0 <= n,
        i <= usize::MAX,
        0 <= j < n,
    ensures
        labels_of(Seq::empty(), n)[j].len() == 0,
        labels_of(list, n).len() == n,
        i < n ==> labels_of(list.push((decimal(i), note)), n)[i as int] == note,
        j != i ==> labels_of(list.push((decimal(i), note)), n)[j] == labels_of(list, n)[j],
        i >= n ==> labels_of(list.push((decimal(i), note)), n) == labels_of(list, n),
{
    lemma_plain_address(i);
    crate::setup::lemma_labels_len(list, n);
    assert(list.push((decimal(i), note)).drop_last() =~= list);
}

/// A single register has the format that was given last for its key, in its own table
/// alone; a plain register needs none.
pub proof fn law_formats_go_to_registers(
    list: Seq<(Seq<char>, Seq<char>)>,
    i: nat,
    name: Seq<char>,
    input: bool,
)
    requires
        i <= usize::MAX,
    ensures
        ({
            let key = if input {
                "i:"@ + decimal(i)
            } else {
                decimal(i)
            };
            let f = combination_of(lowered(trim(name)));
            let plain = f.data_type is Uint && f.width is Bits16;
            let more = list.push((key, name));
            &&& combinations_of(Seq::empty(), input) == Map::<usize, RegDataFormat>::empty()
            &&& !plain ==> combinations_of(more, input) == combinations_of(list, input).insert(
                i as usize,
                f,
            )
            &&& plain ==> combinations_of(more, input) == combinations_of(list, input)
            &&& combinations_of(more, !input) == combinations_of(list, !input)
        }),
{
    law_keys_stand_for_registers(i);
    let key = if input {
        "i:"@ + decimal(i)
    } else {
        decimal(i)
    };
    assert(list.push((key, name)).drop_last() =~= list);
}

/// A register is switched on by the word `true` for its key, in its own table alone, and
/// by nothing else.
pub proof fn law_switches_go_to_registers(
    list: Seq<(Seq<char>, Seq<char>)>,
    i: nat,
    word: Seq<char>,
    input: bool,
)
    requires
        i <= usize::MAX,
    ensures
        ({
            let key = if input {
                "i:"@ + decimal(i)
            } else {
                decimal(i)
            };
            let more = list.push((key, word));
            &&& switches_of(Seq::empty(), input) == Map::<usize, bool>::empty()
            &&& word == "true"@ ==> switches_of(more, input) == switches_of(list, input).insert(
                i as usize,
                true,
            )
            &&& word != "true"@ ==> switches_of(more, input) == switches_of(list, input)
            &&& switches_of(more, !input) == switches_of(list, !input)
        }),
{
    law_keys_stand_for_registers(i);
    let key = if input {
        "i:"@ + decimal(i)
    } else {
        decimal(i)
    };
    assert(list.push((key, word)).drop_last() =~= list);
}

/// The largest of four numbers is one of them, and none is larger.
pub proof fn law_largest_of_four(a: int, b: int, c: int, d: int)
    ensures
        ({
            let m = largest_of(a, b, c, d);
            &&& m >= a && m >= b && m >= c && m >= d
            &&& m == a || m == b || m == c || m == d
        }),
{
}

/// A run starts with as many registers, coils and inputs as were asked for, all of them
/// zero or off and none of them simulated, and with nothing seen, noted or found yet.
/// There is room to note changes of the longest table.
#[verifier::spinoff_prover]
pub proof fn law_run_starts_at_zero(a: Settings, mode: MainMode, s: AppState, i: int)
    requires
        starts(a, mode, s),
        0 <= i,
    ensures
        s.holding@.len() == a.holding_count && s.coils@.len() == a.coil_count,
        s.discrete@.len() == a.discrete_count && s.input_registers@.len() == a.input_count,
        i < a.holding_count ==> s.holding@[i] == 0 && !s.holding_change_enabled@[i]
            && s.holding_change_patterns@[i] is Random && s.holding_pattern_freqs@[i]
            == 0x3FF0_0000_0000_0000 && s.holding_pattern_phases@[i] == 0,
        i < a.input_count ==> s.input_registers@[i] == 0 && !s.input_change_enabled@[i]
            && s.input_change_patterns@[i] is Random && s.input_pattern_freqs@[i]
            == 0x3FF0_0000_0000_0000 && s.input_pattern_phases@[i] == 0,
        i < a.coil_count ==> !s.coils@[i],
        i < a.discrete_count ==> !s.discrete@[i],
        i < a.holding_count || i < a.coil_count || i < a.discrete_count || i < a.input_count
            ==> i < s.reg_just_changed@.len() && !s.reg_just_changed@[i] && i
            < s.reg_change_direction@.len() && s.reg_change_direction@[i] is Up && i
            < s.reg_bar_history@.len() && s.reg_bar_history@[i]@.len() == 0,
        s.last_frame is None && s.monitor@.total_frames == 0 && s.monitor@.history.len() == 0,
        s.reg_change_history@.len() == 0 && !s.stability_test_running,
        s.read_enabled@[0] && !s.read_enabled@[1] && !s.read_enabled@[2] && !s.read_enabled@[3],
        s.slave_scan_result is None && !s.slave_scan_running && !s.swap_bytes && !s.swap_words,
        s.reg_format.data_type is Uint && s.reg_format.width is Bits16,
        s.is_tcp <==> mode is TcpServer || mode is TcpClient || mode is TcpMonitor,
{
    let b = crate::state::bars(s.reg_bar_history@);
    if i < a.holding_count || i < a.coil_count || i < a.discrete_count || i < a.input_count {
        assert(b.len() == s.reg_bar_history@.len());
        assert(b[i] == s.reg_bar_history@[i]@);
    }
}

/// A mode goes over TCP if and only if it is one of the three over TCP.
pub proof fn law_modes_over_tcp(m: MainMode)
    ensures
        over_tcp(m) <==> m is TcpServer || m is TcpClient || m is TcpMonitor,
{
}

/// The settings where nothing else was said.
pub proof fn law_settings_by_default(s: Settings)
    ensures
        s == default_settings() ==> s.main_mode == "tcp-client"@ && s.tcp_port == 502 && s.unit == 1
            && s.holding_count == 512 && s.coil_count == 512 && s.discrete_count == 512
            && s.input_count == 512,
        s == default_settings() ==> s.config == "config.toml"@ && s.profile is None && s.device
            == "dev/null"@ && s.baudrate == 9600 && s.databits == 8 && s.parity == "n"@
            && s.stopbits == 1 && s.flow == "none"@,
        s == default_settings() ==> s.client_tick_ms == 200 && s.ui_tick_ms == 10 && s.reg_format
            == "u16"@ && s.lang == "zh-CN"@ && s.labels.len() == 0 && s.reg_combinations.len() == 0
            && s.swap_bytes_reg.len() == 0 && s.swap_words_reg.len() == 0,
{
}

proof fn lemma_mode_words(m: MainMode)
    ensures
        crate::text::ascii_lower(mode_name(m)) == mode_name(m),
        has_infix(mode_name(m), "tcp"@) <==> m is TcpServer || m is TcpClient || m is TcpMonitor,
        has_infix(mode_name(m), "rtu"@) <==> m is RTUServer || m is RTUClient || m is RtuMonitor,
{
    reveal_strlit("tcp-server");
    reveal_strlit("tcp-client");
    reveal_strlit("rtu-server");
    reveal_strlit("rtu-client");
    reveal_strlit("tcp-monitor");
    reveal_strlit("rtu-monitor");
    reveal_strlit("tcp");
    reveal_strlit("rtu");
    let s = mode_name(m);
    assert(crate::text::ascii_lower(s) =~= s);
    if m is TcpServer || m is TcpClient || m is TcpMonitor {
        assert(s.subrange(0, 3) =~= "tcp"@);
        assert(stands_at(s, 0, "tcp"@));
        if has_infix(s, "rtu"@) {
            let i = choose|i: int| stands_at(s, i, "rtu"@);
            let u = s.subrange(i, i + 3);
            assert(u[2] == s[i + 2] && "rtu"@[2] == 'u');
        }
    } else {
        assert(s.subrange(0, 3) =~= "rtu"@);
        assert(stands_at(s, 0, "rtu"@));
        if has_infix(s, "tcp"@) {
            let i = choose|i: int| stands_at(s, i, "tcp"@);
            let u = s.subrange(i, i + 3);
            assert(u[2] == s[i + 2] && "tcp"@[2] == 'p');
        }
    }
}

/// A profile of a mode has its place in the main menu, its short form and the monitor
/// that goes its way.
#[verifier::spinoff_prover]
pub proof fn law_profile_of_a_mode(a: Settings, m: MainMode)
    requires
        a.main_mode == mode_name(m),
    ensures
        menu_place(a) == Some(
            match m {
                MainMode::TcpServer => 0int,
                MainMode::TcpClient => 1,
                MainMode::RTUServer => 2,
                MainMode::RTUClient => 3,
                MainMode::TcpMonitor => 4,
                MainMode::RtuMonitor => 5,
            },
        ),
        match m {
            MainMode::TcpServer => short_mode(a) == "TCP-S"@,
            MainMode::TcpClient => short_mode(a) == "TCP-C"@,
            MainMode::RTUServer => short_mode(a) == "RTU-S"@,
            MainMode::RTUClient => short_mode(a) == "RTU-C"@,
            _ => short_mode(a) == mode_name(m),
        },
        named_tcp(a) <==> m is TcpServer || m is TcpClient || m is TcpMonitor,
        named_rtu(a) <==> m is RTUServer || m is RTUClient || m is RtuMonitor,
        named_tcp(a) ==> monitor_label(a) == "tcp-monitor"@,
        !named_tcp(a) ==> monitor_label(a) == "rtu-monitor"@,
{
    lemma_mode_words(m);
    reveal_strlit("tcp-server");
    reveal_strlit("tcp-client");
    reveal_strlit("rtu-server");
    reveal_strlit("rtu-client");
    reveal_strlit("tcp-monitor");
    reveal_strlit("rtu-monitor");
    let t = mode_name(m);
    assert("tcp-server"@[0] == 't' && "tcp-client"@[0] == 't' && "rtu-server"@[0] == 'r'
        && "rtu-client"@[0] == 'r');
    assert("tcp-server"@[4] == 's' && "tcp-client"@[4] == 'c' && "rtu-server"@[4] == 's'
        && "rtu-client"@[4] == 'c');
}

/// A profile in one line: over TCP its port, on a serial line its device and how the
/// line is set, and both with the unit and how many holding registers there are.
pub proof fn law_profile_in_one_line(a: Settings)
    ensures
        named_tcp(a) ==> brief(a) == short_mode(a) + " | port "@ + decimal(a.tcp_port as nat)
            + " | slv "@ + decimal(a.unit as nat) + " | hld "@ + decimal(a.holding_count as nat),
        !named_tcp(a) ==> brief(a) == short_mode(a) + " | "@ + a.device + " | "@ + decimal(
            a.baudrate as nat,
        ) + "-"@ + crate::text::uppered(a.parity) + decimal(a.databits as nat) + decimal(
            a.stopbits as nat,
        ) + " | slv "@ + decimal(a.unit as nat) + " | hld "@ + decimal(a.holding_count as nat),
{
}

/// A profile is offered for its own mode and no other, and for the monitor of its line;
/// for no mode in particular, every profile is. The mark of the default one is none.
#[verifier::spinoff_prover]
pub proof fn law_profiles_are_offered_by_mode(name: Seq<char>, a: Settings, m: MainMode, own: MainMode)
    requires
        name != "__default__"@,
        a.main_mode == mode_name(own),
    ensures
        offered(name, a, None) && offered_to_monitor(name, a, None),
        !offered("__default__"@, a, None) && !offered_to_monitor("__default__"@, a, None),
        !(m is TcpMonitor || m is RtuMonitor) ==> (offered(name, a, Some(m)) <==> own == m),
        m is TcpMonitor ==> (offered(name, a, Some(m)) <==> own is TcpServer || own is TcpClient
            || own is TcpMonitor),
        m is RtuMonitor ==> (offered(name, a, Some(m)) <==> own is RTUServer || own is RTUClient
            || own is RtuMonitor),
        m is TcpMonitor ==> (offered_to_monitor(name, a, Some(m)) <==> own is TcpServer || own
            is TcpClient || own is TcpMonitor),
        m is RtuMonitor ==> (offered_to_monitor(name, a, Some(m)) <==> own is RTUServer || own
            is RTUClient || own is RtuMonitor),
{
    lemma_mode_words(own);
    reveal_strlit("tcp-server");
    reveal_strlit("tcp-client");
    reveal_strlit("rtu-server");
    reveal_strlit("rtu-client");
    reveal_strlit("tcp-monitor");
    reveal_strlit("rtu-monitor");
    reveal_strlit("tcp-");
    reveal_strlit("rtu-");
    let s = mode_name(own);
    let p = pick_start(m);
    assert(crate::profile::DEFAULT_KEY@ == "__default__"@);
    assert("tcp-server"@[0] == 't' && "tcp-client"@[0] == 't' && "rtu-server"@[0] == 'r'
        && "rtu-client"@[0] == 'r' && "tcp-monitor"@[0] == 't' && "rtu-monitor"@[0] == 'r');
    assert("tcp-server"@[4] == 's' && "tcp-client"@[4] == 'c' && "rtu-server"@[4] == 's'
        && "rtu-client"@[4] == 'c' && "tcp-monitor"@[4] == 'm' && "rtu-monitor"@[4] == 'm');
    if starts_with(s, p) {
        let u = s.subrange(0, p.len() as int);
        assert(u[0] == s[0] && u == p);
        if p.len() > 4 {
            assert(u[4] == s[4]);
        }
    }
    if own is TcpServer || own is TcpClient || own is TcpMonitor {
        assert(s.subrange(0, 4) =~= "tcp-"@);
    } else {
        assert(s.subrange(0, 4) =~= "rtu-"@);
    }
    assert(s.subrange(0, s.len() as int) =~= s);
}

/// The name of the default profile is kept as a mode, under a name of its own.
pub proof fn law_default_profile_is_marked(name: Seq<char>)
    ensures
        default_mark(name).main_mode == name,
        default_mark(name).tcp_port == 502,
        crate::profile::DEFAULT_KEY@ == "__default__"@,
{
}

/// The settings that are saved of a run are those with which it was started, but that they
/// have the notes that the registers have by now.
pub proof fn law_notes_are_saved(a: Settings, s: AppState, b: Settings)
    requires
        crate::entry::settings_now(a, s, b),
        s.holding_label@.len() <= usize::MAX,
    ensures
        labels_of(b.labels, s.holding_label@.len() as int) == crate::text::texts(
            s.holding_label@,
        ),
        b == (Settings { labels: b.labels, reg_combinations: b.reg_combinations, ..a }),
{
    crate::setup::law_saved_labels_load(crate::text::texts(s.holding_label@));
}

/// The formats of single registers that are saved of a run are read again as they are by
/// now, each in its own table.
pub proof fn law_formats_are_saved(a: Settings, s: AppState, b: Settings)
    requires
        crate::entry::settings_now(a, s, b),
        forall|k: usize| #[trigger]
            s.holding_combinations@.contains_key(k) ==> crate::setup::label_tells(
                s.holding_combinations@[k],
            ) && s.holding_combinations@[k] != crate::format::plain_format(),
        forall|k: usize| #[trigger]
            s.input_combinations@.contains_key(k) ==> crate::setup::label_tells(
                s.input_combinations@[k],
            ) && s.input_combinations@[k] != crate::format::plain_format(),
    ensures
        combinations_of(b.reg_combinations, false) == s.holding_combinations@,
        combinations_of(b.reg_combinations, true) == s.input_combinations@,
{
    let (h, n) = choose|h: Seq<usize>, n: Seq<usize>| #[trigger]
        crate::listing::is_listing(h, s.holding_combinations@)
            && #[trigger] crate::listing::is_listing(n, s.input_combinations@) && b.reg_combinations
            == crate::setup::saved_formats(h, s.holding_combinations@, false)
            + crate::setup::saved_formats(n, s.input_combinations@, true);
    crate::setup::law_saved_combinations_load(
        h,
        n,
        s.holding_combinations@,
        s.input_combinations@,
    );
}

/// The profiles of a file are found by their names, and the last entry of a name counts;
/// those that are offered are offered in the order in which they come; and each place of
/// the main menu counts its own.
pub proof fn law_profiles_are_entered(
    v: Seq<(String, crate::args::Args)>,
    e: (String, crate::args::Args),
    mode: Option<MainMode>,
    place: int,
)
    ensures
        stored(Seq::empty()) == Map::<Seq<char>, Settings>::empty(),
        stored(v.push(e)) == stored(v).insert(e.0@, e.1@),
        offered(e.0@, e.1@, mode) ==> offered_names(v.push(e), mode, false) == offered_names(
            v,
            mode,
            false,
        ).push(e.0@),
        !offered(e.0@, e.1@, mode) ==> offered_names(v.push(e), mode, false) == offered_names(
            v,
            mode,
            false,
        ),
        offered_to_monitor(e.0@, e.1@, mode) ==> offered_names(v.push(e), mode, true)
            == offered_names(v, mode, true).push(e.0@),
        !offered_to_monitor(e.0@, e.1@, mode) ==> offered_names(v.push(e), mode, true)
            == offered_names(v, mode, true),
        e.0@ != "__default__"@ && menu_place(e.1@) == Some(place) ==> place_count(
            v.push(e),
            place,
        ) == place_count(v, place) + 1,
        e.0@ == "__default__"@ || menu_place(e.1@) != Some(place) ==> place_count(
            v.push(e),
            place,
        ) == place_count(v, place),
{
    assert(v.push(e).drop_last() =~= v);
    assert(crate::profile::DEFAULT_KEY@ == "__default__"@);
}

/// The list of profiles to choose from holds those that are offered, in the order of their
/// names, each with its line.
pub proof fn law_offered_profiles_are_listed(
    p: crate::profile::Profiles,
    mode: Option<MainMode>,
    monitor: bool,
    list: crate::profile::PickList,
    i: int,
    j: int,
)
    requires
        crate::profile::lists(p, mode, monitor, list),
        0 <= i <= j < list.names@.len(),
    ensures
        list.briefs@.len() == list.names@.len(),
        list.names@.len() == offered_names(p.entries@, mode, monitor).len(),
        offered_names(p.entries@, mode, monitor).contains(list.names@[i]@),
        crate::listing::text_le(list.names@[i]@, list.names@[j]@),
        p@.contains_key(list.names@[i]@),
        list.briefs@[i]@ == brief(p@[list.names@[i]@]),
{
    let t = crate::text::texts(list.names@);
    crate::laws::texts::law_sorted_list(t, offered_names(p.entries@, mode, monitor), i, j);
    assert(t[i] == list.names@[i]@ && t[j] == list.names@[j]@);
}

/// A letter for the type with another number of bits stands for 16 bits of it, and what
/// stands for no format for a plain register; `hex` is a format of single registers alone.
pub proof fn law_other_names_stand_for_plain(t: Seq<char>)
    requires
        named_format(t) is None,
    ensures
        ({
            let f = combination_of(t);
            let g = reg_format_of(t);
            &&& t == "hex"@ ==> f.data_type is Hex && f.width is Bits16
            &&& t != "hex"@ && t.len() >= 3 && t[0] == 'u' ==> f.data_type is Uint
            &&& t != "hex"@ && t.len() >= 3 && t[0] == 'i' ==> f.data_type is Int
            &&& t != "hex"@ && t.len() >= 3 && t[0] == 'f' ==> f.data_type is Float
            &&& t.skip(1) != "32"@ && t.skip(1) != "64"@ && t.skip(1) != "128"@ ==> f.width
                is Bits16
            &&& t.len() < 3 || t != "hex"@ && t[0] != 'u' && t[0] != 'i' && t[0] != 'f' ==> f
                == crate::format::plain_format()
            &&& t.len() != 3 && t.len() != 4 ==> g == crate::format::plain_format()
            &&& t.len() > 0 && t[0] != 'u' && t[0] != 'i' && t[0] != 'f' ==> g
                == crate::format::plain_format()
        }),
{
    reveal_strlit("hex");
    reveal_strlit("i16");
    reveal_strlit("u32");
    reveal_strlit("i32");
    reveal_strlit("u64");
    reveal_strlit("i64");
    reveal_strlit("u128");
    reveal_strlit("i128");
    reveal_strlit("f16");
    reveal_strlit("f32");
    reveal_strlit("f64");
    assert("u32"@[0] == 'u' && "u64"@[0] == 'u' && "u128"@[0] == 'u');
    assert("i16"@[0] == 'i' && "i32"@[0] == 'i' && "i64"@[0] == 'i' && "i128"@[0] == 'i');
    assert("f16"@[0] == 'f' && "f32"@[0] == 'f' && "f64"@[0] == 'f');
}

} // verus!

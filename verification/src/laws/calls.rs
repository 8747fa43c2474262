//! What calls of the library give: laws of the functions themselves, for every argument
//! and every result.
use crate::args::{
    parse_databits, parse_flow, parse_mainmode, parse_parity, parse_stopbits, Args, DataBits,
    FlowControl, MainMode, Parity, SettingError, StopBits,
};
use crate::client::{
    exception_text, settle, tcp_listen, tcp_target, ChunkedWrite, Outcome, Poll, ReadRequest,
    SlaveScan,
};
use crate::clock::{
    chrono_at, date_stamp, day_number, days_to_date, format_system_time, is_date, moment_of, Moment,
};
use crate::csv::{csv_log_append, csv_log_header, list_csv_logs, parse_csv_log};
use crate::format::RegDataFormat;
use crate::frame::{calc_crc16, frame_bytes_from_info, FrameInfo};
use crate::laws::frames::number_at;
use crate::laws::numbers::weighed;
use crate::laws::panels::{line_at, on_two};
use crate::laws::values::{count, radix_of, room, shows};
use crate::message::{Draft, Part, Piece, Said};
use crate::monitor::{record_frame_at, seen, FrameRecord, MonitorStats};
use crate::numeral::{decimal, padded};
use crate::panel::{format_byte_panel, format_monitor_history};
use crate::profile::{
    load_default_profile, resolve_selection, save_default_profile, select_profile, MenuSelection,
    Profiles, SelectError,
};
use crate::service::{HoldingService, Request};
use crate::simulator::{compute_pattern_value, Draw};
use crate::state::{record_reg_change_at, AppState, RegChangePattern};
use crate::value::{
    format_register_value, format_u16, parse_register_value, parse_u16_str, FloatBits, ParseError,
    RegisterText,
};
use crate::words::arranged;
use crate::worker::{execute_at, ExceptionCode, RegCmd, Reply};
use vstd::prelude::*;

verus! {

/// A request for input registers to the served unit is let in if and only if the device
/// has all of them, and so for every other table: coils, discrete inputs, and as many
/// holding registers as the service offers.
pub proof fn law_requests_are_let_in(
    svc: &HoldingService,
    s: &AppState,
    slave: u8,
    req: &Request,
    r: Result<RegCmd, ExceptionCode>,
)
    requires
        call_ensures(HoldingService::call, (svc, s, slave, req), r),
    ensures
        r is Ok ==> slave == svc.unit,
        slave == svc.unit ==> match *req {
            Request::ReadCoils(a, n) => r is Ok <==> a + n <= s.coils@.len(),
            Request::ReadDiscreteInputs(a, n) => r is Ok <==> a + n <= s.discrete@.len(),
            Request::ReadInputRegisters(a, n) => r is Ok <==> a + n <= s.input_registers@.len(),
            Request::ReadHoldingRegisters(a, n) => r is Ok <==> a + n <= svc.holding_len,
            Request::WriteSingleCoil(a, _) => r is Ok <==> a < s.coils@.len(),
            Request::WriteSingleRegister(a, _) => r is Ok <==> a < svc.holding_len,
            Request::WriteMultipleCoils(a, v) => r is Ok <==> a + v@.len() <= s.coils@.len(),
            Request::WriteMultipleRegisters(a, v) => r is Ok <==> a + v@.len() <= svc.holding_len,
            Request::Other => r is Err,
        },
        slave == svc.unit && r is Err && !(*req is Other) ==> r == Err::<RegCmd, ExceptionCode>(
            ExceptionCode::IllegalDataAddress,
        ),
        slave != svc.unit || *req is Other ==> r == Err::<RegCmd, ExceptionCode>(
            ExceptionCode::IllegalFunction,
        ),
{
    if slave == svc.unit {
        crate::laws::device::law_table_decides(*svc, *s, *req, r);
    }
}

/// A number behind `0x` or `0b` is accepted in whole numbers of every width if and only if
/// it fits in their registers, and these then hold it.
pub proof fn law_marked_numbers_are_stored(
    s: &str,
    mark: Seq<char>,
    v: nat,
    width: nat,
    f: RegDataFormat,
    swap_bytes: bool,
    swap_words: bool,
    floats: FloatBits,
    r: Result<Vec<u16>, ParseError>,
)
    requires
        call_ensures(parse_register_value, (s, f, swap_bytes, swap_words, floats), r),
        mark == "0x"@ || mark == "0X"@ || mark == "0b"@ || mark == "0B"@,
        s@ == mark + padded(v, radix_of(mark), width),
        f.data_type is Uint || f.data_type is Int,
    ensures
        r is Ok <==> v < room(f.width),
        r matches Ok(w) ==> w@.len() == count(f.width) && weighed(
            arranged(w@, swap_bytes, swap_words),
        ) == v,
{
    crate::laws::values::law_marked_entry_fills_its_width(
        mark,
        v,
        width,
        f,
        swap_bytes,
        swap_words,
        floats,
    );
}

/// A decimal number is accepted in unsigned formats if and only if it fits in their
/// registers, and these then hold it.
pub proof fn law_decimal_numbers_are_stored(
    s: &str,
    v: nat,
    f: RegDataFormat,
    swap_bytes: bool,
    swap_words: bool,
    floats: FloatBits,
    r: Result<Vec<u16>, ParseError>,
)
    requires
        call_ensures(parse_register_value, (s, f, swap_bytes, swap_words, floats), r),
        s@ == decimal(v),
        f.data_type is Uint,
    ensures
        r is Ok <==> v < room(f.width),
        r matches Ok(w) ==> w@.len() == count(f.width) && weighed(
            arranged(w@, swap_bytes, swap_words),
        ) == v,
        r is Err ==> r == Err::<Vec<u16>, ParseError>(ParseError::Dec),
{
    crate::laws::values::law_decimal_entry_fills_its_width(v, f, swap_bytes, swap_words, floats);
}

/// One register is read from a decimal, hexadecimal or binary number that fits in it.
pub proof fn law_one_register_is_parsed(
    s: &str,
    v: nat,
    f: RegDataFormat,
    r: Result<u16, ParseError>,
)
    requires
        call_ensures(parse_u16_str, (s, f), r),
        f.data_type is Hex ==> s@ == crate::numeral::numeral(v, 16),
        f.data_type is Binary ==> s@ == crate::numeral::numeral(v, 2),
        !(f.data_type is Hex || f.data_type is Binary) ==> s@ == decimal(v),
        f.data_type is Hex || f.data_type is Binary || f.data_type is Uint,
    ensures
        r is Ok <==> v < 0x1_0000,
        r matches Ok(w) ==> w == v,
{
    crate::laws::values::law_one_register_is_read("0x"@, v, 0, f.data_type);
    let radix: nat = if f.data_type is Hex {
        16
    } else if f.data_type is Binary {
        2
    } else {
        10
    };
    let d = crate::numeral::numeral(v, radix);
    crate::numeral::lemma_numeral(v, radix);
    crate::numeral::lemma_digits_plain(d, radix, 0);
    crate::numeral::lemma_digits_plain(d, radix, d.len() - 1);
    crate::text::lemma_trim_plain(d);
}

/// A value is shown as the number that its registers hold.
pub proof fn law_values_are_shown(
    regs: &Vec<u16>,
    addr: usize,
    f: RegDataFormat,
    swap_bytes: bool,
    swap_words: bool,
    r: RegisterText,
)
    requires
        call_ensures(format_register_value, (regs, addr, f, swap_bytes, swap_words), r),
        addr + count(f.width) <= regs@.len(),
    ensures
        ({
            let w = arranged(
                regs@.subrange(addr as int, addr + count(f.width)),
                swap_bytes,
                swap_words,
            );
            shows(r@, w, weighed(w), f)
        }),
{
    crate::laws::values::law_value_shows_its_number(
        regs@,
        addr as int,
        f,
        swap_bytes,
        swap_words,
        r@,
    );
}

/// One register is shown in decimal, in four hexadecimal or in sixteen binary digits.
pub proof fn law_one_register_is_shown(v: u16, f: RegDataFormat, r: String)
    requires
        call_ensures(format_u16, (v, f), r),
    ensures
        f.data_type is Hex ==> r@ == "0x"@ + padded(v as nat, 16, 4),
        f.data_type is Binary ==> r@ == "0b"@ + padded(v as nat, 2, 16),
        !(f.data_type is Hex || f.data_type is Binary) ==> r@ == decimal(v as nat),
{
}

/// The bytes of a frame that writes: the address, and then 255 and 0 for a bit that is on,
/// twice 0 for one that is off, a register, or how many there are.
pub proof fn law_bytes_of_writing(fi: &FrameInfo, r: Vec<u8>)
    requires
        call_ensures(frame_bytes_from_info, (fi,), r),
        fi.func_code == 5 || fi.func_code == 6 || fi.func_code == 15 || fi.func_code == 16,
        fi.values@.len() > 0,
    ensures
        ({
            let at = if fi.is_tcp {
                8int
            } else {
                2
            };
            &&& r@.len() == if fi.is_tcp {
                12int
            } else {
                8
            }
            &&& r@[at - 2] == fi.unit && r@[at - 1] == fi.func_code
            &&& number_at(r@, at) == fi.addr
            &&& fi.func_code == 5 && fi.values@[0] != 0 ==> r@[at + 2] == 0xFF && r@[at + 3] == 0
            &&& fi.func_code == 5 && fi.values@[0] == 0 ==> r@[at + 2] == 0 && r@[at + 3] == 0
            &&& fi.func_code == 6 ==> number_at(r@, at + 2) == fi.values@[0]
            &&& fi.func_code >= 15 && fi.values@.len() < 65536 ==> number_at(r@, at + 2)
                == fi.values@.len()
        }),
{
    crate::laws::frames::law_address_comes_first(fi@);
    crate::laws::frames::law_frame_starts_with_unit_and_code(fi@);
    if fi.func_code == 5 {
        crate::laws::frames::law_bit_is_written_on_or_off(fi@);
    } else if fi.func_code == 6 {
        crate::laws::frames::law_register_is_written_whole(fi@);
    } else {
        crate::laws::frames::law_many_are_counted(fi@);
    }
}

/// The bytes of an answer: how many follow, and then bits, eight to a byte from the lowest
/// on, or registers, the upper byte of each first.
pub proof fn law_bytes_of_answers(fi: &FrameInfo, r: Vec<u8>, i: int)
    requires
        call_ensures(frame_bytes_from_info, (fi,), r),
        1 <= fi.func_code <= 4,
        0 <= i < fi.values@.len(),
        fi.values@.len() < 128,
    ensures
        ({
            let at = if fi.is_tcp {
                8int
            } else {
                2
            };
            let n = fi.values@.len();
            let end = if fi.is_tcp {
                r@.len() as int
            } else {
                r@.len() - 2
            };
            &&& r@[at - 2] == fi.unit && r@[at - 1] == fi.func_code
            &&& r@[at] == end - at - 1
            &&& fi.func_code >= 3 ==> end == at + 1 + 2 * n && number_at(r@, at + 1 + 2 * i)
                == fi.values@[i]
            &&& fi.func_code <= 2 ==> end == at + 1 + (n + 7) / 8 && crate::frame::bit_set(
                r@[at + 1 + i / 8] as nat,
                (i % 8) as nat,
            ) == (fi.values@[i] != 0)
        }),
{
    crate::laws::frames::law_frame_starts_with_unit_and_code(fi@);
    if fi.func_code <= 2 {
        crate::laws::frames::law_bits_are_counted_in_bytes(fi@);
        crate::frame::law_frame_carries_bits(fi@, i);
    } else {
        crate::laws::frames::law_registers_stand_in_order(fi@, i);
    }
}

/// The bytes of a frame on a serial line end with the checksum of those before, the lower
/// byte first.
pub proof fn law_frames_end_with_checksum(fi: &FrameInfo, r: Vec<u8>, body: &Vec<u8>, c: u16)
    requires
        call_ensures(frame_bytes_from_info, (fi,), r),
        !fi.is_tcp,
        r@.len() > 0,
        body@ == r@.take(r@.len() - 2),
        call_ensures(calc_crc16, (body,), c),
    ensures
        r@[r@.len() - 2] == c % 256,
        r@[r@.len() - 1] == c / 256,
{
    crate::laws::frames::law_checksum_comes_last(fi@);
}

/// The panel on an answer shows each register in hexadecimal and in decimal digits; on a
/// serial line all of them, over TCP all but the last.
pub proof fn law_registers_are_on_panel(fi: &FrameInfo, d: Draft, i: int)
    requires
        call_ensures(format_byte_panel, (fi,), d),
        fi.func_code == 3,
        0 <= i,
        fi.is_tcp ==> i + 1 < fi.values@.len(),
        !fi.is_tcp ==> i < fi.values@.len(),
    ensures
        line_at(
            d@,
            (if fi.is_tcp {
                23int
            } else {
                14
            }) + 3 * i,
            on_two(
                (if fi.is_tcp {
                    9int
                } else {
                    3
                }) + 2 * i,
                fi.values@[i] as int,
            ),
            "byte_panel.register"@,
            seq![
                ("idx"@, Said::Text(decimal(i as nat))),
                ("val"@, Said::Text(decimal(fi.values@[i] as nat))),
            ],
        ),
{
    crate::laws::panels::law_panel_shows_each_register(fi@, i);
}

/// The panel on a frame that writes shows the address, and the register or how many.
pub proof fn law_writing_is_on_panel(fi: &FrameInfo, d: Draft)
    requires
        call_ensures(format_byte_panel, (fi,), d),
        fi.func_code == 6 || fi.func_code == 16,
        0 < fi.values@.len() < 65536,
    ensures
        ({
            let line = if fi.is_tcp {
                20int
            } else {
                11
            };
            let at = if fi.is_tcp {
                8int
            } else {
                2
            };
            &&& line_at(
                d@,
                line,
                on_two(at, fi.addr as int),
                if fi.func_code == 6 {
                    "byte_panel.register_addr"@
                } else {
                    "byte_panel.start_addr"@
                },
                seq![("addr"@, Said::Text(decimal(fi.addr as nat)))],
            )
            &&& fi.func_code == 6 ==> line_at(
                d@,
                line + 3,
                on_two(at + 2, fi.values@[0] as int),
                "byte_panel.register_val"@,
                seq![("val"@, Said::Text(decimal(fi.values@[0] as nat)))],
            )
            &&& fi.func_code == 16 ==> line_at(
                d@,
                line + 3,
                on_two(at + 2, fi.values@.len() as int),
                "byte_panel.register_qty"@,
                seq![("qty"@, Said::Text(decimal(fi.values@.len())))],
            )
        }),
{
    crate::laws::panels::law_panel_shows_what_is_written(fi@);
}

/// The history has a line for each of the last eight records that are not scrolled past.
pub proof fn law_history_is_shown(m: &MonitorStats, scroll: usize, d: Draft, i: int)
    requires
        call_ensures(format_monitor_history, (m, scroll), d),
        scroll < m.history@.len(),
        0 <= i < 8,
        i < m.history@.len() - scroll,
    ensures
        i < d@.len() <= 8,
        ({
            let r = m.history@[m.history@.len() - 1 - scroll - i];
            d@[i] == Part::Text(
                r.human_time@ + (if r.is_request {
                    " ⇒ "@
                } else {
                    " ⇐ "@
                }) + (if r.is_tcp {
                    "TCP "@
                } else {
                    "RTU "@
                }) + r.func_name@ + " addr=0x"@ + padded(r.addr as nat, 16, 4) + "\n"@,
            )
        }),
{
    crate::laws::panels::law_history_shows_newest_first(m@.history, scroll as nat, i);
}

/// A register that changes by chance goes up by what was drawn, but not above the largest
/// number, or down by it, but not below zero.
pub proof fn law_next_value_by_chance(current: u16, up: bool, draw: Draw, wave: u16, r: (u16, bool))
    requires
        call_ensures(
            compute_pattern_value,
            (RegChangePattern::Random, current, up, draw, wave),
            r,
        ),
    ensures
        r.1 == up,
        draw.rise && current + draw.delta <= 65535 ==> r.0 == current + draw.delta,
        draw.rise && current + draw.delta > 65535 ==> r.0 == 65535,
        !draw.rise && current >= draw.delta ==> r.0 == current - draw.delta,
        !draw.rise && current < draw.delta ==> r.0 == 0,
{
}

/// A register that goes up and down moves by one and turns at the ends; one that follows a
/// wave is where the wave is.
pub proof fn law_next_value_by_pattern(
    p: RegChangePattern,
    current: u16,
    up: bool,
    draw: Draw,
    wave: u16,
    r: (u16, bool),
)
    requires
        call_ensures(compute_pattern_value, (p, current, up, draw, wave), r),
    ensures
        p is UpDown && up && current < 65535 ==> r.0 == current + 1,
        p is UpDown && !up && current > 0 ==> r.0 == current - 1,
        p is UpDown && up ==> (r.1 <==> r.0 != 65535),
        p is UpDown && !up ==> (r.1 <==> r.0 == 0),
        p is Sine || p is Square || p is Triangle ==> r.0 == wave && r.1 == up,
{
}

/// A command reads from its own table, and is refused if and only if the table has not all
/// of it; nothing changes by it.
pub proof fn law_commands_read(
    s: &mut AppState,
    cmd: &RegCmd,
    at: Option<Moment>,
    r: Reply,
    addr: usize,
    cnt: usize,
)
    requires
        call_ensures(execute_at, (s, cmd, at), r),
    ensures
        *cmd == (RegCmd::ReadHolding { addr, cnt }) ==> *final(s) == *old(s) && (if addr + cnt
            <= old(s).holding@.len() {
            r matches Reply::Words(Ok(v)) && v@ == old(s).holding@.subrange(
                addr as int,
                addr + cnt,
            )
        } else {
            r == Reply::Words(Err(ExceptionCode::IllegalDataAddress))
        }),
        *cmd == (RegCmd::ReadInputRegisters { addr, cnt }) ==> *final(s) == *old(s) && (if addr
            + cnt <= old(s).input_registers@.len() {
            r matches Reply::Words(Ok(v)) && v@ == old(s).input_registers@.subrange(
                addr as int,
                addr + cnt,
            )
        } else {
            r == Reply::Words(Err(ExceptionCode::IllegalDataAddress))
        }),
        *cmd == (RegCmd::ReadCoils { addr, cnt }) ==> *final(s) == *old(s) && (if addr + cnt
            <= old(s).coils@.len() {
            r matches Reply::Bits(Ok(v)) && v@ == old(s).coils@.subrange(addr as int, addr + cnt)
        } else {
            r == Reply::Bits(Err(ExceptionCode::IllegalDataAddress))
        }),
        *cmd == (RegCmd::ReadDiscreteInputs { addr, cnt }) ==> *final(s) == *old(s) && (if addr
            + cnt <= old(s).discrete@.len() {
            r matches Reply::Bits(Ok(v)) && v@ == old(s).discrete@.subrange(
                addr as int,
                addr + cnt,
            )
        } else {
            r == Reply::Bits(Err(ExceptionCode::IllegalDataAddress))
        }),
{
}

/// A command that writes puts each value at its own place of its own table, or is refused
/// and changes nothing.
#[verifier::spinoff_prover]
pub proof fn law_commands_write(
    s: &mut AppState,
    cmd: &RegCmd,
    at: Option<Moment>,
    r: Reply,
    addr: usize,
    words: Vec<u16>,
    bits: Vec<bool>,
    i: int,
)
    requires
        call_ensures(execute_at, (s, cmd, at), r),
        0 <= i,
    ensures
        *cmd == (RegCmd::WriteMultipleHolding { addr, values: words }) && addr + words@.len()
            <= old(s).holding@.len() ==> r == Reply::Done(Ok(())) && final(s).coils == old(s).coils
            && (i < old(s).holding@.len() ==> final(s).holding@[i] == if addr <= i < addr
            + words@.len() {
            words@[i - addr]
        } else {
            old(s).holding@[i]
        }),
        *cmd == (RegCmd::WriteMultipleHolding { addr, values: words }) && addr + words@.len()
            > old(s).holding@.len() ==> *final(s) == *old(s) && r == Reply::Done(
            Err(ExceptionCode::IllegalDataAddress),
        ),
        *cmd == (RegCmd::WriteMultipleCoils { addr, values: bits }) && addr + bits@.len() <= old(
            s,
        ).coils@.len() ==> r == Reply::Done(Ok(())) && final(s).holding == old(s).holding && (i
            < old(s).coils@.len() ==> final(s).coils@[i] == if addr <= i < addr + bits@.len() {
            bits@[i - addr]
        } else {
            old(s).coils@[i]
        }),
        *cmd == (RegCmd::WriteMultipleCoils { addr, values: bits }) && addr + bits@.len() > old(
            s,
        ).coils@.len() ==> *final(s) == *old(s) && r == Reply::Done(
            Err(ExceptionCode::IllegalDataAddress),
        ),
{
}

/// A frame that was seen is kept as the last one, and counts.
pub proof fn law_frames_are_recorded(
    m: &mut MonitorStats,
    fi: &FrameInfo,
    at: Option<Moment>,
    code: u8,
)
    requires
        call_ensures(record_frame_at, (m, fi, at), ()),
        old(m)@.wf(),
        old(m)@.total_frames < usize::MAX,
        old(m)@.history.len() <= 500,
    ensures
        final(m)@.total_frames == old(m)@.total_frames + 1,
        final(m)@.history.last().frame == fi@,
        old(m)@.history.len() < 500 ==> final(m)@.history.drop_last() == old(m)@.history,
        seen(final(m)@.func_count, code) == seen(old(m)@.func_count, code) + if code
            == fi.func_code {
            1nat
        } else {
            0
        },
{
    crate::laws::traffic::law_frame_is_counted(
        old(m)@,
        fi@,
        crate::clock::clock_text(at),
        code,
        0,
    );
}

/// A change of a register is noted as the last one; a value that stays is no change.
pub proof fn law_changes_are_recorded(
    s: &mut AppState,
    addr: usize,
    before: u16,
    after: u16,
    at: Option<Moment>,
)
    requires
        call_ensures(record_reg_change_at, (s, addr, before, after, at), ()),
        old(s).wf(),
    ensures
        before == after ==> final(s).notes() == old(s).notes(),
        before != after ==> ({
            let c = final(s).notes().changes.last();
            &&& c.addr == addr && c.old_value == before && c.new_value == after
            &&& c.direction is Up <==> after > before
        }),
        before != after && addr < old(s).reg_just_changed@.len()
            ==> final(s).notes().just_changed[addr as int],
        final(s).holding == old(s).holding && final(s).coils == old(s).coils,
{
    crate::laws::device::law_change_is_noted(
        old(s).notes(),
        addr as int,
        before,
        after,
        crate::clock::clock_text(at),
        0,
    );
}

/// A client starts with the first table at its first value.
pub proof fn law_reading_starts(p: Poll)
    requires
        call_ensures(Poll::start, (), p),
    ensures
        p.table == 0 && p.offset == 0,
{
}

/// What is read next is of the table that is due, from where it stands, and no more than
/// 120 values or what is left.
pub proof fn law_next_read_is_due(
    p: &mut Poll,
    counts: &[usize; 4],
    enabled: &[bool; 4],
    r: Option<ReadRequest>,
)
    requires
        call_ensures(Poll::next_read, (p, counts, enabled), r),
        old(p).table < 4,
    ensures
        r matches Some(q) ==> {
            let t = final(p).table as int;
            let left = counts@[t] - final(p).offset;
            &&& t < 4
            &&& t == 0 ==> q.table is Holding
            &&& t == 1 ==> q.table is Coils
            &&& t == 2 ==> q.table is Discrete
            &&& t == 3 ==> q.table is Input
            &&& final(p).offset < 65536 ==> q.addr == final(p).offset
            &&& 0 < left
            &&& left <= 120 ==> q.cnt == left
            &&& left > 120 ==> q.cnt == 120
        },
        r is None <==> final(p).table == 4,
        ({
            let x = old(p).table as int;
            let here = old(p).offset < counts@[x] && (old(p).offset > 0 || enabled@[x]);
            here ==> *final(p) == *old(p)
        }),
{
    crate::laws::polling::law_next_table_is_read(*old(p), counts@, enabled@, 0);
}

/// A write is sent in runs of 120 values; it is answered once all are written, or one is
/// not.
pub proof fn law_write_is_sent_in_runs(
    w: &ChunkedWrite<u16>,
    r: Option<(u16, Vec<u16>)>,
    i: int,
)
    requires
        call_ensures(ChunkedWrite::<u16>::next_chunk, (w,), r),
        w.wf(),
    ensures
        r is Some <==> w.done < w.values@.len(),
        r matches Some((a, v)) ==> {
            &&& w.addr + w.done < 65536 ==> a == w.addr + w.done
            &&& 0 < v@.len() <= 120
            &&& v@.len() < 120 ==> w.done + v@.len() == w.values@.len()
            &&& 0 <= i < v@.len() ==> v@[i] == w.values@[w.done + i]
        },
{
    crate::laws::polling::law_write_goes_on_behind_what_is_done(w@, Outcome::Done, i);
}

/// How the outcome of a write is answered.
pub proof fn law_outcomes_are_answered(o: Outcome, r: Result<(), ExceptionCode>)
    requires
        call_ensures(settle, (o,), r),
    ensures
        r is Ok <==> o is Done,
        o matches Outcome::Refused(e) ==> r == Err::<(), ExceptionCode>(e),
        o is Failed || o is TimedOut ==> r == Err::<(), ExceptionCode>(
            ExceptionCode::ServerDeviceFailure,
        ),
{
}

/// A scan asks the units from 1 to 255 in order, and keeps of each the first register that
/// it answered, or that it did not.
pub proof fn law_units_are_asked_in_order(
    s: &mut SlaveScan,
    next: Option<u8>,
    v: &Vec<u16>,
)
    requires
        call_ensures(SlaveScan::next_unit, (&*old(s),), next),
        call_ensures(SlaveScan::note, (s, Some(v)), ()),
        old(s).wf(),
        v@.len() > 0,
    ensures
        old(s).results@.len() < 255 ==> next == Some((old(s).results@.len() + 1) as u8),
        old(s).results@.len() == 255 ==> next is None,
        old(s).results@.len() < 255 ==> final(s).results@ == old(s).results@.push(
            ((old(s).results@.len() + 1) as u8, Some(v@[0])),
        ),
{
}

/// A device is reached under its name and port, and a server listens on all addresses of
/// its machine.
pub proof fn law_addresses_over_tcp(device: &str, port: u16, to: String, on: String)
    requires
        call_ensures(tcp_target, (device, port), to),
        call_ensures(tcp_listen, (port,), on),
    ensures
        device@ != "dev/null"@ ==> to@ == device@ + ":"@ + decimal(port as nat),
        device@ == "dev/null"@ ==> to@ == "127.0.0.1:"@ + decimal(port as nat),
        on@ == "0.0.0.0:"@ + decimal(port as nat),
{
    crate::laws::polling::law_device_is_reached_by_name(device@, port);
}

/// A code that is none of the known ones is named by its number.
pub proof fn law_unknown_refusal_is_named(n: u8, r: String)
    requires
        call_ensures(exception_text, (ExceptionCode::Custom(n),), r),
    ensures
        r@ == "Custom("@ + decimal(n as nat) + ")"@,
{
}

/// The time of day can be read from its text, and the date and the time from a stamp.
pub proof fn law_times_are_written(m: Moment, clock: String, stamp: String)
    requires
        call_ensures(format_system_time, (Some(m),), clock),
        call_ensures(date_stamp, (Some(m),), stamp),
        m.wf(),
        m.secs / 86400 < day_number(10000, 1, 1),
    ensures
        ({
            let c = clock@;
            let s = stamp@;
            &&& crate::laws::times::reads(c, 0, 2) * 3600 + crate::laws::times::reads(c, 3, 5) * 60
                + crate::laws::times::reads(c, 6, 8) == m.secs % 86400
            &&& crate::laws::times::reads(c, 9, 12) == m.millis
            &&& day_number(
                crate::laws::times::reads(s, 0, 4),
                crate::laws::times::reads(s, 4, 6),
                crate::laws::times::reads(s, 6, 8),
            ) == m.secs / 86400
            &&& crate::laws::times::reads(s, 9, 11) * 3600 + crate::laws::times::reads(s, 11, 13)
                * 60 + crate::laws::times::reads(s, 13, 15) == m.secs % 86400
        }),
{
    crate::laws::times::law_time_of_day_can_be_read(m);
    crate::laws::times::law_stamp_can_be_read(m, stamp@);
}

/// The date of a day is the one of the calendar that lies so many days after the first of
/// January 1970.
pub proof fn law_days_are_dates(days: u64, r: (u64, u64, u64))
    requires
        call_ensures(days_to_date, (days,), r),
    ensures
        1 <= r.1 <= 12,
        1 <= r.2 <= 31,
        is_date(r.0 as int, r.1 as int, r.2 as int),
        day_number(r.0 as int, r.1 as int, r.2 as int) == days,
{
}

/// A moment has the seconds and the milliseconds that it is made of.
pub proof fn law_moments_are_made(secs: u64, millis: u32, m: Moment)
    requires
        call_ensures(moment_of, (secs, millis), m),
    ensures
        m.secs == secs,
        m.millis == millis,
{
}

/// The export is marked with a year of 365 days, and the time of day.
pub proof fn law_exports_are_marked(m: Moment, r: String)
    requires
        call_ensures(chrono_at, (Some(m),), r),
        m.secs / 86400 < 365 * 8030,
    ensures
        r@.len() == 19,
        365 * (crate::laws::times::reads(r@, 0, 4) - 1970) <= m.secs / 86400 < 365 * (
        crate::laws::times::reads(r@, 0, 4) - 1969),
        crate::laws::times::reads(r@, 11, 13) * 3600 + crate::laws::times::reads(r@, 14, 16) * 60
            + crate::laws::times::reads(r@, 17, 19) == m.secs % 86400,
{
    crate::laws::times::law_export_mark_can_be_read(Some(m));
}

/// A log that is made of its first line and the lines of records is read as those records.
pub proof fn law_log_is_read(
    header: String,
    rec: &FrameRecord,
    line: String,
    content: &str,
    r: Vec<FrameRecord>,
)
    requires
        call_ensures(csv_log_header, (), header),
        call_ensures(csv_log_append, (rec,), line),
        content@ == header@ + line@,
        call_ensures(parse_csv_log, (content,), r),
        crate::csv::plain_record(rec@),
    ensures
        header@ == "time,direction,protocol,unit,func_code,func_name,addr,values\n"@,
        r@.len() == 1,
        r@[0]@ == rec@,
{
    let recs = seq![rec@];
    crate::laws::logs::law_log_grows_by_lines(Seq::empty(), rec@);
    assert(Seq::<crate::monitor::Record>::empty().push(rec@) =~= recs);
    assert(content@ =~= crate::csv::log_text(recs));
    crate::csv::law_log_read_back(recs);
    let got = crate::monitor::records(r@);
    assert(got.len() == r@.len());
    assert(got[0] == r@[0]@);
}

/// Logs are listed with the last of their order first.
pub proof fn law_logs_are_listed(names: &Vec<String>, r: Vec<String>, i: int, j: int)
    requires
        call_ensures(list_csv_logs, (names,), r),
        0 <= i <= j < r@.len(),
    ensures
        crate::listing::text_le(r@[j]@, r@[i]@),
        crate::csv::log_names(crate::text::texts(names@)).contains(r@[i]@),
        r@.len() == crate::csv::log_names(crate::text::texts(names@)).len(),
{
    let t = crate::text::texts(r@);
    let n = r@.len();
    crate::laws::texts::law_sorted_list(
        t.reverse(),
        crate::csv::log_names(crate::text::texts(names@)),
        n - 1 - j,
        n - 1 - i,
    );
    crate::laws::texts::law_sorted_list(
        t.reverse(),
        crate::csv::log_names(crate::text::texts(names@)),
        n - 1 - i,
        n - 1 - i,
    );
    assert(t.reverse()[n - 1 - j] == r@[j]@);
    assert(t.reverse()[n - 1 - i] == r@[i]@);
}

/// A text that is taken for a mode is its name or its two letters, in whatever case.
pub proof fn law_modes_are_parsed(s: &str, r: Result<MainMode, SettingError>)
    requires
        call_ensures(parse_mainmode, (s,), r),
        r is Ok,
    ensures
        ({
            let t = crate::text::ascii_lower(s@);
            &&& r->Ok_0 is TcpServer ==> t == "tcp-server"@ || t == "ts"@
            &&& r->Ok_0 is TcpClient ==> t == "tcp-client"@ || t == "tc"@
            &&& r->Ok_0 is RTUServer ==> t == "rtu-server"@ || t == "rs"@
            &&& r->Ok_0 is RTUClient ==> t == "rtu-client"@ || t == "rc"@
            &&& r->Ok_0 is TcpMonitor ==> t == "tcp-monitor"@ || t == "tm"@
            &&& r->Ok_0 is RtuMonitor ==> t == "rtu-monitor"@ || t == "rm"@
        }),
{
}

/// Parity and flow control are known by their names, in whatever case.
pub proof fn law_line_settings_are_parsed(
    s: &str,
    p: Result<Parity, SettingError>,
    f: Result<FlowControl, SettingError>,
)
    requires
        call_ensures(parse_parity, (s,), p),
        call_ensures(parse_flow, (s,), f),
    ensures
        ({
            let t = crate::text::ascii_lower(s@);
            &&& p == Ok::<Parity, SettingError>(Parity::Off) <==> t == "n"@ || t == "none"@
            &&& p == Ok::<Parity, SettingError>(Parity::Even) <==> t == "e"@ || t == "even"@
            &&& p == Ok::<Parity, SettingError>(Parity::Odd) <==> t == "o"@ || t == "odd"@
            &&& f == Ok::<FlowControl, SettingError>(FlowControl::Off) <==> t == "none"@
            &&& f == Ok::<FlowControl, SettingError>(FlowControl::Hardware) <==> t == "hard"@ || t
                == "hw"@ || t == "rtscts"@
            &&& f == Ok::<FlowControl, SettingError>(FlowControl::Software) <==> t == "soft"@ || t
                == "sw"@ || t == "xonxoff"@
            &&& p is Err ==> p == Err::<Parity, SettingError>(SettingError::InvalidParity)
            &&& f is Err ==> f == Err::<FlowControl, SettingError>(SettingError::InvalidFlow)
        }),
{
    crate::laws::settings::law_parities_have_names(crate::text::ascii_lower(s@));
    crate::laws::settings::law_flows_have_names(crate::text::ascii_lower(s@));
}

/// There are five to eight data bits and one or two stop bits.
pub proof fn law_bits_of_a_line(
    v: u8,
    d: Result<DataBits, SettingError>,
    s: Result<StopBits, SettingError>,
)
    requires
        call_ensures(parse_databits, (v,), d),
        call_ensures(parse_stopbits, (v,), s),
    ensures
        d is Ok <==> 5 <= v <= 8,
        v == 5 ==> d == Ok::<DataBits, SettingError>(DataBits::Five),
        v == 6 ==> d == Ok::<DataBits, SettingError>(DataBits::Six),
        v == 7 ==> d == Ok::<DataBits, SettingError>(DataBits::Seven),
        v == 8 ==> d == Ok::<DataBits, SettingError>(DataBits::Eight),
        d is Err ==> d == Err::<DataBits, SettingError>(SettingError::InvalidDatabits),
        s is Ok <==> 1 <= v <= 2,
        v == 1 ==> s == Ok::<StopBits, SettingError>(StopBits::One),
        v == 2 ==> s == Ok::<StopBits, SettingError>(StopBits::Two),
        s is Err ==> s == Err::<StopBits, SettingError>(SettingError::InvalidStopbits),
{
}

/// The default profile is the one whose name was kept last, and all other profiles stay.
pub proof fn law_default_profile_is_loaded(
    p: &mut Profiles,
    name: &str,
    r: Option<String>,
    other: Seq<char>,
)
    requires
        call_ensures(save_default_profile, (p, name), ()),
        call_ensures(load_default_profile, (&*final(p),), r),
        other != "__default__"@,
    ensures
        r matches Some(s) && s@ == name@,
        final(p)@.contains_key(other) <==> old(p)@.contains_key(other),
        old(p)@.contains_key(other) ==> final(p)@[other] == old(p)@[other],
{
    assert(crate::profile::DEFAULT_KEY@ == "__default__"@);
}

/// What was chosen in the menu runs with the settings of its profile, in the mode that was
/// chosen; a profile that is named runs in its own mode.
pub proof fn law_profiles_are_run(
    p: &Profiles,
    sel: &MenuSelection,
    r: Result<(MainMode, Args), SelectError>,
    name: &str,
    config: &str,
    q: Result<(MainMode, Args), SelectError>,
)
    requires
        call_ensures(resolve_selection, (p, sel), r),
        call_ensures(select_profile, (p, name, config), q),
    ensures
        sel.profile_name matches Some(n) ==> (r is Ok <==> p@.contains_key(n@)),
        sel.profile_name is None ==> r is Ok,
        r matches Ok((m, a)) ==> m == sel.main_mode && a@.main_mode == crate::args::mode_name(
            sel.main_mode,
        ),
        r matches Ok((m, a)) ==> (sel.profile_name matches Some(n) ==> a@.unit == p@[n@].unit
            && a@.tcp_port == p@[n@].tcp_port && a@.device == p@[n@].device && a@.labels
            == p@[n@].labels),
        q is Ok ==> p@.contains_key(name@),
        q matches Ok((m, a)) ==> a@.config == config@ && a@.main_mode == p@[name@].main_mode
            && a@.unit == p@[name@].unit,
        !p@.contains_key(name@) ==> q is Err && q->Err_0 is ProfileMissing,
{
}

/// What a scan found is kept, and the scan runs no more.
pub proof fn law_scan_is_done(s: &mut AppState, found: Vec<(u8, Option<u16>)>)
    requires
        call_ensures(crate::control::scan_done, (s, found), ()),
    ensures
        final(s).slave_scan_result == Some(found),
        !final(s).slave_scan_running,
        final(s).holding == old(s).holding,
{
}

/// A monitor of a profile has its settings, as a monitor over TCP.
pub proof fn law_monitor_has_settings(p: &Profiles, name: &str, r: Option<Args>)
    requires
        call_ensures(crate::keys::monitor_settings, (p, name), r),
    ensures
        r is Some <==> p@.contains_key(name@),
        r matches Some(a) ==> a@.main_mode == "tcp-monitor"@ && a@.unit == p@[name@].unit
            && a@.tcp_port == p@[name@].tcp_port && a@.device == p@[name@].device
            && a@.holding_count == p@[name@].holding_count,
{
}

/// It is said where registers were exported to, or why not.
pub proof fn law_export_is_reported(status: &mut Option<Piece>, outcome: Result<String, String>)
    requires
        call_ensures(crate::keys::exported, (status, outcome), ()),
    ensures
        outcome matches Ok(n) ==> crate::menu::maybe_part(*final(status)) == Some(
            Part::Text("Exported: "@ + n@),
        ),
        outcome matches Err(e) ==> crate::menu::maybe_part(*final(status)) == Some(
            Part::Text("Export error: "@ + e@),
        ),
{
}

/// The width of a value is that of its registers, and a format is taken at its own width
/// by each type but floating point of 128 bits.
pub proof fn law_formats_are_turned(f: RegDataFormat, n: usize, on: RegDataFormat, w: RegDataFormat)
    requires
        call_ensures(RegDataFormat::regs_needed, (f,), n),
        call_ensures(RegDataFormat::next_type, (f,), on),
        call_ensures(RegDataFormat::next_width, (f,), w),
    ensures
        n == count(f.width),
        f.data_type is Uint ==> on.data_type is Int,
        f.data_type is Int ==> on.data_type is Float,
        f.data_type is Float ==> on.data_type is Hex,
        f.data_type is Hex ==> on.data_type is Binary,
        f.data_type is Binary ==> on.data_type is Uint,
        w.data_type == f.data_type,
        f.width is Bits16 ==> w.width is Bits32,
        f.width is Bits32 ==> w.width is Bits64,
{
    crate::laws::formats::law_types_follow_each_other(f);
    crate::laws::formats::law_widths_follow_each_other(f);
}

/// After a read that succeeds, a client stands behind the run that it read; where one does
/// not, it stands where it was.
pub proof fn law_client_goes_on(
    p: &mut Poll,
    s: &mut AppState,
    counts: &[usize; 4],
    outcome: &crate::client::ReadOutcome,
    unit: u8,
    name: &str,
    at: Option<Moment>,
    r: Result<(), crate::client::PollError>,
)
    requires
        call_ensures(Poll::take, (p, s, counts, outcome, unit, name, at), r),
        old(p).table < 4,
        old(p).offset < counts@[old(p).table as int],
    ensures
        final(p).table == old(p).table,
        r is Err ==> final(p).offset == old(p).offset && *final(s) == *old(s),
        r is Ok ==> ({
            let left = counts@[old(p).table as int] - old(p).offset;
            final(p).offset == old(p).offset + if left < 120 {
                left
            } else {
                120
            }
        }),
        old(p).table == 0 && *outcome is Words ==> r is Ok && crate::laws::polling::lands(
            old(s).holding@,
            final(s).holding@,
            old(p).offset as int,
            outcome->Words_0@,
        ),
{
    crate::laws::polling::law_answer_lands_in_its_table(
        *old(p),
        *old(s),
        *outcome,
        unit,
        name@,
        *final(s),
        r,
        crate::clock::clock_text(at),
    );
}

/// A write goes on behind what was written, and is answered when it is done or refused.
pub proof fn law_write_goes_on(
    w: &mut ChunkedWrite<u16>,
    o: Outcome,
    r: Option<Result<(), ExceptionCode>>,
)
    requires
        call_ensures(ChunkedWrite::<u16>::advance, (w, o), r),
        old(w).wf(),
        old(w).done < old(w).values@.len(),
    ensures
        ({
            let left = old(w).values@.len() - old(w).done;
            let run = if left < 120 {
                left
            } else {
                120
            };
            &&& o is Done ==> final(w).done == old(w).done + run
            &&& !(o is Done) ==> final(w).done == old(w).done
            &&& final(w).values@ == old(w).values@ && final(w).addr == old(w).addr
            &&& o is Done && run < left ==> r is None
            &&& o is Done && run == left ==> r == Some(Ok::<(), ExceptionCode>(()))
            &&& o matches Outcome::Refused(e) ==> r == Some(Err::<(), ExceptionCode>(e))
            &&& o is Failed || o is TimedOut ==> r == Some(
                Err::<(), ExceptionCode>(ExceptionCode::ServerDeviceFailure),
            )
        }),
{
    let a = old(w)@;
    let b = final(w)@;
    assert(a.done == old(w).done && b.done == final(w).done);
    assert(a.addr == old(w).addr && b.addr == final(w).addr);
}

/// A monitor takes over registers that it read, and goes on behind them; of a read that
/// failed it keeps a frame that tells why, and leaves the rest.
#[verifier::spinoff_prover]
pub proof fn law_monitor_goes_on(
    s: &mut AppState,
    offset: usize,
    holding_count: usize,
    outcome: &crate::client::MonitorOutcome,
    unit: u8,
    at: Option<Moment>,
    r: Option<usize>,
)
    requires
        call_ensures(
            crate::client::monitor_take,
            (s, offset, holding_count, outcome, unit, at),
            r,
        ),
        offset < holding_count,
        old(s).monitor@.total_frames < usize::MAX,
    ensures
        *outcome is Values ==> ({
            let left = holding_count - offset;
            &&& r == Some((offset + if left < 120 {
                left
            } else {
                120
            }) as usize)
            &&& crate::laws::polling::lands(
                old(s).holding@,
                final(s).holding@,
                offset as int,
                outcome->Values_0@,
            )
        }),
        !(*outcome is Values) ==> r is None && final(s).holding == old(s).holding && (
        final(s).last_frame matches Some(fi) && fi@.func_code == 3 && fi@.unit == unit && fi@.is_tcp
            && fi@.values.len() == 0 && fi@.func_name == crate::client::failure_name(*outcome) && (
        offset < 65536 ==> fi@.addr == offset)),
{
}

/// The logo comes up by a step at a time, thirty in all, and nothing else changes.
pub proof fn law_logo_ticks(menu: &mut crate::menu::Menu)
    requires
        call_ensures(crate::menu::Menu::tick, (menu,), ()),
    ensures
        final(menu)@ == (crate::menu::Menus { logo: final(menu)@.logo, ..old(menu)@ }),
        old(menu)@.logo < 30 ==> final(menu)@.logo == old(menu)@.logo + 1,
        old(menu)@.logo >= 30 ==> final(menu)@.logo == old(menu)@.logo,
{
}

/// The title of the profiles for a mode names the mode and how many there are.
pub proof fn law_pick_title(menu: &crate::menu::Menu, r: String)
    requires
        call_ensures(crate::screens::profile_pick_title, (menu,), r),
    ensures
        r@ == "Select Profile — "@ + crate::screens::mode_title(menu@.pending) + " ("@ + decimal(
            menu@.pick_names.len(),
        ) + " profiles)"@,
{
}

/// The default profile that is kept is taken if there is one of that name.
pub proof fn law_default_is_taken(menu: &mut crate::menu::Menu, p: &Profiles)
    requires
        call_ensures(crate::menu::Menu::take_default, (menu, p), ()),
    ensures
        ({
            let kept = p@["__default__"@].main_mode;
            let known = p@.contains_key("__default__"@) && old(menu)@.profiles.contains(kept);
            &&& known ==> final(menu)@.default == Some(kept) && final(menu)@.selected == Some(kept)
            &&& !known ==> final(menu)@ == old(menu)@
            &&& final(menu)@.profiles == old(menu)@.profiles
        }),
{
    assert(crate::profile::DEFAULT_KEY@ == "__default__"@);
}

/// A text takes no line where there is no width, and else as many as it must.
pub proof fn law_lines_are_wrapped(text: &str, width: usize, r: usize)
    requires
        call_ensures(crate::panel::wrapped_lines, (text, width), r),
        text@.len() > 0,
        crate::laws::panels::all_alike(text@, false),
    ensures
        width == 0 ==> r == 0,
        width >= 2 ==> r == (text@.len() - 1) / width as int + 1,
{
    if width >= 2 {
        crate::laws::panels::law_long_lines_are_folded(text@, false, width as nat);
    }
}

/// The bytes of the last frame have 42 columns beside the table, or what the table leaves
/// of a narrow screen, and the table has the rest.
pub proof fn law_byte_panel_beside_table(
    area: crate::layout::Area,
    r: (crate::layout::Area, crate::layout::Area),
)
    requires
        call_ensures(crate::layout::byte_panel_parts, (area,), r),
    ensures
        area.width >= 62 ==> r.0.width == 42,
        20 <= area.width < 62 ==> r.1.width == 20,
        area.width < 20 ==> r.0.width == 0,
        r.0.width + r.1.width == area.width,
        r.0.left == area.left && r.1.left == area.left + r.0.width,
        r.0.top == area.top && r.1.top == area.top && r.0.height == area.height && r.1.height
            == area.height,
{
}

/// A device without settings has no registers, and a client of it would read the holding
/// registers.
pub proof fn law_empty_device(s: AppState)
    requires
        call_ensures(<AppState as Default>::default, (), s),
    ensures
        s.holding@.len() == 0 && s.coils@.len() == 0 && s.discrete@.len() == 0
            && s.input_registers@.len() == 0,
        s.is_tcp && s.last_frame is None && s.monitor@.total_frames == 0,
        s.read_enabled@[0] && !s.read_enabled@[1] && !s.read_enabled@[2] && !s.read_enabled@[3],
{
}

/// After registers were filled, or the answer did not come in time, the entry ends; it
/// stays as it was where the device refused or was gone.
pub proof fn law_entry_ends_after_work(
    e: &mut crate::ui::EntryPane,
    status: &mut Option<Piece>,
    o: crate::entry::FillOutcome,
)
    requires
        call_ensures(crate::entry::filled, (e, status, o), ()),
    ensures
        o is Written || o is TimedOut ==> !final(e)@.edit_mode && final(e)@.edit_buf.len() == 0,
        o is Refused || o is Gone ==> final(e)@ == old(e)@,
{
}

} // verus!

//! What a client sends, in which order it reads, and where answers go.
use crate::client::{
    chunk_len, coils_taken, connected, discrete_taken, due, exception_name, failure_name,
    holding_taken, inputs_taken, kept_len, moved, name_key, outcome_taken, poll_place, read_code,
    read_frame, reply, settled, table_at, target, MonitorOutcome, Outcome, Poll, PollError,
    ReadOutcome, Table, WritePlan,
};
use crate::state::AppState;
use crate::worker::ExceptionCode;
use vstd::prelude::*;

verus! {

/// At most 120 values are handled at once, and fewer only where fewer are left.
pub proof fn law_runs_are_as_long_as_may_be(offset: int, count: int)
    requires
        0 <= offset <= count,
    ensures
        0 <= chunk_len(offset, count) <= 120,
        offset + chunk_len(offset, count) <= count,
        chunk_len(offset, count) < 120 ==> offset + chunk_len(offset, count) == count,
{
}

/// What is sent next of a write goes to the address behind all that was written, and
/// is what follows in the values. What is written then counts as done, and no more;
/// where it did not succeed, nothing does.
pub proof fn law_write_goes_on_behind_what_is_done<T>(w: WritePlan<T>, outcome: Outcome, i: int)
    requires
        0 <= w.addr,
        0 <= w.done <= w.values.len(),
    ensures
        due(w) is Some <==> w.done < w.values.len(),
        due(w) matches Some((a, v)) ==> {
            &&& w.addr + w.done < 65536 ==> a == w.addr + w.done
            &&& 0 < v.len() <= 120
            &&& w.done + v.len() <= w.values.len()
            &&& v.len() < 120 ==> w.done + v.len() == w.values.len()
            &&& 0 <= i < v.len() ==> v[i] == w.values[w.done + i]
            &&& outcome is Done ==> moved(w, outcome).done == w.done + v.len()
            &&& outcome is Done ==> (reply(w, outcome) is None <==> w.done + v.len()
                < w.values.len())
        },
        !(outcome is Done) ==> moved(w, outcome) == w && reply(w, outcome) is Some,
        moved(w, outcome).addr == w.addr && moved(w, outcome).values == w.values,
{
}

/// A write that was done is answered so; one that was refused is answered why; and one
/// of which nothing is known is answered that the device failed.
pub proof fn law_outcome_is_passed_on(e: ExceptionCode)
    ensures
        settled(Outcome::Done) == Ok::<(), ExceptionCode>(()),
        settled(Outcome::Refused(e)) == Err::<(), ExceptionCode>(e),
        settled(Outcome::Failed) == Err::<(), ExceptionCode>(ExceptionCode::ServerDeviceFailure),
        settled(Outcome::TimedOut) == Err::<(), ExceptionCode>(ExceptionCode::ServerDeviceFailure),
{
}

/// The holding registers are read first, by function 3, then the coils by 1, the
/// discrete inputs by 2 and the input registers by 4.
pub proof fn law_tables_have_their_codes(t: Table)
    ensures
        table_at(0) == Table::Holding,
        table_at(1) == Table::Coils,
        table_at(2) == Table::Discrete,
        table_at(3) == Table::Input,
        t is Holding ==> read_code(t) == 3 && name_key(t) == "func_code.read_holding"@,
        t is Coils ==> read_code(t) == 1 && name_key(t) == "func_code.read_coils"@,
        t is Discrete ==> read_code(t) == 2 && name_key(t) == "func_code.read_discrete"@,
        t is Input ==> read_code(t) == 4 && name_key(t) == "func_code.read_input"@,
{
}

/// Reading goes on where it is as long as something of the table is left; then at the
/// start of the next table that is enabled and has something in it.
pub proof fn law_next_table_is_read(p: Poll, counts: Seq<usize>, enabled: Seq<bool>, t: int)
    requires
        p.table < 4,
        counts.len() == 4,
        enabled.len() == 4,
    ensures
        ({
            let q = poll_place(p, counts, enabled);
            let here = p.offset < counts[p.table as int] && (p.offset > 0
                || enabled[p.table as int]);
            &&& here ==> q == p
            &&& !here ==> q.table > p.table
            &&& q.table > p.table ==> q.offset == 0
            &&& q.table <= 4
            &&& p.table < t < q.table ==> !enabled[t] || counts[t] == 0
            &&& p.table < q.table < 4 ==> enabled[q.table as int] && counts[q.table as int] > 0
        }),
    decreases 4 - p.table,
{
    let here = p.offset < counts[p.table as int] && (p.offset > 0 || enabled[p.table as int]);
    if !here && p.table < 3 {
        law_next_table_is_read(
            Poll { table: (p.table + 1) as usize, offset: 0 },
            counts,
            enabled,
            t,
        );
    } else if !here {
        let q = Poll { table: 4usize, offset: 0usize };
        assert(poll_place(q, counts, enabled) == q);
    }
}

/// As much of an answer is taken over as there is room for behind the offset.
pub proof fn law_answer_is_cut_to_room(offset: int, values: int, len: int)
    requires
        0 <= offset,
        0 <= values,
        0 <= len,
    ensures
        ({
            let k = kept_len(offset, values, len);
            &&& 0 <= k <= values
            &&& k > 0 ==> offset + k <= len
            &&& k < values ==> offset + k >= len
        }),
{
}

/// What a client has of a table after an answer: the answer from its offset on, as far
/// as there is room, and all else as it was.
pub open spec fn lands<T>(before: Seq<T>, after: Seq<T>, offset: int, v: Seq<T>) -> bool {
    &&& after.len() == before.len()
    &&& forall|i: int|
        0 <= i < before.len() ==> #[trigger] after[i] == if offset <= i < offset + v.len() {
            v[i - offset]
        } else {
            before[i]
        }
}

/// An answer lands in the table that was asked, and no other table changes; where none
/// came, or one of the other sort, nothing changes, and it is said why.
#[verifier::spinoff_prover]
pub proof fn law_answer_lands_in_its_table(
    p: Poll,
    a: AppState,
    outcome: ReadOutcome,
    unit: u8,
    name: Seq<char>,
    b: AppState,
    r: Result<(), PollError>,
    time: Seq<char>,
)
    requires
        p.table < 4,
        outcome_taken(p, a, outcome, unit, name, b, r, time),
    ensures
        p.table != 0 ==> b.holding == a.holding,
        p.table != 1 ==> b.coils == a.coils,
        p.table != 2 ==> b.discrete == a.discrete,
        p.table != 3 ==> b.input_registers == a.input_registers,
        match outcome {
            ReadOutcome::Words(v) => {
                &&& r is Ok <==> p.table == 0 || p.table == 3
                &&& p.table == 0 ==> lands(a.holding@, b.holding@, p.offset as int, v@)
                &&& p.table == 3 ==> lands(
                    a.input_registers@,
                    b.input_registers@,
                    p.offset as int,
                    v@,
                )
            },
            ReadOutcome::Bits(v) => {
                &&& r is Ok <==> p.table == 1 || p.table == 2
                &&& p.table == 1 ==> lands(a.coils@, b.coils@, p.offset as int, v@)
                &&& p.table == 2 ==> lands(a.discrete@, b.discrete@, p.offset as int, v@)
            },
            ReadOutcome::Refused(e) => r == Err::<(), PollError>(PollError::Exception(e)),
            ReadOutcome::Failed => r == Err::<(), PollError>(PollError::ReadFail),
            ReadOutcome::TimedOut => r == Err::<(), PollError>(PollError::Timeout),
        },
        r is Err ==> b == a,
        r is Err && (outcome is Words || outcome is Bits) ==> r == Err::<(), PollError>(
            PollError::ReadFail,
        ),
{
}

/// The frame that is kept of an answer: of the line and the unit, with the function
/// code of the table, the offset as its address, and the values as far as they were
/// taken over.
#[verifier::spinoff_prover]
pub proof fn law_answer_is_kept_as_frame(
    p: Poll,
    a: AppState,
    outcome: ReadOutcome,
    unit: u8,
    name: Seq<char>,
    b: AppState,
    time: Seq<char>,
    i: int,
)
    requires
        p.table < 4,
        outcome_taken(p, a, outcome, unit, name, b, Ok::<(), PollError>(()), time),
        a.monitor@.total_frames < usize::MAX,
    ensures
        ({
            let o = p.offset as int;
            let len = match outcome {
                ReadOutcome::Words(v) => v@.len() as int,
                ReadOutcome::Bits(v) => v@.len() as int,
                _ => 0,
            };
            let room = (if p.table == 0 {
                a.holding@.len()
            } else if p.table == 1 {
                a.coils@.len()
            } else if p.table == 2 {
                a.discrete@.len()
            } else {
                a.input_registers@.len()
            }) - o;
            let code = if p.table == 0 {
                3u8
            } else if p.table == 1 {
                1
            } else if p.table == 2 {
                2
            } else {
                4
            };
            if len == 0 || room <= 0 {
                b.monitor == a.monitor && b.last_frame == a.last_frame
            } else {
                &&& b.monitor@.total_frames == a.monitor@.total_frames + 1
                &&& b.last_frame matches Some(fi) && {
                    &&& b.monitor@.history.last().frame == fi@
                    &&& b.monitor@.history.last().time == time
                    &&& fi@.func_code == code
                    &&& fi@.unit == unit
                    &&& fi@.is_tcp == a.is_tcp
                    &&& !fi@.is_request
                    &&& fi@.func_name == name
                    &&& o < 65536 ==> fi@.addr == o
                    &&& fi@.values.len() == if len <= room {
                        len
                    } else {
                        room
                    }
                    &&& 0 <= i < fi@.values.len() ==> match outcome {
                        ReadOutcome::Words(v) => fi@.values[i] == v@[i],
                        ReadOutcome::Bits(v) => fi@.values[i] == if v@[i] {
                            1u16
                        } else {
                            0
                        },
                        _ => true,
                    }
                }
            }
        }),
{
}

/// Of registers that were read, those that changed are noted at their places.
pub proof fn law_read_changes_are_noted(
    a: AppState,
    b: AppState,
    offset: int,
    values: Seq<u16>,
    is_tcp: bool,
    unit: u8,
    name: Seq<char>,
    time: Seq<char>,
    i: int,
)
    requires
        a.wf(),
        0 <= offset,
        holding_taken(a, b, offset, values, is_tcp, unit, name, time),
        0 <= i < a.reg_just_changed@.len(),
    ensures
        b.reg_just_changed@.len() == a.reg_just_changed@.len(),
        i < a.holding@.len() && b.holding@[i] != a.holding@[i] ==> b.reg_just_changed@[i]
            && (b.reg_change_direction@[i] is Up <==> b.holding@[i] > a.holding@[i]),
        i >= a.holding@.len() || b.holding@[i] == a.holding@[i] ==> b.reg_just_changed@[i]
            == a.reg_just_changed@[i] && b.reg_change_direction@[i] == a.reg_change_direction@[i],
{
    let n = kept_len(offset, values.len() as int, a.holding@.len() as int);
    let v = values.take(n);
    if n > 0 {
        let before = a.holding@.subrange(offset, offset + n);
        crate::laws::device::law_changes_are_noted(a.notes(), offset, before, v, time, i);
        let m = crate::worker::noted_all(a.notes(), offset, before, v, time);
        assert(b.reg_just_changed@ == m.just_changed && b.reg_change_direction@ == m.direction);
    } else {
        assert(v =~= Seq::empty());
        assert(b.notes() == a.notes());
        assert(b.reg_just_changed@ == a.notes().just_changed);
        assert(b.reg_change_direction@ == a.notes().direction);
    }
}

/// Of coils that were read, those that changed are noted at their places: one that was
/// switched on went up.
pub proof fn law_read_coils_are_noted(
    a: AppState,
    b: AppState,
    offset: int,
    values: Seq<bool>,
    is_tcp: bool,
    unit: u8,
    name: Seq<char>,
    time: Seq<char>,
    i: int,
)
    requires
        a.wf(),
        0 <= offset,
        coils_taken(a, b, offset, values, is_tcp, unit, name, time),
        0 <= i < a.reg_just_changed@.len(),
        i < a.coils@.len(),
    ensures
        b.coils@[i] != a.coils@[i] ==> b.reg_just_changed@[i] && (b.reg_change_direction@[i] is Up
            <==> b.coils@[i]),
        b.coils@[i] == a.coils@[i] ==> b.reg_just_changed@[i] == a.reg_just_changed@[i],
{
    let n = kept_len(offset, values.len() as int, a.coils@.len() as int);
    let v = crate::worker::bit_words(values.take(n));
    if n > 0 {
        let before = crate::worker::bit_words(a.coils@.subrange(offset, offset + n));
        crate::laws::device::law_changes_are_noted(a.notes(), offset, before, v, time, i);
        let m = crate::worker::noted_all(a.notes(), offset, before, v, time);
        assert(b.reg_just_changed@ == m.just_changed && b.reg_change_direction@ == m.direction);
    } else {
        assert(v =~= Seq::empty());
        assert(b.notes() == a.notes());
        assert(b.reg_just_changed@ == a.notes().just_changed);
        assert(b.reg_change_direction@ == a.notes().direction);
    }
}

/// Inputs that were read are noted nowhere: only what can be written is.
pub proof fn law_inputs_are_not_noted(
    a: AppState,
    b: AppState,
    offset: int,
    bits: Seq<bool>,
    words: Seq<u16>,
    is_tcp: bool,
    unit: u8,
    name: Seq<char>,
    time: Seq<char>,
)
    requires
        discrete_taken(a, b, offset, bits, is_tcp, unit, name, time) || inputs_taken(
            a,
            b,
            offset,
            words,
            is_tcp,
            unit,
            name,
            time,
        ),
    ensures
        b.notes() == a.notes(),
{
}

/// The frame of values that were read.
pub proof fn law_frame_of_values_read(
    is_tcp: bool,
    unit: u8,
    table: Table,
    name: Seq<char>,
    offset: int,
    values: Seq<u16>,
)
    requires
        0 <= offset,
    ensures
        ({
            let f = read_frame(is_tcp, unit, table, name, offset, values);
            &&& f.is_tcp == is_tcp && f.unit == unit && f.func_name == name && f.values == values
            &&& !f.is_request
            &&& f.addr == offset % 65536
            &&& table is Holding ==> f.func_code == 3
            &&& table is Coils ==> f.func_code == 1
            &&& table is Discrete ==> f.func_code == 2
            &&& table is Input ==> f.func_code == 4
        }),
{
}

/// A device is reached under its name and port, and without a name on this machine.
pub proof fn law_device_is_reached_by_name(device: Seq<char>, port: u16)
    ensures
        device == "dev/null"@ ==> target(device, port) == "127.0.0.1:"@ + crate::numeral::decimal(
            port as nat,
        ),
        device != "dev/null"@ ==> target(device, port) == device + ":"@ + crate::numeral::decimal(
            port as nat,
        ),
{
    reveal_strlit("127.0.0.1:");
    reveal_strlit("127.0.0.1");
    reveal_strlit(":");
    assert("127.0.0.1"@ + ":"@ =~= "127.0.0.1:"@);
}

/// Each reason for which a device refuses has its own name.
pub proof fn law_refusals_have_names(e: ExceptionCode)
    ensures
        match e {
            ExceptionCode::IllegalFunction => exception_name(e) == "IllegalFunction"@,
            ExceptionCode::IllegalDataAddress => exception_name(e) == "IllegalDataAddress"@,
            ExceptionCode::IllegalDataValue => exception_name(e) == "IllegalDataValue"@,
            ExceptionCode::ServerDeviceFailure => exception_name(e) == "ServerDeviceFailure"@,
            ExceptionCode::Acknowledge => exception_name(e) == "Acknowledge"@,
            ExceptionCode::ServerDeviceBusy => exception_name(e) == "ServerDeviceBusy"@,
            ExceptionCode::MemoryParityError => exception_name(e) == "MemoryParityError"@,
            ExceptionCode::GatewayPathUnavailable => exception_name(e)
                == "GatewayPathUnavailable"@,
            ExceptionCode::GatewayTargetDevice => exception_name(e) == "GatewayTargetDevice"@,
            ExceptionCode::Custom(n) => exception_name(e) == "Custom("@ + crate::numeral::decimal(
                n as nat,
            ) + ")"@,
        },
{
}

/// A monitor keeps a read that failed under the reason.
pub proof fn law_failed_read_tells_why(o: MonitorOutcome)
    ensures
        match o {
            MonitorOutcome::Values(_) => failure_name(o).len() == 0,
            MonitorOutcome::Refused(e) => failure_name(o) == "异常: "@ + exception_name(e),
            MonitorOutcome::Failed(why) => failure_name(o) == "读取失败: "@ + why@,
            MonitorOutcome::TimedOut => failure_name(o) == "读取超时 (Timeout)"@,
        },
{
}

/// A monitor that is connected keeps a frame with as many zeros as it reads at first,
/// and is one over TCP from then on. No table changes.
pub proof fn law_connection_is_marked(
    a: AppState,
    b: AppState,
    unit: u8,
    holding_count: int,
    time: Seq<char>,
    i: int,
)
    requires
        connected(a, b, unit, holding_count, time),
        0 <= holding_count,
        a.monitor@.total_frames < usize::MAX,
    ensures
        b.is_tcp,
        b.holding == a.holding && b.coils == a.coils && b.discrete == a.discrete
            && b.input_registers == a.input_registers,
        b.monitor@.total_frames == a.monitor@.total_frames + 1,
        b.last_frame matches Some(fi) && {
            &&& b.monitor@.history.last().frame == fi@
            &&& fi@.is_tcp && fi@.unit == unit && fi@.func_code == 3 && fi@.addr == 0
            &&& fi@.func_name == "已连接监听"@ && !fi@.is_request
            &&& fi@.values.len() == if holding_count < 120 {
                holding_count
            } else {
                120
            }
            &&& 0 <= i < fi@.values.len() ==> fi@.values[i] == 0
        },
{
}

} // verus!

//! A device that is served: which requests are let in, what they do, what is
//! answered, and what is noted.
use crate::monitor::Record;
use crate::service::{
    admitted, answer_for, frame_for, frame_kept, Answer, HoldingService, Request,
};
use crate::state::{noted, AppState, Change, ChangeDirection, Notes};
use crate::worker::{executed, noted_all, ExceptionCode, RegCmd, Reply};
use vstd::prelude::*;

verus! {

/// A request to the served unit is let in if and only if the table that it is for
/// has every value that it names; if it is not, the address is illegal. Holding
/// registers are offered as many as the service has, whatever the device holds.
pub proof fn law_table_decides(
    svc: HoldingService,
    s: AppState,
    req: Request,
    r: Result<RegCmd, ExceptionCode>,
)
    requires
        admitted(svc, s, svc.unit, req, r),
    ensures
        match req {
            Request::ReadCoils(a, n) => r is Ok <==> a + n <= s.coils@.len(),
            Request::ReadDiscreteInputs(a, n) => r is Ok <==> a + n <= s.discrete@.len(),
            Request::ReadInputRegisters(a, n) => r is Ok <==> a + n <= s.input_registers@.len(),
            Request::ReadHoldingRegisters(a, n) => r is Ok <==> a + n <= svc.holding_len,
            Request::WriteSingleCoil(a, _) => r is Ok <==> a < s.coils@.len(),
            Request::WriteSingleRegister(a, _) => r is Ok <==> a < svc.holding_len,
            Request::WriteMultipleCoils(a, v) => r is Ok <==> a + v@.len() <= s.coils@.len(),
            Request::WriteMultipleRegisters(a, v) => r is Ok <==> a + v@.len() <= svc.holding_len,
            Request::Other => r == Err::<RegCmd, ExceptionCode>(ExceptionCode::IllegalFunction),
        },
        !(req is Other) && r is Err ==> r == Err::<RegCmd, ExceptionCode>(
            ExceptionCode::IllegalDataAddress,
        ),
{
}

/// A request is let in by one unit only: the one that is served.
pub proof fn law_one_unit_is_served(
    svc: HoldingService,
    s: AppState,
    slave: u8,
    req: Request,
    r: Result<RegCmd, ExceptionCode>,
)
    requires
        admitted(svc, s, slave, req, r),
        r is Ok,
    ensures
        slave == svc.unit,
        !(req is Other),
{
}

/// A request that is let in becomes a command for the same table, the same
/// address and the same values.
pub proof fn law_command_asks_the_same(
    svc: HoldingService,
    s: AppState,
    req: Request,
    cmd: RegCmd,
)
    requires
        admitted(svc, s, svc.unit, req, Ok(cmd)),
    ensures
        match cmd {
            RegCmd::ReadHolding { addr, cnt } => req matches Request::ReadHoldingRegisters(a, n)
                && a == addr && n == cnt,
            RegCmd::ReadInputRegisters { addr, cnt } => req matches Request::ReadInputRegisters(
                a,
                n,
            ) && a == addr && n == cnt,
            RegCmd::ReadCoils { addr, cnt } => req matches Request::ReadCoils(a, n) && a == addr
                && n == cnt,
            RegCmd::ReadDiscreteInputs { addr, cnt } => req matches Request::ReadDiscreteInputs(
                a,
                n,
            ) && a == addr && n == cnt,
            RegCmd::WriteSingleHolding { addr, value } => req matches Request::WriteSingleRegister(
                a,
                v,
            ) && a == addr && v == value,
            RegCmd::WriteSingleCoil { addr, value } => req matches Request::WriteSingleCoil(a, v)
                && a == addr && v == value,
            RegCmd::WriteMultipleHolding { addr, values } => req
                matches Request::WriteMultipleRegisters(a, v) && a == addr && v@ == values@,
            RegCmd::WriteMultipleCoils { addr, values } => req
                matches Request::WriteMultipleCoils(a, v) && a == addr && v@ == values@,
            RegCmd::SlaveScan => false,
        },
{
}

/// A command that reads is answered by the values of its table from its address
/// on, if and only if the table has them all, and changes nothing.
pub proof fn law_reads_come_from_their_table(
    a: AppState,
    cmd: RegCmd,
    b: AppState,
    reply: Reply,
    time: Seq<char>,
    i: int,
)
    requires
        executed(a, cmd, b, reply, time),
    ensures
        match cmd {
            RegCmd::ReadHolding { addr, cnt } => b == a && (reply matches Reply::Words(r) && {
                &&& r is Ok <==> addr + cnt <= a.holding@.len()
                &&& r matches Ok(v) ==> v@.len() == cnt && (0 <= i < cnt ==> v@[i]
                    == a.holding@[addr + i])
            }),
            RegCmd::ReadInputRegisters { addr, cnt } => b == a && (reply matches Reply::Words(r)
                && {
                &&& r is Ok <==> addr + cnt <= a.input_registers@.len()
                &&& r matches Ok(v) ==> v@.len() == cnt && (0 <= i < cnt ==> v@[i]
                    == a.input_registers@[addr + i])
            }),
            RegCmd::ReadCoils { addr, cnt } => b == a && (reply matches Reply::Bits(r) && {
                &&& r is Ok <==> addr + cnt <= a.coils@.len()
                &&& r matches Ok(v) ==> v@.len() == cnt && (0 <= i < cnt ==> v@[i]
                    == a.coils@[addr + i])
            }),
            RegCmd::ReadDiscreteInputs { addr, cnt } => b == a && (reply matches Reply::Bits(r)
                && {
                &&& r is Ok <==> addr + cnt <= a.discrete@.len()
                &&& r matches Ok(v) ==> v@.len() == cnt && (0 <= i < cnt ==> v@[i]
                    == a.discrete@[addr + i])
            }),
            RegCmd::SlaveScan => b == a && (reply matches Reply::Units(v) && v@.len() == 0),
            _ => reply is Done,
        },
{
}

/// A command that writes succeeds if and only if its table has every place that
/// it names; then each of these holds its value, and every other place what it
/// held before.
pub proof fn law_writes_land_in_their_table(
    a: AppState,
    cmd: RegCmd,
    b: AppState,
    reply: Reply,
    time: Seq<char>,
    i: int,
)
    requires
        executed(a, cmd, b, reply, time),
    ensures
        match cmd {
            RegCmd::WriteSingleHolding { addr, value } => {
                &&& reply == Reply::Done(Ok(())) <==> addr < a.holding@.len()
                &&& b.coils@ == a.coils@
                &&& addr < a.holding@.len() && 0 <= i < a.holding@.len() ==> b.holding@[i] == if i
                    == addr {
                    value
                } else {
                    a.holding@[i]
                }
            },
            RegCmd::WriteMultipleHolding { addr, values } => {
                &&& reply == Reply::Done(Ok(())) <==> addr + values@.len() <= a.holding@.len()
                &&& b.coils@ == a.coils@
                &&& addr + values@.len() <= a.holding@.len() && 0 <= i < values@.len()
                    ==> b.holding@[addr + i] == values@[i]
                &&& 0 <= i < a.holding@.len() && !(addr <= i < addr + values@.len())
                    ==> b.holding@[i] == a.holding@[i]
            },
            RegCmd::WriteSingleCoil { addr, value } => {
                &&& reply == Reply::Done(Ok(())) <==> addr < a.coils@.len()
                &&& b.holding@ == a.holding@
                &&& addr < a.coils@.len() && 0 <= i < a.coils@.len() ==> b.coils@[i] == if i
                    == addr {
                    value
                } else {
                    a.coils@[i]
                }
            },
            RegCmd::WriteMultipleCoils { addr, values } => {
                &&& reply == Reply::Done(Ok(())) <==> addr + values@.len() <= a.coils@.len()
                &&& b.holding@ == a.holding@
                &&& addr + values@.len() <= a.coils@.len() && 0 <= i < values@.len()
                    ==> b.coils@[addr + i] == values@[i]
                &&& 0 <= i < a.coils@.len() && !(addr <= i < addr + values@.len()) ==> b.coils@[i]
                    == a.coils@[i]
            },
            _ => b == a,
        },
{
}

/// A client that reads from a device is answered, value by value, what the table
/// that it asked for holds there; one that writes is answered the address and the
/// value, or how many values, that it sent. It is so for every request that its
/// table has room for, if the service offers no more holding registers than there
/// are, and for no other.
pub proof fn law_served_end_to_end(
    svc: HoldingService,
    a: AppState,
    req: Request,
    cmd: RegCmd,
    b: AppState,
    reply: Reply,
    time: Seq<char>,
    i: int,
)
    requires
        svc.holding_len <= a.holding@.len(),
        admitted(svc, a, svc.unit, req, Ok(cmd)),
        executed(a, cmd, b, reply, time),
    ensures
        answer_for(req, Some(reply)) matches Ok(answer) && match req {
            Request::ReadCoils(addr, n) => answer matches Answer::ReadCoils(v) && v.len() == n
                && (0 <= i < n ==> v[i] == a.coils@[addr + i]),
            Request::ReadDiscreteInputs(addr, n) => answer matches Answer::ReadDiscreteInputs(v)
                && v.len() == n && (0 <= i < n ==> v[i] == a.discrete@[addr + i]),
            Request::ReadInputRegisters(addr, n) => answer matches Answer::ReadInputRegisters(v)
                && v.len() == n && (0 <= i < n ==> v[i] == a.input_registers@[addr + i]),
            Request::ReadHoldingRegisters(addr, n) => answer
                matches Answer::ReadHoldingRegisters(v) && v.len() == n && (0 <= i < n ==> v[i]
                == a.holding@[addr + i]),
            Request::WriteSingleCoil(addr, v) => answer == Answer::WriteSingleCoil(addr, v)
                && b.coils@[addr as int] == v,
            Request::WriteSingleRegister(addr, v) => answer == Answer::WriteSingleRegister(
                addr,
                v,
            ) && b.holding@[addr as int] == v,
            Request::WriteMultipleCoils(addr, v) => {
                &&& answer matches Answer::WriteMultipleCoils(x, n) && x == addr && (v@.len()
                    < 65536 ==> n == v@.len())
                &&& 0 <= i < v@.len() ==> b.coils@[addr + i] == v@[i]
            },
            Request::WriteMultipleRegisters(addr, v) => {
                &&& answer matches Answer::WriteMultipleRegisters(x, n) && x == addr && (v@.len()
                    < 65536 ==> n == v@.len())
                &&& 0 <= i < v@.len() ==> b.holding@[addr + i] == v@[i]
            },
            Request::Other => false,
        },
{
}

/// What the worker refuses is refused with its reason, and where no reply comes,
/// or one that does not answer the request, the device has failed.
pub proof fn law_refusals_are_passed_on(req: Request, reply: Option<Reply>)
    ensures
        reply is None ==> answer_for(req, reply) == Err::<Answer, ExceptionCode>(
            ExceptionCode::ServerDeviceFailure,
        ),
        reply matches Some(Reply::Words(Err(e))) ==> answer_for(req, reply) == Err::<
            Answer,
            ExceptionCode,
        >(e),
        reply matches Some(Reply::Bits(Err(e))) ==> answer_for(req, reply) == Err::<
            Answer,
            ExceptionCode,
        >(e),
        reply matches Some(Reply::Done(Err(e))) ==> answer_for(req, reply) == Err::<
            Answer,
            ExceptionCode,
        >(e),
        answer_for(req, reply) is Ok ==> match req {
            Request::ReadCoils(_, _) | Request::ReadDiscreteInputs(_, _) => reply
                matches Some(Reply::Bits(Ok(_))),
            Request::ReadInputRegisters(_, _) | Request::ReadHoldingRegisters(_, _) => reply
                matches Some(Reply::Words(Ok(_))),
            Request::Other => false,
            _ => reply matches Some(Reply::Done(Ok(_))),
        },
{
}

/// The frame that is kept of an answered request is one of the unit and of the
/// line on which it came, has the function code of the request and its address,
/// and carries the values that were read or written.
pub proof fn law_kept_frame_tells_request(
    svc: HoldingService,
    req: Request,
    reply: Reply,
    answer: Answer,
    i: int,
)
    requires
        answer_for(req, Some(reply)) == Ok::<Answer, ExceptionCode>(answer),
    ensures
        ({
            let f = frame_for(svc, req, answer);
            &&& f.unit == svc.unit && f.is_tcp == svc.is_tcp && !f.is_request
            &&& match req {
                Request::ReadCoils(a, _) => f.func_code == 1 && f.func_name == "读线圈"@
                    && f.addr == a && (answer matches Answer::ReadCoils(v) && f.values.len()
                    == v.len() && (0 <= i < v.len() ==> f.values[i] == if v[i] {
                    1u16
                } else {
                    0
                })),
                Request::ReadDiscreteInputs(a, _) => f.func_code == 2 && f.func_name
                    == "读离散输入"@ && f.addr == a && (answer
                    matches Answer::ReadDiscreteInputs(v) && f.values.len() == v.len() && (0 <= i
                    < v.len() ==> f.values[i] == if v[i] {
                    1u16
                } else {
                    0
                })),
                Request::ReadHoldingRegisters(a, _) => f.func_code == 3 && f.func_name
                    == "读保持寄存器"@ && f.addr == a && (answer
                    matches Answer::ReadHoldingRegisters(v) && f.values == v),
                Request::ReadInputRegisters(a, _) => f.func_code == 4 && f.func_name
                    == "读输入寄存器"@ && f.addr == a && (answer
                    matches Answer::ReadInputRegisters(v) && f.values == v),
                Request::WriteSingleCoil(a, b) => f.func_code == 5 && f.func_name
                    == "写单线圈"@ && f.addr == a && f.values.len() == 1 && f.values[0] == (if b {
                    0xFF00u16
                } else {
                    0
                }),
                Request::WriteSingleRegister(a, w) => f.func_code == 6 && f.func_name
                    == "写单寄存器"@ && f.addr == a && f.values.len() == 1 && f.values[0] == w,
                Request::WriteMultipleCoils(a, v) => f.func_code == 15 && f.func_name
                    == "写多线圈"@ && f.addr == a && f.values.len() == v@.len() && (0 <= i
                    < v@.len() ==> f.values[i] == if v@[i] {
                    1u16
                } else {
                    0
                }),
                Request::WriteMultipleRegisters(a, v) => f.func_code == 16 && f.func_name
                    == "写多寄存器"@ && f.addr == a && f.values == v@,
                Request::Other => false,
            }
        }),
{
}

/// Keeping a frame adds it to what the monitor has seen, as the last one, and
/// touches no table.
pub proof fn law_keeping_a_frame(
    a: AppState,
    b: AppState,
    f: crate::frame::Frame,
    time: Seq<char>,
)
    requires
        frame_kept(a, b, f, time),
        a.monitor@.total_frames < usize::MAX,
    ensures
        b.monitor@.total_frames == a.monitor@.total_frames + 1,
        b.monitor@.history.last() == (Record { time, frame: f }),
        b.last_frame matches Some(fi) && fi@ == f,
        b.holding == a.holding && b.coils == a.coils && b.discrete == a.discrete,
        b.input_registers == a.input_registers && b.notes() == a.notes(),
{
}

/// What is noted of a change: the change itself as the last one, with all that
/// were kept but for the oldest where there is no more room; that the register
/// changed, and whether it rose; and its new value behind its last ones. Nothing
/// is noted where the value stays.
pub proof fn law_change_is_noted(
    n: Notes,
    addr: int,
    before: u16,
    after: u16,
    time: Seq<char>,
    i: int,
)
    requires
        0 <= addr,
        n.just_changed.len() <= n.direction.len(),
    ensures
        ({
            let m = noted(n, addr, before, after, time);
            let rose = after > before;
            &&& before == after ==> m == n
            &&& before != after ==> {
                &&& m.changes.last().addr == addr && m.changes.last().time == time
                &&& m.changes.last().old_value == before && m.changes.last().new_value == after
                &&& m.changes.last().direction == (if rose {
                    ChangeDirection::Up
                } else {
                    ChangeDirection::Down
                })
                &&& n.changes.len() < 500 ==> m.changes.drop_last() == n.changes
                &&& n.changes.len() == 500 ==> m.changes.len() == 500 && m.changes.drop_last()
                    == n.changes.skip(1)
                &&& m.just_changed.len() == n.just_changed.len()
                &&& m.direction.len() == n.direction.len()
                &&& addr < n.just_changed.len() ==> m.just_changed[addr] && (m.direction[addr]
                    is Up <==> rose)
                &&& 0 <= i < n.just_changed.len() && i != addr ==> m.just_changed[i]
                    == n.just_changed[i]
                &&& 0 <= i < n.direction.len() && i != addr ==> m.direction[i] == n.direction[i]
                &&& addr < m.bars.len() && n.bars.len() <= m.bars.len()
                &&& m.bars[addr].last() == after
                &&& addr < n.bars.len() && n.bars[addr].len() < 20 ==> m.bars[addr].drop_last()
                    == n.bars[addr]
                &&& addr < n.bars.len() && n.bars[addr].len() == 20 ==> m.bars[addr].drop_last()
                    == n.bars[addr].skip(1)
                &&& addr >= n.bars.len() ==> m.bars[addr].len() == 1
                &&& 0 <= i < n.bars.len() && i != addr ==> m.bars[i] == n.bars[i]
            }
        }),
{
    let m = noted(n, addr, before, after, time);
    if before != after {
        let all = crate::state::padded_bars(n.bars, addr + 1);
        if n.changes.len() < 500 {
            assert(m.changes.drop_last() =~= n.changes);
        } else if n.changes.len() == 500 {
            assert(m.changes.drop_last() =~= n.changes.skip(1));
        }
        if addr < n.bars.len() {
            assert(all[addr] == n.bars[addr]);
            if n.bars[addr].len() < 20 {
                assert(m.bars[addr].drop_last() =~= n.bars[addr]);
            } else if n.bars[addr].len() == 20 {
                assert(m.bars[addr].drop_last() =~= n.bars[addr].skip(1));
            }
        }
    }
}

/// What is noted when registers in a row are written: of each that changes, that
/// it did, whether it rose, and its new value; of every other register, nothing.
pub proof fn law_changes_are_noted(
    n: Notes,
    addr: int,
    before: Seq<u16>,
    after: Seq<u16>,
    time: Seq<char>,
    i: int,
)
    requires
        0 <= addr,
        0 <= i,
        before.len() >= after.len(),
        n.just_changed.len() <= n.direction.len(),
    ensures
        ({
            let m = noted_all(n, addr, before, after, time);
            let j = i - addr;
            &&& m.just_changed.len() == n.just_changed.len()
            &&& m.direction.len() == n.direction.len()
            &&& n.bars.len() <= m.bars.len()
            &&& 0 <= j < after.len() && before[j] != after[j] ==> {
                &&& i < n.just_changed.len() ==> m.just_changed[i] && (m.direction[i] is Up
                    <==> after[j] > before[j])
                &&& i < m.bars.len() && m.bars[i].len() > 0 && m.bars[i].last() == after[j]
            }
            &&& !(0 <= j < after.len()) || before[j] == after[j] ==> {
                &&& i < n.just_changed.len() ==> m.just_changed[i] == n.just_changed[i]
                &&& i < n.direction.len() ==> m.direction[i] == n.direction[i]
                &&& i < n.bars.len() ==> m.bars[i] == n.bars[i]
            }
        }),
    decreases after.len(),
{
    if after.len() > 0 {
        let k = after.len() - 1;
        law_changes_are_noted(n, addr, before, after.drop_last(), time, i);
        let m = noted_all(n, addr, before, after.drop_last(), time);
        law_change_is_noted(m, addr + k, before[k], after[k], time, i);
        if before[k] != after[k] && i == addr + k {
            assert(m.bars.len() <= addr + k ==> crate::state::padded_bars(
                m.bars,
                addr + k + 1,
            ).len() == addr + k + 1);
        }
    }
}

/// A change of one register in a row of registers that are written is kept as a
/// change of that register, from its old to its new value.
pub proof fn law_last_written_is_last_change(
    n: Notes,
    addr: int,
    before: Seq<u16>,
    after: Seq<u16>,
    time: Seq<char>,
)
    requires
        0 <= addr,
        after.len() > 0,
        before.len() >= after.len(),
        before[after.len() - 1] != after.last(),
    ensures
        noted_all(n, addr, before, after, time).changes.last() == (Change {
            addr: addr + after.len() - 1,
            old_value: before[after.len() - 1],
            new_value: after.last(),
            direction: if after.last() > before[after.len() - 1] {
                ChangeDirection::Up
            } else {
                ChangeDirection::Down
            },
            time,
        }),
{
}

/// Of registers that are written, those that change are noted at their places; a coil that
/// is switched on goes up.
#[verifier::spinoff_prover]
pub proof fn law_written_changes_are_noted(
    a: AppState,
    cmd: RegCmd,
    b: AppState,
    reply: Reply,
    time: Seq<char>,
    i: int,
)
    requires
        a.wf(),
        executed(a, cmd, b, reply, time),
        0 <= i < a.reg_just_changed@.len(),
    ensures
        cmd is WriteSingleHolding || cmd is WriteMultipleHolding ==> {
            &&& i < a.holding@.len() && b.holding@[i] != a.holding@[i] ==> b.reg_just_changed@[i]
                && (b.reg_change_direction@[i] is Up <==> b.holding@[i] > a.holding@[i])
            &&& i >= a.holding@.len() || b.holding@[i] == a.holding@[i] ==> b.reg_just_changed@[i]
                == a.reg_just_changed@[i]
        },
        cmd is WriteSingleCoil || cmd is WriteMultipleCoils ==> {
            &&& i < a.coils@.len() && b.coils@[i] != a.coils@[i] ==> b.reg_just_changed@[i] && (
            b.reg_change_direction@[i] is Up <==> b.coils@[i])
            &&& i >= a.coils@.len() || b.coils@[i] == a.coils@[i] ==> b.reg_just_changed@[i]
                == a.reg_just_changed@[i]
        },
{
    match cmd {
        RegCmd::WriteSingleHolding { addr, value } => {
            lemma_words_noted(a, b, addr as int, seq![value], reply, time, i);
        },
        RegCmd::WriteMultipleHolding { addr, values } => {
            lemma_words_noted(a, b, addr as int, values@, reply, time, i);
        },
        RegCmd::WriteSingleCoil { addr, value } => {
            lemma_bits_noted(a, b, addr as int, seq![value], reply, time, i);
        },
        RegCmd::WriteMultipleCoils { addr, values } => {
            lemma_bits_noted(a, b, addr as int, values@, reply, time, i);
        },
        _ => {},
    }
}

proof fn lemma_words_noted(
    a: AppState,
    b: AppState,
    addr: int,
    values: Seq<u16>,
    reply: Reply,
    time: Seq<char>,
    i: int,
)
    requires
        a.wf(),
        0 <= addr,
        crate::worker::holding_written(a, addr, values, b, reply, time),
        0 <= i < a.reg_just_changed@.len(),
    ensures
        i < a.holding@.len() && b.holding@[i] != a.holding@[i] ==> b.reg_just_changed@[i] && (
        b.reg_change_direction@[i] is Up <==> b.holding@[i] > a.holding@[i]),
        i >= a.holding@.len() || b.holding@[i] == a.holding@[i] ==> b.reg_just_changed@[i]
            == a.reg_just_changed@[i],
{
    if addr + values.len() <= a.holding@.len() {
        let before = a.holding@.subrange(addr, addr + values.len());
        law_changes_are_noted(a.notes(), addr, before, values, time, i);
        let m = noted_all(a.notes(), addr, before, values, time);
        assert(b.notes() == m);
        assert(b.reg_just_changed@ == m.just_changed && b.reg_change_direction@ == m.direction);
    }
}

proof fn lemma_bits_noted(
    a: AppState,
    b: AppState,
    addr: int,
    values: Seq<bool>,
    reply: Reply,
    time: Seq<char>,
    i: int,
)
    requires
        a.wf(),
        0 <= addr,
        crate::worker::coils_written(a, addr, values, b, reply, time),
        0 <= i < a.reg_just_changed@.len(),
    ensures
        i < a.coils@.len() && b.coils@[i] != a.coils@[i] ==> b.reg_just_changed@[i] && (
        b.reg_change_direction@[i] is Up <==> b.coils@[i]),
        i >= a.coils@.len() || b.coils@[i] == a.coils@[i] ==> b.reg_just_changed@[i]
            == a.reg_just_changed@[i],
{
    if addr + values.len() <= a.coils@.len() {
        let before = crate::worker::bit_words(a.coils@.subrange(addr, addr + values.len()));
        let after = crate::worker::bit_words(values);
        law_changes_are_noted(a.notes(), addr, before, after, time, i);
        let m = noted_all(a.notes(), addr, before, after, time);
        assert(b.notes() == m);
        assert(b.reg_just_changed@ == m.just_changed && b.reg_change_direction@ == m.direction);
    }
}

} // verus!

//! Commands on the registers, coils and inputs of a device.
use crate::clock::{moment_now, Moment};
use crate::state::{record_reg_change_at, AppState, Notes};
use vstd::prelude::*;

verus! {

/// Why a device refuses a request.
#[derive(Copy, Clone, Debug, PartialEq, Eq, Structural)]
pub enum ExceptionCode {
    IllegalFunction,
    IllegalDataAddress,
    IllegalDataValue,
    ServerDeviceFailure,
    Acknowledge,
    ServerDeviceBusy,
    MemoryParityError,
    GatewayPathUnavailable,
    GatewayTargetDevice,
    Custom(u8),
}

/// A command on a device.
#[derive(Debug)]
#[allow(inconsistent_fields)]
pub enum RegCmd {
    ReadHolding { addr: usize, cnt: usize },
    WriteSingleHolding { addr: usize, value: u16 },
    WriteMultipleHolding { addr: usize, values: Vec<u16> },
    ReadCoils { addr: usize, cnt: usize },
    WriteSingleCoil { addr: usize, value: bool },
    WriteMultipleCoils { addr: usize, values: Vec<bool> },
    ReadDiscreteInputs { addr: usize, cnt: usize },
    ReadInputRegisters { addr: usize, cnt: usize },
    /// Asks every unit from 1 to 255 for its first holding register.
    SlaveScan,
}

/// What a command is answered.
#[derive(Debug)]
pub enum Reply {
    /// Registers that were read.
    Words(Result<Vec<u16>, ExceptionCode>),
    /// On-off values that were read.
    Bits(Result<Vec<bool>, ExceptionCode>),
    /// Something was written.
    Done(Result<(), ExceptionCode>),
    /// The units that were asked, with their first register if they answered.
    Units(Vec<(u8, Option<u16>)>),
}

/// An on-off value as the number that is noted for it.
pub open spec fn bit_word(b: bool) -> u16 {
    if b {
        1
    } else {
        0
    }
}

/// On-off values as the numbers that are noted for them.
pub open spec fn bit_words(s: Seq<bool>) -> Seq<u16> {
    Seq::new(s.len(), |i: int| bit_word(s[i]))
}

/// A table with some values put over it from a place on.
pub open spec fn overwritten<T>(s: Seq<T>, addr: int, values: Seq<T>) -> Seq<T> {
    Seq::new(
        s.len(),
        |i: int|
            if addr <= i < addr + values.len() {
                values[i - addr]
            } else {
                s[i]
            },
    )
}

/// What is noted when registers in a row change one after another.
pub open spec fn noted_all(
    n: Notes,
    addr: int,
    before: Seq<u16>,
    after: Seq<u16>,
    time: Seq<char>,
) -> Notes
    decreases after.len(),
{
    if after.len() == 0 {
        n
    } else {
        let k = after.len() - 1;
        crate::state::noted(
            noted_all(n, addr, before, after.drop_last(), time),
            addr + k,
            before[k],
            after[k],
            time,
        )
    }
}

/// Whether two states differ in their holding registers and in what is noted of
/// changes alone.
pub open spec fn only_holding_differs(a: AppState, b: AppState) -> bool {
    b == (AppState {
        holding: b.holding,
        reg_change_history: b.reg_change_history,
        reg_just_changed: b.reg_just_changed,
        reg_change_direction: b.reg_change_direction,
        reg_bar_history: b.reg_bar_history,
        ..a
    })
}

/// Whether two states differ in their coils and in what is noted of changes
/// alone.
pub open spec fn only_coils_differ(a: AppState, b: AppState) -> bool {
    b == (AppState {
        coils: b.coils,
        reg_change_history: b.reg_change_history,
        reg_just_changed: b.reg_just_changed,
        reg_change_direction: b.reg_change_direction,
        reg_bar_history: b.reg_bar_history,
        ..a
    })
}

/// Some registers of a table, if the table has them.
fn read_words(table: &Vec<u16>, addr: usize, cnt: usize) -> (r: Result<Vec<u16>, ExceptionCode>)
    ensures
        match r {
            Ok(v) => addr + cnt <= table@.len() && v@ == table@.subrange(
                addr as int,
                addr + cnt,
            ),
            Err(e) => addr + cnt > table@.len() && e == ExceptionCode::IllegalDataAddress,
        },
{
    let n: usize = table.len();
    if addr > n || cnt > n - addr {
        return Err(ExceptionCode::IllegalDataAddress);
    }
    let mut v: Vec<u16> = Vec::new();
    for i in 0..cnt
        invariant
            addr + cnt <= n == table@.len(),
            v@ == table@.subrange(addr as int, addr + i),
    {
        v.push(table[addr + i]);
    }
    Ok(v)
}

/// Some on-off values of a table, if the table has them.
fn read_bits(table: &Vec<bool>, addr: usize, cnt: usize) -> (r: Result<Vec<bool>, ExceptionCode>)
    ensures
        match r {
            Ok(v) => addr + cnt <= table@.len() && v@ == table@.subrange(
                addr as int,
                addr + cnt,
            ),
            Err(e) => addr + cnt > table@.len() && e == ExceptionCode::IllegalDataAddress,
        },
{
    let n: usize = table.len();
    if addr > n || cnt > n - addr {
        return Err(ExceptionCode::IllegalDataAddress);
    }
    let mut v: Vec<bool> = Vec::new();
    for i in 0..cnt
        invariant
            addr + cnt <= n == table@.len(),
            v@ == table@.subrange(addr as int, addr + i),
    {
        v.push(table[addr + i]);
    }
    Ok(v)
}

/// Puts values over the holding registers and notes which of them changed.
pub fn store_holding(state: &mut AppState, addr: usize, values: &Vec<u16>, at: Option<Moment>)
    requires
        old(state).wf(),
        addr + values@.len() <= old(state).holding@.len(),
    ensures
        final(state).wf(),
        only_holding_differs(*old(state), *final(state)),
        final(state).holding@ == overwritten(old(state).holding@, addr as int, values@),
        final(state).notes() == noted_all(
            old(state).notes(),
            addr as int,
            old(state).holding@.subrange(addr as int, addr + values@.len()),
            values@,
            crate::clock::clock_text(at),
        ),
{
    let n: usize = values.len();
    let ghost all = state.holding@.subrange(addr as int, addr + n);
    assert(values@.take(0) =~= Seq::<u16>::empty());
    assert(overwritten(state.holding@, addr as int, values@.take(0)) =~= state.holding@);
    for i in 0..n
        invariant
            n == values@.len(),
            state.wf(),
            addr + n <= old(state).holding.len(),
            state.holding@.len() == old(state).holding@.len(),
            all == old(state).holding@.subrange(addr as int, addr + n),
            only_holding_differs(*old(state), *state),
            state.holding@ == overwritten(
                old(state).holding@,
                addr as int,
                values@.take(i as int),
            ),
            state.notes() == noted_all(
                old(state).notes(),
                addr as int,
                all,
                values@.take(i as int),
                crate::clock::clock_text(at),
            ),
    {
        let idx: usize = addr + i;
        let before: u16 = state.holding[idx];
        let value: u16 = values[i];
        let ghost t = values@.take(i + 1);
        assert(t.drop_last() =~= values@.take(i as int));
        assert(before == all[i as int]);
        let ghost mid = *state;
        state.holding.set(idx, value);
        assert(state.notes() == mid.notes());
        record_reg_change_at(state, idx, before, value, at);
        assert(state.holding@ =~= overwritten(old(state).holding@, addr as int, t));
    }
    assert(values@.take(n as int) =~= values@);
}

/// Puts values over the coils and notes which of them changed.
pub fn store_coils(state: &mut AppState, addr: usize, values: &Vec<bool>, at: Option<Moment>)
    requires
        old(state).wf(),
        addr + values@.len() <= old(state).coils@.len(),
    ensures
        final(state).wf(),
        only_coils_differ(*old(state), *final(state)),
        final(state).coils@ == overwritten(old(state).coils@, addr as int, values@),
        final(state).notes() == noted_all(
            old(state).notes(),
            addr as int,
            bit_words(old(state).coils@.subrange(addr as int, addr + values@.len())),
            bit_words(values@),
            crate::clock::clock_text(at),
        ),
{
    let n: usize = values.len();
    let ghost all = bit_words(state.coils@.subrange(addr as int, addr + n));
    assert(bit_words(values@.take(0)) =~= Seq::<u16>::empty());
    assert(overwritten(state.coils@, addr as int, values@.take(0)) =~= state.coils@);
    for i in 0..n
        invariant
            n == values@.len(),
            state.wf(),
            addr + n <= old(state).coils.len(),
            state.coils@.len() == old(state).coils@.len(),
            all == bit_words(old(state).coils@.subrange(addr as int, addr + n)),
            only_coils_differ(*old(state), *state),
            state.coils@ == overwritten(old(state).coils@, addr as int, values@.take(i as int)),
            state.notes() == noted_all(
                old(state).notes(),
                addr as int,
                all,
                bit_words(values@.take(i as int)),
                crate::clock::clock_text(at),
            ),
    {
        let idx: usize = addr + i;
        let before: bool = state.coils[idx];
        let value: bool = values[i];
        let ghost t = bit_words(values@.take(i + 1));
        assert(t.drop_last() =~= bit_words(values@.take(i as int)));
        let ghost mid = *state;
        state.coils.set(idx, value);
        assert(state.notes() == mid.notes());
        let old_word: u16 = if before {
            1
        } else {
            0
        };
        let new_word: u16 = if value {
            1
        } else {
            0
        };
        assert(old_word == all[i as int]);
        record_reg_change_at(state, idx, old_word, new_word, at);
        assert(state.coils@ =~= overwritten(
            old(state).coils@,
            addr as int,
            values@.take(i + 1),
        ));
    }
    assert(values@.take(n as int) =~= values@);
}

/// Whether registers that were read, or why not, are the answer to a request
/// for some of a table.
pub open spec fn words_reply(table: Seq<u16>, addr: int, cnt: int, reply: Reply) -> bool {
    match reply {
        Reply::Words(Ok(v)) => addr + cnt <= table.len() && v@ == table.subrange(addr, addr + cnt),
        Reply::Words(Err(e)) => addr + cnt > table.len() && e == ExceptionCode::IllegalDataAddress,
        _ => false,
    }
}

/// Whether on-off values that were read, or why not, are the answer to a
/// request for some of a table.
pub open spec fn bits_reply(table: Seq<bool>, addr: int, cnt: int, reply: Reply) -> bool {
    match reply {
        Reply::Bits(Ok(v)) => addr + cnt <= table.len() && v@ == table.subrange(addr, addr + cnt),
        Reply::Bits(Err(e)) => addr + cnt > table.len() && e == ExceptionCode::IllegalDataAddress,
        _ => false,
    }
}

/// Whether holding registers were written as asked, or refused.
pub open spec fn holding_written(
    a: AppState,
    addr: int,
    values: Seq<u16>,
    b: AppState,
    reply: Reply,
    time: Seq<char>,
) -> bool {
    if addr + values.len() > a.holding@.len() {
        b == a && reply == Reply::Done(Err(ExceptionCode::IllegalDataAddress))
    } else {
        &&& reply == Reply::Done(Ok(()))
        &&& only_holding_differs(a, b)
        &&& b.holding@ == overwritten(a.holding@, addr, values)
        &&& b.notes() == noted_all(
            a.notes(),
            addr,
            a.holding@.subrange(addr, addr + values.len()),
            values,
            time,
        )
    }
}

/// Whether coils were written as asked, or refused.
pub open spec fn coils_written(
    a: AppState,
    addr: int,
    values: Seq<bool>,
    b: AppState,
    reply: Reply,
    time: Seq<char>,
) -> bool {
    if addr + values.len() > a.coils@.len() {
        b == a && reply == Reply::Done(Err(ExceptionCode::IllegalDataAddress))
    } else {
        &&& reply == Reply::Done(Ok(()))
        &&& only_coils_differ(a, b)
        &&& b.coils@ == overwritten(a.coils@, addr, values)
        &&& b.notes() == noted_all(
            a.notes(),
            addr,
            bit_words(a.coils@.subrange(addr, addr + values.len())),
            bit_words(values),
            time,
        )
    }
}

/// Whether a command that is carried out at a time leads from one state to
/// another and is answered by a reply.
pub open spec fn executed(
    a: AppState,
    cmd: RegCmd,
    b: AppState,
    reply: Reply,
    time: Seq<char>,
) -> bool {
    match cmd {
        RegCmd::ReadHolding { addr, cnt } => b == a && words_reply(
            a.holding@,
            addr as int,
            cnt as int,
            reply,
        ),
        RegCmd::WriteSingleHolding { addr, value } => holding_written(
            a,
            addr as int,
            seq![value],
            b,
            reply,
            time,
        ),
        RegCmd::WriteMultipleHolding { addr, values } => holding_written(
            a,
            addr as int,
            values@,
            b,
            reply,
            time,
        ),
        RegCmd::ReadCoils { addr, cnt } => b == a && bits_reply(
            a.coils@,
            addr as int,
            cnt as int,
            reply,
        ),
        RegCmd::WriteSingleCoil { addr, value } => coils_written(
            a,
            addr as int,
            seq![value],
            b,
            reply,
            time,
        ),
        RegCmd::WriteMultipleCoils { addr, values } => coils_written(
            a,
            addr as int,
            values@,
            b,
            reply,
            time,
        ),
        RegCmd::ReadDiscreteInputs { addr, cnt } => b == a && bits_reply(
            a.discrete@,
            addr as int,
            cnt as int,
            reply,
        ),
        RegCmd::ReadInputRegisters { addr, cnt } => b == a && words_reply(
            a.input_registers@,
            addr as int,
            cnt as int,
            reply,
        ),
        RegCmd::SlaveScan => b == a && (reply matches Reply::Units(v) && v@.len()
            == 0),
    }
}

/// Carries out a command at a moment.
pub fn execute_at(state: &mut AppState, cmd: &RegCmd, at: Option<Moment>) -> (r: Reply)
    requires
        old(state).wf(),
    ensures
        final(state).wf(),
        executed(*old(state), *cmd, *final(state), r, crate::clock::clock_text(at)),
{
    match cmd {
        RegCmd::ReadHolding { addr, cnt } => Reply::Words(read_words(&state.holding, *addr, *cnt)),
        RegCmd::WriteSingleHolding { addr, value } => {
            if *addr >= state.holding.len() {
                return Reply::Done(Err(ExceptionCode::IllegalDataAddress));
            }
            let one: Vec<u16> = vec![*value];
            assert(one@ =~= seq![*value]);
            store_holding(state, *addr, &one, at);
            Reply::Done(Ok(()))
        },
        RegCmd::WriteMultipleHolding { addr, values } => {
            if *addr > state.holding.len() || values.len() > state.holding.len() - *addr {
                return Reply::Done(Err(ExceptionCode::IllegalDataAddress));
            }
            store_holding(state, *addr, values, at);
            Reply::Done(Ok(()))
        },
        RegCmd::ReadCoils { addr, cnt } => Reply::Bits(read_bits(&state.coils, *addr, *cnt)),
        RegCmd::WriteSingleCoil { addr, value } => {
            if *addr >= state.coils.len() {
                return Reply::Done(Err(ExceptionCode::IllegalDataAddress));
            }
            let one: Vec<bool> = vec![*value];
            assert(one@ =~= seq![*value]);
            store_coils(state, *addr, &one, at);
            Reply::Done(Ok(()))
        },
        RegCmd::WriteMultipleCoils { addr, values } => {
            if *addr > state.coils.len() || values.len() > state.coils.len() - *addr {
                return Reply::Done(Err(ExceptionCode::IllegalDataAddress));
            }
            store_coils(state, *addr, values, at);
            Reply::Done(Ok(()))
        },
        RegCmd::ReadDiscreteInputs { addr, cnt } => {
            Reply::Bits(read_bits(&state.discrete, *addr, *cnt))
        },
        RegCmd::ReadInputRegisters { addr, cnt } => {
            Reply::Words(read_words(&state.input_registers, *addr, *cnt))
        },
        RegCmd::SlaveScan => Reply::Units(Vec::new()),
    }
}

/// Carries out a command now.
pub fn execute(state: &mut AppState, cmd: &RegCmd) -> (r: Reply)
    requires
        old(state).wf(),
    ensures
        final(state).wf(),
        exists|at: Option<Moment>|
            executed(
                *old(state),
                *cmd,
                *final(state),
                r,
                #[trigger] crate::clock::clock_text(at),
            ),
{
    let at = moment_now();
    execute_at(state, cmd, at)
}

/// Whether a reply refuses a command.
pub open spec fn refused(reply: Reply) -> bool {
    match reply {
        Reply::Words(r) => r is Err,
        Reply::Bits(r) => r is Err,
        Reply::Done(r) => r is Err,
        Reply::Units(_) => false,
    }
}

/// A refused command changes nothing, and the reason is that the device has no
/// such address.
pub proof fn law_refused_changes_nothing(
    a: AppState,
    cmd: RegCmd,
    b: AppState,
    reply: Reply,
    time: Seq<char>,
)
    requires
        executed(a, cmd, b, reply, time),
        refused(reply),
    ensures
        b == a,
        match reply {
            Reply::Words(r) => r == Err::<Vec<u16>, ExceptionCode>(
                ExceptionCode::IllegalDataAddress,
            ),
            Reply::Bits(r) => r == Err::<Vec<bool>, ExceptionCode>(
                ExceptionCode::IllegalDataAddress,
            ),
            Reply::Done(r) => r == Err::<(), ExceptionCode>(ExceptionCode::IllegalDataAddress),
            Reply::Units(_) => false,
        },
{
}

/// Holding registers that were written are read back as they were written.
pub proof fn law_written_registers_are_read(
    a: AppState,
    addr: usize,
    values: Vec<u16>,
    b: AppState,
    cnt: usize,
    c: AppState,
    reply: Reply,
    t1: Seq<char>,
    t2: Seq<char>,
)
    requires
        executed(
            a,
            RegCmd::WriteMultipleHolding { addr, values },
            b,
            Reply::Done(Ok(())),
            t1,
        ),
        cnt == values@.len(),
        executed(b, RegCmd::ReadHolding { addr, cnt }, c, reply, t2),
    ensures
        reply matches Reply::Words(Ok(v)) && v@ == values@,
        c == b,
{
    match reply {
        Reply::Words(Ok(v)) => {
            assert(v@ =~= values@);
        },
        _ => {},
    }
}

/// A holding register that was written alone is read back as it was written.
pub proof fn law_written_register_is_read(
    a: AppState,
    addr: usize,
    value: u16,
    b: AppState,
    c: AppState,
    reply: Reply,
    t1: Seq<char>,
    t2: Seq<char>,
)
    requires
        executed(a, RegCmd::WriteSingleHolding { addr, value }, b, Reply::Done(Ok(())), t1),
        executed(b, RegCmd::ReadHolding { addr, cnt: 1 }, c, reply, t2),
    ensures
        reply matches Reply::Words(Ok(v)) && v@ == seq![value],
        c == b,
{
    match reply {
        Reply::Words(Ok(v)) => {
            assert(v@ =~= seq![value]);
        },
        _ => {},
    }
}

/// Coils that were written are read back as they were written.
pub proof fn law_written_coils_are_read(
    a: AppState,
    addr: usize,
    values: Vec<bool>,
    b: AppState,
    cnt: usize,
    c: AppState,
    reply: Reply,
    t1: Seq<char>,
    t2: Seq<char>,
)
    requires
        executed(a, RegCmd::WriteMultipleCoils { addr, values }, b, Reply::Done(Ok(())), t1),
        cnt == values@.len(),
        executed(b, RegCmd::ReadCoils { addr, cnt }, c, reply, t2),
    ensures
        reply matches Reply::Bits(Ok(v)) && v@ == values@,
        c == b,
{
    match reply {
        Reply::Bits(Ok(v)) => {
            assert(v@ =~= values@);
        },
        _ => {},
    }
}

/// A coil that was written alone is read back as it was written.
pub proof fn law_written_coil_is_read(
    a: AppState,
    addr: usize,
    value: bool,
    b: AppState,
    c: AppState,
    reply: Reply,
    t1: Seq<char>,
    t2: Seq<char>,
)
    requires
        executed(a, RegCmd::WriteSingleCoil { addr, value }, b, Reply::Done(Ok(())), t1),
        executed(b, RegCmd::ReadCoils { addr, cnt: 1 }, c, reply, t2),
    ensures
        reply matches Reply::Bits(Ok(v)) && v@ == seq![value],
        c == b,
{
    match reply {
        Reply::Bits(Ok(v)) => {
            assert(v@ =~= seq![value]);
        },
        _ => {},
    }
}

/// No command changes the size of a table, the inputs, or a register or coil
/// that it does not name.
pub proof fn law_commands_stay_in_place(
    a: AppState,
    cmd: RegCmd,
    b: AppState,
    reply: Reply,
    time: Seq<char>,
    i: int,
)
    requires
        executed(a, cmd, b, reply, time),
    ensures
        b.holding@.len() == a.holding@.len(),
        b.coils@.len() == a.coils@.len(),
        b.discrete@ == a.discrete@,
        b.input_registers@ == a.input_registers@,
        0 <= i < a.holding@.len() && !(cmd matches RegCmd::WriteSingleHolding { addr, .. } && addr
            == i) && !(cmd matches RegCmd::WriteMultipleHolding { addr, values } && addr <= i < addr
            + values@.len()) ==> b.holding@[i] == a.holding@[i],
        0 <= i < a.coils@.len() && !(cmd matches RegCmd::WriteSingleCoil { addr, .. } && addr == i)
            && !(cmd matches RegCmd::WriteMultipleCoils { addr, values } && addr <= i < addr
            + values@.len()) ==> b.coils@[i] == a.coils@[i],
{
}

} // verus!

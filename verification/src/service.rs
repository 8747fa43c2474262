//! A server's side of Modbus: which command a request becomes, and what it is
//! answered.
use crate::clock::{moment_now, Moment};
use crate::frame::{copy_words, Frame, FrameInfo};
use crate::monitor::record_frame_at;
use crate::state::AppState;
use crate::worker::{ExceptionCode, RegCmd, Reply};
use vstd::prelude::*;

verus! {

/// What a client asks for.
#[derive(Debug)]
pub enum Request {
    ReadCoils(u16, u16),
    ReadDiscreteInputs(u16, u16),
    WriteSingleCoil(u16, bool),
    WriteMultipleCoils(u16, Vec<bool>),
    ReadInputRegisters(u16, u16),
    ReadHoldingRegisters(u16, u16),
    WriteSingleRegister(u16, u16),
    WriteMultipleRegisters(u16, Vec<u16>),
    /// Any other function.
    Other,
}

/// What a client is answered.
#[derive(Debug)]
pub enum Response {
    ReadCoils(Vec<bool>),
    ReadDiscreteInputs(Vec<bool>),
    WriteSingleCoil(u16, bool),
    WriteMultipleCoils(u16, u16),
    ReadInputRegisters(Vec<u16>),
    ReadHoldingRegisters(Vec<u16>),
    WriteSingleRegister(u16, u16),
    WriteMultipleRegisters(u16, u16),
}

/// What a client is answered, mathematically.
pub enum Answer {
    ReadCoils(Seq<bool>),
    ReadDiscreteInputs(Seq<bool>),
    WriteSingleCoil(u16, bool),
    WriteMultipleCoils(u16, u16),
    ReadInputRegisters(Seq<u16>),
    ReadHoldingRegisters(Seq<u16>),
    WriteSingleRegister(u16, u16),
    WriteMultipleRegisters(u16, u16),
}

impl View for Response {
    type V = Answer;

    open spec fn view(&self) -> Answer {
        match self {
            Response::ReadCoils(v) => Answer::ReadCoils(v@),
            Response::ReadDiscreteInputs(v) => Answer::ReadDiscreteInputs(v@),
            Response::WriteSingleCoil(a, b) => Answer::WriteSingleCoil(*a, *b),
            Response::WriteMultipleCoils(a, n) => Answer::WriteMultipleCoils(*a, *n),
            Response::ReadInputRegisters(v) => Answer::ReadInputRegisters(v@),
            Response::ReadHoldingRegisters(v) => Answer::ReadHoldingRegisters(v@),
            Response::WriteSingleRegister(a, w) => Answer::WriteSingleRegister(*a, *w),
            Response::WriteMultipleRegisters(a, n) => Answer::WriteMultipleRegisters(*a, *n),
        }
    }
}

/// A server for one unit.
#[derive(Copy, Clone, Debug, PartialEq, Eq, Structural)]
pub struct HoldingService {
    /// How many holding registers are offered.
    pub holding_len: usize,
    /// The unit that is served.
    pub unit: u8,
    pub is_tcp: bool,
}

/// How many values a request reaches, from which address on, and how many there
/// are; nothing for a request that is not served.
pub open spec fn reach(svc: HoldingService, s: AppState, req: Request) -> Option<(int, int, int)> {
    match req {
        Request::ReadCoils(a, n) => Some((a as int, n as int, s.coils@.len() as int)),
        Request::ReadDiscreteInputs(a, n) => Some((a as int, n as int, s.discrete@.len() as int)),
        Request::WriteSingleCoil(a, _) => Some((a as int, 1, s.coils@.len() as int)),
        Request::WriteMultipleCoils(a, v) => Some(
            (a as int, v@.len() as int, s.coils@.len() as int),
        ),
        Request::ReadInputRegisters(a, n) => Some(
            (a as int, n as int, s.input_registers@.len() as int),
        ),
        Request::ReadHoldingRegisters(a, n) => Some((a as int, n as int, svc.holding_len as int)),
        Request::WriteSingleRegister(a, _) => Some((a as int, 1, svc.holding_len as int)),
        Request::WriteMultipleRegisters(a, v) => Some(
            (a as int, v@.len() as int, svc.holding_len as int),
        ),
        Request::Other => None,
    }
}

/// Whether a command does what a request asks for.
pub open spec fn command_for(req: Request, cmd: RegCmd) -> bool {
    match req {
        Request::ReadCoils(a, n) => cmd == (RegCmd::ReadCoils {
            addr: a as usize,
            cnt: n as usize,
        }),
        Request::ReadDiscreteInputs(a, n) => cmd == (RegCmd::ReadDiscreteInputs {
            addr: a as usize,
            cnt: n as usize,
        }),
        Request::WriteSingleCoil(a, value) => cmd == (RegCmd::WriteSingleCoil {
            addr: a as usize,
            value,
        }),
        Request::WriteMultipleCoils(a, v) => cmd matches RegCmd::WriteMultipleCoils {
            addr,
            values,
        } && addr == a && values@ == v@,
        Request::ReadInputRegisters(a, n) => cmd == (RegCmd::ReadInputRegisters {
            addr: a as usize,
            cnt: n as usize,
        }),
        Request::ReadHoldingRegisters(a, n) => cmd == (RegCmd::ReadHolding {
            addr: a as usize,
            cnt: n as usize,
        }),
        Request::WriteSingleRegister(a, value) => cmd == (RegCmd::WriteSingleHolding {
            addr: a as usize,
            value,
        }),
        Request::WriteMultipleRegisters(a, v) => cmd matches RegCmd::WriteMultipleHolding {
            addr,
            values,
        } && addr == a && values@ == v@,
        Request::Other => false,
    }
}

/// Whether a request to a unit becomes a command, or why it is refused.
pub open spec fn admitted(
    svc: HoldingService,
    s: AppState,
    slave: u8,
    req: Request,
    r: Result<RegCmd, ExceptionCode>,
) -> bool {
    if slave != svc.unit {
        r == Err::<RegCmd, ExceptionCode>(ExceptionCode::IllegalFunction)
    } else {
        match reach(svc, s, req) {
            None => r == Err::<RegCmd, ExceptionCode>(ExceptionCode::IllegalFunction),
            Some((addr, n, len)) => if addr + n > len {
                r == Err::<RegCmd, ExceptionCode>(ExceptionCode::IllegalDataAddress)
            } else {
                r matches Ok(cmd) && command_for(req, cmd)
            },
        }
    }
}

/// On-off values as registers of one and zero.
fn words_from_bits(v: &Vec<bool>) -> (r: Vec<u16>)
    ensures
        r@ == crate::worker::bit_words(v@),
{
    let mut r: Vec<u16> = Vec::new();
    let n: usize = v.len();
    for i in 0..n
        invariant
            n == v@.len(),
            r@ == crate::worker::bit_words(v@).take(i as int),
    {
        let w: u16 = if v[i] {
            1
        } else {
            0
        };
        r.push(w);
        assert(crate::worker::bit_words(v@).take(i + 1) =~= crate::worker::bit_words(v@).take(
            i as int,
        ).push(w));
    }
    assert(crate::worker::bit_words(v@).take(n as int) =~= crate::worker::bit_words(v@));
    r
}

/// A copy of a list of on-off values.
pub fn copy_bits(v: &Vec<bool>) -> (r: Vec<bool>)
    ensures
        r@ == v@,
{
    let mut r: Vec<bool> = Vec::new();
    let n: usize = v.len();
    for i in 0..n
        invariant
            n == v@.len(),
            r@ == v@.take(i as int),
    {
        r.push(v[i]);
    }
    r
}

impl HoldingService {
    /// The command that a request to a unit becomes, or why it is refused.
    pub fn call(&self, state: &AppState, slave: u8, req: &Request) -> (r: Result<
        RegCmd,
        ExceptionCode,
    >)
        ensures
            admitted(*self, *state, slave, *req, r),
    {
        if slave != self.unit {
            return Err(ExceptionCode::IllegalFunction);
        }
        let (addr, n, len): (u16, usize, usize) = match req {
            Request::ReadCoils(a, n) => (*a, *n as usize, state.coils.len()),
            Request::ReadDiscreteInputs(a, n) => (*a, *n as usize, state.discrete.len()),
            Request::WriteSingleCoil(a, _) => (*a, 1, state.coils.len()),
            Request::WriteMultipleCoils(a, v) => (*a, v.len(), state.coils.len()),
            Request::ReadInputRegisters(a, n) => (*a, *n as usize, state.input_registers.len()),
            Request::ReadHoldingRegisters(a, n) => (*a, *n as usize, self.holding_len),
            Request::WriteSingleRegister(a, _) => (*a, 1, self.holding_len),
            Request::WriteMultipleRegisters(a, v) => (*a, v.len(), self.holding_len),
            Request::Other => {
                return Err(ExceptionCode::IllegalFunction);
            },
        };
        let addr: usize = addr as usize;
        if addr > len || n > len - addr {
            return Err(ExceptionCode::IllegalDataAddress);
        }
        Ok(
            match req {
                Request::ReadCoils(_, _) => RegCmd::ReadCoils { addr, cnt: n },
                Request::ReadDiscreteInputs(_, _) => RegCmd::ReadDiscreteInputs { addr, cnt: n },
                Request::WriteSingleCoil(_, value) => RegCmd::WriteSingleCoil {
                    addr,
                    value: *value,
                },
                Request::WriteMultipleCoils(_, v) => RegCmd::WriteMultipleCoils {
                    addr,
                    values: copy_bits(v),
                },
                Request::ReadInputRegisters(_, _) => RegCmd::ReadInputRegisters { addr, cnt: n },
                Request::ReadHoldingRegisters(_, _) => RegCmd::ReadHolding { addr, cnt: n },
                Request::WriteSingleRegister(_, value) => RegCmd::WriteSingleHolding {
                    addr,
                    value: *value,
                },
                Request::WriteMultipleRegisters(_, v) => RegCmd::WriteMultipleHolding {
                    addr,
                    values: copy_words(v),
                },
                Request::Other => {
                    return Err(ExceptionCode::IllegalFunction);
                },
            },
        )
    }
}

/// What is answered to a request for which the worker's reply came, or none.
pub open spec fn answer_for(req: Request, reply: Option<Reply>) -> Result<Answer, ExceptionCode> {
    match reply {
        Some(Reply::Words(Err(e))) => Err(e),
        Some(Reply::Bits(Err(e))) => Err(e),
        Some(Reply::Done(Err(e))) => Err(e),
        Some(Reply::Words(Ok(v))) => match req {
            Request::ReadHoldingRegisters(_, _) => Ok(Answer::ReadHoldingRegisters(v@)),
            Request::ReadInputRegisters(_, _) => Ok(Answer::ReadInputRegisters(v@)),
            _ => Err(ExceptionCode::ServerDeviceFailure),
        },
        Some(Reply::Bits(Ok(v))) => match req {
            Request::ReadCoils(_, _) => Ok(Answer::ReadCoils(v@)),
            Request::ReadDiscreteInputs(_, _) => Ok(Answer::ReadDiscreteInputs(v@)),
            _ => Err(ExceptionCode::ServerDeviceFailure),
        },
        Some(Reply::Done(Ok(_))) => match req {
            Request::WriteSingleRegister(a, w) => Ok(Answer::WriteSingleRegister(a, w)),
            Request::WriteMultipleRegisters(a, v) => Ok(
                Answer::WriteMultipleRegisters(a, (v@.len() % 65536) as u16),
            ),
            Request::WriteSingleCoil(a, b) => Ok(Answer::WriteSingleCoil(a, b)),
            Request::WriteMultipleCoils(a, v) => Ok(
                Answer::WriteMultipleCoils(a, (v@.len() % 65536) as u16),
            ),
            _ => Err(ExceptionCode::ServerDeviceFailure),
        },
        _ => Err(ExceptionCode::ServerDeviceFailure),
    }
}

/// The function code, the name, the address and the values that are kept of an
/// answered request.
pub open spec fn kept_of(req: Request, answer: Answer) -> (u8, Seq<char>, u16, Seq<u16>) {
    match (req, answer) {
        (Request::ReadHoldingRegisters(a, _), Answer::ReadHoldingRegisters(v)) => (
            3,
            "读保持寄存器"@,
            a,
            v,
        ),
        (Request::ReadInputRegisters(a, _), Answer::ReadInputRegisters(v)) => (
            4,
            "读输入寄存器"@,
            a,
            v,
        ),
        (Request::ReadCoils(a, _), Answer::ReadCoils(v)) => (
            1,
            "读线圈"@,
            a,
            crate::worker::bit_words(v),
        ),
        (Request::ReadDiscreteInputs(a, _), Answer::ReadDiscreteInputs(v)) => (
            2,
            "读离散输入"@,
            a,
            crate::worker::bit_words(v),
        ),
        (Request::WriteSingleRegister(a, w), _) => (6, "写单寄存器"@, a, seq![w]),
        (Request::WriteMultipleRegisters(a, v), _) => (0x10, "写多寄存器"@, a, v@),
        (Request::WriteSingleCoil(a, b), _) => (
            5,
            "写单线圈"@,
            a,
            seq![
                if b {
                    0xFF00u16
                } else {
                    0u16
                },
            ],
        ),
        (Request::WriteMultipleCoils(a, v), _) => (
            0x0F,
            "写多线圈"@,
            a,
            crate::worker::bit_words(v@),
        ),
        _ => (0, Seq::empty(), 0, Seq::empty()),
    }
}

/// The frame that is kept of an answered request.
pub open spec fn frame_for(svc: HoldingService, req: Request, answer: Answer) -> Frame {
    let (func_code, func_name, addr, values) = kept_of(req, answer);
    Frame {
        is_tcp: svc.is_tcp,
        unit: svc.unit,
        func_code,
        func_name,
        addr,
        values,
        is_request: false,
    }
}

/// Whether two states differ in the frames that are kept alone, by one frame
/// that was seen last.
pub open spec fn frame_kept(a: AppState, b: AppState, f: Frame, time: Seq<char>) -> bool {
    &&& b == (AppState { monitor: b.monitor, last_frame: b.last_frame, ..a })
    &&& b.monitor@ == crate::monitor::with_frame(a.monitor@, f, time)
    &&& b.last_frame matches Some(fi) && fi@ == f
}

/// Keeps a frame that was seen at a moment, as the last one.
pub fn keep_frame(state: &mut AppState, fi: FrameInfo, at: Option<Moment>)
    requires
        old(state).wf(),
        old(state).monitor@.total_frames < usize::MAX,
    ensures
        final(state).wf(),
        frame_kept(*old(state), *final(state), fi@, crate::clock::clock_text(at)),
{
    record_frame_at(&mut state.monitor, &fi, at);
    state.last_frame = Some(fi);
}

impl HoldingService {
    /// The answer to a request for which the worker's reply came, or none
    /// because the worker is gone. A frame is kept of what succeeded.
    pub fn respond_at(
        &self,
        state: &mut AppState,
        req: &Request,
        reply: Option<Reply>,
        at: Option<Moment>,
    ) -> (r: Result<Response, ExceptionCode>)
        requires
            old(state).wf(),
            old(state).monitor@.total_frames < usize::MAX,
        ensures
            final(state).wf(),
            match r {
                Ok(resp) => {
                    &&& answer_for(*req, reply) == Ok::<Answer, ExceptionCode>(resp@)
                    &&& frame_kept(
                        *old(state),
                        *final(state),
                        frame_for(*self, *req, resp@),
                        crate::clock::clock_text(at),
                    )
                },
                Err(e) => {
                    &&& answer_for(*req, reply) == Err::<Answer, ExceptionCode>(e)
                    &&& *final(state) == *old(state)
                },
            },
    {
        let failure = ExceptionCode::ServerDeviceFailure;
        let (code, name, addr, values, resp): (u8, &'static str, u16, Vec<u16>, Response) =
            match reply {
            Some(Reply::Words(Ok(v))) => match req {
                Request::ReadHoldingRegisters(a, _) => (
                    3,
                    "读保持寄存器",
                    *a,
                    copy_words(&v),
                    Response::ReadHoldingRegisters(v),
                ),
                Request::ReadInputRegisters(a, _) => (
                    4,
                    "读输入寄存器",
                    *a,
                    copy_words(&v),
                    Response::ReadInputRegisters(v),
                ),
                _ => {
                    return Err(failure);
                },
            },
            Some(Reply::Bits(Ok(v))) => match req {
                Request::ReadCoils(a, _) => (
                    1,
                    "读线圈",
                    *a,
                    words_from_bits(&v),
                    Response::ReadCoils(v),
                ),
                Request::ReadDiscreteInputs(a, _) => (
                    2,
                    "读离散输入",
                    *a,
                    words_from_bits(&v),
                    Response::ReadDiscreteInputs(v),
                ),
                _ => {
                    return Err(failure);
                },
            },
            Some(Reply::Done(Ok(_))) => match req {
                Request::WriteSingleRegister(a, w) => (
                    6,
                    "写单寄存器",
                    *a,
                    vec![*w],
                    Response::WriteSingleRegister(*a, *w),
                ),
                Request::WriteMultipleRegisters(a, v) => (
                    0x10,
                    "写多寄存器",
                    *a,
                    copy_words(v),
                    Response::WriteMultipleRegisters(*a, (v.len() % 65536) as u16),
                ),
                Request::WriteSingleCoil(a, b) => {
                    let w: u16 = if *b {
                        0xFF00
                    } else {
                        0
                    };
                    (5, "写单线圈", *a, vec![w], Response::WriteSingleCoil(*a, *b))
                },
                Request::WriteMultipleCoils(a, v) => (
                    0x0F,
                    "写多线圈",
                    *a,
                    words_from_bits(v),
                    Response::WriteMultipleCoils(*a, (v.len() % 65536) as u16),
                ),
                _ => {
                    return Err(failure);
                },
            },
            Some(Reply::Words(Err(e))) => {
                return Err(e);
            },
            Some(Reply::Bits(Err(e))) => {
                return Err(e);
            },
            Some(Reply::Done(Err(e))) => {
                return Err(e);
            },
            _ => {
                return Err(failure);
            },
        };
        let fi = FrameInfo {
            is_tcp: self.is_tcp,
            unit: self.unit,
            func_code: code,
            func_name: name.to_string(),
            addr,
            values,
            is_request: false,
        };
        assert(fi@.values =~= kept_of(*req, resp@).3);
        assert(fi@ == frame_for(*self, *req, resp@));
        keep_frame(state, fi, at);
        Ok(resp)
    }

    /// The answer to a request for which the worker's reply came now.
    pub fn respond(&self, state: &mut AppState, req: &Request, reply: Option<Reply>) -> (r: Result<
        Response,
        ExceptionCode,
    >)
        requires
            old(state).wf(),
            old(state).monitor@.total_frames < usize::MAX,
        ensures
            final(state).wf(),
            match r {
                Ok(resp) => {
                    &&& answer_for(*req, reply) == Ok::<Answer, ExceptionCode>(resp@)
                    &&& exists|at: Option<Moment>|
                        frame_kept(
                            *old(state),
                            *final(state),
                            frame_for(*self, *req, resp@),
                            #[trigger] crate::clock::clock_text(at),
                        )
                },
                Err(e) => {
                    &&& answer_for(*req, reply) == Err::<Answer, ExceptionCode>(e)
                    &&& *final(state) == *old(state)
                },
            },
    {
        let at = moment_now();
        self.respond_at(state, req, reply, at)
    }
}

/// A request to another unit is answered that the function is illegal, whatever
/// it asks for.
pub proof fn law_other_unit_is_refused(
    svc: HoldingService,
    s: AppState,
    slave: u8,
    req: Request,
    r: Result<RegCmd, ExceptionCode>,
)
    requires
        admitted(svc, s, slave, req, r),
        slave != svc.unit,
    ensures
        r == Err::<RegCmd, ExceptionCode>(ExceptionCode::IllegalFunction),
{
}

/// A request to the unit that reaches beyond what is offered is answered that
/// the address is illegal, and no request for a known function within it is
/// refused.
pub proof fn law_reach_decides(
    svc: HoldingService,
    s: AppState,
    req: Request,
    r: Result<RegCmd, ExceptionCode>,
)
    requires
        admitted(svc, s, svc.unit, req, r),
        !(req is Other),
    ensures
        r is Ok <==> (reach(svc, s, req) matches Some((addr, n, len)) && addr + n <= len),
        r matches Err(e) ==> e == ExceptionCode::IllegalDataAddress,
{
}

/// A request that is let in and carried out by the worker succeeds, if no more
/// holding registers are offered than there are: what was read is what is
/// answered, and what was written is repeated.
pub proof fn law_served_request_succeeds(
    svc: HoldingService,
    a: AppState,
    req: Request,
    cmd: RegCmd,
    b: AppState,
    reply: Reply,
    time: Seq<char>,
)
    requires
        svc.holding_len <= a.holding@.len(),
        admitted(svc, a, svc.unit, req, Ok(cmd)),
        crate::worker::executed(a, cmd, b, reply, time),
    ensures
        answer_for(req, Some(reply)) is Ok,
        answer_for(req, Some(reply)) matches Ok(answer) ==> match req {
            Request::ReadCoils(addr, n) => answer == Answer::ReadCoils(
                a.coils@.subrange(addr as int, addr + n),
            ),
            Request::ReadDiscreteInputs(addr, n) => answer == Answer::ReadDiscreteInputs(
                a.discrete@.subrange(addr as int, addr + n),
            ),
            Request::ReadInputRegisters(addr, n) => answer == Answer::ReadInputRegisters(
                a.input_registers@.subrange(addr as int, addr + n),
            ),
            Request::ReadHoldingRegisters(addr, n) => answer == Answer::ReadHoldingRegisters(
                a.holding@.subrange(addr as int, addr + n),
            ),
            Request::WriteSingleCoil(addr, v) => answer == Answer::WriteSingleCoil(addr, v)
                && b.coils@ == a.coils@.update(addr as int, v),
            Request::WriteMultipleCoils(addr, v) => b.coils@ == crate::worker::overwritten(
                a.coils@,
                addr as int,
                v@,
            ),
            Request::WriteSingleRegister(addr, v) => answer == Answer::WriteSingleRegister(addr, v)
                && b.holding@ == a.holding@.update(addr as int, v),
            Request::WriteMultipleRegisters(addr, v) => b.holding@ == crate::worker::overwritten(
                a.holding@,
                addr as int,
                v@,
            ),
            Request::Other => false,
        },
{
    match req {
        Request::WriteSingleCoil(addr, v) => {
            assert(crate::worker::overwritten(a.coils@, addr as int, seq![v]) =~= a.coils@.update(
                addr as int,
                v,
            ));
        },
        Request::WriteSingleRegister(addr, v) => {
            assert(crate::worker::overwritten(a.holding@, addr as int, seq![v])
                =~= a.holding@.update(addr as int, v));
        },
        _ => {},
    }
}

} // verus!

//! A client's side of Modbus: what is sent to a device, and what is made of its
//! answers.
use crate::clock::Moment;
use crate::frame::{Frame, FrameInfo};
use crate::numeral::push_decimal;
use crate::service::keep_frame;
use crate::state::AppState;
use crate::text::same;
use crate::worker::{store_coils, store_holding, ExceptionCode};
use vstd::prelude::*;

verus! {

/// How many values are read or written at once.
pub const CHUNK: usize = 120;

/// What became of something that was sent.
#[derive(Copy, Clone, Debug, PartialEq, Eq, Structural)]
pub enum Outcome {
    /// The device did it.
    Done,
    /// The device refused.
    Refused(ExceptionCode),
    /// It could not be sent, or the answer could not be read.
    Failed,
    /// No answer came in time.
    TimedOut,
}

/// How a write that had an outcome is answered.
pub open spec fn settled(o: Outcome) -> Result<(), ExceptionCode> {
    match o {
        Outcome::Done => Ok(()),
        Outcome::Refused(e) => Err(e),
        Outcome::Failed | Outcome::TimedOut => Err(ExceptionCode::ServerDeviceFailure),
    }
}

/// How a write that had an outcome is answered.
pub fn settle(o: Outcome) -> (r: Result<(), ExceptionCode>)
    ensures
        r == settled(o),
{
    match o {
        Outcome::Done => Ok(()),
        Outcome::Refused(e) => Err(e),
        Outcome::Failed | Outcome::TimedOut => Err(ExceptionCode::ServerDeviceFailure),
    }
}

/// How many of `count` values are handled next when `offset` are done.
pub open spec fn chunk_len(offset: int, count: int) -> int {
    if count - offset < CHUNK {
        count - offset
    } else {
        CHUNK as int
    }
}

/// The runs in which `count` values are handled from an offset on: where each
/// starts and how long it is.
pub open spec fn chunks(offset: int, count: int) -> Seq<(int, int)>
    decreases count - offset,
{
    if offset >= count {
        Seq::empty()
    } else {
        seq![(offset, chunk_len(offset, count))] + chunks(
            offset + chunk_len(offset, count),
            count,
        )
    }
}

/// The runs follow each other without gap or overlap: each starts where the one
/// before ended, is no longer than allowed, and the last ends at the end.
pub proof fn law_chunks_cover(offset: int, count: int, k: int)
    requires
        0 <= offset <= count,
        0 <= k < chunks(offset, count).len(),
    ensures
        chunks(offset, count)[k].0 == offset + CHUNK * k,
        1 <= chunks(offset, count)[k].1 <= CHUNK,
        k + 1 < chunks(offset, count).len() ==> chunks(offset, count)[k].1 == CHUNK,
        k + 1 == chunks(offset, count).len() ==> chunks(offset, count)[k].0 + chunks(
            offset,
            count,
        )[k].1 == count,
    decreases count - offset,
{
    let rest = chunks(offset + chunk_len(offset, count), count);
    if k > 0 {
        law_chunks_cover(offset + chunk_len(offset, count), count, k - 1);
        assert(chunks(offset, count)[k] == rest[k - 1]);
        if count - offset < CHUNK {
            assert(rest.len() == 0);
        }
    } else if rest.len() > 0 {
        law_chunks_cover(offset + chunk_len(offset, count), count, 0);
        assert(count - offset > CHUNK);
    }
}

/// A write of values that is sent in runs.
#[derive(Debug)]
pub struct ChunkedWrite<T> {
    pub addr: usize,
    pub values: Vec<T>,
    /// How many values were written.
    pub done: usize,
}

/// A write of values that is sent in runs, mathematically: where it starts, what
/// is written, and how much of it was.
pub struct WritePlan<T> {
    pub addr: int,
    pub values: Seq<T>,
    pub done: int,
}

impl<T> View for ChunkedWrite<T> {
    type V = WritePlan<T>;

    open spec fn view(&self) -> WritePlan<T> {
        WritePlan { addr: self.addr as int, values: self.values@, done: self.done as int }
    }
}

/// The address and the values that are sent next, if anything is left. The
/// address is cut to what a frame can hold.
pub open spec fn due<T>(w: WritePlan<T>) -> Option<(int, Seq<T>)> {
    if w.done < w.values.len() {
        Some(
            (
                (w.addr + w.done) % 65536,
                w.values.subrange(
                    w.done,
                    w.done + chunk_len(w.done, w.values.len() as int),
                ),
            ),
        )
    } else {
        None
    }
}

/// Where a write stands after the outcome of what was sent.
pub open spec fn moved<T>(w: WritePlan<T>, outcome: Outcome) -> WritePlan<T> {
    if outcome is Done {
        WritePlan { done: w.done + chunk_len(w.done, w.values.len() as int), ..w }
    } else {
        w
    }
}

/// The answer to a whole write, once the outcome of what was sent decides it.
pub open spec fn reply<T>(w: WritePlan<T>, outcome: Outcome) -> Option<Result<(), ExceptionCode>> {
    if outcome is Done && moved(w, outcome).done < w.values.len() {
        None
    } else {
        Some(settled(outcome))
    }
}

/// The answer to a whole write of which nothing is left to be sent: that it
/// succeeded, also where there was nothing to send at all.
pub open spec fn end_reply<T>(w: WritePlan<T>) -> Option<Result<(), ExceptionCode>> {
    if due(w) is None {
        Some(Ok(()))
    } else {
        None
    }
}

impl<T: Copy> ChunkedWrite<T> {
    /// Whether no more was written than there is, and addresses stay numbers.
    pub open spec fn wf(self) -> bool {
        &&& self.done <= self.values@.len()
        &&& self.addr + self.values@.len() <= usize::MAX
    }

    /// A write of which nothing was sent yet.
    pub fn new(addr: usize, values: Vec<T>) -> (r: ChunkedWrite<T>)
        requires
            addr + values@.len() <= usize::MAX,
        ensures
            r.wf(),
            r@ == (WritePlan { addr: addr as int, values: values@, done: 0 }),
    {
        ChunkedWrite { addr, values, done: 0 }
    }

    /// The address and the values that are sent next, if anything is left. The
    /// address is cut to what a frame can hold.
    pub fn next_chunk(&self) -> (r: Option<(u16, Vec<T>)>)
        requires
            self.wf(),
        ensures
            match r {
                Some((a, v)) => due(self@) == Some((a as int, v@)),
                None => due(self@) is None,
            },
    {
        let total: usize = self.values.len();
        if self.done >= total {
            return None;
        }
        let n: usize = if total - self.done < CHUNK {
            total - self.done
        } else {
            CHUNK
        };
        let mut v: Vec<T> = Vec::new();
        for i in 0..n
            invariant
                self.done + n <= total,
                total == self.values.len(),
                v@ == self.values@.subrange(self.done as int, self.done + i),
        {
            v.push(self.values[self.done + i]);
        }
        Some((((self.addr + self.done) % 65536) as u16, v))
    }

    /// The answer to the whole write once nothing is left to be sent.
    pub fn at_end(&self) -> (r: Option<Result<(), ExceptionCode>>)
        requires
            self.wf(),
        ensures
            r == end_reply(self@),
    {
        if self.done < self.values.len() {
            None
        } else {
            Some(Ok(()))
        }
    }

    /// Goes on after the outcome of what was sent; gives the answer to the whole
    /// write once it is known.
    pub fn advance(&mut self, outcome: Outcome) -> (r: Option<Result<(), ExceptionCode>>)
        requires
            old(self).wf(),
            old(self).done < old(self).values@.len(),
        ensures
            final(self).wf(),
            final(self)@ == moved(old(self)@, outcome),
            r == reply(old(self)@, outcome),
    {
        match settle(outcome) {
            Ok(_) => {
                let total: usize = self.values.len();
                let n: usize = if total - self.done < CHUNK {
                    total - self.done
                } else {
                    CHUNK
                };
                self.done = self.done + n;
                if self.done == total {
                    Some(Ok(()))
                } else {
                    None
                }
            },
            Err(e) => Some(Err(e)),
        }
    }
}

/// A table of a device.
#[derive(Copy, Clone, Debug, PartialEq, Eq, Structural)]
pub enum Table {
    Holding,
    Coils,
    Discrete,
    Input,
}

/// The tables in the order in which a client reads them.
pub open spec fn table_at(i: int) -> Table {
    if i == 0 {
        Table::Holding
    } else if i == 1 {
        Table::Coils
    } else if i == 2 {
        Table::Discrete
    } else {
        Table::Input
    }
}

/// The function code by which a table is read.
pub open spec fn read_code(t: Table) -> u8 {
    match t {
        Table::Holding => 3,
        Table::Coils => 1,
        Table::Discrete => 2,
        Table::Input => 4,
    }
}

/// The key of the text that names what reads a table.
pub open spec fn name_key(t: Table) -> Seq<char> {
    match t {
        Table::Holding => "func_code.read_holding"@,
        Table::Coils => "func_code.read_coils"@,
        Table::Discrete => "func_code.read_discrete"@,
        Table::Input => "func_code.read_input"@,
    }
}

/// The key of the text that names what reads a table.
pub fn read_key(t: Table) -> (r: &'static str)
    ensures
        r@ == name_key(t),
{
    match t {
        Table::Holding => "func_code.read_holding",
        Table::Coils => "func_code.read_coils",
        Table::Discrete => "func_code.read_discrete",
        Table::Input => "func_code.read_input",
    }
}

/// What a client reads next.
#[derive(Copy, Clone, Debug, PartialEq, Eq, Structural)]
pub struct ReadRequest {
    pub table: Table,
    pub addr: u16,
    pub cnt: u16,
}

/// What came of a read.
#[derive(Debug)]
pub enum ReadOutcome {
    Words(Vec<u16>),
    Bits(Vec<bool>),
    /// The device refused.
    Refused(ExceptionCode),
    /// It could not be sent, or the answer could not be read.
    Failed,
    /// No answer came in time.
    TimedOut,
}

/// Why a client stops reading.
#[derive(Copy, Clone, Debug, PartialEq, Eq, Structural)]
pub enum PollError {
    Exception(ExceptionCode),
    ReadFail,
    Timeout,
}

/// How far a client is in reading the tables: the table, and how much of it is
/// read.
#[derive(Copy, Clone, Debug, PartialEq, Eq, Structural)]
pub struct Poll {
    pub table: usize,
    pub offset: usize,
}

/// Whether a table has nothing left to be read: it is not enabled when its turn
/// comes, or all of it is read.
pub open spec fn passed(p: Poll, counts: Seq<usize>, enabled: Seq<bool>) -> bool {
    (p.offset == 0 && !enabled[p.table as int]) || p.offset >= counts[p.table as int]
}

/// Where reading goes on: past the tables that have nothing left.
pub open spec fn poll_place(p: Poll, counts: Seq<usize>, enabled: Seq<bool>) -> Poll
    decreases 4 - p.table,
{
    if p.table < 4 && passed(p, counts, enabled) {
        poll_place(Poll { table: (p.table + 1) as usize, offset: 0 }, counts, enabled)
    } else {
        p
    }
}

impl Poll {
    /// A client that starts to read.
    pub fn start() -> (r: Poll)
        ensures
            r == (Poll { table: 0, offset: 0 }),
    {
        Poll { table: 0, offset: 0 }
    }

    /// What is read next, if anything is left: a run of the first table that has
    /// something left. The address is cut to what a frame can hold.
    pub fn next_read(&mut self, counts: &[usize; 4], enabled: &[bool; 4]) -> (r: Option<
        ReadRequest,
    >)
        requires
            old(self).table <= 4,
        ensures
            *final(self) == poll_place(*old(self), counts@, enabled@),
            final(self).table <= 4,
            match r {
                Some(q) => {
                    &&& final(self).table < 4
                    &&& !passed(*final(self), counts@, enabled@)
                    &&& q.table == table_at(final(self).table as int)
                    &&& q.addr == final(self).offset % 65536
                    &&& q.cnt == chunk_len(
                        final(self).offset as int,
                        counts@[final(self).table as int] as int,
                    )
                },
                None => final(self).table == 4,
            },
    {
        while self.table < 4 && ((self.offset == 0 && !enabled[self.table]) || self.offset
            >= counts[self.table])
            invariant
                self.table <= 4,
                poll_place(*self, counts@, enabled@) == poll_place(*old(self), counts@, enabled@),
            decreases 4 - self.table,
        {
            self.table = self.table + 1;
            self.offset = 0;
        }
        if self.table == 4 {
            return None;
        }
        let left: usize = counts[self.table] - self.offset;
        let cnt: u16 = if left < CHUNK {
            left as u16
        } else {
            CHUNK as u16
        };
        let table = if self.table == 0 {
            Table::Holding
        } else if self.table == 1 {
            Table::Coils
        } else if self.table == 2 {
            Table::Discrete
        } else {
            Table::Input
        };
        Some(ReadRequest { table, addr: (self.offset % 65536) as u16, cnt })
    }
}

/// How many of the values that were read from an offset on a table has room for.
pub open spec fn kept_len(offset: int, values: int, len: int) -> int {
    if offset >= len {
        0
    } else if offset + values <= len {
        values
    } else {
        len - offset
    }
}

/// The frame that is kept of values that were read.
pub open spec fn read_frame(
    is_tcp: bool,
    unit: u8,
    table: Table,
    name: Seq<char>,
    offset: int,
    values: Seq<u16>,
) -> Frame {
    Frame {
        is_tcp,
        unit,
        func_code: read_code(table),
        func_name: name,
        addr: (offset % 65536) as u16,
        values,
        is_request: false,
    }
}

/// Whether the frame of some values is what the monitor has seen more in one
/// state than in another; of no values, no frame is kept.
pub open spec fn read_kept(
    a: AppState,
    b: AppState,
    values: Seq<u16>,
    frame: Frame,
    time: Seq<char>,
) -> bool {
    if values.len() == 0 {
        b.monitor == a.monitor && b.last_frame == a.last_frame
    } else {
        &&& b.monitor@ == crate::monitor::with_frame(a.monitor@, frame, time)
        &&& b.last_frame matches Some(fi) && fi@ == frame
    }
}

fn how_many(offset: usize, values: usize, len: usize) -> (r: usize)
    ensures
        r == kept_len(offset as int, values as int, len as int),
{
    if offset >= len {
        0
    } else if values <= len - offset {
        values
    } else {
        len - offset
    }
}

fn first_words(v: &Vec<u16>, n: usize) -> (r: Vec<u16>)
    requires
        n <= v@.len(),
    ensures
        r@ == v@.take(n as int),
{
    let mut r: Vec<u16> = Vec::new();
    for i in 0..n
        invariant
            n <= v@.len(),
            r@ == v@.take(i as int),
    {
        r.push(v[i]);
    }
    r
}

fn first_bits(v: &Vec<bool>, n: usize) -> (r: Vec<bool>)
    requires
        n <= v@.len(),
    ensures
        r@ == v@.take(n as int),
{
    let mut r: Vec<bool> = Vec::new();
    for i in 0..n
        invariant
            n <= v@.len(),
            r@ == v@.take(i as int),
    {
        r.push(v[i]);
    }
    r
}

fn bits_as_words(v: &Vec<bool>) -> (r: Vec<u16>)
    ensures
        r@ == crate::worker::bit_words(v@),
{
    let mut r: Vec<u16> = Vec::new();
    let n: usize = v.len();
    for i in 0..n
        invariant
            n == v@.len(),
            r@.len() == i,
            forall|j: int| 0 <= j < i ==> r@[j] == crate::worker::bit_word(v@[j]),
    {
        let w: u16 = if v[i] {
            1
        } else {
            0
        };
        r.push(w);
    }
    assert(r@ =~= crate::worker::bit_words(v@));
    r
}

fn keep_read(
    state: &mut AppState,
    is_tcp: bool,
    unit: u8,
    func_code: u8,
    name: &str,
    offset: usize,
    values: Vec<u16>,
    at: Option<Moment>,
)
    requires
        old(state).wf(),
        old(state).monitor@.total_frames < usize::MAX,
    ensures
        final(state).wf(),
        *final(state) == (AppState {
            monitor: final(state).monitor,
            last_frame: final(state).last_frame,
            ..*old(state)
        }),
        read_kept(
            *old(state),
            *final(state),
            values@,
            (Frame {
                is_tcp,
                unit,
                func_code,
                func_name: name@,
                addr: (offset % 65536) as u16,
                values: values@,
                is_request: false,
            }),
            crate::clock::clock_text(at),
        ),
{
    if values.len() > 0 {
        let fi = FrameInfo {
            is_tcp,
            unit,
            func_code,
            func_name: name.to_string(),
            addr: (offset % 65536) as u16,
            values,
            is_request: false,
        };
        keep_frame(state, fi, at);
    }
}

/// Whether values that were read from an offset on were taken over into the
/// holding registers, as far as there is room, their changes noted and the frame
/// kept.
pub open spec fn holding_taken(
    a: AppState,
    b: AppState,
    offset: int,
    values: Seq<u16>,
    is_tcp: bool,
    unit: u8,
    name: Seq<char>,
    time: Seq<char>,
) -> bool {
    let v = values.take(kept_len(offset, values.len() as int, a.holding@.len() as int));
    &&& b == (AppState {
        holding: b.holding,
        reg_change_history: b.reg_change_history,
        reg_just_changed: b.reg_just_changed,
        reg_change_direction: b.reg_change_direction,
        reg_bar_history: b.reg_bar_history,
        monitor: b.monitor,
        last_frame: b.last_frame,
        ..a
    })
    &&& b.holding@ == crate::worker::overwritten(a.holding@, offset, v)
    &&& b.notes() == crate::worker::noted_all(
        a.notes(),
        offset,
        a.holding@.subrange(offset, offset + v.len()),
        v,
        time,
    )
    &&& read_kept(a, b, v, read_frame(is_tcp, unit, Table::Holding, name, offset, v), time)
}

/// Takes over holding registers that were read from an offset on.
pub fn take_holding(
    state: &mut AppState,
    offset: usize,
    values: &Vec<u16>,
    is_tcp: bool,
    unit: u8,
    name: &str,
    at: Option<Moment>,
)
    requires
        old(state).wf(),
        old(state).monitor@.total_frames < usize::MAX,
    ensures
        final(state).wf(),
        holding_taken(
            *old(state),
            *final(state),
            offset as int,
            values@,
            is_tcp,
            unit,
            name@,
            crate::clock::clock_text(at),
        ),
{
    let n: usize = how_many(offset, values.len(), state.holding.len());
    let v: Vec<u16> = first_words(values, n);
    if n > 0 {
        store_holding(state, offset, &v, at);
    }
    assert(state.holding@ =~= crate::worker::overwritten(old(state).holding@, offset as int, v@));
    let ghost notes = state.notes();
    keep_read(state, is_tcp, unit, 3, name, offset, v, at);
    assert(state.notes() == notes);
}

/// Whether values that were read from an offset on were taken over into the
/// coils, as far as there is room, their changes noted and the frame kept.
pub open spec fn coils_taken(
    a: AppState,
    b: AppState,
    offset: int,
    values: Seq<bool>,
    is_tcp: bool,
    unit: u8,
    name: Seq<char>,
    time: Seq<char>,
) -> bool {
    let v = values.take(kept_len(offset, values.len() as int, a.coils@.len() as int));
    let w = crate::worker::bit_words(v);
    &&& b == (AppState {
        coils: b.coils,
        reg_change_history: b.reg_change_history,
        reg_just_changed: b.reg_just_changed,
        reg_change_direction: b.reg_change_direction,
        reg_bar_history: b.reg_bar_history,
        monitor: b.monitor,
        last_frame: b.last_frame,
        ..a
    })
    &&& b.coils@ == crate::worker::overwritten(a.coils@, offset, v)
    &&& b.notes() == crate::worker::noted_all(
        a.notes(),
        offset,
        crate::worker::bit_words(a.coils@.subrange(offset, offset + v.len())),
        w,
        time,
    )
    &&& read_kept(a, b, w, read_frame(is_tcp, unit, Table::Coils, name, offset, w), time)
}

/// Takes over coils that were read from an offset on.
pub fn take_coils(
    state: &mut AppState,
    offset: usize,
    values: &Vec<bool>,
    is_tcp: bool,
    unit: u8,
    name: &str,
    at: Option<Moment>,
)
    requires
        old(state).wf(),
        old(state).monitor@.total_frames < usize::MAX,
    ensures
        final(state).wf(),
        coils_taken(
            *old(state),
            *final(state),
            offset as int,
            values@,
            is_tcp,
            unit,
            name@,
            crate::clock::clock_text(at),
        ),
{
    let n: usize = how_many(offset, values.len(), state.coils.len());
    let v: Vec<bool> = first_bits(values, n);
    if n > 0 {
        store_coils(state, offset, &v, at);
    }
    assert(state.coils@ =~= crate::worker::overwritten(old(state).coils@, offset as int, v@));
    let ghost notes = state.notes();
    let w: Vec<u16> = bits_as_words(&v);
    keep_read(state, is_tcp, unit, 1, name, offset, w, at);
    assert(state.notes() == notes);
}

/// Whether values that were read from an offset on were taken over into the
/// discrete inputs, as far as there is room, and the frame kept.
pub open spec fn discrete_taken(
    a: AppState,
    b: AppState,
    offset: int,
    values: Seq<bool>,
    is_tcp: bool,
    unit: u8,
    name: Seq<char>,
    time: Seq<char>,
) -> bool {
    let v = values.take(kept_len(offset, values.len() as int, a.discrete@.len() as int));
    let w = crate::worker::bit_words(v);
    &&& b == (AppState {
        discrete: b.discrete,
        monitor: b.monitor,
        last_frame: b.last_frame,
        ..a
    })
    &&& b.discrete@ == crate::worker::overwritten(a.discrete@, offset, v)
    &&& read_kept(a, b, w, read_frame(is_tcp, unit, Table::Discrete, name, offset, w), time)
}

/// Takes over discrete inputs that were read from an offset on.
pub fn take_discrete(
    state: &mut AppState,
    offset: usize,
    values: &Vec<bool>,
    is_tcp: bool,
    unit: u8,
    name: &str,
    at: Option<Moment>,
)
    requires
        old(state).wf(),
        old(state).monitor@.total_frames < usize::MAX,
    ensures
        final(state).wf(),
        discrete_taken(
            *old(state),
            *final(state),
            offset as int,
            values@,
            is_tcp,
            unit,
            name@,
            crate::clock::clock_text(at),
        ),
{
    let n: usize = how_many(offset, values.len(), state.discrete.len());
    let v: Vec<bool> = first_bits(values, n);
    assert(state.discrete@ =~= crate::worker::overwritten(
        state.discrete@,
        offset as int,
        v@.take(0),
    ));
    for i in 0..n
        invariant
            n == v@.len(),
            n > 0 ==> offset + n <= old(state).discrete.len(),
            state.wf(),
            *state == (AppState { discrete: state.discrete, ..*old(state) }),
            state.discrete@.len() == old(state).discrete@.len(),
            state.discrete@ == crate::worker::overwritten(
                old(state).discrete@,
                offset as int,
                v@.take(i as int),
            ),
    {
        state.discrete.set(offset + i, v[i]);
        assert(state.discrete@ =~= crate::worker::overwritten(
            old(state).discrete@,
            offset as int,
            v@.take(i + 1),
        ));
    }
    assert(v@.take(n as int) =~= v@);
    let w: Vec<u16> = bits_as_words(&v);
    keep_read(state, is_tcp, unit, 2, name, offset, w, at);
}

/// Whether values that were read from an offset on were taken over into the
/// input registers, as far as there is room, and the frame kept.
pub open spec fn inputs_taken(
    a: AppState,
    b: AppState,
    offset: int,
    values: Seq<u16>,
    is_tcp: bool,
    unit: u8,
    name: Seq<char>,
    time: Seq<char>,
) -> bool {
    let v = values.take(kept_len(offset, values.len() as int, a.input_registers@.len() as int));
    &&& b == (AppState {
        input_registers: b.input_registers,
        monitor: b.monitor,
        last_frame: b.last_frame,
        ..a
    })
    &&& b.input_registers@ == crate::worker::overwritten(a.input_registers@, offset, v)
    &&& read_kept(a, b, v, read_frame(is_tcp, unit, Table::Input, name, offset, v), time)
}

/// Takes over input registers that were read from an offset on.
pub fn take_inputs(
    state: &mut AppState,
    offset: usize,
    values: &Vec<u16>,
    is_tcp: bool,
    unit: u8,
    name: &str,
    at: Option<Moment>,
)
    requires
        old(state).wf(),
        old(state).monitor@.total_frames < usize::MAX,
    ensures
        final(state).wf(),
        inputs_taken(
            *old(state),
            *final(state),
            offset as int,
            values@,
            is_tcp,
            unit,
            name@,
            crate::clock::clock_text(at),
        ),
{
    let n: usize = how_many(offset, values.len(), state.input_registers.len());
    let v: Vec<u16> = first_words(values, n);
    assert(state.input_registers@ =~= crate::worker::overwritten(
        state.input_registers@,
        offset as int,
        v@.take(0),
    ));
    for i in 0..n
        invariant
            n == v@.len(),
            n > 0 ==> offset + n <= old(state).input_registers.len(),
            state.wf(),
            *state == (AppState { input_registers: state.input_registers, ..*old(state) }),
            state.input_registers@.len() == old(state).input_registers@.len(),
            state.input_registers@ == crate::worker::overwritten(
                old(state).input_registers@,
                offset as int,
                v@.take(i as int),
            ),
    {
        state.input_registers.set(offset + i, v[i]);
        assert(state.input_registers@ =~= crate::worker::overwritten(
            old(state).input_registers@,
            offset as int,
            v@.take(i + 1),
        ));
    }
    assert(v@.take(n as int) =~= v@);
    keep_read(state, is_tcp, unit, 4, name, offset, v, at);
}

/// Whether a client has taken over what came of a read.
pub open spec fn outcome_taken(
    p: Poll,
    a: AppState,
    outcome: ReadOutcome,
    unit: u8,
    name: Seq<char>,
    b: AppState,
    r: Result<(), PollError>,
    time: Seq<char>,
) -> bool {
    let offset = p.offset as int;
    match (outcome, table_at(p.table as int)) {
        (ReadOutcome::Words(v), Table::Holding) => r is Ok && holding_taken(
            a,
            b,
            offset,
            v@,
            a.is_tcp,
            unit,
            name,
            time,
        ),
        (ReadOutcome::Bits(v), Table::Coils) => r is Ok && coils_taken(
            a,
            b,
            offset,
            v@,
            a.is_tcp,
            unit,
            name,
            time,
        ),
        (ReadOutcome::Bits(v), Table::Discrete) => r is Ok && discrete_taken(
            a,
            b,
            offset,
            v@,
            a.is_tcp,
            unit,
            name,
            time,
        ),
        (ReadOutcome::Words(v), Table::Input) => r is Ok && inputs_taken(
            a,
            b,
            offset,
            v@,
            a.is_tcp,
            unit,
            name,
            time,
        ),
        (ReadOutcome::Refused(e), _) => b == a && r == Err::<(), PollError>(
            PollError::Exception(e),
        ),
        (ReadOutcome::TimedOut, _) => b == a && r == Err::<(), PollError>(PollError::Timeout),
        _ => b == a && r == Err::<(), PollError>(PollError::ReadFail),
    }
}

impl Poll {
    /// Takes over what came of the read that is due, and goes on to the next run
    /// of the table; or says why the client stops. Values of the other sort than
    /// those of the table count as an answer that could not be read.
    pub fn take(
        &mut self,
        state: &mut AppState,
        counts: &[usize; 4],
        outcome: &ReadOutcome,
        unit: u8,
        name: &str,
        at: Option<Moment>,
    ) -> (r: Result<(), PollError>)
        requires
            old(self).table < 4,
            old(self).offset < counts@[old(self).table as int],
            old(state).wf(),
            old(state).monitor@.total_frames < usize::MAX,
        ensures
            final(state).wf(),
            outcome_taken(
                *old(self),
                *old(state),
                *outcome,
                unit,
                name@,
                *final(state),
                r,
                crate::clock::clock_text(at),
            ),
            final(self).table == old(self).table,
            final(self).offset == old(self).offset + (if r is Ok {
                chunk_len(old(self).offset as int, counts@[old(self).table as int] as int)
            } else {
                0
            }),
            final(self).offset <= counts@[final(self).table as int],
    {
        let is_tcp: bool = state.is_tcp;
        match outcome {
            ReadOutcome::Words(v) => {
                if self.table == 0 {
                    take_holding(state, self.offset, v, is_tcp, unit, name, at);
                } else if self.table == 3 {
                    take_inputs(state, self.offset, v, is_tcp, unit, name, at);
                } else {
                    return Err(PollError::ReadFail);
                }
            },
            ReadOutcome::Bits(v) => {
                if self.table == 1 {
                    take_coils(state, self.offset, v, is_tcp, unit, name, at);
                } else if self.table == 2 {
                    take_discrete(state, self.offset, v, is_tcp, unit, name, at);
                } else {
                    return Err(PollError::ReadFail);
                }
            },
            ReadOutcome::Refused(e) => {
                return Err(PollError::Exception(*e));
            },
            ReadOutcome::Failed => {
                return Err(PollError::ReadFail);
            },
            ReadOutcome::TimedOut => {
                return Err(PollError::Timeout);
            },
        }
        let left: usize = counts[self.table] - self.offset;
        let cnt: usize = if left < CHUNK {
            left
        } else {
            CHUNK
        };
        self.offset = self.offset + cnt;
        Ok(())
    }
}

/// The address of the device that is connected to over TCP.
pub open spec fn target(device: Seq<char>, port: u16) -> Seq<char> {
    (if device == "dev/null"@ {
        "127.0.0.1"@
    } else {
        device
    }) + ":"@ + crate::numeral::decimal(port as nat)
}

/// The address of the device that is connected to over TCP: this machine where
/// no device is named.
pub fn tcp_target(device: &str, port: u16) -> (r: String)
    ensures
        r@ == target(device@, port),
{
    let mut s = if same(device, "dev/null") {
        "127.0.0.1".to_string()
    } else {
        device.to_string()
    };
    s.append(":");
    push_decimal(&mut s, port as u128);
    s
}

/// The address on which a server over TCP listens.
pub fn tcp_listen(port: u16) -> (r: String)
    ensures
        r@ == "0.0.0.0:"@ + crate::numeral::decimal(port as nat),
{
    let mut s = "0.0.0.0:".to_string();
    push_decimal(&mut s, port as u128);
    s
}

/// A scan for units: the unit that is asked next, and what those before
/// answered.
#[derive(Debug)]
pub struct SlaveScan {
    pub results: Vec<(u8, Option<u16>)>,
}

impl SlaveScan {
    /// Whether the units were asked in order, from the first on.
    pub open spec fn wf(self) -> bool {
        &&& self.results@.len() <= 255
        &&& forall|i: int| 0 <= i < self.results@.len() ==> (#[trigger] self.results@[i]).0 == i + 1
    }

    /// A scan in which no unit was asked yet.
    pub fn start() -> (r: SlaveScan)
        ensures
            r.wf(),
            r.results@.len() == 0,
    {
        SlaveScan { results: Vec::new() }
    }

    /// The unit that is asked next for its first holding register, up to 255.
    pub fn next_unit(&self) -> (r: Option<u8>)
        requires
            self.wf(),
        ensures
            match r {
                Some(id) => id == self.results@.len() + 1,
                None => self.results@.len() == 255,
            },
    {
        if self.results.len() < 255 {
            Some((self.results.len() + 1) as u8)
        } else {
            None
        }
    }

    /// Notes the registers that the unit answered, or that it did not.
    pub fn note(&mut self, answer: Option<&Vec<u16>>)
        requires
            old(self).wf(),
            old(self).results@.len() < 255,
            answer matches Some(v) ==> v@.len() > 0,
        ensures
            final(self).wf(),
            final(self).results@ == old(self).results@.push(
                (
                    (old(self).results@.len() + 1) as u8,
                    match answer {
                        Some(v) => Some(v@[0]),
                        None => None,
                    },
                ),
            ),
    {
        let id: u8 = (self.results.len() + 1) as u8;
        let value: Option<u16> = match answer {
            Some(v) => Some(v[0]),
            None => None,
        };
        self.results.push((id, value));
    }
}

/// The name of a reason for which a device refuses.
pub open spec fn exception_name(e: ExceptionCode) -> Seq<char> {
    match e {
        ExceptionCode::IllegalFunction => "IllegalFunction"@,
        ExceptionCode::IllegalDataAddress => "IllegalDataAddress"@,
        ExceptionCode::IllegalDataValue => "IllegalDataValue"@,
        ExceptionCode::ServerDeviceFailure => "ServerDeviceFailure"@,
        ExceptionCode::Acknowledge => "Acknowledge"@,
        ExceptionCode::ServerDeviceBusy => "ServerDeviceBusy"@,
        ExceptionCode::MemoryParityError => "MemoryParityError"@,
        ExceptionCode::GatewayPathUnavailable => "GatewayPathUnavailable"@,
        ExceptionCode::GatewayTargetDevice => "GatewayTargetDevice"@,
        ExceptionCode::Custom(n) => "Custom("@ + crate::numeral::decimal(n as nat) + ")"@,
    }
}

/// The name of a reason for which a device refuses.
pub fn exception_text(e: ExceptionCode) -> (r: String)
    ensures
        r@ == exception_name(e),
{
    match e {
        ExceptionCode::IllegalFunction => "IllegalFunction".to_string(),
        ExceptionCode::IllegalDataAddress => "IllegalDataAddress".to_string(),
        ExceptionCode::IllegalDataValue => "IllegalDataValue".to_string(),
        ExceptionCode::ServerDeviceFailure => "ServerDeviceFailure".to_string(),
        ExceptionCode::Acknowledge => "Acknowledge".to_string(),
        ExceptionCode::ServerDeviceBusy => "ServerDeviceBusy".to_string(),
        ExceptionCode::MemoryParityError => "MemoryParityError".to_string(),
        ExceptionCode::GatewayPathUnavailable => "GatewayPathUnavailable".to_string(),
        ExceptionCode::GatewayTargetDevice => "GatewayTargetDevice".to_string(),
        ExceptionCode::Custom(n) => {
            let mut s = "Custom(".to_string();
            push_decimal(&mut s, n as u128);
            s.append(")");
            s
        },
    }
}

/// What came of a read by a monitor.
#[derive(Debug)]
pub enum MonitorOutcome {
    Values(Vec<u16>),
    Refused(ExceptionCode),
    /// It could not be sent, or the answer could not be read, for a reason.
    Failed(String),
    TimedOut,
}

/// Whether a monitor over TCP has marked that it is connected.
pub open spec fn connected(
    a: AppState,
    b: AppState,
    unit: u8,
    holding_count: int,
    time: Seq<char>,
) -> bool {
    let n = chunk_len(0, holding_count);
    let f = Frame {
        is_tcp: true,
        unit,
        func_code: 3,
        func_name: "已连接监听"@,
        addr: 0,
        values: Seq::new(n as nat, |i: int| 0u16),
        is_request: false,
    };
    &&& b.is_tcp
    &&& crate::service::frame_kept((AppState { is_tcp: true, ..a }), b, f, time)
}

/// Marks that a monitor over TCP is connected.
pub fn monitor_connected(state: &mut AppState, unit: u8, holding_count: usize, at: Option<Moment>)
    requires
        old(state).wf(),
        old(state).monitor@.total_frames < usize::MAX,
    ensures
        final(state).wf(),
        connected(
            *old(state),
            *final(state),
            unit,
            holding_count as int,
            crate::clock::clock_text(at),
        ),
{
    let n: usize = if holding_count < CHUNK {
        holding_count
    } else {
        CHUNK
    };
    let mut values: Vec<u16> = Vec::new();
    for i in 0..n
        invariant
            values@ == Seq::new(i as nat, |j: int| 0u16),
    {
        values.push(0);
        assert(values@ =~= Seq::new((i + 1) as nat, |j: int| 0u16));
    }
    let fi = FrameInfo {
        is_tcp: true,
        unit,
        func_code: 3,
        func_name: "已连接监听".to_string(),
        addr: 0,
        values,
        is_request: false,
    };
    state.is_tcp = true;
    keep_frame(state, fi, at);
}

/// The name under which a monitor keeps a failed read.
pub open spec fn failure_name(o: MonitorOutcome) -> Seq<char> {
    match o {
        MonitorOutcome::Values(_) => Seq::empty(),
        MonitorOutcome::Refused(e) => "异常: "@ + exception_name(e),
        MonitorOutcome::Failed(why) => "读取失败: "@ + why@,
        MonitorOutcome::TimedOut => "读取超时 (Timeout)"@,
    }
}

/// Takes over what came of a monitor's read from an offset on. Gives the offset
/// of the next run, or nothing if the rest is left to the next round.
pub fn monitor_take(
    state: &mut AppState,
    offset: usize,
    holding_count: usize,
    outcome: &MonitorOutcome,
    unit: u8,
    at: Option<Moment>,
) -> (r: Option<usize>)
    requires
        offset < holding_count,
        old(state).wf(),
        old(state).monitor@.total_frames < usize::MAX,
    ensures
        final(state).wf(),
        match *outcome {
            MonitorOutcome::Values(v) => {
                &&& r == Some((offset + chunk_len(offset as int, holding_count as int)) as usize)
                &&& holding_taken(
                    *old(state),
                    *final(state),
                    offset as int,
                    v@,
                    true,
                    unit,
                    "读保持寄存器"@,
                    crate::clock::clock_text(at),
                )
            },
            _ => {
                &&& r is None
                &&& crate::service::frame_kept(
                    *old(state),
                    *final(state),
                    read_frame(
                        true,
                        unit,
                        Table::Holding,
                        failure_name(*outcome),
                        offset as int,
                        Seq::empty(),
                    ),
                    crate::clock::clock_text(at),
                )
            },
        },
{
    let name: String = match outcome {
        MonitorOutcome::Values(v) => {
            take_holding(state, offset, v, true, unit, "读保持寄存器", at);
            let left: usize = holding_count - offset;
            let cnt: usize = if left < CHUNK {
                left
            } else {
                CHUNK
            };
            return Some(offset + cnt);
        },
        MonitorOutcome::Refused(e) => {
            let mut s = "异常: ".to_string();
            s.append(exception_text(*e).as_str());
            s
        },
        MonitorOutcome::Failed(why) => {
            let mut s = "读取失败: ".to_string();
            s.append(why.as_str());
            s
        },
        MonitorOutcome::TimedOut => "读取超时 (Timeout)".to_string(),
    };
    let fi = FrameInfo {
        is_tcp: true,
        unit,
        func_code: 3,
        func_name: name,
        addr: (offset % 65536) as u16,
        values: Vec::new(),
        is_request: false,
    };
    assert(fi@.values =~= Seq::<u16>::empty());
    keep_frame(state, fi, at);
    None
}

/// A client that reads every run of a table goes through the whole of it: after
/// a run it stands where the run ends, and what was taken over from an answer of
/// the length that was asked for is what was read.
pub proof fn law_read_run_is_taken(
    a: AppState,
    b: AppState,
    offset: int,
    count: int,
    values: Seq<u16>,
    is_tcp: bool,
    unit: u8,
    name: Seq<char>,
    time: Seq<char>,
    i: int,
)
    requires
        0 <= offset < count <= a.holding@.len(),
        values.len() == chunk_len(offset, count),
        holding_taken(a, b, offset, values, is_tcp, unit, name, time),
        0 <= i < a.holding@.len(),
    ensures
        b.holding@.len() == a.holding@.len(),
        offset <= i < offset + values.len() ==> b.holding@[i] == values[i - offset],
        !(offset <= i < offset + values.len()) ==> b.holding@[i] == a.holding@[i],
{
}

} // verus!

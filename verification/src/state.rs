//! The registers, coils and inputs of a device, and what is shown of them.
use crate::clock::{format_system_time, moment_now, Moment};
use crate::format::RegDataFormat;
use crate::frame::FrameInfo;
use crate::monitor::MonitorStats;
use std::collections::HashMap;
use vstd::prelude::*;

verus! {

/// Whether a register went up or down.
#[derive(Copy, Clone, Debug, PartialEq, Eq, Structural)]
pub enum ChangeDirection {
    Up,
    Down,
}

impl ChangeDirection {
    /// The arrow shown for a direction.
    pub open spec fn arrow(self) -> Seq<char> {
        match self {
            ChangeDirection::Up => "↑"@,
            ChangeDirection::Down => "↓"@,
        }
    }

    /// The arrow shown for a direction.
    pub fn label(self) -> (r: &'static str)
        ensures
            r@ == self.arrow(),
    {
        match self {
            ChangeDirection::Up => "↑",
            ChangeDirection::Down => "↓",
        }
    }
}

/// How a simulated register changes.
#[derive(Copy, Clone, Debug, PartialEq, Eq, Structural)]
pub enum RegChangePattern {
    /// By chance.
    Random,
    /// One up at a time to the top, then down to zero, and so on.
    UpDown,
    /// Along a sine wave.
    Sine,
    /// Along a square wave.
    Square,
    /// Along a triangle wave.
    Triangle,
}

impl RegChangePattern {
    /// The name shown for a pattern.
    pub open spec fn name(self) -> Seq<char> {
        match self {
            RegChangePattern::Random => "随机"@,
            RegChangePattern::UpDown => "上下"@,
            RegChangePattern::Sine => "正弦"@,
            RegChangePattern::Square => "方波"@,
            RegChangePattern::Triangle => "三角"@,
        }
    }

    /// The name shown for a pattern.
    pub fn label(self) -> (r: &'static str)
        ensures
            r@ == self.name(),
    {
        match self {
            RegChangePattern::Random => "随机",
            RegChangePattern::UpDown => "上下",
            RegChangePattern::Sine => "正弦",
            RegChangePattern::Square => "方波",
            RegChangePattern::Triangle => "三角",
        }
    }
}

/// A change of a register.
#[derive(Debug)]
pub struct RegChangeRecord {
    pub addr: usize,
    pub old_value: u16,
    pub new_value: u16,
    pub direction: ChangeDirection,
    pub human_time: String,
}

/// A change of a register, mathematically.
pub struct Change {
    pub addr: int,
    pub old_value: u16,
    pub new_value: u16,
    pub direction: ChangeDirection,
    pub time: Seq<char>,
}

impl View for RegChangeRecord {
    type V = Change;

    open spec fn view(&self) -> Change {
        Change {
            addr: self.addr as int,
            old_value: self.old_value,
            new_value: self.new_value,
            direction: self.direction,
            time: self.human_time@,
        }
    }
}

/// A frequency or a phase, as the bits of a number in double precision.
pub type DoubleBits = u64;

/// The bits of 1 in double precision.
pub const DOUBLE_ONE: u64 = 0x3FF0_0000_0000_0000;

/// The bits of 0 in double precision.
pub const DOUBLE_ZERO: u64 = 0;

/// A device as the program holds it, and the settings by which it is shown.
#[derive(Debug)]
pub struct AppState {
    /// Holding registers.
    pub holding: Vec<u16>,
    /// Notes on holding registers.
    pub holding_label: Vec<String>,
    /// Coils.
    pub coils: Vec<bool>,
    /// Discrete inputs, which are read only.
    pub discrete: Vec<bool>,
    /// Input registers, which are read only.
    pub input_registers: Vec<u16>,
    /// The frame that was seen last.
    pub last_frame: Option<FrameInfo>,
    pub is_tcp: bool,
    pub monitor: MonitorStats,
    pub stability_test_running: bool,
    /// Cycles of the stability test: all, those that succeeded, those that failed.
    pub stability_stats: (u64, u64, u64),
    /// The last changes of registers, the oldest first.
    pub reg_change_history: Vec<RegChangeRecord>,
    /// Which registers changed just now.
    pub reg_just_changed: Vec<bool>,
    /// In which direction each register changed last.
    pub reg_change_direction: Vec<ChangeDirection>,
    /// Which holding registers are simulated.
    pub holding_change_enabled: Vec<bool>,
    /// Which input registers are simulated.
    pub input_change_enabled: Vec<bool>,
    pub holding_change_patterns: Vec<RegChangePattern>,
    pub input_change_patterns: Vec<RegChangePattern>,
    pub holding_pattern_freqs: Vec<DoubleBits>,
    pub input_pattern_freqs: Vec<DoubleBits>,
    pub holding_pattern_phases: Vec<DoubleBits>,
    pub input_pattern_phases: Vec<DoubleBits>,
    /// Which tables a client reads: holding registers, coils, discrete inputs,
    /// input registers.
    pub read_enabled: [bool; 4],
    /// What a scan for units found: each unit, with its first register if it
    /// answered.
    pub slave_scan_result: Option<Vec<(u8, Option<u16>)>>,
    pub slave_scan_running: bool,
    /// The last values of each register, the oldest first.
    pub reg_bar_history: Vec<Vec<u16>>,
    pub reg_format: RegDataFormat,
    /// Whether the bytes of every register are exchanged.
    pub swap_bytes: bool,
    /// Whether the registers of every value are in reverse order.
    pub swap_words: bool,
    pub holding_swap_bytes: HashMap<usize, bool>,
    pub holding_swap_words: HashMap<usize, bool>,
    pub input_swap_bytes: HashMap<usize, bool>,
    pub input_swap_words: HashMap<usize, bool>,
    /// Formats of holding registers that differ from the rest, by address.
    pub holding_combinations: HashMap<usize, RegDataFormat>,
    /// Formats of input registers that differ from the rest, by address.
    pub input_combinations: HashMap<usize, RegDataFormat>,
}

impl Default for AppState {
    /// A device without any registers, of which a client would read the holding
    /// registers.
    fn default() -> (r: AppState)
        ensures
            r.wf(),
            r.holding@.len() == 0 && r.holding_label@.len() == 0 && r.coils@.len() == 0,
            r.discrete@.len() == 0 && r.input_registers@.len() == 0,
            r.last_frame is None,
            r.is_tcp,
            r.monitor@ == crate::monitor::no_stats(),
            !r.stability_test_running,
            r.stability_stats == (0u64, 0u64, 0u64),
            r.notes() == (Notes {
                changes: Seq::empty(),
                just_changed: Seq::empty(),
                direction: Seq::empty(),
                bars: Seq::empty(),
            }),
            r.holding_change_enabled@.len() == 0 && r.input_change_enabled@.len() == 0,
            r.holding_change_patterns@.len() == 0 && r.input_change_patterns@.len() == 0,
            r.holding_pattern_freqs@.len() == 0 && r.input_pattern_freqs@.len() == 0,
            r.holding_pattern_phases@.len() == 0 && r.input_pattern_phases@.len() == 0,
            r.read_enabled@ == seq![true, false, false, false],
            r.slave_scan_result is None,
            !r.slave_scan_running,
            r.reg_format == crate::format::plain_format(),
            !r.swap_bytes && !r.swap_words,
            r.holding_swap_bytes@ == Map::<usize, bool>::empty(),
            r.holding_swap_words@ == Map::<usize, bool>::empty(),
            r.input_swap_bytes@ == Map::<usize, bool>::empty(),
            r.input_swap_words@ == Map::<usize, bool>::empty(),
            r.holding_combinations@ == Map::<usize, RegDataFormat>::empty(),
            r.input_combinations@ == Map::<usize, RegDataFormat>::empty(),
    {
        let r = AppState {
            holding: Vec::new(),
            holding_label: Vec::new(),
            coils: Vec::new(),
            discrete: Vec::new(),
            input_registers: Vec::new(),
            last_frame: None,
            is_tcp: true,
            monitor: MonitorStats::default(),
            stability_test_running: false,
            stability_stats: (0, 0, 0),
            reg_change_history: Vec::new(),
            reg_just_changed: Vec::new(),
            reg_change_direction: Vec::new(),
            holding_change_enabled: Vec::new(),
            input_change_enabled: Vec::new(),
            holding_change_patterns: Vec::new(),
            input_change_patterns: Vec::new(),
            holding_pattern_freqs: Vec::new(),
            input_pattern_freqs: Vec::new(),
            holding_pattern_phases: Vec::new(),
            input_pattern_phases: Vec::new(),
            read_enabled: [true, false, false, false],
            slave_scan_result: None,
            slave_scan_running: false,
            reg_bar_history: Vec::new(),
            reg_format: RegDataFormat::default(),
            swap_bytes: false,
            swap_words: false,
            holding_swap_bytes: HashMap::new(),
            holding_swap_words: HashMap::new(),
            input_swap_bytes: HashMap::new(),
            input_swap_words: HashMap::new(),
            holding_combinations: HashMap::new(),
            input_combinations: HashMap::new(),
        };
        assert(r.notes().changes =~= Seq::<Change>::empty());
        assert(r.notes().bars =~= Seq::<Seq<u16>>::empty());
        assert(r.read_enabled@ =~= seq![true, false, false, false]);
        r
    }
}

/// How many changes are kept.
pub const MAX_CHANGES: usize = 500;

/// How many of the last values of a register are kept.
pub const BAR_HISTORY_SLOTS: usize = 20;

/// What is noted of changes of registers.
pub struct Notes {
    pub changes: Seq<Change>,
    pub just_changed: Seq<bool>,
    pub direction: Seq<ChangeDirection>,
    pub bars: Seq<Seq<u16>>,
}

/// The last values of each register.
pub open spec fn bars(v: Seq<Vec<u16>>) -> Seq<Seq<u16>> {
    Seq::new(v.len(), |i: int| v[i]@)
}

/// What changes say.
pub open spec fn changes(v: Seq<RegChangeRecord>) -> Seq<Change> {
    Seq::new(v.len(), |i: int| v[i]@)
}

impl AppState {
    /// What is noted of changes of registers.
    pub open spec fn notes(&self) -> Notes {
        Notes {
            changes: changes(self.reg_change_history@),
            just_changed: self.reg_just_changed@,
            direction: self.reg_change_direction@,
            bars: bars(self.reg_bar_history@),
        }
    }

    /// Whether every register that can be marked as changed has a direction,
    /// and the monitor has counted right.
    pub open spec fn wf(&self) -> bool {
        &&& self.reg_just_changed@.len() <= self.reg_change_direction@.len()
        &&& self.monitor@.wf()
    }
}

/// The direction of a change.
pub open spec fn direction_of(old_value: u16, new_value: u16) -> ChangeDirection {
    if new_value > old_value {
        ChangeDirection::Up
    } else {
        ChangeDirection::Down
    }
}

/// Lists with empty ones behind them up to a length.
pub open spec fn padded_bars(s: Seq<Seq<u16>>, len: int) -> Seq<Seq<u16>> {
    if s.len() >= len {
        s
    } else {
        s + Seq::new((len - s.len()) as nat, |i: int| Seq::<u16>::empty())
    }
}

/// What is noted when a register changes. That it keeps its value is no change.
pub open spec fn noted(n: Notes, addr: int, old_value: u16, new_value: u16, time: Seq<char>) -> Notes {
    if old_value == new_value {
        n
    } else {
        let direction = direction_of(old_value, new_value);
        let marked = addr < n.just_changed.len();
        let all = padded_bars(n.bars, addr + 1);
        Notes {
            changes: crate::monitor::appended(
                n.changes,
                Change { addr, old_value, new_value, direction, time },
                MAX_CHANGES as nat,
            ),
            just_changed: if marked {
                n.just_changed.update(addr, true)
            } else {
                n.just_changed
            },
            direction: if marked {
                n.direction.update(addr, direction)
            } else {
                n.direction
            },
            bars: all.update(
                addr,
                crate::monitor::appended(all[addr], new_value, BAR_HISTORY_SLOTS as nat),
            ),
        }
    }
}

/// Whether two states differ in what is noted of changes alone.
pub open spec fn only_notes_differ(a: AppState, b: AppState) -> bool {
    b == (AppState {
        reg_change_history: b.reg_change_history,
        reg_just_changed: b.reg_just_changed,
        reg_change_direction: b.reg_change_direction,
        reg_bar_history: b.reg_bar_history,
        ..a
    })
}

/// Notes a change of a register at a moment.
pub fn record_reg_change_at(
    state: &mut AppState,
    addr: usize,
    old_value: u16,
    new_value: u16,
    at: Option<Moment>,
)
    requires
        old(state).wf(),
        addr < usize::MAX,
    ensures
        final(state).wf(),
        only_notes_differ(*old(state), *final(state)),
        final(state).notes() == noted(
            old(state).notes(),
            addr as int,
            old_value,
            new_value,
            crate::clock::clock_text(at),
        ),
{
    let direction = if new_value > old_value {
        ChangeDirection::Up
    } else if new_value < old_value {
        ChangeDirection::Down
    } else {
        return ;
    };
    let ghost n0 = state.notes();
    let record = RegChangeRecord {
        addr,
        old_value,
        new_value,
        direction,
        human_time: format_system_time(at),
    };
    let ghost change = record@;
    if state.reg_change_history.len() >= MAX_CHANGES {
        state.reg_change_history.remove(0);
        assert(changes(state.reg_change_history@) =~= n0.changes.drop_first());
    }
    let ghost h = state.reg_change_history@;
    state.reg_change_history.push(record);
    assert(changes(state.reg_change_history@) =~= changes(h).push(change));
    if addr < state.reg_just_changed.len() {
        state.reg_just_changed.set(addr, true);
        state.reg_change_direction.set(addr, direction);
    }
    assert(padded_bars(n0.bars, n0.bars.len() as int) == n0.bars);
    let ghost st = *state;
    while state.reg_bar_history.len() <= addr
        invariant
            addr < usize::MAX,
            *state == (AppState { reg_bar_history: state.reg_bar_history, ..st }),
            n0.bars.len() <= state.reg_bar_history.len(),
            n0.bars.len() <= addr ==> state.reg_bar_history.len() <= addr + 1,
            n0.bars.len() > addr ==> state.reg_bar_history.len() == n0.bars.len(),
            bars(state.reg_bar_history@) == padded_bars(
                n0.bars,
                state.reg_bar_history.len() as int,
            ),
        decreases addr + 1 - state.reg_bar_history.len(),
    {
        let ghost b = state.reg_bar_history@;
        let empty: Vec<u16> = Vec::new();
        assert(empty@ =~= Seq::<u16>::empty());
        state.reg_bar_history.push(empty);
        assert(bars(state.reg_bar_history@) =~= bars(b).push(Seq::empty()));
        assert(bars(state.reg_bar_history@) =~= padded_bars(n0.bars, b.len() as int + 1));
    }
    let ghost all = padded_bars(n0.bars, addr + 1);
    assert(bars(state.reg_bar_history@) =~= all);
    let mut bar: Vec<u16> = crate::frame::copy_words(&state.reg_bar_history[addr]);
    if bar.len() >= BAR_HISTORY_SLOTS {
        bar.remove(0);
    }
    bar.push(new_value);
    assert(bar@ =~= crate::monitor::appended(
        all[addr as int],
        new_value,
        BAR_HISTORY_SLOTS as nat,
    ));
    let ghost b = bar@;
    state.reg_bar_history.set(addr, bar);
    assert(bars(state.reg_bar_history@) =~= all.update(addr as int, b));
}

/// Notes a change of a register now.
pub fn record_reg_change(state: &mut AppState, addr: usize, old_value: u16, new_value: u16)
    requires
        old(state).wf(),
        addr < usize::MAX,
    ensures
        final(state).wf(),
        only_notes_differ(*old(state), *final(state)),
        exists|at: Option<Moment>|
            final(state).notes() == noted(
                old(state).notes(),
                addr as int,
                old_value,
                new_value,
                #[trigger] crate::clock::clock_text(at),
            ),
{
    let at = moment_now();
    record_reg_change_at(state, addr, old_value, new_value, at);
}

/// What is kept of changes and of last values stays within its bounds.
pub proof fn law_notes_stay_bounded(
    n: Notes,
    addr: int,
    old_value: u16,
    new_value: u16,
    time: Seq<char>,
)
    requires
        0 <= addr,
        n.changes.len() <= MAX_CHANGES,
        forall|i: int| 0 <= i < n.bars.len() ==> (#[trigger] n.bars[i]).len() <= BAR_HISTORY_SLOTS,
    ensures
        noted(n, addr, old_value, new_value, time).changes.len() <= MAX_CHANGES,
        forall|i: int|
            0 <= i < noted(n, addr, old_value, new_value, time).bars.len() ==> (#[trigger] noted(
                n,
                addr,
                old_value,
                new_value,
                time,
            ).bars[i]).len() <= BAR_HISTORY_SLOTS,
{
}

/// The last change and the last value that are kept are those of the register
/// that changed last; the values of other registers stay as they were.
pub proof fn law_last_change_is_kept(
    n: Notes,
    addr: int,
    old_value: u16,
    new_value: u16,
    time: Seq<char>,
    other: int,
)
    requires
        0 <= addr,
        old_value != new_value,
        0 <= other < n.bars.len(),
        other != addr,
    ensures
        ({
            let m = noted(n, addr, old_value, new_value, time);
            &&& m.changes.last() == (Change {
                addr,
                old_value,
                new_value,
                direction: direction_of(old_value, new_value),
                time,
            })
            &&& m.bars[addr].last() == new_value
            &&& m.bars[other] == n.bars[other]
        }),
{
}

} // verus!

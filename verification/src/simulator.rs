//! Registers of a server that change by themselves.
use crate::clock::{moment_now, Moment};
use crate::state::{
    record_reg_change_at, AppState, ChangeDirection, DoubleBits, Notes, RegChangePattern,
    DOUBLE_ONE, DOUBLE_ZERO,
};
use vstd::prelude::*;

verus! {

/// A number drawn by `rand::random_range` from the ones from `low` up to
/// `high`; which of them is left to chance.
#[verifier::external_body]
fn random_between(low: u16, high: u16) -> (r: u16)
    requires
        low <= high,
    ensures
        low <= r <= high,
{
    rand::random_range(low..=high)
}

/// Whether something happens that happens `numerator` times in `denominator`,
/// drawn by `rand::random_ratio`; what never or always happens is certain.
#[verifier::external_body]
fn random_chance(numerator: u32, denominator: u32) -> (r: bool)
    requires
        numerator <= denominator,
        denominator > 0,
    ensures
        numerator == 0 ==> !r,
        numerator == denominator ==> r,
{
    rand::random_ratio(numerator, denominator)
}

/// What was drawn for a register that changes by chance.
#[derive(Copy, Clone, Debug, PartialEq, Eq, Structural)]
pub struct Draw {
    /// Whether the register is passed over this time.
    pub skip: bool,
    /// By how much it changes.
    pub delta: u16,
    /// Whether it goes up.
    pub rise: bool,
}

impl Draw {
    /// A register changes by 1 to 50.
    pub open spec fn wf(self) -> bool {
        1 <= self.delta <= 50
    }
}

/// Draws for a register that changes by chance.
pub fn draw() -> (r: Draw)
    ensures
        r.wf(),
{
    Draw {
        skip: random_chance(67, 100),
        delta: random_between(1, 50),
        rise: random_chance(1, 2),
    }
}

/// Where a wave stands after a tick: its phase and its value.
#[derive(Copy, Clone, Debug, PartialEq, Eq, Structural)]
pub struct Wave {
    pub phase: DoubleBits,
    pub value: u16,
}

/// Whether a pattern follows a wave.
pub open spec fn is_wave(p: RegChangePattern) -> bool {
    p is Sine || p is Square || p is Triangle
}

/// The next value of a register, and whether it is on its way up.
pub open spec fn stepped(
    pattern: RegChangePattern,
    current: u16,
    up: bool,
    draw: Draw,
    wave: u16,
) -> (u16, bool) {
    match pattern {
        RegChangePattern::Random => (
            if draw.rise {
                if current + draw.delta > 65535 {
                    65535u16
                } else {
                    (current + draw.delta) as u16
                }
            } else {
                if current < draw.delta {
                    0u16
                } else {
                    (current - draw.delta) as u16
                }
            },
            up,
        ),
        RegChangePattern::UpDown => if up {
            if current >= 65534 {
                (65535u16, false)
            } else {
                ((current + 1) as u16, true)
            }
        } else {
            if current <= 1 {
                (0u16, true)
            } else {
                ((current - 1) as u16, false)
            }
        },
        _ => (wave, up),
    }
}

/// The next value of a register, and whether it is on its way up.
pub fn compute_pattern_value(
    pattern: RegChangePattern,
    current: u16,
    is_up: bool,
    draw: Draw,
    wave: u16,
) -> (r: (u16, bool))
    ensures
        r == stepped(pattern, current, is_up, draw, wave),
{
    match pattern {
        RegChangePattern::Random => {
            let next: u16 = if draw.rise {
                current.saturating_add(draw.delta)
            } else {
                current.saturating_sub(draw.delta)
            };
            (next, is_up)
        },
        RegChangePattern::UpDown => {
            if is_up {
                let next: u16 = current.saturating_add(1);
                (next, next != 65535)
            } else {
                let next: u16 = current.saturating_sub(1);
                (next, next == 0)
            }
        },
        RegChangePattern::Sine | RegChangePattern::Square | RegChangePattern::Triangle => (
            wave,
            is_up,
        ),
    }
}

/// A list with one thing put behind it up to a length.
pub open spec fn filled<T>(s: Seq<T>, len: int, x: T) -> Seq<T> {
    if s.len() >= len {
        s
    } else {
        s + Seq::new((len - s.len()) as nat, |i: int| x)
    }
}

/// Puts a thing behind a list up to a length.
fn fill<T: Copy>(v: &mut Vec<T>, len: usize, x: T)
    ensures
        final(v)@ == filled(old(v)@, len as int, x),
{
    while v.len() < len
        invariant
            v@ == filled(old(v)@, v@.len() as int, x),
            old(v)@.len() <= v.len(),
            v.len() <= len || v@ == old(v)@,
        decreases len - v.len(),
    {
        let ghost before = v@;
        v.push(x);
        assert(v@ =~= filled(old(v)@, before.len() as int + 1, x));
    }
}

/// The settings and notes of registers, as many as there are registers.
pub open spec fn prepared(a: AppState, b: AppState) -> bool {
    let h = a.holding@.len() as int;
    let n = a.input_registers@.len() as int;
    let new_h = h - a.holding_change_patterns@.len();
    let new_n = n - a.input_change_patterns@.len();
    &&& b == (AppState {
        holding_change_enabled: b.holding_change_enabled,
        input_change_enabled: b.input_change_enabled,
        holding_change_patterns: b.holding_change_patterns,
        input_change_patterns: b.input_change_patterns,
        holding_pattern_freqs: b.holding_pattern_freqs,
        input_pattern_freqs: b.input_pattern_freqs,
        holding_pattern_phases: b.holding_pattern_phases,
        input_pattern_phases: b.input_pattern_phases,
        reg_change_direction: b.reg_change_direction,
        reg_just_changed: b.reg_just_changed,
        reg_bar_history: b.reg_bar_history,
        ..a
    })
    &&& b.holding_change_enabled@ == filled(a.holding_change_enabled@, h, false)
    &&& b.input_change_enabled@ == filled(a.input_change_enabled@, n, false)
    &&& b.holding_change_patterns@ == filled(
        a.holding_change_patterns@,
        h,
        RegChangePattern::Random,
    )
    &&& b.input_change_patterns@ == filled(a.input_change_patterns@, n, RegChangePattern::Random)
    &&& b.holding_pattern_freqs@ == filled(
        a.holding_pattern_freqs@,
        a.holding_pattern_freqs@.len() + new_h,
        DOUBLE_ONE,
    )
    &&& b.input_pattern_freqs@ == filled(
        a.input_pattern_freqs@,
        a.input_pattern_freqs@.len() + new_n,
        DOUBLE_ONE,
    )
    &&& b.holding_pattern_phases@ == filled(
        a.holding_pattern_phases@,
        a.holding_pattern_phases@.len() + new_h,
        DOUBLE_ZERO,
    )
    &&& b.input_pattern_phases@ == filled(
        a.input_pattern_phases@,
        a.input_pattern_phases@.len() + new_n,
        DOUBLE_ZERO,
    )
    &&& b.reg_change_direction@ == filled(a.reg_change_direction@, h + n, ChangeDirection::Up)
    &&& b.reg_just_changed@ == filled(a.reg_just_changed@, h + n, false)
    &&& crate::state::bars(b.reg_bar_history@) == crate::state::padded_bars(
        crate::state::bars(a.reg_bar_history@),
        h + n,
    )
}

fn fill_wave(
    patterns: &mut Vec<RegChangePattern>,
    freqs: &mut Vec<DoubleBits>,
    phases: &mut Vec<DoubleBits>,
    len: usize,
)
    requires
        old(freqs)@.len() + len <= usize::MAX,
        old(phases)@.len() + len <= usize::MAX,
    ensures
        final(patterns)@ == filled(old(patterns)@, len as int, RegChangePattern::Random),
        final(freqs)@ == filled(
            old(freqs)@,
            old(freqs)@.len() + len - old(patterns)@.len(),
            DOUBLE_ONE,
        ),
        final(phases)@ == filled(
            old(phases)@,
            old(phases)@.len() + len - old(patterns)@.len(),
            DOUBLE_ZERO,
        ),
{
    if patterns.len() < len {
        let more: usize = len - patterns.len();
        fill(freqs, freqs.len() + more, DOUBLE_ONE);
        fill(phases, phases.len() + more, DOUBLE_ZERO);
        fill(patterns, len, RegChangePattern::Random);
    }
}

/// Gives every register settings and notes, those of one that is not simulated
/// where there are none.
pub fn prepare(s: &mut AppState)
    requires
        old(s).wf(),
        old(s).holding@.len() + old(s).input_registers@.len() <= usize::MAX,
        old(s).holding_pattern_freqs@.len() + old(s).holding@.len() <= usize::MAX,
        old(s).holding_pattern_phases@.len() + old(s).holding@.len() <= usize::MAX,
        old(s).input_pattern_freqs@.len() + old(s).input_registers@.len() <= usize::MAX,
        old(s).input_pattern_phases@.len() + old(s).input_registers@.len() <= usize::MAX,
    ensures
        final(s).wf(),
        prepared(*old(s), *final(s)),
{
    let h: usize = s.holding.len();
    let n: usize = s.input_registers.len();
    fill(&mut s.holding_change_enabled, h, false);
    fill(&mut s.input_change_enabled, n, false);
    fill_wave(
        &mut s.holding_change_patterns,
        &mut s.holding_pattern_freqs,
        &mut s.holding_pattern_phases,
        h,
    );
    fill_wave(
        &mut s.input_change_patterns,
        &mut s.input_pattern_freqs,
        &mut s.input_pattern_phases,
        n,
    );
    fill(&mut s.reg_change_direction, h + n, ChangeDirection::Up);
    fill(&mut s.reg_just_changed, h + n, false);
    let ghost b0 = crate::state::bars(old(s).reg_bar_history@);
    let ghost st = *s;
    while s.reg_bar_history.len() < h + n
        invariant
            h + n <= usize::MAX,
            *s == (AppState { reg_bar_history: s.reg_bar_history, ..st }),
            b0.len() <= s.reg_bar_history.len(),
            s.reg_bar_history.len() <= h + n || s.reg_bar_history.len() == b0.len(),
            crate::state::bars(s.reg_bar_history@) == crate::state::padded_bars(
                b0,
                s.reg_bar_history.len() as int,
            ),
        decreases h + n - s.reg_bar_history.len(),
    {
        let ghost b = s.reg_bar_history@;
        let empty: Vec<u16> = Vec::new();
        assert(empty@ =~= Seq::<u16>::empty());
        s.reg_bar_history.push(empty);
        assert(crate::state::bars(s.reg_bar_history@) =~= crate::state::bars(b).push(Seq::empty()));
        assert(crate::state::bars(s.reg_bar_history@) =~= crate::state::padded_bars(
            b0,
            b.len() as int + 1,
        ));
    }
}

/// What a tick moves: registers, the phases of their waves, and the notes.
pub struct Sim {
    pub regs: Seq<u16>,
    pub phases: Seq<DoubleBits>,
    pub notes: Notes,
}

/// How the registers of a table are simulated.
pub struct Plan {
    pub enabled: Seq<bool>,
    pub patterns: Seq<RegChangePattern>,
    pub draws: Seq<Draw>,
    pub waves: Seq<Wave>,
    /// Where the directions of the registers start.
    pub base: int,
    /// Whether changes are noted.
    pub noted: bool,
    pub time: Seq<char>,
}

/// A direction by whether it is up.
pub open spec fn way(up: bool) -> ChangeDirection {
    if up {
        ChangeDirection::Up
    } else {
        ChangeDirection::Down
    }
}

/// What the tick of one register gives.
pub open spec fn ticked(m: Sim, p: Plan, i: int) -> Sim {
    let pattern = p.patterns[i];
    if !p.enabled[i] || (pattern is Random && p.draws[i].skip) {
        m
    } else {
        let before = m.regs[i];
        let (after, up) = stepped(
            pattern,
            before,
            m.notes.direction[p.base + i] is Up,
            p.draws[i],
            p.waves[i].value,
        );
        let turned = Notes {
            direction: m.notes.direction.update(p.base + i, way(up)),
            ..m.notes
        };
        Sim {
            regs: m.regs.update(i, after),
            phases: if is_wave(pattern) && i < m.phases.len() {
                m.phases.update(i, p.waves[i].phase)
            } else {
                m.phases
            },
            notes: if p.noted {
                crate::state::noted(turned, i, before, after, p.time)
            } else {
                turned
            },
        }
    }
}

/// What the ticks of the first `n` registers give, one after another.
pub open spec fn ticked_all(m: Sim, p: Plan, n: int) -> Sim
    decreases n,
{
    if n <= 0 {
        m
    } else {
        ticked(ticked_all(m, p, n - 1), p, n - 1)
    }
}

/// The holding registers that a tick moves.
pub open spec fn holding_sim(s: AppState) -> Sim {
    Sim { regs: s.holding@, phases: s.holding_pattern_phases@, notes: s.notes() }
}

/// The input registers that a tick moves.
pub open spec fn input_sim(s: AppState) -> Sim {
    Sim { regs: s.input_registers@, phases: s.input_pattern_phases@, notes: s.notes() }
}

/// How the holding registers are simulated. Their changes are noted.
pub open spec fn holding_plan(
    s: AppState,
    draws: Seq<Draw>,
    waves: Seq<Wave>,
    time: Seq<char>,
) -> Plan {
    Plan {
        enabled: s.holding_change_enabled@,
        patterns: s.holding_change_patterns@,
        draws,
        waves,
        base: 0,
        noted: true,
        time,
    }
}

/// How the input registers are simulated. Their directions stand behind those
/// of the holding registers.
pub open spec fn input_plan(
    s: AppState,
    draws: Seq<Draw>,
    waves: Seq<Wave>,
    time: Seq<char>,
) -> Plan {
    Plan {
        enabled: s.input_change_enabled@,
        patterns: s.input_change_patterns@,
        draws,
        waves,
        base: s.holding@.len() as int,
        noted: false,
        time,
    }
}

/// Whether there are settings and directions for all registers.
pub open spec fn set_up(s: AppState) -> bool {
    let h = s.holding@.len();
    let n = s.input_registers@.len();
    &&& s.wf()
    &&& h + n <= usize::MAX
    &&& s.holding_change_enabled@.len() >= h
    &&& s.holding_change_patterns@.len() >= h
    &&& s.input_change_enabled@.len() >= n
    &&& s.input_change_patterns@.len() >= n
    &&& s.reg_change_direction@.len() >= h + n
}

/// How many registers are simulated.
pub open spec fn registers(s: AppState) -> nat {
    s.holding@.len() + s.input_registers@.len()
}

/// Whether there are settings, draws and waves for all registers.
pub open spec fn ready(s: AppState, draws: Seq<Draw>, waves: Seq<Wave>) -> bool {
    set_up(s) && draws.len() >= registers(s) && waves.len() >= registers(s)
}

/// Whether all of some draws can be drawn.
pub open spec fn can_be_drawn(draws: Seq<Draw>) -> bool {
    forall|i: int| 0 <= i < draws.len() ==> (#[trigger] draws[i]).wf()
}

/// Whether two states differ in holding registers, their phases and the notes
/// alone.
pub open spec fn only_holding_moves(a: AppState, b: AppState) -> bool {
    b == (AppState {
        holding: b.holding,
        holding_pattern_phases: b.holding_pattern_phases,
        reg_change_history: b.reg_change_history,
        reg_just_changed: b.reg_just_changed,
        reg_change_direction: b.reg_change_direction,
        reg_bar_history: b.reg_bar_history,
        ..a
    })
}

/// Whether two states differ in input registers, their phases and the
/// directions alone.
pub open spec fn only_inputs_move(a: AppState, b: AppState) -> bool {
    b == (AppState {
        input_registers: b.input_registers,
        input_pattern_phases: b.input_pattern_phases,
        reg_change_direction: b.reg_change_direction,
        ..a
    })
}

fn tick_holding(s: &mut AppState, draws: &Vec<Draw>, waves: &Vec<Wave>, at: Option<Moment>)
    requires
        ready(*old(s), draws@, waves@),
    ensures
        final(s).wf(),
        only_holding_moves(*old(s), *final(s)),
        final(s).reg_change_direction@.len() == old(s).reg_change_direction@.len(),
        final(s).holding@.len() == old(s).holding@.len(),
        holding_sim(*final(s)) == ticked_all(
            holding_sim(*old(s)),
            holding_plan(*old(s), draws@, waves@, crate::clock::clock_text(at)),
            old(s).holding@.len() as int,
        ),
{
    let h: usize = s.holding.len();
    let ghost plan = holding_plan(*s, draws@, waves@, crate::clock::clock_text(at));
    let ghost start = holding_sim(*s);
    for addr in 0..h
        invariant
            h == old(s).holding@.len(),
            s.holding.len() == h,
            ready(*old(s), draws@, waves@),
            s.wf(),
            only_holding_moves(*old(s), *s),
            s.reg_change_direction@.len() == old(s).reg_change_direction@.len(),
            plan == holding_plan(*old(s), draws@, waves@, crate::clock::clock_text(at)),
            start == holding_sim(*old(s)),
            holding_sim(*s) == ticked_all(start, plan, addr as int),
    {
        let ghost before = holding_sim(*s);
        let pattern = s.holding_change_patterns[addr];
        let skip: bool = match pattern {
            RegChangePattern::Random => draws[addr].skip,
            _ => false,
        };
        if s.holding_change_enabled[addr] && !skip {
            let current: u16 = s.holding[addr];
            let is_up: bool = match s.reg_change_direction[addr] {
                ChangeDirection::Up => true,
                ChangeDirection::Down => false,
            };
            let (next, up) = compute_pattern_value(
                pattern,
                current,
                is_up,
                draws[addr],
                waves[addr].value,
            );
            match pattern {
                RegChangePattern::Sine | RegChangePattern::Square | RegChangePattern::Triangle => {
                    if addr < s.holding_pattern_phases.len() {
                        s.holding_pattern_phases.set(addr, waves[addr].phase);
                    }
                },
                _ => {},
            }
            let direction = if up {
                ChangeDirection::Up
            } else {
                ChangeDirection::Down
            };
            s.reg_change_direction.set(addr, direction);
            s.holding.set(addr, next);
            record_reg_change_at(s, addr, current, next, at);
            assert(holding_sim(*s) == ticked(before, plan, addr as int));
        }
        assert(holding_sim(*s) == ticked(before, plan, addr as int));
    }
}

fn tick_inputs(s: &mut AppState, draws: &Vec<Draw>, waves: &Vec<Wave>, at: Option<Moment>)
    requires
        ready(*old(s), draws@, waves@),
    ensures
        final(s).wf(),
        only_inputs_move(*old(s), *final(s)),
        final(s).input_registers@.len() == old(s).input_registers@.len(),
        input_sim(*final(s)) == ticked_all(
            input_sim(*old(s)),
            input_plan(
                *old(s),
                draws@.skip(old(s).holding@.len() as int),
                waves@.skip(old(s).holding@.len() as int),
                crate::clock::clock_text(at),
            ),
            old(s).input_registers@.len() as int,
        ),
{
    let h: usize = s.holding.len();
    let n: usize = s.input_registers.len();
    let ghost plan = input_plan(
        *s,
        draws@.skip(h as int),
        waves@.skip(h as int),
        crate::clock::clock_text(at),
    );
    let ghost start = input_sim(*s);
    for addr in 0..n
        invariant
            h == old(s).holding@.len(),
            n == old(s).input_registers@.len(),
            s.input_registers.len() == n,
            ready(*old(s), draws@, waves@),
            s.wf(),
            only_inputs_move(*old(s), *s),
            s.reg_change_direction@.len() == old(s).reg_change_direction@.len(),
            plan == input_plan(
                *old(s),
                draws@.skip(h as int),
                waves@.skip(h as int),
                crate::clock::clock_text(at),
            ),
            start == input_sim(*old(s)),
            input_sim(*s) == ticked_all(start, plan, addr as int),
    {
        let ghost before = input_sim(*s);
        let pattern = s.input_change_patterns[addr];
        let place: usize = h + addr;
        let drawn = draws[place];
        let wave = waves[place];
        assert(plan.draws[addr as int] == drawn);
        assert(plan.waves[addr as int] == wave);
        let skip: bool = match pattern {
            RegChangePattern::Random => drawn.skip,
            _ => false,
        };
        if s.input_change_enabled[addr] && !skip {
            let current: u16 = s.input_registers[addr];
            let is_up: bool = match s.reg_change_direction[place] {
                ChangeDirection::Up => true,
                ChangeDirection::Down => false,
            };
            let (next, up) = compute_pattern_value(pattern, current, is_up, drawn, wave.value);
            match pattern {
                RegChangePattern::Sine | RegChangePattern::Square | RegChangePattern::Triangle => {
                    if addr < s.input_pattern_phases.len() {
                        s.input_pattern_phases.set(addr, wave.phase);
                    }
                },
                _ => {},
            }
            let direction = if up {
                ChangeDirection::Up
            } else {
                ChangeDirection::Down
            };
            s.reg_change_direction.set(place, direction);
            s.input_registers.set(addr, next);
            assert(input_sim(*s) == ticked(before, plan, addr as int));
        }
        assert(input_sim(*s) == ticked(before, plan, addr as int));
    }
}

/// Whether one state follows from another by a tick of all registers.
pub open spec fn simulated(
    a: AppState,
    b: AppState,
    draws: Seq<Draw>,
    waves: Seq<Wave>,
    time: Seq<char>,
) -> bool {
    let h = a.holding@.len() as int;
    let n = a.input_registers@.len() as int;
    let first = ticked_all(holding_sim(a), holding_plan(a, draws, waves, time), h);
    let then = ticked_all(
        Sim { notes: first.notes, ..input_sim(a) },
        input_plan(a, draws.skip(h), waves.skip(h), time),
        n,
    );
    &&& b == (AppState {
        holding: b.holding,
        holding_pattern_phases: b.holding_pattern_phases,
        input_registers: b.input_registers,
        input_pattern_phases: b.input_pattern_phases,
        reg_change_history: b.reg_change_history,
        reg_just_changed: b.reg_just_changed,
        reg_change_direction: b.reg_change_direction,
        reg_bar_history: b.reg_bar_history,
        ..a
    })
    &&& b.holding@ == first.regs
    &&& b.holding_pattern_phases@ == first.phases
    &&& b.input_registers@ == then.regs
    &&& b.input_pattern_phases@ == then.phases
    &&& b.notes() == then.notes
}

/// Moves every register on by a tick: the holding registers first, then the
/// input registers, each by what was drawn for it or by where its wave stands.
pub fn simulate_at(s: &mut AppState, draws: &Vec<Draw>, waves: &Vec<Wave>, at: Option<Moment>)
    requires
        ready(*old(s), draws@, waves@),
    ensures
        final(s).wf(),
        simulated(*old(s), *final(s), draws@, waves@, crate::clock::clock_text(at)),
{
    tick_holding(s, draws, waves, at);
    let ghost mid = *s;
    tick_inputs(s, draws, waves, at);
    assert(s.notes().changes == mid.notes().changes);
}

/// Moves every register on by a tick, now, and by what is drawn for it.
pub fn simulate(s: &mut AppState, waves: &Vec<Wave>)
    requires
        set_up(*old(s)),
        waves@.len() >= registers(*old(s)),
    ensures
        final(s).wf(),
        exists|draws: Seq<Draw>, at: Option<Moment>|
            #[trigger] can_be_drawn(draws) && simulated(
                *old(s),
                *final(s),
                draws,
                waves@,
                #[trigger] crate::clock::clock_text(at),
            ),
{
    let h: usize = s.holding.len();
    let n: usize = s.input_registers.len();
    let mut draws: Vec<Draw> = Vec::new();
    for i in 0..h + n
        invariant
            h + n <= usize::MAX,
            draws@.len() == i,
            can_be_drawn(draws@),
    {
        draws.push(draw());
    }
    let at = moment_now();
    simulate_at(s, &draws, waves, at);
}

/// Every register has settings once it is prepared.
pub proof fn law_prepared_is_set_up(a: AppState, b: AppState)
    requires
        a.wf(),
        registers(a) <= usize::MAX,
        prepared(a, b),
    ensures
        set_up(b),
        b.holding@ == a.holding@,
        b.input_registers@ == a.input_registers@,
{
}

/// A plan for `n` registers.
pub open spec fn fits(m: Sim, p: Plan, n: int) -> bool {
    &&& 0 <= n <= m.regs.len()
    &&& 0 <= p.base
    &&& p.noted ==> p.base == 0
    &&& p.base + n <= m.notes.direction.len()
}

/// The ticks of the registers before do not move a register or its direction.
proof fn lemma_ticks_before(m: Sim, p: Plan, n: int, i: int)
    requires
        fits(m, p, n),
        n <= i < m.regs.len(),
        p.base + i < m.notes.direction.len(),
    ensures
        ticked_all(m, p, n).regs.len() == m.regs.len(),
        ticked_all(m, p, n).notes.direction.len() == m.notes.direction.len(),
        ticked_all(m, p, n).regs[i] == m.regs[i],
        ticked_all(m, p, n).notes.direction[p.base + i] == m.notes.direction[p.base + i],
    decreases n,
{
    if n > 0 {
        lemma_ticks_before(m, p, n - 1, i);
        lemma_ticks_before(m, p, n - 1, n - 1);
    }
}

/// A tick moves each register exactly once, by its own setting, its own
/// direction before the tick and what was drawn for it; a register that is not
/// simulated or that is passed over stays as it is.
pub proof fn law_tick_moves_each_register_once(m: Sim, p: Plan, n: int, i: int)
    requires
        fits(m, p, n),
        0 <= i < n,
    ensures
        ticked_all(m, p, n).regs.len() == m.regs.len(),
        ticked_all(m, p, n).regs[i] == if !p.enabled[i] || (p.patterns[i] is Random
            && p.draws[i].skip) {
            m.regs[i]
        } else {
            stepped(
                p.patterns[i],
                m.regs[i],
                m.notes.direction[p.base + i] is Up,
                p.draws[i],
                p.waves[i].value,
            ).0
        },
    decreases n,
{
    lemma_ticks_before(m, p, n - 1, n - 1);
    if i < n - 1 {
        law_tick_moves_each_register_once(m, p, n - 1, i);
    }
}

/// A register that changes by chance changes by at most 50, and stays within
/// its range.
pub proof fn law_chance_stays_near(current: u16, up: bool, draw: Draw, wave: u16)
    requires
        draw.wf(),
    ensures
        ({
            let next = stepped(RegChangePattern::Random, current, up, draw, wave).0;
            &&& -50 <= next - current <= 50
            &&& draw.rise ==> next >= current
            &&& !draw.rise ==> next <= current
        }),
{
}

/// A register that goes up and down moves by one at a time, turns at the top
/// and at zero and nowhere else.
pub proof fn law_up_and_down(current: u16, up: bool, draw: Draw, wave: u16)
    ensures
        ({
            let (next, then) = stepped(RegChangePattern::UpDown, current, up, draw, wave);
            &&& up && current < 65535 ==> next == current + 1
            &&& !up && current > 0 ==> next == current - 1
            &&& up ==> (then <==> next < 65535)
            &&& !up ==> (then <==> next == 0)
        }),
{
}

} // verus!

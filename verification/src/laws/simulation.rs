//! How simulated registers move.
use crate::simulator::{
    filled, holding_plan, holding_sim, input_plan, input_sim, prepared, ready, simulated, stepped,
    ticked, ticked_all, Draw, Plan, Sim, Wave,
};
use crate::state::{AppState, RegChangePattern};
use vstd::prelude::*;

verus! {

/// A register that changes by chance goes up by what was drawn, but not above the
/// largest number, or down by it, but not below zero, as was drawn. Its way is as it
/// was.
pub proof fn law_chance_moves_by_what_was_drawn(current: u16, up: bool, draw: Draw, wave: u16)
    ensures
        ({
            let (next, way) = stepped(RegChangePattern::Random, current, up, draw, wave);
            &&& way == up
            &&& draw.rise && current + draw.delta <= 65535 ==> next == current + draw.delta
            &&& draw.rise && current + draw.delta > 65535 ==> next == 65535
            &&& !draw.rise && current >= draw.delta ==> next == current - draw.delta
            &&& !draw.rise && current < draw.delta ==> next == 0
        }),
{
}

/// A register that goes up and down moves by one the way that it goes, and turns at
/// the ends: on its way up it turns where it comes to the largest number, on its way
/// down where it comes to zero.
pub proof fn law_up_and_down_moves_by_one(current: u16, up: bool, draw: Draw, wave: u16)
    ensures
        ({
            let (next, way) = stepped(RegChangePattern::UpDown, current, up, draw, wave);
            &&& up && current < 65535 ==> next == current + 1
            &&& up && current == 65535 ==> next == 65535
            &&& up ==> way == (next != 65535)
            &&& !up && current > 0 ==> next == current - 1
            &&& !up && current == 0 ==> next == 0
            &&& !up ==> way == (next == 0)
        }),
{
}

/// A register that follows a wave is where the wave is, and its way is as it was.
pub proof fn law_wave_is_followed(
    pattern: RegChangePattern,
    current: u16,
    up: bool,
    draw: Draw,
    wave: u16,
)
    requires
        pattern is Sine || pattern is Square || pattern is Triangle,
    ensures
        stepped(pattern, current, up, draw, wave) == (wave, up),
{
}

/// A tick moves a register that is switched on, and one that changes by chance only
/// where it is not passed over. No other register moves.
pub proof fn law_tick_moves_one_register(m: Sim, p: Plan, i: int, j: int)
    requires
        0 <= i < m.regs.len(),
        0 <= j < m.regs.len(),
        0 <= p.base,
        p.base + i < m.notes.direction.len(),
    ensures
        ticked(m, p, i).regs.len() == m.regs.len(),
        j != i ==> ticked(m, p, i).regs[j] == m.regs[j],
        !p.enabled[i] ==> ticked(m, p, i) == m,
        p.patterns[i] is Random && p.draws[i].skip ==> ticked(m, p, i) == m,
        p.enabled[i] && p.patterns[i] is Random && !p.draws[i].skip && p.draws[i].rise && m.regs[i]
            + p.draws[i].delta <= 65535 ==> ticked(m, p, i).regs[i] == m.regs[i]
            + p.draws[i].delta,
        p.enabled[i] && p.patterns[i] is Random && !p.draws[i].skip && !p.draws[i].rise && m.regs[i]
            >= p.draws[i].delta ==> ticked(m, p, i).regs[i] == m.regs[i] - p.draws[i].delta,
        p.enabled[i] && p.patterns[i] is UpDown && m.notes.direction[p.base + i] is Up && m.regs[i]
            < 65535 ==> ticked(m, p, i).regs[i] == m.regs[i] + 1,
        p.enabled[i] && p.patterns[i] is UpDown && m.notes.direction[p.base + i] is Down
            && m.regs[i] > 0 ==> ticked(m, p, i).regs[i] == m.regs[i] - 1,
        p.enabled[i] && (p.patterns[i] is Sine || p.patterns[i] is Square || p.patterns[i]
            is Triangle) ==> ticked(m, p, i).regs[i] == p.waves[i].value,
{
}

/// A tick of a register that follows a wave brings the phase of its wave forward, and
/// no other tick brings forward a phase.
pub proof fn law_tick_moves_phase_of_wave(m: Sim, p: Plan, i: int, j: int)
    requires
        0 <= i < m.phases.len(),
        0 <= j < m.phases.len(),
    ensures
        j != i ==> ticked(m, p, i).phases[j] == m.phases[j],
        p.enabled[i] && (p.patterns[i] is Sine || p.patterns[i] is Square || p.patterns[i]
            is Triangle) ==> ticked(m, p, i).phases[i] == p.waves[i].phase,
        p.patterns[i] is Random || p.patterns[i] is UpDown ==> ticked(m, p, i).phases == m.phases,
{
}

/// A tick keeps the way of a register but where it turns: from up to down at the
/// largest number, and from down to up at zero.
pub proof fn law_tick_keeps_the_way(m: Sim, p: Plan, i: int)
    requires
        !p.noted,
        0 <= p.base,
        0 <= i,
        p.base + i < m.notes.direction.len(),
    ensures
        ({
            let before = m.notes.direction[p.base + i];
            let after = ticked(m, p, i).notes.direction[p.base + i];
            &&& after != before ==> p.enabled[i] && p.patterns[i] is UpDown
            &&& after != before && before is Up ==> ticked(m, p, i).regs == m.regs.update(i, 65535)
            &&& after != before && before is Down ==> ticked(m, p, i).regs == m.regs.update(i, 0)
        }),
{
}

/// A tick of the device moves each holding register that is simulated by what was drawn
/// for it or by its own wave, and leaves every other one as it is.
#[verifier::spinoff_prover]
pub proof fn law_tick_moves_holding_registers(
    a: AppState,
    b: AppState,
    draws: Seq<Draw>,
    waves: Seq<Wave>,
    time: Seq<char>,
    i: int,
)
    requires
        ready(a, draws, waves),
        simulated(a, b, draws, waves, time),
        0 <= i < a.holding@.len(),
    ensures
        ({
            let on = a.holding_change_enabled@[i];
            let p = a.holding_change_patterns@[i];
            let v = a.holding@[i];
            let w = b.holding@[i];
            let d = draws[i];
            &&& b.holding@.len() == a.holding@.len()
            &&& !on || p is Random && d.skip ==> w == v
            &&& on && p is Random && !d.skip && d.rise ==> w == if v + d.delta > 65535 {
                65535
            } else {
                v + d.delta
            }
            &&& on && p is Random && !d.skip && !d.rise ==> w == if v < d.delta {
                0
            } else {
                v - d.delta
            }
            &&& on && p is UpDown && a.reg_change_direction@[i] is Up ==> w == if v == 65535 {
                65535
            } else {
                v + 1
            }
            &&& on && p is UpDown && a.reg_change_direction@[i] is Down ==> w == if v == 0 {
                0
            } else {
                v - 1
            }
            &&& on && (p is Sine || p is Square || p is Triangle) ==> w == waves[i].value
        }),
{
    let h = a.holding@.len() as int;
    let m = holding_sim(a);
    let p = holding_plan(a, draws, waves, time);
    crate::simulator::law_tick_moves_each_register_once(m, p, h, i);
}

/// A tick moves the input registers too, by what was drawn for them behind the holding
/// registers.
#[verifier::spinoff_prover]
pub proof fn law_tick_moves_input_registers(
    a: AppState,
    b: AppState,
    draws: Seq<Draw>,
    waves: Seq<Wave>,
    time: Seq<char>,
    i: int,
)
    requires
        ready(a, draws, waves),
        simulated(a, b, draws, waves, time),
        0 <= i < a.input_registers@.len(),
    ensures
        ({
            let h = a.holding@.len() as int;
            let on = a.input_change_enabled@[i];
            let p = a.input_change_patterns@[i];
            let v = a.input_registers@[i];
            let w = b.input_registers@[i];
            let d = draws[h + i];
            &&& b.input_registers@.len() == a.input_registers@.len()
            &&& b.coils == a.coils && b.discrete == a.discrete
            &&& !on || p is Random && d.skip ==> w == v
            &&& on && p is Random && !d.skip && d.rise ==> w == if v + d.delta > 65535 {
                65535
            } else {
                v + d.delta
            }
            &&& on && p is Random && !d.skip && !d.rise ==> w == if v < d.delta {
                0
            } else {
                v - d.delta
            }
            &&& on && p is UpDown && a.reg_change_direction@[h + i] is Up ==> w == if v == 65535 {
                65535
            } else {
                v + 1
            }
            &&& on && p is UpDown && a.reg_change_direction@[h + i] is Down ==> w == if v == 0 {
                0
            } else {
                v - 1
            }
            &&& on && (p is Sine || p is Square || p is Triangle) ==> w == waves[h + i].value
        }),
{
    let h = a.holding@.len() as int;
    let n = a.input_registers@.len() as int;
    let first = ticked_all(holding_sim(a), holding_plan(a, draws, waves, time), h);
    lemma_directions_kept(holding_sim(a), holding_plan(a, draws, waves, time), h);
    let m = Sim { notes: first.notes, ..input_sim(a) };
    let p = input_plan(a, draws.skip(h), waves.skip(h), time);
    crate::simulator::law_tick_moves_each_register_once(m, p, n, i);
    assert(draws.skip(h)[i] == draws[h + i]);
    assert(waves.skip(h)[i] == waves[h + i]);
    assert(a.notes().direction[h + i] == a.reg_change_direction@[h + i]);
}

proof fn lemma_directions_kept(m: Sim, p: Plan, n: int)
    requires
        0 <= p.base,
        p.base + n <= m.notes.direction.len(),
    ensures
        ticked_all(m, p, n).notes.direction.len() == m.notes.direction.len(),
        p.base == 0 ==> forall|k: int|
            n <= k < m.notes.direction.len() && 0 <= k ==> ticked_all(
                m,
                p,
                n,
            ).notes.direction[k] == #[trigger] m.notes.direction[k],
    decreases n,
{
    if n > 0 {
        lemma_directions_kept(m, p, n - 1);
    }
}

/// A register that nothing is known of is not simulated, would change by chance, and has
/// the frequency 1 and the phase 0; what is known of others is kept.
pub proof fn law_unknown_registers_are_still(a: AppState, b: AppState, i: int)
    requires
        prepared(a, b),
        a.holding_pattern_freqs@.len() == a.holding_change_patterns@.len(),
        a.holding_pattern_phases@.len() == a.holding_change_patterns@.len(),
        a.input_pattern_freqs@.len() == a.input_change_patterns@.len(),
        a.input_pattern_phases@.len() == a.input_change_patterns@.len(),
        0 <= i,
    ensures
        b.holding == a.holding && b.input_registers == a.input_registers,
        i < a.holding_change_enabled@.len() ==> b.holding_change_enabled@[i]
            == a.holding_change_enabled@[i],
        a.holding_change_enabled@.len() <= i < a.holding@.len() ==> !b.holding_change_enabled@[i],
        i < a.input_change_enabled@.len() ==> b.input_change_enabled@[i]
            == a.input_change_enabled@[i],
        a.input_change_enabled@.len() <= i < a.input_registers@.len()
            ==> !b.input_change_enabled@[i],
        i < a.holding_change_patterns@.len() ==> b.holding_change_patterns@[i]
            == a.holding_change_patterns@[i] && b.holding_pattern_freqs@[i]
            == a.holding_pattern_freqs@[i],
        a.holding_change_patterns@.len() <= i < a.holding@.len() ==> b.holding_change_patterns@[i]
            is Random && b.holding_pattern_freqs@[i] == 0x3FF0_0000_0000_0000
            && b.holding_pattern_phases@[i] == 0,
        a.input_change_patterns@.len() <= i < a.input_registers@.len()
            ==> b.input_change_patterns@[i] is Random && b.input_pattern_freqs@[i]
            == 0x3FF0_0000_0000_0000 && b.input_pattern_phases@[i] == 0,
        a.reg_change_direction@.len() <= i < a.holding@.len() + a.input_registers@.len()
            ==> b.reg_change_direction@[i] is Up,
        a.reg_just_changed@.len() <= i < a.holding@.len() + a.input_registers@.len()
            ==> !b.reg_just_changed@[i],
{
}

/// A list is filled up to a length with one thing and keeps what it has.
pub proof fn law_filled_up<T>(s: Seq<T>, len: int, x: T, i: int)
    requires
        0 <= i,
    ensures
        filled(s, len, x).len() == if s.len() >= len {
            s.len() as int
        } else {
            len
        },
        i < s.len() ==> filled(s, len, x)[i] == s[i],
        s.len() <= i < len ==> filled(s, len, x)[i] == x,
{
}

/// A tick of a register whose changes are noted notes its change, if it did change, with
/// the time; of a register whose changes are not noted, nothing is.
pub proof fn law_tick_notes_changes(m: Sim, p: Plan, i: int)
    requires
        0 <= i < m.regs.len(),
        0 <= p.base,
        p.base + i < m.notes.direction.len(),
    ensures
        ({
            let t = ticked(m, p, i);
            let before = m.regs[i];
            let after = t.regs[i];
            &&& p.noted && after != before ==> {
                let c = t.notes.changes.last();
                c.addr == i && c.old_value == before && c.new_value == after && c.time == p.time
                    && (c.direction is Up <==> after > before) && t.notes.bars[i].last() == after
            }
            &&& !p.noted || after == before ==> t.notes.changes == m.notes.changes && t.notes.bars
                == m.notes.bars && t.notes.just_changed == m.notes.just_changed
        }),
{
    let t = ticked(m, p, i);
    if p.noted && t.regs[i] != m.regs[i] {
        let all = crate::state::padded_bars(m.notes.bars, i + 1);
        assert(all.len() >= i + 1);
    }
}

} // verus!

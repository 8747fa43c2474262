//! Keys that change a device, or how it is simulated.
use crate::format::RegDataFormat;
use crate::menu::Key;
use crate::message::{
    Part, Piece, headed, headed_message, message, message1, message3, note, note1, note3,
    on_off, on_off_message, piece, text,
};
use crate::motion::view_len;
use crate::numeral::{decimal_text, push_decimal};
use crate::state::{AppState, Change, Notes};
use crate::ui::{RegView, Screen, TableModel, Ui, UiStep};
use std::collections::HashMap;
use vstd::prelude::*;

verus! {

/// The formats of single registers after a register was given one. The plain
/// format is that of a register without one of its own.
pub open spec fn format_given(m: Map<usize, RegDataFormat>, addr: usize, f: RegDataFormat) -> Map<
    usize,
    RegDataFormat,
> {
    if f == crate::format::plain_format() {
        m.remove(addr)
    } else {
        m.insert(addr, f)
    }
}

/// What is reported after a register was given a format.
pub open spec fn format_report(addr: usize, f: RegDataFormat) -> Part {
    let n = crate::numeral::decimal(addr as nat);
    if f == crate::format::plain_format() {
        note1("run_ui.combination_removed"@, "addr"@, n)
    } else {
        note3(
            "run_ui.combination_set"@,
            "addr"@,
            n,
            "fmt"@,
            crate::format::label_of(f),
            "count"@,
            crate::numeral::decimal(crate::format::regs_of(f.width)),
        )
    }
}

/// The format of the next step, on or back, for a register.
pub open spec fn next_format(m: Map<usize, RegDataFormat>, addr: usize, on: bool) -> RegDataFormat {
    let f = if m.contains_key(addr) {
        m[addr]
    } else {
        crate::format::plain_format()
    };
    if on {
        crate::format::after_combination(f)
    } else {
        crate::format::before_combination(f)
    }
}

fn give_format(m: &mut HashMap<usize, RegDataFormat>, addr: usize, on: bool) -> (r: Piece)
    ensures
        final(m)@ == format_given(old(m)@, addr, next_format(old(m)@, addr, on)),
        r@ == format_report(addr, next_format(old(m)@, addr, on)),
{
    broadcast use vstd::std_specs::hash::group_hash_axioms;

    let f: RegDataFormat = match m.get(&addr) {
        Some(f) => *f,
        None => RegDataFormat::default(),
    };
    let g: RegDataFormat = if on {
        f.next_combination()
    } else {
        f.prev_combination()
    };
    if g == RegDataFormat::default() {
        m.remove(&addr);
        message1("run_ui.combination_removed", "addr", decimal_text(addr as u128))
    } else {
        m.insert(addr, g);
        message3(
            "run_ui.combination_set",
            "addr",
            decimal_text(addr as u128),
            "fmt",
            g.short_label(),
            "count",
            decimal_text(g.regs_needed() as u128),
        )
    }
}

/// Whether the keys for formats lead from one state to another: the marked
/// register goes one step through the formats, on or back.
pub open spec fn format_keyed(
    a: Screen,
    s: AppState,
    on: bool,
    monitor: bool,
    b: Screen,
    t: AppState,
) -> bool {
    if monitor {
        b == a && t == s
    } else {
        let addr = a.table.selected;
        let m = crate::table::formats_of(s, a.table.reg_view);
        let f = next_format(m, addr, on);
        &&& b == (Screen { status_msg: Some(format_report(addr, f)), ..a })
        &&& if a.table.reg_view is Input {
            &&& t == (AppState { input_combinations: t.input_combinations, ..s })
            &&& t.input_combinations@ == format_given(m, addr, f)
        } else {
            &&& t == (AppState { holding_combinations: t.holding_combinations, ..s })
            &&& t.holding_combinations@ == format_given(m, addr, f)
        }
    }
}

fn step_format(ui: &mut Ui, s: &mut AppState, on: bool, monitor: bool)
    ensures
        format_keyed(old(ui)@, *old(s), on, monitor, final(ui)@, *final(s)),
        final(ui)@.entry == old(ui)@.entry,
        final(ui)@.pattern == old(ui)@.pattern,
{
    if monitor {
        return ;
    }
    let addr: usize = ui.table.selected;
    match ui.table.reg_view {
        RegView::Input => {
            ui.status_msg = Some(give_format(&mut s.input_combinations, addr, on));
        },
        _ => {
            ui.status_msg = Some(give_format(&mut s.holding_combinations, addr, on));
        },
    }
}

/// A step on and a step back leave a register without a format of its own, or
/// with one of those that single registers go through, as it was.
pub proof fn law_format_steps_undo(m: Map<usize, RegDataFormat>, addr: usize, i: int)
    requires
        0 < i < crate::format::combinations().len(),
        m.contains_key(addr) ==> m[addr] == crate::format::combinations()[i],
    ensures
        ({
            let n = format_given(m, addr, next_format(m, addr, true));
            format_given(n, addr, next_format(n, addr, false)) == m
        }),
        ({
            let n = format_given(m, addr, next_format(m, addr, false));
            format_given(n, addr, next_format(n, addr, true)) == m
        }),
{
    crate::format::law_combinations_cycle(i);
    crate::format::law_combinations_cycle(0);
    let n = format_given(m, addr, next_format(m, addr, true));
    assert(format_given(n, addr, next_format(n, addr, false)) =~= m);
    let k = format_given(m, addr, next_format(m, addr, false));
    assert(format_given(k, addr, next_format(k, addr, true)) =~= m);
}

/// Whether the key that reverses the registers of values leads from one state
/// to another.
pub open spec fn words_swapped(a: Screen, s: AppState, monitor: bool, b: Screen, t: AppState) -> bool {
    let on = !s.swap_words;
    if monitor {
        b == a && t == s
    } else {
        &&& t == (AppState { swap_words: on, ..s })
        &&& b == (Screen {
            table: TableModel { swap_words: on, ..a.table },
            status_msg: Some(
                text(
                    if on {
                        "Word swap: ON"@
                    } else {
                        "Word swap: OFF"@
                    },
                ),
            ),
            ..a
        })
    }
}

/// Whether the key that exchanges the bytes of registers leads from one state
/// to another.
pub open spec fn bytes_swapped(a: Screen, s: AppState, monitor: bool, b: Screen, t: AppState) -> bool {
    let on = !s.swap_bytes;
    if monitor {
        b == a && t == s
    } else {
        &&& t == (AppState { swap_bytes: on, ..s })
        &&& b == (Screen {
            table: TableModel { swap_bytes: on, ..a.table },
            status_msg: Some(
                text(
                    if on {
                        "Byte swap: ON"@
                    } else {
                        "Byte swap: OFF"@
                    },
                ),
            ),
            ..a
        })
    }
}

/// Turns a setting over, and says which of two texts goes with it.
fn turn(flag: &mut bool, on: &str, off: &str) -> (r: Piece)
    ensures
        *final(flag) == !*old(flag),
        r@ == text(
            if *final(flag) {
                on@
            } else {
                off@
            },
        ),
{
    *flag = !*flag;
    if *flag {
        piece(on)
    } else {
        piece(off)
    }
}

pub(crate) fn swap_words(ui: &mut Ui, s: &mut AppState, monitor: bool)
    ensures
        words_swapped(old(ui)@, *old(s), monitor, final(ui)@, *final(s)),
        final(ui)@.entry == old(ui)@.entry,
        final(ui)@.pattern == old(ui)@.pattern,
{
    if !monitor {
        let said = turn(&mut s.swap_words, "Word swap: ON", "Word swap: OFF");
        ui.table.swap_words = s.swap_words;
        ui.status_msg = Some(said);
    }
}

pub(crate) fn swap_bytes(ui: &mut Ui, s: &mut AppState, monitor: bool)
    ensures
        bytes_swapped(old(ui)@, *old(s), monitor, final(ui)@, *final(s)),
        final(ui)@.entry == old(ui)@.entry,
        final(ui)@.pattern == old(ui)@.pattern,
{
    if !monitor {
        let said = turn(&mut s.swap_bytes, "Byte swap: ON", "Byte swap: OFF");
        ui.table.swap_bytes = s.swap_bytes;
        ui.status_msg = Some(said);
    }
}

/// Whether the key for the stability test leads from one state to another. A
/// test that starts counts from zero.
pub open spec fn stability_keyed(a: Screen, s: AppState, b: Screen, t: AppState) -> bool {
    &&& b == (Screen {
        status_msg: on_off(
            !s.stability_test_running,
            "run_ui.stability_started"@,
            "run_ui.stability_stopped"@,
        ),
        ..a
    })
    &&& t == (AppState {
        stability_test_running: !s.stability_test_running,
        stability_stats: if s.stability_test_running {
            s.stability_stats
        } else {
            (0, 0, 0)
        },
        ..s
    })
}

fn turn_stability(ui: &mut Ui, s: &mut AppState)
    ensures
        stability_keyed(old(ui)@, *old(s), final(ui)@, *final(s)),
        final(ui)@.entry == old(ui)@.entry,
        final(ui)@.pattern == old(ui)@.pattern,
{
    let on: bool = !s.stability_test_running;
    s.stability_test_running = on;
    if on {
        s.stability_stats = (0, 0, 0);
    }
    ui.status_msg = on_off_message(on, "run_ui.stability_started", "run_ui.stability_stopped");
}

/// Whether the key that decides if a table is read leads from one state to
/// another.
pub open spec fn reading_keyed(a: Screen, s: AppState, monitor: bool, b: Screen, t: AppState) -> bool {
    if monitor {
        b == a && t == s
    } else {
        let view = a.table.reg_view;
        let i = crate::ui::view_place(view);
        &&& t == (AppState { read_enabled: t.read_enabled, ..s })
        &&& t.read_enabled@ == s.read_enabled@.update(i, !s.read_enabled@[i])
        &&& b == (Screen {
            status_msg: Some(
                text(
                    crate::ui::view_name(view) + if s.read_enabled@[i] {
                        " Read disabled"@
                    } else {
                        " Read enabled"@
                    },
                ),
            ),
            ..a
        })
    }
}

fn turn_over(flags: &mut [bool; 4], i: usize) -> (r: bool)
    requires
        i < 4,
    ensures
        final(flags)@ == old(flags)@.update(i as int, r),
        r == !old(flags)@[i as int],
{
    let on: bool = !flags[i];
    flags[i] = on;
    on
}

fn reading_text(view: RegView, on: bool) -> (r: Piece)
    ensures
        r@ == text(
            crate::ui::view_name(view) + if on {
                " Read enabled"@
            } else {
                " Read disabled"@
            },
        ),
{
    let mut said: String = view.name().to_string();
    said.append(
        if on {
            " Read enabled"
        } else {
            " Read disabled"
        },
    );
    piece(said.as_str())
}

fn turn_reading(ui: &mut Ui, s: &mut AppState, monitor: bool)
    ensures
        reading_keyed(old(ui)@, *old(s), monitor, final(ui)@, *final(s)),
        final(ui)@.entry == old(ui)@.entry,
        final(ui)@.pattern == old(ui)@.pattern,
{
    if monitor {
        return ;
    }
    let view: RegView = ui.table.reg_view;
    let on: bool = turn_over(&mut s.read_enabled, view.place());
    ui.status_msg = Some(reading_text(view, on));
}

/// Whether the key that forgets changes leads from one state to another.
pub open spec fn changes_forgotten(
    a: Screen,
    s: AppState,
    monitor: bool,
    b: Screen,
    t: AppState,
) -> bool {
    if monitor {
        b == a && t == s
    } else {
        &&& crate::state::only_notes_differ(s, t)
        &&& t.notes() == (Notes {
            changes: Seq::empty(),
            just_changed: Seq::empty(),
            direction: Seq::empty(),
            bars: Seq::empty(),
        })
        &&& b == (Screen {
            status_msg: Some(
                text(
                    "已清除 "@ + crate::numeral::decimal(s.reg_change_history@.len())
                        + " 条变化记录"@,
                ),
            ),
            ..a
        })
    }
}

fn forget_changes(ui: &mut Ui, s: &mut AppState, monitor: bool)
    requires
        old(s).wf(),
    ensures
        changes_forgotten(old(ui)@, *old(s), monitor, final(ui)@, *final(s)),
        final(s).wf(),
{
    if monitor {
        return ;
    }
    let mut said: String = "已清除 ".to_string();
    push_decimal(&mut said, s.reg_change_history.len() as u128);
    said.append(" 条变化记录");
    s.reg_change_history = Vec::new();
    s.reg_just_changed = Vec::new();
    s.reg_change_direction = Vec::new();
    s.reg_bar_history = Vec::new();
    assert(s.notes().changes =~= Seq::<Change>::empty());
    assert(s.notes().bars =~= Seq::<Seq<u16>>::empty());
    ui.status_msg = Some(piece(said.as_str()));
}

/// Which registers are simulated after the choice for one of them was turned
/// over. All registers that nothing is known of are not.
pub open spec fn simulation_turned(enabled: Seq<bool>, addr: int) -> Seq<bool> {
    let all = crate::dialog::grown(enabled, addr + 1 - enabled.len(), false);
    all.update(addr, !all[addr])
}

fn turn_simulation(enabled: &mut Vec<bool>, addr: usize) -> (r: bool)
    requires
        addr < usize::MAX,
    ensures
        final(enabled)@ == simulation_turned(old(enabled)@, addr as int),
        r == final(enabled)@[addr as int],
{
    let ghost before = enabled@;
    assert(crate::dialog::grown(before, 0, false) =~= before);
    while enabled.len() <= addr
        invariant
            addr < usize::MAX,
            before.len() <= enabled@.len(),
            before.len() <= addr ==> enabled@.len() <= addr + 1,
            before.len() > addr ==> enabled@.len() == before.len(),
            enabled@ == crate::dialog::grown(before, enabled@.len() - before.len(), false),
        decreases addr + 1 - enabled.len(),
    {
        let ghost n = enabled@.len() - before.len();
        enabled.push(false);
        assert(enabled@ =~= crate::dialog::grown(before, n + 1, false));
    }
    assert(enabled@ =~= crate::dialog::grown(before, addr + 1 - before.len(), false));
    let on: bool = !enabled[addr];
    enabled.set(addr, on);
    on
}

/// How many of some choices are on.
pub open spec fn count_on(v: Seq<bool>) -> nat
    decreases v.len(),
{
    if v.len() == 0 {
        0
    } else {
        count_on(v.drop_last()) + if v.last() {
            1nat
        } else {
            0nat
        }
    }
}

/// How many of some choices are on.
pub fn count_enabled(v: &Vec<bool>) -> (r: usize)
    ensures
        r == count_on(v@),
        r <= v@.len(),
{
    let mut n: usize = 0;
    for i in 0..v.len()
        invariant
            n == count_on(v@.take(i as int)),
            n <= i,
    {
        assert(v@.take(i + 1).drop_last() =~= v@.take(i as int));
        if v[i] {
            n = n + 1;
        }
    }
    assert(v@.take(v@.len() as int) =~= v@);
    n
}

/// Which registers of a table are simulated after all of them were turned over:
/// all, unless more than half were on.
pub open spec fn all_turned(enabled: Seq<bool>, len: int) -> Seq<bool> {
    crate::setup::repeated(count_on(enabled) <= len / 2, len)
}

/// Whether simulation can be chosen on the screen.
pub open spec fn may_simulate(a: Screen, monitor: bool) -> bool {
    !monitor && !a.monitor.show
}

/// Whether two states differ in which registers of a table are simulated alone,
/// and how.
pub open spec fn simulation_set(s: AppState, view: RegView, enabled: Seq<bool>, t: AppState) -> bool {
    if view is Holding {
        &&& t == (AppState { holding_change_enabled: t.holding_change_enabled, ..s })
        &&& t.holding_change_enabled@ == enabled
    } else {
        &&& t == (AppState { input_change_enabled: t.input_change_enabled, ..s })
        &&& t.input_change_enabled@ == enabled
    }
}

/// Whether the key that simulates the marked register leads from one state to
/// another.
pub open spec fn simulation_keyed(
    a: Screen,
    s: AppState,
    monitor: bool,
    b: Screen,
    t: AppState,
) -> bool {
    let view = a.table.reg_view;
    let addr = a.table.selected as int;
    if !may_simulate(a, monitor) {
        b == a && t == s
    } else if crate::table::has_bits(view) {
        &&& t == s
        &&& b == (Screen { status_msg: Some(note("run_ui.value_change_unsupported"@)), ..a })
    } else if addr < crate::table::items_of(s, view).len() {
        let enabled = simulation_turned(crate::table::simulated(s, view), addr);
        &&& simulation_set(s, view, enabled, t)
        &&& b == (Screen {
            status_msg: Some(
                headed(
                    crate::ui::view_name(view) + "["@ + crate::numeral::decimal(addr as nat)
                        + "] "@,
                    if enabled[addr] {
                        "run_ui.value_change_on"@
                    } else {
                        "run_ui.value_change_off"@
                    },
                ),
            ),
            ..a
        })
    } else {
        b == a && t == s
    }
}

fn simulation_message(view: RegView, addr: usize, on: bool) -> (r: Piece)
    ensures
        r@ == headed(
            crate::ui::view_name(view) + "["@ + crate::numeral::decimal(addr as nat) + "] "@,
            if on {
                "run_ui.value_change_on"@
            } else {
                "run_ui.value_change_off"@
            },
        ),
{
    let mut head: String = view.name().to_string();
    head.append("[");
    push_decimal(&mut head, addr as u128);
    head.append("] ");
    headed_message(
        head,
        if on {
            "run_ui.value_change_on"
        } else {
            "run_ui.value_change_off"
        },
    )
}

fn simulate_marked(ui: &mut Ui, s: &mut AppState, monitor: bool)
    ensures
        simulation_keyed(old(ui)@, *old(s), monitor, final(ui)@, *final(s)),
        final(ui)@.entry == old(ui)@.entry,
        final(ui)@.pattern == old(ui)@.pattern,
{
    if monitor || ui.monitor.show {
        return ;
    }
    let view: RegView = ui.table.reg_view;
    let addr: usize = ui.table.selected;
    match view {
        RegView::Holding => {
            if addr < s.holding.len() {
                let on: bool = turn_simulation(&mut s.holding_change_enabled, addr);
                ui.status_msg = Some(simulation_message(view, addr, on));
            }
        },
        RegView::Input => {
            if addr < s.input_registers.len() {
                let on: bool = turn_simulation(&mut s.input_change_enabled, addr);
                ui.status_msg = Some(simulation_message(view, addr, on));
            }
        },
        _ => {
            ui.status_msg = Some(message("run_ui.value_change_unsupported"));
        },
    }
}

/// What is reported after all registers of a table were turned over.
pub open spec fn all_report(view: RegView, on: bool, len: nat) -> Part {
    let n = crate::numeral::decimal(len);
    text(
        crate::ui::view_name(view) + if on {
            ": 全部开启变化 ("@ + n + "/"@ + n + ")"@
        } else {
            ": 全部关闭变化 (0/"@ + n + ")"@
        },
    )
}

fn all_message(view: RegView, on: bool, len: usize) -> (r: Piece)
    ensures
        r@ == all_report(view, on, len as nat),
{
    let mut said: String = view.name().to_string();
    if on {
        said.append(": 全部开启变化 (");
        push_decimal(&mut said, len as u128);
        said.append("/");
    } else {
        said.append(": 全部关闭变化 (0/");
    }
    push_decimal(&mut said, len as u128);
    said.append(")");
    let ghost n = crate::numeral::decimal(len as nat);
    assert(said@ =~= crate::ui::view_name(view) + if on {
        ": 全部开启变化 ("@ + n + "/"@ + n + ")"@
    } else {
        ": 全部关闭变化 (0/"@ + n + ")"@
    });
    piece(said.as_str())
}

/// Whether the key that simulates all registers of the table leads from one
/// state to another.
pub open spec fn simulation_all_keyed(
    a: Screen,
    s: AppState,
    monitor: bool,
    b: Screen,
    t: AppState,
) -> bool {
    let view = a.table.reg_view;
    let len = crate::table::items_of(s, view).len();
    let before = crate::table::simulated(s, view);
    if !may_simulate(a, monitor) {
        b == a && t == s
    } else if crate::table::has_bits(view) {
        &&& t == s
        &&& b == (Screen { status_msg: Some(note("run_ui.value_change_unsupported"@)), ..a })
    } else {
        &&& simulation_set(s, view, all_turned(before, len as int), t)
        &&& b == (Screen {
            status_msg: Some(all_report(view, count_on(before) <= len / 2, len)),
            ..a
        })
    }
}

fn simulate_all(ui: &mut Ui, s: &mut AppState, monitor: bool)
    ensures
        simulation_all_keyed(old(ui)@, *old(s), monitor, final(ui)@, *final(s)),
        final(ui)@.entry == old(ui)@.entry,
        final(ui)@.pattern == old(ui)@.pattern,
{
    if monitor || ui.monitor.show {
        return ;
    }
    let view: RegView = ui.table.reg_view;
    let len: usize = view_len(s, view);
    match view {
        RegView::Holding => {
            let on: bool = count_enabled(&s.holding_change_enabled) <= len / 2;
            s.holding_change_enabled = crate::setup::repeat(on, len);
            ui.status_msg = Some(all_message(view, on, len));
        },
        RegView::Input => {
            let on: bool = count_enabled(&s.input_change_enabled) <= len / 2;
            s.input_change_enabled = crate::setup::repeat(on, len);
            ui.status_msg = Some(all_message(view, on, len));
        },
        _ => {
            ui.status_msg = Some(message("run_ui.value_change_unsupported"));
        },
    }
}

/// Whether the key that searches for units leads from one state to another. One
/// search runs at a time, and what it found is shown once.
pub open spec fn scan_asked(
    a: Screen,
    s: AppState,
    monitor: bool,
    b: Screen,
    t: AppState,
    step: UiStep,
) -> bool {
    if !may_simulate(a, monitor) {
        b == a && t == s && step is Stay
    } else if s.slave_scan_running {
        &&& b == (Screen { status_msg: Some(note("run_ui.scan_running"@)), ..a })
        &&& t == s && step is Stay
    } else if s.slave_scan_result is Some {
        b == (Screen { show_scan_dialog: true, ..a }) && t == s && step is Stay
    } else {
        &&& b == (Screen { status_msg: Some(note("run_ui.scan_started"@)), ..a })
        &&& t == (AppState { slave_scan_running: true, slave_scan_result: None, ..s })
        &&& step is Scan
    }
}

fn ask_scan(ui: &mut Ui, s: &mut AppState, monitor: bool) -> (r: UiStep)
    ensures
        scan_asked(old(ui)@, *old(s), monitor, final(ui)@, *final(s), r),
        final(ui)@.entry == old(ui)@.entry,
        final(ui)@.pattern == old(ui)@.pattern,
{
    if monitor || ui.monitor.show {
        return UiStep::Stay;
    }
    if s.slave_scan_running {
        ui.status_msg = Some(message("run_ui.scan_running"));
        return UiStep::Stay;
    }
    if s.slave_scan_result.is_some() {
        ui.show_scan_dialog = true;
        return UiStep::Stay;
    }
    s.slave_scan_running = true;
    s.slave_scan_result = None;
    ui.status_msg = Some(message("run_ui.scan_started"));
    UiStep::Scan
}

/// Keeps what a search for units found.
pub fn scan_done(s: &mut AppState, found: Vec<(u8, Option<u16>)>)
    ensures
        *final(s) == (AppState {
            slave_scan_result: Some(found),
            slave_scan_running: false,
            ..*old(s)
        }),
{
    s.slave_scan_result = Some(found);
    s.slave_scan_running = false;
}

/// Whether every holding register has a note, though it may be empty, and every
/// pattern has a frequency.
pub open spec fn has_parts(s: AppState) -> bool {
    s.holding@.len() <= s.holding_label@.len() && crate::dialog::patterns_fit(s)
}

/// Whether a key that changes the device, or how it is simulated, leads from one
/// state to another.
pub open spec fn device_keyed(
    a: Screen,
    s: AppState,
    key: Key,
    monitor: bool,
    b: Screen,
    t: AppState,
    step: UiStep,
) -> bool {
    match key {
        Key::Char('f') => format_keyed(a, s, true, monitor, b, t) && step is Stay,
        Key::Char('F') => format_keyed(a, s, false, monitor, b, t) && step is Stay,
        Key::Char('w') => bytes_swapped(a, s, monitor, b, t) && step is Stay,
        Key::Char('W') => words_swapped(a, s, monitor, b, t) && step is Stay,
        Key::Char('S') => stability_keyed(a, s, b, t) && step is Stay,
        Key::Char('v') => simulation_keyed(a, s, monitor, b, t) && step is Stay,
        Key::Char('V') => simulation_all_keyed(a, s, monitor, b, t) && step is Stay,
        Key::Char(' ') => reading_keyed(a, s, monitor, b, t) && step is Stay,
        Key::Char('C') => changes_forgotten(a, s, monitor, b, t) && step is Stay,
        _ => scan_asked(a, s, monitor, b, t, step),
    }
}

/// Whether a key is one that changes the device.
pub open spec fn is_for_device(key: Key) -> bool {
    key matches Key::Char(c) && (c == 'f' || c == 'F' || c == 'w' || c == 'W' || c == 'S' || c
        == 'v' || c == 'V' || c == ' ' || c == 'C' || c == 'l')
}

#[verifier::rlimit(40)]
#[verifier::spinoff_prover]
pub(crate) fn handle_device_key(ui: &mut Ui, s: &mut AppState, key: Key, monitor: bool) -> (r: UiStep)
    requires
        old(s).wf(),
    ensures
        device_keyed(old(ui)@, *old(s), key, monitor, final(ui)@, *final(s), r),
        final(ui)@.entry == old(ui)@.entry,
        final(ui)@.pattern == old(ui)@.pattern,
        has_parts(*old(s)) ==> has_parts(*final(s)),
        final(s).wf(),
{
    match key {
        Key::Char('f') => {
            step_format(ui, s, true, monitor);
        },
        Key::Char('F') => {
            step_format(ui, s, false, monitor);
        },
        Key::Char('w') => {
            swap_bytes(ui, s, monitor);
        },
        Key::Char('W') => {
            swap_words(ui, s, monitor);
        },
        Key::Char('S') => {
            turn_stability(ui, s);
        },
        Key::Char('v') => {
            simulate_marked(ui, s, monitor);
        },
        Key::Char('V') => {
            simulate_all(ui, s, monitor);
        },
        Key::Char(' ') => {
            turn_reading(ui, s, monitor);
        },
        Key::Char('C') => {
            forget_changes(ui, s, monitor);
        },
        _ => {
            return ask_scan(ui, s, monitor);
        },
    }
    UiStep::Stay
}

} // verus!

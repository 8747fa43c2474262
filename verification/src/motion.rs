//! Keys that move.
use crate::menu::{maybe_part, Key};
use crate::message::{Part, Piece, message, message1, note, note1};
use crate::seek::last_place;
use crate::state::AppState;
use crate::ui::{
    DisplayBase, MonitorModel, MonitorPane, RegView, Screen, TableModel, TablePane, Ui, UiStep,
};
use vstd::prelude::*;

verus! {

/// The smaller of two numbers.
pub open spec fn smaller(a: int, b: int) -> int {
    if a < b {
        a
    } else {
        b
    }
}

/// A place one further, but not behind the last place of a list.
pub open spec fn forth(i: int, len: int) -> int {
    smaller(i + 1, last_place(len))
}

fn go_forth(i: usize, len: usize) -> (r: usize)
    ensures
        r == forth(i as int, len as int),
{
    let last: usize = len.saturating_sub(1);
    if i < last {
        i + 1
    } else {
        last
    }
}

/// How many of the last records of a history are always in sight.
pub const HISTORY_TAIL: usize = 8;

/// Whether the history of the monitor takes the keys that move.
pub open spec fn moves_history(a: MonitorModel, monitor: bool) -> bool {
    monitor || (a.show && a.focus_history)
}

/// How far the history is scrolled after one step on.
pub open spec fn scrolled(scroll: int, len: int) -> int {
    if scroll + 1 < len - HISTORY_TAIL {
        scroll + 1
    } else {
        scroll
    }
}

/// The monitor after a key that moves, up or down.
pub open spec fn monitor_moved(
    a: MonitorModel,
    up: bool,
    picking: bool,
    profiles: int,
    history: int,
) -> MonitorModel {
    if picking {
        MonitorModel {
            list_idx: if up {
                crate::menu::less_one(a.list_idx as int) as usize
            } else {
                forth(a.list_idx as int, profiles) as usize
            },
            ..a
        }
    } else {
        MonitorModel {
            scroll: if up {
                crate::menu::less_one(a.scroll as int) as usize
            } else {
                scrolled(a.scroll as int, history) as usize
            },
            ..a
        }
    }
}

fn move_monitor(pane: &mut MonitorPane, up: bool, picking: bool, profiles: usize, history: usize)
    ensures
        final(pane)@ == monitor_moved(
            old(pane)@,
            up,
            picking,
            profiles as int,
            history as int,
        ),
{
    if picking {
        pane.list_idx = if up {
            pane.list_idx.saturating_sub(1)
        } else {
            go_forth(pane.list_idx, profiles)
        };
    } else if up {
        pane.scroll = pane.scroll.saturating_sub(1);
    } else {
        let reach: usize = history.saturating_sub(HISTORY_TAIL);
        if reach > 0 && pane.scroll < reach - 1 {
            pane.scroll = pane.scroll + 1;
        }
    }
}

/// The screen after a key that moves up or down.
pub open spec fn stepped(a: Screen, s: AppState, up: bool, monitor: bool) -> Screen {
    if (monitor && a.monitor.picking) || moves_history(a.monitor, monitor) {
        Screen {
            monitor: monitor_moved(
                a.monitor,
                up,
                monitor && a.monitor.picking,
                a.profiles.len() as int,
                s.monitor@.history.len() as int,
            ),
            ..a
        }
    } else {
        Screen {
            table: TableModel {
                selected: if up {
                    crate::menu::less_one(a.table.selected as int) as usize
                } else {
                    forth(a.table.selected as int, s.holding@.len() as int) as usize
                },
                ..a.table
            },
            ..a
        }
    }
}

/// How many records a history has.
fn history_len(s: &AppState) -> (r: usize)
    ensures
        r == s.monitor@.history.len(),
{
    s.monitor.history.len()
}

fn move_mark(table: &mut TablePane, up: bool, len: usize)
    ensures
        final(table)@ == (TableModel {
            selected: if up {
                crate::menu::less_one(old(table)@.selected as int) as usize
            } else {
                forth(old(table)@.selected as int, len as int) as usize
            },
            ..old(table)@
        }),
{
    table.selected = if up {
        table.selected.saturating_sub(1)
    } else {
        go_forth(table.selected, len)
    };
}

pub(crate) fn step(ui: &mut Ui, s: &AppState, up: bool, monitor: bool)
    ensures
        final(ui)@ == stepped(old(ui)@, *s, up, monitor),
        final(ui)@.entry == old(ui)@.entry,
        final(ui)@.pattern == old(ui)@.pattern,
{
    let picking: bool = monitor && ui.monitor.picking;
    let in_history: bool = monitor || (ui.monitor.show && ui.monitor.focus_history);
    let profiles: usize = ui.profiles.len();
    let history: usize = history_len(s);
    if picking || in_history {
        move_monitor(&mut ui.monitor, up, picking, profiles, history);
    } else {
        move_mark(&mut ui.table, up, s.holding.len());
    }
}

/// The table after a key that goes to a place of it, where there are some
/// holding registers, and some registers in the table that is shown.
pub open spec fn table_jumped(a: TableModel, holding: int, len: int, key: Key) -> TableModel {
    match key {
        Key::PageDown => TableModel { selected: last_place(holding) as usize, ..a },
        Key::PageUp => TableModel { selected: 0, ..a },
        Key::Home => TableModel { selected: 0, scroll: 0, ..a },
        Key::End if len > 0 => TableModel { selected: (len - 1) as usize, ..a },
        _ => a,
    }
}

/// What is reported after a key that goes to a place of the table.
pub open spec fn jump_report(said: Option<Part>, len: int, key: Key) -> Option<Part> {
    match key {
        Key::Home => Some(note("run_ui.home"@)),
        Key::End if len > 0 => Some(note("run_ui.end"@)),
        _ => said,
    }
}

/// The screen after a key that goes to a place of the table.
pub open spec fn jumped(a: Screen, s: AppState, key: Key) -> Screen {
    let len = crate::table::items_of(s, a.table.reg_view).len() as int;
    Screen {
        table: table_jumped(a.table, s.holding@.len() as int, len, key),
        status_msg: jump_report(a.status_msg, len, key),
        ..a
    }
}

/// How many registers a table has.
pub fn view_len(s: &AppState, view: RegView) -> (r: usize)
    ensures
        r == crate::table::items_of(*s, view).len(),
{
    match view {
        RegView::Holding => s.holding.len(),
        RegView::Coils => s.coils.len(),
        RegView::Discrete => s.discrete.len(),
        RegView::Input => s.input_registers.len(),
    }
}

fn jump_table(
    table: &mut TablePane,
    status: &mut Option<Piece>,
    holding: usize,
    len: usize,
    key: Key,
)
    ensures
        final(table)@ == table_jumped(old(table)@, holding as int, len as int, key),
        maybe_part(*final(status)) == jump_report(maybe_part(*old(status)), len as int, key),
{
    match key {
        Key::PageDown => {
            table.selected = holding.saturating_sub(1);
        },
        Key::PageUp => {
            table.selected = 0;
        },
        Key::Home => {
            table.selected = 0;
            table.scroll = 0;
            *status = Some(message("run_ui.home"));
        },
        Key::End => {
            if len > 0 {
                table.selected = len - 1;
                *status = Some(message("run_ui.end"));
            }
        },
        _ => {},
    }
}

fn jump(ui: &mut Ui, s: &AppState, key: Key)
    ensures
        final(ui)@ == jumped(old(ui)@, *s, key),
        final(ui)@.entry == old(ui)@.entry,
        final(ui)@.pattern == old(ui)@.pattern,
{
    let len: usize = view_len(s, ui.table.reg_view);
    jump_table(&mut ui.table, &mut ui.status_msg, s.holding.len(), len, key);
}

/// The screen after a base was chosen.
pub open spec fn based(a: Screen, base: DisplayBase) -> Screen {
    Screen { table: TableModel { base, ..a.table }, status_msg: None, ..a }
}

fn choose_base(ui: &mut Ui, base: DisplayBase)
    ensures
        final(ui)@ == based(old(ui)@, base),
        final(ui)@.entry == old(ui)@.entry,
        final(ui)@.pattern == old(ui)@.pattern,
{
    ui.table.base = base;
    ui.status_msg = None;
}

/// Whether the key that confirms leads from one state of the screen to another:
/// it starts a monitor for the marked profile, or shows the analysis of the
/// record at which the history stands.
pub open spec fn confirmed(a: Screen, s: AppState, monitor: bool, b: Screen, step: UiStep) -> bool {
    let total = s.monitor@.history.len();
    if monitor && a.monitor.picking {
        if a.monitor.list_idx < a.profiles.len() {
            let name = a.profiles[a.monitor.list_idx as int];
            &&& b == (Screen {
                monitor: MonitorModel { selected_profile: Some(name), picking: false, ..a.monitor },
                status_msg: Some(note1("run_ui.monitor_selected"@, "name"@, name)),
                ..a
            })
            &&& step matches UiStep::Monitor(n) && n@ == name
        } else {
            b == a && step is Stay
        }
    } else if monitor && a.monitor.focus_history && total > 0 {
        &&& step is Stay
        &&& b == (Screen {
            monitor: MonitorModel {
                analysis_idx: if a.monitor.scroll < total {
                    (total - 1 - a.monitor.scroll) as usize
                } else {
                    0
                },
                show_analysis: true,
                ..a.monitor
            },
            status_msg: Some(note("run_ui.analysis_opened"@)),
            ..a
        })
    } else {
        b == a && step is Stay
    }
}

pub(crate) fn confirm(ui: &mut Ui, s: &AppState, monitor: bool) -> (r: UiStep)
    ensures
        confirmed(old(ui)@, *s, monitor, final(ui)@, r),
        final(ui)@.entry == old(ui)@.entry,
        final(ui)@.pattern == old(ui)@.pattern,
{
    if monitor && ui.monitor.picking {
        let i: usize = ui.monitor.list_idx;
        if i < ui.profiles.len() {
            let name: String = ui.profiles[i].clone();
            ui.monitor.selected_profile = Some(name.clone());
            ui.monitor.picking = false;
            ui.status_msg = Some(message1("run_ui.monitor_selected", "name", name.clone()));
            return UiStep::Monitor(name);
        }
    } else if monitor && ui.monitor.focus_history {
        let total: usize = history_len(s);
        if total > 0 {
            ui.monitor.analysis_idx = (total - 1).saturating_sub(ui.monitor.scroll);
            ui.monitor.show_analysis = true;
            ui.status_msg = Some(message("run_ui.analysis_opened"));
        }
    }
    UiStep::Stay
}

/// Whether a key that moves, chooses a base or confirms leads from one state of
/// the screen to another.
pub open spec fn moving_keyed(
    a: Screen,
    s: AppState,
    key: Key,
    monitor: bool,
    b: Screen,
    step: UiStep,
) -> bool {
    match key {
        Key::Enter => confirmed(a, s, monitor, b, step),
        Key::Up | Key::Char('k') => b == stepped(a, s, true, monitor) && step is Stay,
        Key::Down | Key::Char('j') => b == stepped(a, s, false, monitor) && step is Stay,
        Key::Char('d') => b == based(a, DisplayBase::Dec) && step is Stay,
        Key::Char('h') => b == based(a, DisplayBase::Hex) && step is Stay,
        Key::Char('b') => b == based(a, DisplayBase::Bin) && step is Stay,
        _ => b == jumped(a, s, key) && step is Stay,
    }
}

/// Whether a key is one that moves, chooses a base or confirms.
pub open spec fn is_moving(key: Key) -> bool {
    match key {
        Key::Enter | Key::Up | Key::Down | Key::PageUp | Key::PageDown | Key::Home | Key::End => true,
        Key::Char(c) => c == 'k' || c == 'j' || c == 'd' || c == 'h' || c == 'b',
        _ => false,
    }
}

#[verifier::rlimit(40)]
#[verifier::spinoff_prover]
pub(crate) fn handle_moving_key(ui: &mut Ui, s: &AppState, key: Key, monitor: bool) -> (r: UiStep)
    ensures
        moving_keyed(old(ui)@, *s, key, monitor, final(ui)@, r),
        final(ui)@.entry == old(ui)@.entry,
        final(ui)@.pattern == old(ui)@.pattern,
{
    match key {
        Key::Enter => {
            return confirm(ui, s, monitor);
        },
        Key::Up | Key::Char('k') => {
            step(ui, s, true, monitor);
        },
        Key::Down | Key::Char('j') => {
            step(ui, s, false, monitor);
        },
        Key::Char('d') => {
            choose_base(ui, DisplayBase::Dec);
        },
        Key::Char('h') => {
            choose_base(ui, DisplayBase::Hex);
        },
        Key::Char('b') => {
            choose_base(ui, DisplayBase::Bin);
        },
        _ => {
            jump(ui, s, key);
        },
    }
    UiStep::Stay
}

} // verus!

//! What keys do while the program runs.
use crate::args::{Args, Settings};
use crate::control::{device_keyed, handle_device_key, has_parts, is_for_device, may_simulate};
use crate::dialog::{handle_pattern_key, pattern_index};
use crate::entry::{entry_fits, entry_keyed, entry_started, handle_entry_key, start_entry};
use crate::format::RegDataFormat;
use crate::menu::{Key, maybe_part};
use crate::message::{Piece, message, note, on_off, on_off_message, piece, text};
use crate::motion::{handle_moving_key, is_moving, moving_keyed, view_len};
use crate::profile::{Profiles, load_profile_args};
use crate::seek::{
    goto_keyed, goto_report, handle_goto_key, handle_search_key, search_keyed, search_report,
};
use crate::state::{AppState, DOUBLE_ONE, DoubleBits, RegChangePattern};
use crate::ui::{
    is_monitor, of_monitor, DisplayBase, MonitorModel, PatternModel, PatternPane, RegView, Screen,
    TableModel, Ui, UiStep,
};
use vstd::prelude::*;

verus! {

/// The screen after a key that shows or hides a panel, or turns to one.
pub open spec fn panel_keyed(a: Screen, key: Key, monitor: bool) -> Screen {
    match key {
        Key::Char('B') => Screen {
            show_byte_panel: !a.show_byte_panel,
            status_msg: on_off(
                !a.show_byte_panel,
                "run_ui.byte_panel_shown"@,
                "run_ui.byte_panel_hidden"@,
            ),
            ..a
        },
        Key::Char('M') => if monitor {
            a
        } else {
            Screen {
                monitor: MonitorModel { show: !a.monitor.show, ..a.monitor },
                status_msg: on_off(
                    !a.monitor.show,
                    "run_ui.monitor_shown"@,
                    "run_ui.monitor_hidden"@,
                ),
                ..a
            }
        },
        Key::Char('P') => if monitor && a.profiles.len() > 0 {
            Screen {
                monitor: MonitorModel { picking: !a.monitor.picking, ..a.monitor },
                status_msg: if a.monitor.picking {
                    a.status_msg
                } else {
                    Some(note("run_ui.monitor_picking"@))
                },
                ..a
            }
        } else {
            a
        },
        Key::Tab => if monitor || a.monitor.show {
            Screen {
                monitor: MonitorModel { focus_history: !a.monitor.focus_history, ..a.monitor },
                status_msg: on_off(
                    !a.monitor.focus_history,
                    "run_ui.monitor_history_mode"@,
                    "run_ui.monitor_stats_mode"@,
                ),
                ..a
            }
        } else {
            a
        },
        _ => a,
    }
}

fn turn_panel(ui: &mut Ui, key: Key, monitor: bool)
    ensures
        final(ui)@ == panel_keyed(old(ui)@, key, monitor),
        final(ui)@.entry == old(ui)@.entry,
        final(ui)@.pattern == old(ui)@.pattern,
{
    match key {
        Key::Char('B') => {
            ui.show_byte_panel = !ui.show_byte_panel;
            ui.status_msg = on_off_message(
                ui.show_byte_panel,
                "run_ui.byte_panel_shown",
                "run_ui.byte_panel_hidden",
            );
        },
        Key::Char('M') => {
            if !monitor {
                ui.monitor.show = !ui.monitor.show;
                ui.status_msg = on_off_message(
                    ui.monitor.show,
                    "run_ui.monitor_shown",
                    "run_ui.monitor_hidden",
                );
            }
        },
        Key::Char('P') => {
            if monitor && ui.profiles.len() > 0 {
                ui.monitor.picking = !ui.monitor.picking;
                if ui.monitor.picking {
                    ui.status_msg = Some(message("run_ui.monitor_picking"));
                }
            }
        },
        Key::Tab => {
            if monitor || ui.monitor.show {
                ui.monitor.focus_history = !ui.monitor.focus_history;
                ui.status_msg = on_off_message(
                    ui.monitor.focus_history,
                    "run_ui.monitor_history_mode",
                    "run_ui.monitor_stats_mode",
                );
            }
        },
        _ => {},
    }
}

/// The screen after a key that asks for an address or a search, or turns to the
/// next table.
pub open spec fn table_turned(a: Screen, key: Key, monitor: bool) -> Screen {
    match key {
        Key::Char('G') => if monitor || a.monitor.show {
            a
        } else {
            Screen {
                table: TableModel { goto_mode: true, goto_buf: Seq::empty(), ..a.table },
                status_msg: Some(text("Go to address: "@)),
                ..a
            }
        },
        Key::Char('/') => if monitor {
            a
        } else {
            Screen {
                table: TableModel { search_mode: true, search_buf: Seq::empty(), ..a.table },
                status_msg: Some(text("/_ 搜索地址或标签"@)),
                ..a
            }
        },
        Key::Char('R') => if monitor {
            a
        } else {
            let view = crate::ui::view_after(a.table.reg_view);
            Screen {
                table: TableModel { reg_view: view, selected: 0, scroll: 0, ..a.table },
                status_msg: Some(text("View: "@ + crate::ui::view_name(view))),
                ..a
            }
        },
        _ => a,
    }
}

fn turn_table(ui: &mut Ui, key: Key, monitor: bool)
    ensures
        final(ui)@ == table_turned(old(ui)@, key, monitor),
        final(ui)@.entry == old(ui)@.entry,
        final(ui)@.pattern == old(ui)@.pattern,
{
    match key {
        Key::Char('G') => {
            if !monitor && !ui.monitor.show {
                ui.table.goto_mode = true;
                ui.table.goto_buf = String::new();
                ui.status_msg = Some(piece("Go to address: "));
            }
        },
        Key::Char('/') => {
            if !monitor {
                ui.table.search_mode = true;
                ui.table.search_buf = String::new();
                ui.status_msg = Some(piece("/_ 搜索地址或标签"));
            }
        },
        Key::Char('R') => {
            if !monitor {
                let view: RegView = ui.table.reg_view.next();
                ui.table.reg_view = view;
                ui.table.selected = 0;
                ui.table.scroll = 0;
                let mut s: String = "View: ".to_string();
                s.append(view.name());
                ui.status_msg = Some(piece(s.as_str()));
            }
        },
        _ => {},
    }
}

/// The dialog for the pattern of a register, as it opens.
pub open spec fn dialog_opened(
    a: PatternModel,
    addr: usize,
    view: RegView,
    patterns: Seq<RegChangePattern>,
    freqs: Seq<DoubleBits>,
) -> PatternModel {
    PatternModel {
        open: true,
        addr,
        reg_type: view,
        sel: crate::dialog::pattern_place(
            if addr < patterns.len() {
                patterns[addr as int]
            } else {
                RegChangePattern::Random
            },
        ) as usize,
        freq: if addr < freqs.len() {
            freqs[addr as int]
        } else {
            DOUBLE_ONE
        },
        editing_freq: false,
        ..a
    }
}

fn open_dialog(
    pane: &mut PatternPane,
    addr: usize,
    view: RegView,
    patterns: &Vec<RegChangePattern>,
    freqs: &Vec<DoubleBits>,
)
    ensures
        final(pane)@ == dialog_opened(old(pane)@, addr, view, patterns@, freqs@),
{
    let pattern = if addr < patterns.len() {
        patterns[addr]
    } else {
        RegChangePattern::Random
    };
    let freq: DoubleBits = if addr < freqs.len() {
        freqs[addr]
    } else {
        DOUBLE_ONE
    };
    pane.open = true;
    pane.addr = addr;
    pane.reg_type = view;
    pane.sel = pattern_index(&pattern);
    pane.freq = freq;
    pane.editing_freq = false;
}

/// The screen after the key that opens the dialog for the pattern of the marked
/// register.
pub open spec fn pattern_asked(a: Screen, s: AppState, monitor: bool) -> Screen {
    let addr = a.table.selected;
    if !may_simulate(a, monitor) {
        a
    } else if a.table.reg_view is Holding && addr < s.holding@.len() {
        Screen {
            pattern: dialog_opened(
                a.pattern,
                addr,
                RegView::Holding,
                s.holding_change_patterns@,
                s.holding_pattern_freqs@,
            ),
            status_msg: Some(text("Pattern config: ↑↓ select Enter confirm Esc cancel"@)),
            ..a
        }
    } else if a.table.reg_view is Input && addr < s.input_registers@.len() {
        Screen {
            pattern: dialog_opened(
                a.pattern,
                addr,
                RegView::Input,
                s.input_change_patterns@,
                s.input_pattern_freqs@,
            ),
            status_msg: Some(text("Pattern config: ↑↓ select Enter confirm Esc cancel"@)),
            ..a
        }
    } else {
        Screen {
            status_msg: Some(text("Pattern config not available for this register type"@)),
            ..a
        }
    }
}

fn ask_pattern(ui: &mut Ui, s: &AppState, monitor: bool)
    ensures
        final(ui)@ == pattern_asked(old(ui)@, *s, monitor),
        final(ui)@.entry == old(ui)@.entry,
        final(ui)@.pattern == old(ui)@.pattern || final(ui)@.pattern.addr < usize::MAX,
{
    if monitor || ui.monitor.show {
        return ;
    }
    let addr: usize = ui.table.selected;
    match ui.table.reg_view {
        RegView::Holding => {
            if addr < s.holding.len() {
                open_dialog(
                    &mut ui.pattern,
                    addr,
                    RegView::Holding,
                    &s.holding_change_patterns,
                    &s.holding_pattern_freqs,
                );
                ui.status_msg = Some(piece("Pattern config: ↑↓ select Enter confirm Esc cancel"));
                return ;
            }
        },
        RegView::Input => {
            if addr < s.input_registers.len() {
                open_dialog(
                    &mut ui.pattern,
                    addr,
                    RegView::Input,
                    &s.input_change_patterns,
                    &s.input_pattern_freqs,
                );
                ui.status_msg = Some(piece("Pattern config: ↑↓ select Enter confirm Esc cancel"));
                return ;
            }
        },
        _ => {},
    }
    ui.status_msg = Some(piece("Pattern config not available for this register type"));
}

/// The settings with which a monitor is started for a profile.
pub fn monitor_settings(p: &Profiles, name: &str) -> (r: Option<Args>)
    requires
        p.wf(),
    ensures
        match r {
            Some(a) => p@.contains_key(name@) && a@ == (Settings {
                main_mode: "tcp-monitor"@,
                ..p@[name@]
            }),
            None => !p@.contains_key(name@),
        },
{
    match load_profile_args(p, name) {
        Some(a) => {
            let mut args: Args = a;
            args.main_mode = "tcp-monitor".to_string();
            Some(args)
        },
        None => None,
    }
}

/// Reports what came of writing the registers to a file.
pub fn exported(status: &mut Option<Piece>, outcome: Result<String, String>)
    ensures
        maybe_part(*final(status)) == Some(
            text(
                match outcome {
                    Ok(name) => "Exported: "@ + name@,
                    Err(why) => "Export error: "@ + why@,
                },
            ),
        ),
{
    let said: String = match outcome {
        Ok(name) => {
            let mut s: String = "Exported: ".to_string();
            s.append(name.as_str());
            s
        },
        Err(why) => {
            let mut s: String = "Export error: ".to_string();
            s.append(why.as_str());
            s
        },
    };
    *status = Some(piece(said.as_str()));
}

/// Whether a screen goes with a device: an entry and a dialog belong to
/// registers.
pub open spec fn goes_with(a: Screen, s: AppState) -> bool {
    &&& has_parts(s)
    &&& entry_fits(a.table, a.entry, s)
    &&& a.pattern.open ==> a.pattern.addr < usize::MAX
}

/// Whether a screen goes with a device that is in order.
pub open spec fn ready(a: Screen, s: AppState) -> bool {
    s.wf() && goes_with(a, s)
}

/// Whether a screen goes with a device.
pub fn fits_device(ui: &Ui, s: &AppState) -> (r: bool)
    ensures
        r == goes_with(ui@, *s),
{
    let parts: bool = s.holding.len() <= s.holding_label.len() && s.holding_change_patterns.len()
        <= s.holding_pattern_freqs.len() && s.input_change_patterns.len()
        <= s.input_pattern_freqs.len();
    let noted: bool = ui.entry.edit_mode && ui.entry.edit_is_label && !ui.entry.edit_is_profile;
    parts && (!noted || ui.table.selected < s.holding_label.len()) && (!ui.pattern.open
        || ui.pattern.addr < usize::MAX)
}

/// Whether a key that starts an entry, turns to a panel or a table, or asks for
/// something leads from one state of the screen to another.
pub open spec fn asking_keyed(
    a: Screen,
    s: AppState,
    key: Key,
    monitor: bool,
    b: Screen,
    step: UiStep,
) -> bool {
    match key {
        Key::Char('E') => b == a && if monitor {
            step is Stay
        } else {
            step is Export
        },
        Key::Char('t') | Key::Char('o') | Key::Char('e') => b == entry_started(a, s, key)
            && step is Stay,
        Key::Char('p') => b == pattern_asked(a, s, monitor) && step is Stay,
        Key::Char('G') | Key::Char('/') | Key::Char('R') => b == table_turned(a, key, monitor)
            && step is Stay,
        _ => b == panel_keyed(a, key, monitor) && step is Stay,
    }
}

#[verifier::rlimit(40)]
#[verifier::spinoff_prover]
fn handle_asking_key(ui: &mut Ui, s: &AppState, key: Key, monitor: bool) -> (r: UiStep)
    requires
        s.holding@.len() <= s.holding_label@.len(),
    ensures
        asking_keyed(old(ui)@, *s, key, monitor, final(ui)@, r),
        !old(ui)@.entry.edit_mode ==> entry_fits(final(ui)@.table, final(ui)@.entry, *s),
        final(ui)@.pattern == old(ui)@.pattern || final(ui)@.pattern.addr < usize::MAX,
{
    match key {
        Key::Char('E') => {
            if !monitor {
                return UiStep::Export;
            }
        },
        Key::Char('t') | Key::Char('o') | Key::Char('e') => {
            start_entry(ui, s, key);
        },
        Key::Char('p') => {
            ask_pattern(ui, s, monitor);
        },
        Key::Char('G') | Key::Char('/') | Key::Char('R') => {
            turn_table(ui, key, monitor);
        },
        _ => {
            turn_panel(ui, key, monitor);
        },
    }
    UiStep::Stay
}

/// Whether a key leads from one state to another where neither a dialog is open
/// nor anything is entered.
pub open spec fn plain_keyed(
    a: Screen,
    s: AppState,
    key: Key,
    monitor: bool,
    b: Screen,
    t: AppState,
    step: UiStep,
) -> bool {
    if is_moving(key) {
        moving_keyed(a, s, key, monitor, b, step) && t == s
    } else if is_for_device(key) {
        device_keyed(a, s, key, monitor, b, t, step)
    } else {
        asking_keyed(a, s, key, monitor, b, step) && t == s
    }
}

#[verifier::rlimit(40)]
#[verifier::spinoff_prover]
fn handle_plain_key(ui: &mut Ui, s: &mut AppState, key: Key, monitor: bool) -> (r: UiStep)
    requires
        ready(old(ui)@, *old(s)),
        !old(ui)@.entry.edit_mode,
    ensures
        plain_keyed(old(ui)@, *old(s), key, monitor, final(ui)@, *final(s), r),
        ready(final(ui)@, *final(s)),
{
    let moving: bool = match key {
        Key::Enter | Key::Up | Key::Down | Key::PageUp | Key::PageDown | Key::Home | Key::End => true,
        Key::Char(c) => c == 'k' || c == 'j' || c == 'd' || c == 'h' || c == 'b',
        _ => false,
    };
    let for_device: bool = match key {
        Key::Char(c) => c == 'f' || c == 'F' || c == 'w' || c == 'W' || c == 'S' || c == 'v' || c
            == 'V' || c == ' ' || c == 'C' || c == 'l',
        _ => false,
    };
    if moving {
        handle_moving_key(ui, s, key, monitor)
    } else if for_device {
        handle_device_key(ui, s, key, monitor)
    } else {
        handle_asking_key(ui, s, key, monitor)
    }
}

/// Whether a key leads from one state of the analysis of a record to another.
pub open spec fn analysis_keyed(a: Screen, key: Key) -> Screen {
    if key is Esc || key is Enter {
        Screen {
            monitor: MonitorModel { show_analysis: false, focus_history: true, ..a.monitor },
            status_msg: Some(note("run_ui.analysis_closed"@)),
            ..a
        }
    } else {
        a
    }
}

fn handle_analysis_key(ui: &mut Ui, key: Key)
    ensures
        final(ui)@ == analysis_keyed(old(ui)@, key),
{
    match key {
        Key::Esc | Key::Enter => {
            ui.monitor.show_analysis = false;
            ui.monitor.focus_history = true;
            ui.status_msg = Some(message("run_ui.analysis_closed"));
        },
        _ => {},
    }
}

/// Whether a key leads from one state of the list of units to another. What was
/// found is forgotten when the list is closed.
pub open spec fn scan_keyed(a: Screen, s: AppState, key: Key, b: Screen, t: AppState) -> bool {
    if key is Esc || key is Enter || key == Key::Char('l') {
        &&& b == (Screen {
            show_scan_dialog: false,
            status_msg: Some(note("run_ui.scan_closed"@)),
            ..a
        })
        &&& t == (AppState { slave_scan_result: None, ..s })
    } else {
        b == a && t == s
    }
}

fn handle_scan_key(ui: &mut Ui, s: &mut AppState, key: Key)
    ensures
        scan_keyed(old(ui)@, *old(s), key, final(ui)@, *final(s)),
{
    match key {
        Key::Esc | Key::Enter | Key::Char('l') => {
            ui.show_scan_dialog = false;
            s.slave_scan_result = None;
            ui.status_msg = Some(message("run_ui.scan_closed"));
        },
        _ => {},
    }
}

/// Whether a key leads from one state to another: it goes to the dialog that is
/// open, or else to what is entered, or else to the screen itself.
pub open spec fn key_taken(
    a: Screen,
    s: AppState,
    key: Key,
    monitor: bool,
    b: Screen,
    t: AppState,
    step: UiStep,
) -> bool {
    if a.pattern.open {
        &&& b == (Screen { pattern: b.pattern, status_msg: b.status_msg, ..a })
        &&& crate::dialog::pattern_keyed(
            a.pattern,
            s,
            a.status_msg,
            key,
            b.pattern,
            t,
            b.status_msg,
            step,
        )
    } else if a.entry.edit_mode {
        &&& b == (Screen { entry: b.entry, status_msg: b.status_msg, ..a })
        &&& entry_keyed(
            a.table,
            a.entry,
            s,
            a.status_msg,
            key,
            b.entry,
            t,
            b.status_msg,
            step,
        )
    } else if a.monitor.show_analysis {
        b == analysis_keyed(a, key) && t == s && step is Stay
    } else if a.show_scan_dialog {
        scan_keyed(a, s, key, b, t) && step is Stay
    } else if a.table.goto_mode {
        let len = crate::table::items_of(s, a.table.reg_view).len() as int;
        &&& b == (Screen {
            table: goto_keyed(a.table, len, key),
            status_msg: goto_report(a.table, len, a.status_msg, key),
            ..a
        })
        &&& t == s && step is Stay
    } else if a.table.search_mode {
        &&& b == (Screen {
            table: search_keyed(a.table, key),
            status_msg: search_report(a.table, a.status_msg, key),
            ..a
        })
        &&& t == s && step is Stay
    } else {
        plain_keyed(a, s, key, monitor, b, t, step)
    }
}

#[verifier::rlimit(40)]
#[verifier::spinoff_prover]
fn take_key(ui: &mut Ui, s: &mut AppState, key: Key, monitor: bool) -> (r: UiStep)
    requires
        ready(old(ui)@, *old(s)),
    ensures
        key_taken(old(ui)@, *old(s), key, monitor, final(ui)@, *final(s), r),
        ready(final(ui)@, *final(s)),
{
    if ui.pattern.open {
        return handle_pattern_key(&mut ui.pattern, s, &mut ui.status_msg, key);
    }
    if ui.entry.edit_mode {
        return handle_entry_key(&ui.table, &mut ui.entry, s, &mut ui.status_msg, key);
    }
    if ui.monitor.show_analysis {
        handle_analysis_key(ui, key);
        return UiStep::Stay;
    }
    if ui.show_scan_dialog {
        handle_scan_key(ui, s, key);
        return UiStep::Stay;
    }
    if ui.table.goto_mode {
        let len: usize = view_len(s, ui.table.reg_view);
        handle_goto_key(&mut ui.table, &mut ui.status_msg, len, key);
        return UiStep::Stay;
    }
    if ui.table.search_mode {
        handle_search_key(&mut ui.table, &mut ui.status_msg, key);
        return UiStep::Stay;
    }
    handle_plain_key(ui, s, key, monitor)
}

/// What a key leads to, and whether an error that is shown was seen.
#[derive(Debug)]
pub struct KeyOutcome {
    pub clear_error: bool,
    pub step: UiStep,
}

/// Whether a key shows or hides the last values of registers.
pub open spec fn turns_bar(a: Screen, key: Key, ctrl: bool) -> bool {
    !a.entry.edit_mode && key == Key::Char('c') && !ctrl
}

/// Whether a key ends the program.
pub open spec fn ends(a: Screen, key: Key, ctrl: bool) -> bool {
    !a.entry.edit_mode && (key == Key::Char('q') || (key == Key::Char('c') && ctrl))
}

/// The screen after the key that shows or hides the last values of registers.
pub open spec fn bar_turned(a: Screen) -> Screen {
    Screen {
        table: TableModel { show_change_bar: !a.table.show_change_bar, ..a.table },
        status_msg: on_off(
            !a.table.show_change_bar,
            "run_ui.change_bar_on"@,
            "run_ui.change_bar_off"@,
        ),
        ..a
    }
}

/// Whether a key leads from one state to another. The key for the last values
/// of registers works in every dialog, and then goes on to it.
pub open spec fn keyed(
    a: Screen,
    s: AppState,
    key: Key,
    ctrl: bool,
    monitor: bool,
    b: Screen,
    t: AppState,
    r: KeyOutcome,
) -> bool {
    &&& r.clear_error == turns_bar(a, key, ctrl)
    &&& if ends(a, key, ctrl) {
        b == a && t == s && r.step is Quit
    } else if turns_bar(a, key, ctrl) {
        key_taken(bar_turned(a), s, key, monitor, b, t, r.step)
    } else {
        key_taken(a, s, key, monitor, b, t, r.step)
    }
}

fn turn_bar(ui: &mut Ui)
    ensures
        final(ui)@ == bar_turned(old(ui)@),
{
    ui.table.show_change_bar = !ui.table.show_change_bar;
    ui.status_msg = on_off_message(
        ui.table.show_change_bar,
        "run_ui.change_bar_on",
        "run_ui.change_bar_off",
    );
}

/// What a key does while the program runs in a mode.
pub fn handle_key(ui: &mut Ui, s: &mut AppState, key: Key, ctrl: bool, main_mode: &str) -> (r:
    KeyOutcome)
    requires
        ready(old(ui)@, *old(s)),
    ensures
        keyed(
            old(ui)@,
            *old(s),
            key,
            ctrl,
            of_monitor(main_mode@),
            final(ui)@,
            *final(s),
            r,
        ),
        ready(final(ui)@, *final(s)),
{
    let monitor: bool = is_monitor(main_mode);
    let mut clear_error: bool = false;
    if !ui.entry.edit_mode {
        if let Key::Char('c') = key {
            if ctrl {
                return KeyOutcome { clear_error, step: UiStep::Quit };
            }
            turn_bar(ui);
            clear_error = true;
        }
        if let Key::Char('q') = key {
            return KeyOutcome { clear_error, step: UiStep::Quit };
        }
    }
    let step = take_key(ui, s, key, monitor);
    KeyOutcome { clear_error, step }
}

/// The program ends by a key only where nothing is entered, and then nothing
/// else happens.
pub proof fn law_program_ends_by_two_keys(
    a: Screen,
    s: AppState,
    key: Key,
    ctrl: bool,
    monitor: bool,
    b: Screen,
    t: AppState,
    r: KeyOutcome,
)
    requires
        keyed(a, s, key, ctrl, monitor, b, t, r),
    ensures
        r.step is Quit <==> ends(a, key, ctrl),
        r.step is Quit ==> b == a && t == s,
{
}

/// A monitor that shows no table leaves the device as it is, but for the
/// stability test: no format, no order of bytes, no simulation and no table that
/// is read changes by a key.
pub proof fn law_monitor_leaves_the_device(
    a: Screen,
    s: AppState,
    key: Key,
    b: Screen,
    t: AppState,
    step: UiStep,
)
    requires
        plain_keyed(a, s, key, true, b, t, step),
        key != Key::Char('S'),
    ensures
        t == s,
{
}

/// The screen with which a run starts goes with the device with which it starts.
pub proof fn law_start_is_ready(
    a: Settings,
    mode: crate::args::MainMode,
    s: AppState,
    base: DisplayBase,
    f: RegDataFormat,
    swap_bytes: bool,
    swap_words: bool,
    profiles: Seq<Seq<char>>,
    show: bool,
)
    requires
        crate::setup::starts(a, mode, s),
    ensures
        ready(crate::ui::first_screen(base, f, swap_bytes, swap_words, profiles, show), s),
{
    crate::setup::lemma_labels_len(a.labels, a.holding_count as int);
    assert(crate::text::texts(s.holding_label@).len() == s.holding_label@.len());
}

} // verus!

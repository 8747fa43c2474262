//! What keys do while the program runs, from a screen on which nothing is entered and no
//! dialog is open.
use crate::control::{count_on, next_format};
use crate::format::RegDataFormat;
use crate::keys::{keyed, KeyOutcome};
use crate::menu::Key;
use crate::message::{Note, Part};
use crate::numeral::decimal;
use crate::state::{AppState, RegChangePattern};
use crate::ui::{DisplayBase, MonitorModel, RegView, Screen, TableModel, UiStep};
use vstd::prelude::*;

verus! {

/// Whether nothing is entered and no dialog is open.
pub open spec fn idle(a: Screen) -> bool {
    &&& !a.pattern.open
    &&& !a.entry.edit_mode
    &&& !a.monitor.show_analysis
    &&& !a.show_scan_dialog
    &&& !a.table.goto_mode
    &&& !a.table.search_mode
}

/// Whether the table alone takes keys: no monitor is run or shown.
pub open spec fn table_alone(a: Screen, monitor: bool) -> bool {
    idle(a) && !monitor && !a.monitor.show
}

/// A message without words.
pub open spec fn plain_note(key: Seq<char>) -> Option<Part> {
    Some(Part::Note(Note { key, args: Seq::empty() }))
}

/// The keys that go up and down move the mark by one register, and stop at the ends of
/// the holding registers. Nothing else changes.
#[verifier::spinoff_prover]
pub proof fn law_mark_moves_by_one(
    a: Screen,
    s: AppState,
    key: Key,
    monitor: bool,
    b: Screen,
    t: AppState,
    r: KeyOutcome,
)
    requires
        keyed(a, s, key, false, monitor, b, t, r),
        table_alone(a, monitor),
        key is Up || key == Key::Char('k') || key is Down || key == Key::Char('j'),
    ensures
        t == s,
        r.step is Stay,
        b == (Screen { table: TableModel { selected: b.table.selected, ..a.table }, ..a }),
        key is Up || key == Key::Char('k') ==> b.table.selected == if a.table.selected == 0 {
            0
        } else {
            a.table.selected - 1
        },
        (key is Down || key == Key::Char('j')) && a.table.selected + 1 < s.holding@.len()
            ==> b.table.selected == a.table.selected + 1,
        (key is Down || key == Key::Char('j')) && a.table.selected + 1 >= s.holding@.len()
            && s.holding@.len() > 0 ==> b.table.selected == s.holding@.len() - 1,
{
    assert(s.holding.len() == s.holding@.len());
}

/// The keys that go far: to the first register, to the last holding register, and to the
/// last register of the table that is shown.
#[verifier::spinoff_prover]
pub proof fn law_mark_goes_far(
    a: Screen,
    s: AppState,
    key: Key,
    monitor: bool,
    b: Screen,
    t: AppState,
    r: KeyOutcome,
)
    requires
        keyed(a, s, key, false, monitor, b, t, r),
        idle(a),
        key is PageUp || key is PageDown || key is Home || key is End,
    ensures
        t == s,
        r.step is Stay,
        b == (Screen {
            table: TableModel { selected: b.table.selected, scroll: b.table.scroll, ..a.table },
            status_msg: b.status_msg,
            ..a
        }),
        key is PageUp || key is Home ==> b.table.selected == 0,
        key is PageDown && s.holding@.len() > 0 ==> b.table.selected == s.holding@.len() - 1,
        key is Home ==> b.table.scroll == 0 && b.status_msg == plain_note("run_ui.home"@),
        !(key is Home) ==> b.table.scroll == a.table.scroll,
        key is PageUp || key is PageDown ==> b.status_msg == a.status_msg,
        ({
            let len = match a.table.reg_view {
                RegView::Holding => s.holding@.len(),
                RegView::Coils => s.coils@.len(),
                RegView::Discrete => s.discrete@.len(),
                RegView::Input => s.input_registers@.len(),
            };
            &&& key is End && len > 0 ==> b.table.selected == len - 1 && b.status_msg == plain_note(
                "run_ui.end"@,
            )
            &&& key is End && len == 0 ==> b == a
        }),
{
    assert(s.holding.len() == s.holding@.len());
    assert(s.coils.len() == s.coils@.len());
    assert(s.discrete.len() == s.discrete@.len());
    assert(s.input_registers.len() == s.input_registers@.len());
}

/// Three keys choose the base in which plain registers are shown and entered.
#[verifier::spinoff_prover]
pub proof fn law_base_is_chosen(
    a: Screen,
    s: AppState,
    key: Key,
    monitor: bool,
    b: Screen,
    t: AppState,
    r: KeyOutcome,
)
    requires
        keyed(a, s, key, false, monitor, b, t, r),
        idle(a),
        key == Key::Char('d') || key == Key::Char('h') || key == Key::Char('b'),
    ensures
        t == s,
        r.step is Stay,
        b == (Screen {
            table: TableModel { base: b.table.base, ..a.table },
            status_msg: None,
            ..a
        }),
        key == Key::Char('d') ==> b.table.base is Dec,
        key == Key::Char('h') ==> b.table.base is Hex,
        key == Key::Char('b') ==> b.table.base is Bin,
{
}

/// In a monitor the keys that go up and down choose among the profiles, or scroll through
/// the history, of which the last eight records stay in sight.
#[verifier::spinoff_prover]
pub proof fn law_monitor_moves(
    a: Screen,
    s: AppState,
    key: Key,
    b: Screen,
    t: AppState,
    r: KeyOutcome,
)
    requires
        keyed(a, s, key, false, true, b, t, r),
        idle(a),
        a.profiles.len() <= usize::MAX,
        key is Up || key is Down,
    ensures
        t == s,
        r.step is Stay,
        b == (Screen {
            monitor: MonitorModel {
                list_idx: b.monitor.list_idx,
                scroll: b.monitor.scroll,
                ..a.monitor
            },
            ..a
        }),
        a.monitor.picking ==> b.monitor.scroll == a.monitor.scroll,
        !a.monitor.picking ==> b.monitor.list_idx == a.monitor.list_idx,
        a.monitor.picking && key is Up && a.monitor.list_idx > 0 ==> b.monitor.list_idx
            == a.monitor.list_idx - 1,
        a.monitor.picking && key is Down && a.monitor.list_idx + 1 < a.profiles.len()
            ==> b.monitor.list_idx == a.monitor.list_idx + 1,
        !a.monitor.picking && key is Up && a.monitor.scroll > 0 ==> b.monitor.scroll
            == a.monitor.scroll - 1,
        !a.monitor.picking && key is Up && a.monitor.scroll == 0 ==> b.monitor.scroll == 0,
        !a.monitor.picking && key is Down && a.monitor.scroll + 9 < s.monitor@.history.len()
            ==> b.monitor.scroll == a.monitor.scroll + 1,
        !a.monitor.picking && key is Down && a.monitor.scroll + 9 >= s.monitor@.history.len()
            ==> b.monitor.scroll == a.monitor.scroll,
{
    assert(s.monitor.history.len() == s.monitor@.history.len());
}

/// In a monitor the key that confirms starts the marked profile, or shows the analysis of
/// the record to which the history is scrolled. Elsewhere it does nothing.
#[verifier::spinoff_prover]
pub proof fn law_choice_is_confirmed(
    a: Screen,
    s: AppState,
    monitor: bool,
    b: Screen,
    t: AppState,
    r: KeyOutcome,
)
    requires
        keyed(a, s, Key::Enter, false, monitor, b, t, r),
        idle(a),
    ensures
        t == s,
        !monitor ==> b == a && r.step is Stay,
        monitor && a.monitor.picking && a.monitor.list_idx < a.profiles.len() ==> {
            &&& r.step matches UiStep::Monitor(n) && n@ == a.profiles[a.monitor.list_idx as int]
            &&& b.monitor.selected_profile == Some(a.profiles[a.monitor.list_idx as int])
            &&& !b.monitor.picking
            &&& b.table == a.table && b.entry == a.entry
            &&& b.status_msg == Some(
                Part::Note(
                    Note {
                        key: "run_ui.monitor_selected"@,
                        args: seq![
                            (
                                "name"@,
                                crate::message::Said::Text(a.profiles[a.monitor.list_idx as int]),
                            ),
                        ],
                    },
                ),
            )
        },
        monitor && !a.monitor.picking && a.monitor.focus_history && a.monitor.scroll
            < s.monitor@.history.len() ==> {
            &&& r.step is Stay
            &&& b.monitor.show_analysis
            &&& b.monitor.analysis_idx == s.monitor@.history.len() - 1 - a.monitor.scroll
            &&& b.status_msg == plain_note("run_ui.analysis_opened"@)
            &&& b.table == a.table && b.entry == a.entry
        },
{
    assert(s.monitor.history.len() == s.monitor@.history.len());
}

/// The keys for formats give the marked register, in its own table, the next format of a
/// single register, or the one before; the plain one takes its own format from it.
#[verifier::spinoff_prover]
pub proof fn law_format_is_stepped(
    a: Screen,
    s: AppState,
    key: Key,
    monitor: bool,
    b: Screen,
    t: AppState,
    r: KeyOutcome,
)
    requires
        keyed(a, s, key, false, monitor, b, t, r),
        idle(a),
        !monitor,
        key == Key::Char('f') || key == Key::Char('F'),
    ensures
        ({
            let addr = a.table.selected;
            let input = a.table.reg_view is Input;
            let m = if input {
                s.input_combinations@
            } else {
                s.holding_combinations@
            };
            let n = if input {
                t.input_combinations@
            } else {
                t.holding_combinations@
            };
            let before = if m.contains_key(addr) {
                m[addr]
            } else {
                crate::format::plain_format()
            };
            let f = if key == Key::Char('f') {
                crate::format::after_combination(before)
            } else {
                crate::format::before_combination(before)
            };
            let plain = f.data_type is Uint && f.width is Bits16;
            &&& r.step is Stay
            &&& plain ==> n == m.remove(addr)
            &&& !plain ==> n == m.insert(addr, f)
            &&& input ==> t.holding_combinations == s.holding_combinations
            &&& !input ==> t.input_combinations == s.input_combinations
            &&& t.holding == s.holding && t.swap_bytes == s.swap_bytes && t.swap_words
                == s.swap_words && t.read_enabled == s.read_enabled
            &&& b == (Screen { status_msg: b.status_msg, ..a })
            &&& b.status_msg matches Some(Part::Note(note)) && note.key == (if plain {
                "run_ui.combination_removed"@
            } else {
                "run_ui.combination_set"@
            }) && note.args[0] == ("addr"@, crate::message::Said::Text(decimal(addr as nat))) && (
            !plain ==> note.args.len() == 3 && note.args[1] == (
                "fmt"@,
                crate::message::Said::Text(crate::format::label_of(f)),
            ) && note.args[2] == (
                "count"@,
                crate::message::Said::Text(decimal(crate::laws::values::count(f.width))),
            ))
        }),
{
}

/// Two keys turn over whether bytes are exchanged and whether registers are reversed, on
/// the screen and in the device.
#[verifier::spinoff_prover]
pub proof fn law_order_is_turned(
    a: Screen,
    s: AppState,
    key: Key,
    monitor: bool,
    b: Screen,
    t: AppState,
    r: KeyOutcome,
)
    requires
        keyed(a, s, key, false, monitor, b, t, r),
        idle(a),
        !monitor,
        key == Key::Char('w') || key == Key::Char('W'),
    ensures
        r.step is Stay,
        key == Key::Char('w') ==> t == (AppState { swap_bytes: !s.swap_bytes, ..s })
            && b.table == (TableModel { swap_bytes: !s.swap_bytes, ..a.table })
            && b.status_msg == Some(
            Part::Text(
                if s.swap_bytes {
                    "Byte swap: OFF"@
                } else {
                    "Byte swap: ON"@
                },
            ),
        ),
        key == Key::Char('W') ==> t == (AppState { swap_words: !s.swap_words, ..s })
            && b.table == (TableModel { swap_words: !s.swap_words, ..a.table })
            && b.status_msg == Some(
            Part::Text(
                if s.swap_words {
                    "Word swap: OFF"@
                } else {
                    "Word swap: ON"@
                },
            ),
        ),
        b == (Screen { table: b.table, status_msg: b.status_msg, ..a }),
{
}

/// The key for the stability test starts it, from zero, or stops it.
#[verifier::spinoff_prover]
pub proof fn law_stability_test_is_turned(
    a: Screen,
    s: AppState,
    monitor: bool,
    b: Screen,
    t: AppState,
    r: KeyOutcome,
)
    requires
        keyed(a, s, Key::Char('S'), false, monitor, b, t, r),
        idle(a),
    ensures
        r.step is Stay,
        t == (AppState {
            stability_test_running: !s.stability_test_running,
            stability_stats: t.stability_stats,
            ..s
        }),
        !s.stability_test_running ==> t.stability_stats == (0u64, 0u64, 0u64) && b.status_msg
            == plain_note("run_ui.stability_started"@),
        s.stability_test_running ==> t.stability_stats == s.stability_stats && b.status_msg
            == plain_note("run_ui.stability_stopped"@),
        b == (Screen { status_msg: b.status_msg, ..a }),
{
}

/// A key turns over whether the table that is shown is read, and no other.
#[verifier::spinoff_prover]
pub proof fn law_reading_is_turned(
    a: Screen,
    s: AppState,
    monitor: bool,
    b: Screen,
    t: AppState,
    r: KeyOutcome,
    i: int,
)
    requires
        keyed(a, s, Key::Char(' '), false, monitor, b, t, r),
        idle(a),
        !monitor,
        0 <= i < 4,
    ensures
        ({
            let own = match a.table.reg_view {
                RegView::Holding => 0int,
                RegView::Coils => 1,
                RegView::Discrete => 2,
                RegView::Input => 3,
            };
            let name = match a.table.reg_view {
                RegView::Holding => "Holding"@,
                RegView::Coils => "Coils"@,
                RegView::Discrete => "Discrete"@,
                RegView::Input => "Input"@,
            };
            &&& r.step is Stay
            &&& t.read_enabled@[own] == !s.read_enabled@[own]
            &&& i != own ==> t.read_enabled@[i] == s.read_enabled@[i]
            &&& t == (AppState { read_enabled: t.read_enabled, ..s })
            &&& b == (Screen { status_msg: b.status_msg, ..a })
            &&& b.status_msg == Some(
                Part::Text(
                    name + if t.read_enabled@[own] {
                        " Read enabled"@
                    } else {
                        " Read disabled"@
                    },
                ),
            )
        }),
{
}

/// A key forgets all that is noted of changes, and no register changes.
#[verifier::spinoff_prover]
pub proof fn law_changes_are_forgotten(
    a: Screen,
    s: AppState,
    monitor: bool,
    b: Screen,
    t: AppState,
    r: KeyOutcome,
)
    requires
        keyed(a, s, Key::Char('C'), false, monitor, b, t, r),
        idle(a),
        !monitor,
    ensures
        r.step is Stay,
        t.notes().changes.len() == 0 && t.notes().just_changed.len() == 0
            && t.notes().direction.len() == 0 && t.notes().bars.len() == 0,
        t.holding == s.holding && t.coils == s.coils && t.discrete == s.discrete
            && t.input_registers == s.input_registers && t.monitor == s.monitor
            && t.holding_label == s.holding_label,
        b == (Screen { status_msg: b.status_msg, ..a }),
        b.status_msg == Some(
            Part::Text("已清除 "@ + decimal(s.reg_change_history@.len()) + " 条变化记录"@),
        ),
{
}

/// A key turns over whether the marked register is simulated, and no other one.
#[verifier::spinoff_prover]
pub proof fn law_simulation_is_turned(
    a: Screen,
    s: AppState,
    b: Screen,
    t: AppState,
    r: KeyOutcome,
    i: int,
)
    requires
        keyed(a, s, Key::Char('v'), false, false, b, t, r),
        table_alone(a, false),
        a.table.reg_view is Holding,
        a.table.selected < s.holding@.len(),
        0 <= i,
    ensures
        ({
            let x = a.table.selected as int;
            let before = s.holding_change_enabled@;
            let after = t.holding_change_enabled@;
            let was = x < before.len() && before[x];
            &&& r.step is Stay
            &&& x < after.len() && after[x] == !was
            &&& i < before.len() && i != x ==> after[i] == before[i]
            &&& before.len() <= i < after.len() && i != x ==> !after[i]
            &&& t == (AppState { holding_change_enabled: t.holding_change_enabled, ..s })
            &&& b == (Screen { status_msg: b.status_msg, ..a })
            &&& b.status_msg == Some(
                Part::Headed(
                    "Holding"@ + "["@ + decimal(x as nat) + "] "@,
                    Note {
                        key: if was {
                            "run_ui.value_change_off"@
                        } else {
                            "run_ui.value_change_on"@
                        },
                        args: Seq::empty(),
                    },
                ),
            )
        }),
{
}

/// The same key turns over whether the marked input register is simulated; bits are not
/// simulated.
#[verifier::spinoff_prover]
pub proof fn law_input_simulation_is_turned(
    a: Screen,
    s: AppState,
    b: Screen,
    t: AppState,
    r: KeyOutcome,
)
    requires
        keyed(a, s, Key::Char('v'), false, false, b, t, r),
        table_alone(a, false),
    ensures
        r.step is Stay,
        a.table.reg_view is Input && a.table.selected < s.input_registers@.len() ==> ({
            let x = a.table.selected as int;
            let before = s.input_change_enabled@;
            let was = x < before.len() && before[x];
            &&& x < t.input_change_enabled@.len() && t.input_change_enabled@[x] == !was
            &&& t == (AppState { input_change_enabled: t.input_change_enabled, ..s })
        }),
        a.table.reg_view is Coils || a.table.reg_view is Discrete ==> t == s && b.status_msg
            == plain_note("run_ui.value_change_unsupported"@),
{
}

/// A key simulates all registers of the table, or none where more than half of them are.
#[verifier::spinoff_prover]
pub proof fn law_all_are_simulated_or_none(
    a: Screen,
    s: AppState,
    b: Screen,
    t: AppState,
    r: KeyOutcome,
    i: int,
)
    requires
        keyed(a, s, Key::Char('V'), false, false, b, t, r),
        table_alone(a, false),
        a.table.reg_view is Holding,
        0 <= i < s.holding@.len(),
    ensures
        ({
            let n = s.holding@.len();
            let on = 2 * count_on(s.holding_change_enabled@) <= n;
            &&& r.step is Stay
            &&& t.holding_change_enabled@.len() == n
            &&& t.holding_change_enabled@[i] == on
            &&& t == (AppState { holding_change_enabled: t.holding_change_enabled, ..s })
            &&& b.status_msg == Some(
                Part::Text(
                    "Holding"@ + if on {
                        ": 全部开启变化 ("@ + decimal(n) + "/"@ + decimal(n) + ")"@
                    } else {
                        ": 全部关闭变化 (0/"@ + decimal(n) + ")"@
                    },
                ),
            )
        }),
{
}

/// The same for input registers.
#[verifier::spinoff_prover]
pub proof fn law_all_inputs_are_simulated_or_none(
    a: Screen,
    s: AppState,
    b: Screen,
    t: AppState,
    r: KeyOutcome,
    i: int,
)
    requires
        keyed(a, s, Key::Char('V'), false, false, b, t, r),
        table_alone(a, false),
        a.table.reg_view is Input,
        0 <= i < s.input_registers@.len(),
    ensures
        t.input_change_enabled@.len() == s.input_registers@.len(),
        t.input_change_enabled@[i] == (2 * count_on(s.input_change_enabled@)
            <= s.input_registers@.len()),
        t == (AppState { input_change_enabled: t.input_change_enabled, ..s }),
{
}

/// How many of some choices are on: one more for each that is.
pub proof fn law_choices_are_counted(v: Seq<bool>, on: bool)
    ensures
        count_on(Seq::empty()) == 0,
        count_on(v.push(on)) == count_on(v) + if on {
            1nat
        } else {
            0
        },
{
    assert(v.push(on).drop_last() =~= v);
}

/// A key searches for units, but not while a search runs; what one found is shown first.
#[verifier::spinoff_prover]
pub proof fn law_units_are_searched_once(
    a: Screen,
    s: AppState,
    b: Screen,
    t: AppState,
    r: KeyOutcome,
)
    requires
        keyed(a, s, Key::Char('l'), false, false, b, t, r),
        table_alone(a, false),
    ensures
        r.step is Scan <==> !s.slave_scan_running && s.slave_scan_result is None,
        r.step is Scan ==> t == (AppState { slave_scan_running: true, slave_scan_result: None, ..s })
            && b.status_msg == plain_note("run_ui.scan_started"@),
        !(r.step is Scan) ==> t == s && r.step is Stay,
        s.slave_scan_running ==> b.status_msg == plain_note("run_ui.scan_running"@)
            && !b.show_scan_dialog,
        !s.slave_scan_running && s.slave_scan_result is Some ==> b.show_scan_dialog,
{
}

/// Three keys start an entry: of the note on the marked register, from the note that it
/// has; of its value, from the value that it has; and of the name of a profile, from
/// nothing.
#[verifier::spinoff_prover]
pub proof fn law_entries_are_started(
    a: Screen,
    s: AppState,
    key: Key,
    monitor: bool,
    b: Screen,
    t: AppState,
    r: KeyOutcome,
)
    requires
        keyed(a, s, key, false, monitor, b, t, r),
        idle(a),
        key == Key::Char('t') || key == Key::Char('o') || key == Key::Char('e'),
        a.table.selected < s.holding@.len(),
    ensures
        ({
            let x = a.table.selected as int;
            let v = s.holding@[x] as nat;
            &&& t == s && r.step is Stay
            &&& b == (Screen { entry: b.entry, status_msg: None, ..a })
            &&& b.entry.edit_mode
            &&& b.entry.edit_is_label <==> key == Key::Char('t')
            &&& b.entry.edit_is_profile <==> key == Key::Char('o')
            &&& key == Key::Char('t') ==> b.entry.edit_buf == s.holding_label@[x]@
            &&& key == Key::Char('o') ==> b.entry.edit_buf.len() == 0
            &&& key == Key::Char('e') ==> match a.table.base {
                DisplayBase::Dec => b.entry.edit_buf == decimal(v),
                DisplayBase::Hex => b.entry.edit_buf == "0x"@ + crate::numeral::padded(v, 16, 4),
                DisplayBase::Bin => b.entry.edit_buf == "0b"@ + crate::numeral::padded(v, 2, 16),
            }
        }),
{
}

/// A key opens the dialog for the pattern of the marked register, on the pattern and the
/// frequency that it has.
#[verifier::spinoff_prover]
pub proof fn law_dialog_is_opened(
    a: Screen,
    s: AppState,
    b: Screen,
    t: AppState,
    r: KeyOutcome,
)
    requires
        keyed(a, s, Key::Char('p'), false, false, b, t, r),
        table_alone(a, false),
    ensures
        t == s && r.step is Stay,
        ({
            let x = a.table.selected;
            let input = a.table.reg_view is Input;
            let there = a.table.reg_view is Holding && x < s.holding@.len() || input && x
                < s.input_registers@.len();
            let patterns = if input {
                s.input_change_patterns@
            } else {
                s.holding_change_patterns@
            };
            let freqs = if input {
                s.input_pattern_freqs@
            } else {
                s.holding_pattern_freqs@
            };
            &&& b.pattern.open <==> there
            &&& there ==> {
                &&& b.pattern.addr == x && b.pattern.reg_type == a.table.reg_view
                &&& !b.pattern.editing_freq
                &&& x < freqs.len() ==> b.pattern.freq == freqs[x as int]
                &&& x < patterns.len() ==> b.pattern.sel == match patterns[x as int] {
                    RegChangePattern::Random => 0int,
                    RegChangePattern::UpDown => 1,
                    RegChangePattern::Sine => 2,
                    RegChangePattern::Square => 3,
                    RegChangePattern::Triangle => 4,
                }
                &&& x >= patterns.len() ==> b.pattern.sel == 0
            }
            &&& !there ==> b.pattern == a.pattern
        }),
{
}

/// Two keys ask for an address and for a search; one turns to the next table, at its
/// first register.
#[verifier::spinoff_prover]
pub proof fn law_table_is_turned(
    a: Screen,
    s: AppState,
    key: Key,
    b: Screen,
    t: AppState,
    r: KeyOutcome,
)
    requires
        keyed(a, s, key, false, false, b, t, r),
        table_alone(a, false),
        key == Key::Char('G') || key == Key::Char('/') || key == Key::Char('R'),
    ensures
        t == s && r.step is Stay,
        b == (Screen { table: b.table, status_msg: b.status_msg, ..a }),
        key == Key::Char('G') ==> b.table == (TableModel {
            goto_mode: true,
            goto_buf: Seq::empty(),
            ..a.table
        }) && b.status_msg == Some(Part::Text("Go to address: "@)),
        key == Key::Char('/') ==> b.table == (TableModel {
            search_mode: true,
            search_buf: Seq::empty(),
            ..a.table
        }) && b.status_msg == Some(Part::Text("/_ 搜索地址或标签"@)),
        key == Key::Char('R') ==> b.table == (TableModel {
            reg_view: b.table.reg_view,
            selected: 0,
            scroll: 0,
            ..a.table
        }) && match a.table.reg_view {
            RegView::Holding => b.table.reg_view is Coils,
            RegView::Coils => b.table.reg_view is Discrete,
            RegView::Discrete => b.table.reg_view is Input,
            RegView::Input => b.table.reg_view is Holding,
        },
{
}

/// Keys that show and hide panels: the bytes of the last frame, the monitor beside the
/// table, and the profiles of a monitor; and one that turns from the history to the
/// statistics.
#[verifier::spinoff_prover]
pub proof fn law_panels_are_turned(
    a: Screen,
    s: AppState,
    key: Key,
    monitor: bool,
    b: Screen,
    t: AppState,
    r: KeyOutcome,
)
    requires
        keyed(a, s, key, false, monitor, b, t, r),
        idle(a),
        key == Key::Char('B') || key == Key::Char('M') || key == Key::Char('P') || key is Tab,
    ensures
        t == s && r.step is Stay,
        b.table == a.table && b.entry == a.entry && b.pattern == a.pattern,
        key == Key::Char('B') ==> b.show_byte_panel == !a.show_byte_panel && b.monitor == a.monitor
            && b.status_msg == plain_note(
            if a.show_byte_panel {
                "run_ui.byte_panel_hidden"@
            } else {
                "run_ui.byte_panel_shown"@
            },
        ),
        key != Key::Char('B') ==> b.show_byte_panel == a.show_byte_panel,
        key == Key::Char('M') && !monitor ==> b.monitor == (MonitorModel {
            show: !a.monitor.show,
            ..a.monitor
        }) && b.status_msg == plain_note(
            if a.monitor.show {
                "run_ui.monitor_hidden"@
            } else {
                "run_ui.monitor_shown"@
            },
        ),
        key == Key::Char('M') && monitor ==> b == a,
        key == Key::Char('P') && monitor && a.profiles.len() > 0 ==> b.monitor == (MonitorModel {
            picking: !a.monitor.picking,
            ..a.monitor
        }) && b.status_msg == (if a.monitor.picking {
            a.status_msg
        } else {
            plain_note("run_ui.monitor_picking"@)
        }),
        key == Key::Char('P') && !(monitor && a.profiles.len() > 0) ==> b == a,
        key is Tab && (monitor || a.monitor.show) ==> b.monitor == (MonitorModel {
            focus_history: !a.monitor.focus_history,
            ..a.monitor
        }) && b.status_msg == plain_note(
            if a.monitor.focus_history {
                "run_ui.monitor_stats_mode"@
            } else {
                "run_ui.monitor_history_mode"@
            },
        ),
        key is Tab && !(monitor || a.monitor.show) ==> b == a,
{
}

/// A key exports the registers, except in a monitor; two keys end the program; and one
/// shows or hides the bars, and takes away an error that is shown.
#[verifier::spinoff_prover]
pub proof fn law_other_keys(
    a: Screen,
    s: AppState,
    key: Key,
    ctrl: bool,
    monitor: bool,
    b: Screen,
    t: AppState,
    r: KeyOutcome,
)
    requires
        keyed(a, s, key, ctrl, monitor, b, t, r),
        idle(a),
    ensures
        key == Key::Char('E') ==> b == a && t == s && (r.step is Export <==> !monitor) && (r.step
            is Stay <==> monitor),
        key == Key::Char('q') || key == Key::Char('c') && ctrl ==> r.step is Quit && b == a && t
            == s,
        key == Key::Char('c') && !ctrl ==> r.step is Stay && r.clear_error && t == s && b.table == (
        TableModel { show_change_bar: !a.table.show_change_bar, ..a.table })
            && b.status_msg == plain_note(
            if a.table.show_change_bar {
                "run_ui.change_bar_off"@
            } else {
                "run_ui.change_bar_on"@
            },
        ),
        r.clear_error <==> key == Key::Char('c') && !ctrl,
        key is Esc || key is Backspace || key is Other ==> b == a && t == s && r.step is Stay,
{
}

/// The format of the next step is found from the one that a register has, or from the
/// plain one.
pub proof fn law_next_format_is_found(m: Map<usize, RegDataFormat>, addr: usize, on: bool)
    ensures
        ({
            let f = if m.contains_key(addr) {
                m[addr]
            } else {
                crate::format::plain_format()
            };
            &&& on ==> next_format(m, addr, on) == crate::format::after_combination(f)
            &&& !on ==> next_format(m, addr, on) == crate::format::before_combination(f)
        }),
{
}

/// A run starts on the first holding register, with nothing entered and no dialog open.
pub proof fn law_first_screen(
    base: DisplayBase,
    f: RegDataFormat,
    swap_bytes: bool,
    swap_words: bool,
    profiles: Seq<Seq<char>>,
    show: bool,
)
    ensures
        ({
            let a = crate::ui::first_screen(base, f, swap_bytes, swap_words, profiles, show);
            &&& idle(a)
            &&& a.table.selected == 0 && a.table.scroll == 0 && a.table.reg_view is Holding
            &&& a.table.base == base && a.table.reg_format == f
            &&& a.table.swap_bytes == swap_bytes && a.table.swap_words == swap_words
            &&& !a.table.show_change_bar && a.table.search_buf.len() == 0
            &&& a.monitor.show == show && a.monitor.picking && a.monitor.focus_history
                && a.monitor.scroll == 0 && a.monitor.list_idx == 0 && a.monitor.selected_profile
                is None
            &&& a.profiles == profiles && a.status_msg is None && !a.show_byte_panel
            &&& a.pattern.freq == 0x3FF0_0000_0000_0000
        }),
{
}

/// Where the monitor is shown beside the table, the keys that go up and down scroll its
/// history or move the mark, by where the keys go.
#[verifier::spinoff_prover]
pub proof fn law_keys_go_to_history_or_table(
    a: Screen,
    s: AppState,
    key: Key,
    b: Screen,
    t: AppState,
    r: KeyOutcome,
)
    requires
        keyed(a, s, key, false, false, b, t, r),
        idle(a),
        a.monitor.show,
        key is Up || key is Down,
    ensures
        t == s && r.step is Stay,
        a.monitor.focus_history ==> b.table == a.table,
        !a.monitor.focus_history ==> b.monitor == a.monitor,
        a.monitor.focus_history && key is Up && a.monitor.scroll > 0 ==> b.monitor.scroll
            == a.monitor.scroll - 1,
        a.monitor.focus_history && key is Down && a.monitor.scroll + 9 < s.monitor@.history.len()
            ==> b.monitor.scroll == a.monitor.scroll + 1,
        !a.monitor.focus_history && key is Up && a.table.selected > 0 ==> b.table.selected
            == a.table.selected - 1,
        !a.monitor.focus_history && key is Down && a.table.selected + 1 < s.holding@.len()
            ==> b.table.selected == a.table.selected + 1,
{
    assert(s.monitor.history.len() == s.monitor@.history.len());
    assert(s.holding.len() == s.holding@.len());
}

/// A monitor that runs or is shown takes no keys for simulation, patterns and units.
#[verifier::spinoff_prover]
pub proof fn law_monitor_takes_no_such_keys(
    a: Screen,
    s: AppState,
    key: Key,
    monitor: bool,
    b: Screen,
    t: AppState,
    r: KeyOutcome,
)
    requires
        keyed(a, s, key, false, monitor, b, t, r),
        idle(a),
        monitor || a.monitor.show,
        key == Key::Char('v') || key == Key::Char('V') || key == Key::Char('l') || key == Key::Char(
            'p',
        ) || key == Key::Char('G'),
    ensures
        b == a && t == s && r.step is Stay,
{
}

} // verus!

//! What the screen says below the table: the state of the program, and the keys.
use crate::control::count_enabled;
use crate::message::{
    message1, message2, message3, message4, note, note1, note2, note3, note4, piece, text,
    Draft, Part, Piece,
};
use crate::numeral::decimal_text;
use crate::state::{AppState, RegChangeRecord};
use crate::ui::{
    is_monitor, of_monitor, DisplayBase, EntryModel, EntryPane, Screen, TableModel, TablePane, Ui,
};
use crate::value::format_u16;
use vstd::prelude::*;

verus! {

/// The message on the keys.
pub open spec fn help_note(a: Screen, s: AppState, monitor: bool) -> Part {
    if a.entry.edit_mode {
        note1("run_ui.help_edit"@, "buf"@, a.entry.edit_buf)
    } else if s.stability_test_running {
        note("run_ui.help_stability"@)
    } else if monitor {
        note("run_ui.help_monitoring"@)
    } else if a.monitor.show {
        note("run_ui.help_monitor"@)
    } else {
        note("run_ui.help_normal"@)
    }
}

/// What is said on the keys, and on how many registers are simulated.
pub open spec fn help_line(a: Screen, s: AppState, monitor: bool) -> Seq<Part> {
    seq![
        help_note(a, s, monitor),
        text(
            " | v:"@ + crate::numeral::decimal(
                crate::control::count_on(s.holding_change_enabled@) + crate::control::count_on(
                    s.input_change_enabled@,
                ),
            ),
        ),
    ]
}

/// What is said on the keys.
pub fn help_text(ui: &Ui, s: &AppState, main_mode: &str) -> (r: Draft)
    ensures
        r@ == help_line(ui@, *s, of_monitor(main_mode@)),
{
    let monitor: bool = is_monitor(main_mode);
    let mut d = Draft::new();
    if ui.entry.edit_mode {
        d.put(message1("run_ui.help_edit", "buf", ui.entry.edit_buf.clone()));
    } else if s.stability_test_running {
        d.note("run_ui.help_stability");
    } else if monitor {
        d.note("run_ui.help_monitoring");
    } else if ui.monitor.show {
        d.note("run_ui.help_monitor");
    } else {
        d.note("run_ui.help_normal");
    }
    let holding: usize = count_enabled(&s.holding_change_enabled);
    let input: usize = count_enabled(&s.input_change_enabled);
    let mut tail: String = " | v:".to_string();
    tail.append(decimal_text(holding as u128 + input as u128).as_str());
    d.text(tail.as_str());
    assert(d@ =~= help_line(ui@, *s, monitor));
    d
}

/// How the order of bytes and registers is shown, where it is not the usual one.
pub open spec fn swap_mark(table: TableModel) -> Seq<char> {
    if table.swap_bytes && table.swap_words {
        " sw:BW"@
    } else if table.swap_bytes {
        " sw:B"@
    } else if table.swap_words {
        " sw:W"@
    } else {
        Seq::empty()
    }
}

fn swap_text(table: &TablePane) -> (r: String)
    ensures
        r@ == swap_mark(table@),
{
    if table.swap_bytes && table.swap_words {
        " sw:BW".to_string()
    } else if table.swap_bytes {
        " sw:B".to_string()
    } else if table.swap_words {
        " sw:W".to_string()
    } else {
        String::new()
    }
}

/// What is said while an entry is made.
pub open spec fn entry_status(a: EntryModel, base: DisplayBase) -> Part {
    if a.edit_is_profile {
        note1("run_ui.edit_save_profile"@, "buf"@, a.edit_buf)
    } else if a.edit_is_label {
        note1("run_ui.edit_label"@, "buf"@, a.edit_buf)
    } else {
        note2(
            "run_ui.edit_value"@,
            "base"@,
            crate::ui::base_name(base),
            "buf"@,
            a.edit_buf,
        )
    }
}

fn entry_message(entry: &EntryPane, base: DisplayBase) -> (r: Piece)
    ensures
        r@ == entry_status(entry@, base),
{
    let buf: String = entry.edit_buf.clone();
    if entry.edit_is_profile {
        message1("run_ui.edit_save_profile", "buf", buf)
    } else if entry.edit_is_label {
        message1("run_ui.edit_label", "buf", buf)
    } else {
        message2("run_ui.edit_value", "base", base.name().to_string(), "buf", buf)
    }
}

/// What is said of the last frame, or that none came.
pub open spec fn frame_status(s: AppState, table: TableModel) -> Part {
    let base = crate::ui::base_name(table.base);
    let fmt = crate::format::label_of(table.reg_format);
    let sw = swap_mark(table);
    match s.last_frame {
        Some(fi) => note4(
            if fi.is_tcp {
                "run_ui.status_tcp"@
            } else {
                "run_ui.status_rtu"@
            },
            "func"@,
            fi.func_name@,
            "base"@,
            base,
            "fmt"@,
            fmt,
            "sw"@,
            sw,
        ),
        None => note3("run_ui.status_waiting"@, "base"@, base, "fmt"@, fmt, "sw"@, sw),
    }
}

fn frame_message(s: &AppState, table: &TablePane) -> (r: Piece)
    ensures
        r@ == frame_status(*s, table@),
{
    let base: String = table.base.name().to_string();
    let fmt: String = table.reg_format.short_label();
    let sw: String = swap_text(table);
    match &s.last_frame {
        Some(fi) => {
            let key = if fi.is_tcp {
                "run_ui.status_tcp"
            } else {
                "run_ui.status_rtu"
            };
            message4(key, "func", fi.func_name.clone(), "base", base, "fmt", fmt, "sw", sw)
        },
        None => message3("run_ui.status_waiting", "base", base, "fmt", fmt, "sw", sw),
    }
}

/// What is said of the program at work: of the stability test, the monitor, the
/// last change, or the last frame.
pub open spec fn work_status(a: Screen, s: AppState, monitor: bool) -> Part {
    let frames = crate::numeral::decimal(s.monitor.total_frames as nat);
    if s.stability_test_running {
        note3(
            "run_ui.status_stability"@,
            "total"@,
            crate::numeral::decimal(s.stability_stats.0 as nat),
            "ok"@,
            crate::numeral::decimal(s.stability_stats.1 as nat),
            "fail"@,
            crate::numeral::decimal(s.stability_stats.2 as nat),
        )
    } else if monitor {
        note1("run_ui.status_monitoring"@, "frames"@, frames)
    } else if s.monitor.total_frames > 0 && a.monitor.show {
        note1("run_ui.status_monitor"@, "frames"@, frames)
    } else if s.reg_change_history@.len() > 0 {
        let last = s.reg_change_history@.last();
        note3(
            "run_ui.status_reg_change"@,
            "count"@,
            crate::numeral::decimal(s.reg_change_history@.len()),
            "addr"@,
            crate::numeral::decimal(last.addr as nat),
            "dir"@,
            last.direction.arrow(),
        )
    } else {
        frame_status(s, a.table)
    }
}

fn work_message(ui: &Ui, s: &AppState, monitor: bool) -> (r: Piece)
    ensures
        r@ == work_status(ui@, *s, monitor),
{
    let frames: usize = s.monitor.total_frames;
    if s.stability_test_running {
        let (total, ok, fail) = s.stability_stats;
        return message3(
            "run_ui.status_stability",
            "total",
            decimal_text(total as u128),
            "ok",
            decimal_text(ok as u128),
            "fail",
            decimal_text(fail as u128),
        );
    }
    if monitor {
        return message1("run_ui.status_monitoring", "frames", decimal_text(frames as u128));
    }
    if frames > 0 && ui.monitor.show {
        return message1("run_ui.status_monitor", "frames", decimal_text(frames as u128));
    }
    let count: usize = s.reg_change_history.len();
    if count > 0 {
        let last: &RegChangeRecord = &s.reg_change_history[count - 1];
        return message3(
            "run_ui.status_reg_change",
            "count",
            decimal_text(count as u128),
            "addr",
            decimal_text(last.addr as u128),
            "dir",
            last.direction.label().to_string(),
        );
    }
    frame_message(s, &ui.table)
}

/// What the status line says: first an error, then a search, then what was
/// reported last, then an entry, then the program at work.
pub open spec fn status_shown(
    a: Screen,
    s: AppState,
    error: Option<Seq<char>>,
    monitor: bool,
) -> Part {
    match error {
        Some(e) => note1("run_ui.error_prefix"@, "msg"@, e),
        None => if a.table.search_mode {
            text("/"@ + a.table.search_buf)
        } else {
            match a.status_msg {
                Some(p) => p,
                None => if a.entry.edit_mode {
                    entry_status(a.entry, a.table.base)
                } else {
                    work_status(a, s, monitor)
                },
            }
        },
    }
}

/// What the status line says.
pub fn status_line(ui: &Ui, s: &AppState, error: &Option<String>, main_mode: &str) -> (r: Piece)
    ensures
        r@ == status_shown(ui@, *s, crate::menu::maybe(*error), of_monitor(main_mode@)),
{
    if let Some(e) = error {
        return message1("run_ui.error_prefix", "msg", e.clone());
    }
    if ui.table.search_mode {
        let mut t: String = "/".to_string();
        t.append(ui.table.search_buf.as_str());
        return piece(t.as_str());
    }
    if let Some(p) = &ui.status_msg {
        return p.copy();
    }
    if ui.entry.edit_mode {
        return entry_message(&ui.entry, ui.table.base);
    }
    let monitor: bool = is_monitor(main_mode);
    work_message(ui, s, monitor)
}

/// An error of the connection is shown before anything else.
pub proof fn law_error_is_shown_first(a: Screen, s: AppState, error: Seq<char>, monitor: bool)
    ensures
        status_shown(a, s, Some(error), monitor) == note1(
            "run_ui.error_prefix"@,
            "msg"@,
            error,
        ),
{
}

/// The units that answered, of those that were asked.
pub open spec fn answered(units: Seq<(u8, Option<u16>)>) -> Seq<(u8, u16)>
    decreases units.len(),
{
    if units.len() == 0 {
        Seq::empty()
    } else {
        let before = answered(units.drop_last());
        match units.last().1 {
            Some(v) => before.push((units.last().0, v)),
            None => before,
        }
    }
}

/// The line of a unit that answered.
pub open spec fn unit_line(unit: u8, v: u16, base: DisplayBase) -> Seq<char> {
    "  Slave "@ + crate::numeral::decimal(unit as nat) + ":  "@ + crate::value::number_text(
        v as nat,
        1,
        crate::ui::base_format(base).data_type,
    ) + "\n"@
}

/// The lines of units that answered.
pub open spec fn unit_lines(units: Seq<(u8, u16)>, base: DisplayBase) -> Seq<Part>
    decreases units.len(),
{
    if units.len() == 0 {
        Seq::empty()
    } else {
        unit_lines(units.drop_last(), base).push(
            text(unit_line(units.last().0, units.last().1, base)),
        )
    }
}

/// What is shown of a search for units.
pub open spec fn scan_shown(units: Seq<(u8, Option<u16>)>, base: DisplayBase) -> Seq<Part> {
    let found = answered(units);
    let head = seq![
        note1("run_ui.scan_found_slaves"@, "count"@, crate::numeral::decimal(found.len())),
        text("\n\n"@),
    ];
    let body = if found.len() == 0 {
        seq![text("  "@), note("run_ui.scan_no_slaves"@), text("\n"@)]
    } else {
        unit_lines(found, base)
    };
    head + body + seq![text("\n"@), note("run_ui.scan_close_hint"@)]
}

fn answers(units: &Vec<(u8, Option<u16>)>) -> (r: Vec<(u8, u16)>)
    ensures
        r@ == answered(units@),
{
    let mut r: Vec<(u8, u16)> = Vec::new();
    for i in 0..units.len()
        invariant
            r@ == answered(units@.take(i as int)),
    {
        assert(units@.take(i + 1).drop_last() =~= units@.take(i as int));
        if let Some(v) = units[i].1 {
            r.push((units[i].0, v));
        }
    }
    assert(units@.take(units@.len() as int) =~= units@);
    r
}

/// What is shown of a search for units.
pub fn scan_text(units: &Vec<(u8, Option<u16>)>, base: DisplayBase) -> (r: Draft)
    ensures
        r@ == scan_shown(units@, base),
{
    let found: Vec<(u8, u16)> = answers(units);
    let count: usize = found.len();
    let mut d = Draft::new();
    d.put(message1("run_ui.scan_found_slaves", "count", decimal_text(count as u128)));
    d.text("\n\n");
    let ghost head = d@;
    assert(head =~= seq![
        note1("run_ui.scan_found_slaves"@, "count"@, crate::numeral::decimal(found@.len())),
        text("\n\n"@),
    ]);
    assert(d@ =~= head + unit_lines(found@.take(0), base));
    for i in 0..count
        invariant
            count == found@.len(),
            d@ == head + unit_lines(found@.take(i as int), base),
    {
        let (unit, v) = found[i];
        let mut t: String = "  Slave ".to_string();
        t.append(decimal_text(unit as u128).as_str());
        t.append(":  ");
        t.append(format_u16(v, base.format()).as_str());
        t.append("\n");
        d.text(t.as_str());
        assert(found@.take(i + 1).drop_last() =~= found@.take(i as int));
        assert(d@ =~= head + unit_lines(found@.take(i + 1), base));
    }
    assert(found@.take(count as int) =~= found@);
    if count == 0 {
        d.text("  ");
        d.note("run_ui.scan_no_slaves");
        d.text("\n");
    }
    d.text("\n");
    d.note("run_ui.scan_close_hint");
    assert(d@ =~= scan_shown(units@, base));
    d
}

} // verus!

//! What keys do while something is entered or a dialog is open.
use crate::dialog::{
    dialog_text, dialog_value, frequency_taken, pattern_applied, pattern_at, pattern_line,
};
use crate::entry::{fill_report, save_report, value_entered, FillOutcome, SaveOutcome};
use crate::keys::{keyed, KeyOutcome};
use crate::laws::screen::plain_note;
use crate::menu::Key;
use crate::message::{Note, Part, Said};
use crate::numeral::{decimal, numeral, padded};
use crate::state::{AppState, RegChangePattern};
use crate::ui::{
    accepted, DisplayBase, EntryModel, PatternModel, RegView, Screen, TableModel, UiStep,
};
use crate::value::{refusal, ParseError};
use crate::worker::RegCmd;
use vstd::prelude::*;

verus! {

/// Whether an entry is made.
pub open spec fn entering(a: Screen) -> bool {
    !a.pattern.open && a.entry.edit_mode
}

/// The register that an entry stands for is the number behind its mark, or the number in
/// the base that was chosen, without the white space around it; nothing entered is
/// refused.
pub proof fn law_entry_is_read_in_base(buf: Seq<char>, v: u16)
    ensures
        value_entered(decimal(v as nat), DisplayBase::Dec) == Ok::<nat, ParseError>(v as nat),
        value_entered(numeral(v as nat, 16), DisplayBase::Hex) == Ok::<nat, ParseError>(v as nat),
        value_entered(numeral(v as nat, 2), DisplayBase::Bin) == Ok::<nat, ParseError>(v as nat),
        crate::text::trim(buf).len() == 0 ==> value_entered(buf, DisplayBase::Dec) == Err::<
            nat,
            ParseError,
        >(ParseError::Empty),
{
    crate::laws::values::law_one_register_is_read(
        "0x"@,
        v as nat,
        0,
        crate::format::RegDataType::Uint,
    );
    crate::laws::values::law_one_register_is_read(
        "0x"@,
        v as nat,
        0,
        crate::format::RegDataType::Hex,
    );
    crate::laws::values::law_one_register_is_read(
        "0x"@,
        v as nat,
        0,
        crate::format::RegDataType::Binary,
    );
    lemma_plain(v as nat, 10);
    lemma_plain(v as nat, 16);
    lemma_plain(v as nat, 2);
}

proof fn lemma_plain(n: nat, radix: nat)
    requires
        2 <= radix <= 16,
    ensures
        crate::text::trim(numeral(n, radix)) == numeral(n, radix),
        numeral(n, radix).len() > 0,
{
    let d = numeral(n, radix);
    crate::numeral::lemma_numeral(n, radix);
    crate::numeral::lemma_digits_plain(d, radix, 0);
    crate::numeral::lemma_digits_plain(d, radix, d.len() - 1);
    crate::text::lemma_trim_plain(d);
}

/// A value that is entered is written to the marked register, and the entry ends; one
/// that cannot be read is not, and it is said why.
#[verifier::spinoff_prover]
pub proof fn law_entered_value_is_written(
    a: Screen,
    s: AppState,
    monitor: bool,
    b: Screen,
    t: AppState,
    r: KeyOutcome,
)
    requires
        keyed(a, s, Key::Enter, false, monitor, b, t, r),
        entering(a),
        !a.entry.edit_is_label,
        !a.entry.edit_is_profile,
    ensures
        t == s,
        b == (Screen { entry: b.entry, status_msg: b.status_msg, ..a }),
        value_entered(a.entry.edit_buf, a.table.base) matches Ok(v) ==> {
            &&& r.step matches UiStep::Send(RegCmd::WriteSingleHolding { addr, value }) && addr
                == a.table.selected && value == v
            &&& !b.entry.edit_mode && b.entry.edit_buf.len() == 0
        },
        value_entered(a.entry.edit_buf, a.table.base) matches Err(e) ==> {
            &&& r.step is Stay
            &&& b.entry == a.entry
            &&& b.status_msg == Some(
                Part::Note(
                    Note {
                        key: "main.invalid_input_value"@,
                        args: seq![("err"@, Said::Key(refusal(e)))],
                    },
                ),
            )
        },
{
}

/// A note that is entered is that of the marked register afterwards, and every other one
/// keeps its own.
#[verifier::spinoff_prover]
pub proof fn law_entered_note_is_kept(
    a: Screen,
    s: AppState,
    monitor: bool,
    b: Screen,
    t: AppState,
    r: KeyOutcome,
    i: int,
)
    requires
        keyed(a, s, Key::Enter, false, monitor, b, t, r),
        entering(a),
        a.entry.edit_is_label,
        !a.entry.edit_is_profile,
        a.table.selected < s.holding_label@.len(),
        0 <= i < s.holding_label@.len(),
    ensures
        r.step is Stay,
        !b.entry.edit_mode,
        t.holding_label@.len() == s.holding_label@.len(),
        t.holding_label@[i]@ == if i == a.table.selected {
            a.entry.edit_buf
        } else {
            s.holding_label@[i]@
        },
        t == (AppState { holding_label: t.holding_label, ..s }),
{
    let x = crate::text::texts(t.holding_label@);
    let y = crate::text::texts(s.holding_label@);
    assert(x.len() == t.holding_label@.len() && y.len() == s.holding_label@.len());
    assert(x[i] == t.holding_label@[i]@ && y[i] == s.holding_label@[i]@);
}

/// The name of a profile that is entered leads to saving the settings under it.
#[verifier::spinoff_prover]
pub proof fn law_entered_name_is_saved(
    a: Screen,
    s: AppState,
    monitor: bool,
    b: Screen,
    t: AppState,
    r: KeyOutcome,
)
    requires
        keyed(a, s, Key::Enter, false, monitor, b, t, r),
        entering(a),
        a.entry.edit_is_profile,
    ensures
        r.step matches UiStep::SaveProfile(name) && name@ == a.entry.edit_buf,
        t == s && b == a,
{
}

/// The key that fills writes a hundred registers from the marked one on, all with the
/// value that is entered; in any other entry it is a letter.
#[verifier::spinoff_prover]
pub proof fn law_many_registers_are_filled(
    a: Screen,
    s: AppState,
    monitor: bool,
    b: Screen,
    t: AppState,
    r: KeyOutcome,
    i: int,
)
    requires
        keyed(a, s, Key::Char('m'), false, monitor, b, t, r),
        entering(a),
    ensures
        t == s,
        a.entry.edit_is_label || a.entry.edit_is_profile ==> r.step is Stay && b.entry == (
        EntryModel { edit_buf: a.entry.edit_buf.push('m'), ..a.entry }),
        !a.entry.edit_is_label && !a.entry.edit_is_profile ==> b.entry == a.entry && match (
            value_entered(a.entry.edit_buf, a.table.base)
        ) {
            Ok(v) => r.step matches UiStep::Await(RegCmd::WriteMultipleHolding { addr, values })
                && addr == a.table.selected && values@.len() == 100 && (0 <= i < 100 ==> values@[i]
                == v),
            Err(e) => r.step is Stay && b.status_msg == Some(
                Part::Note(
                    Note {
                        key: "run_ui.invalid_value"@,
                        args: seq![("err"@, Said::Key(refusal(e)))],
                    },
                ),
            ),
        },
{
    if !a.entry.edit_is_label && !a.entry.edit_is_profile {
        if let Ok(v) = value_entered(a.entry.edit_buf, a.table.base) {
            lemma_value_fits(a.entry.edit_buf, a.table.base);
        }
    }
}

proof fn lemma_value_fits(buf: Seq<char>, base: DisplayBase)
    ensures
        value_entered(buf, base) matches Ok(v) ==> v < 65536,
{
    crate::words::lemma_spans();
}

/// Any other character goes to the end of the entry if it can be entered, and else it is
/// said that it cannot; a key takes the last one away; and one ends the entry.
#[verifier::spinoff_prover]
pub proof fn law_characters_are_entered(
    a: Screen,
    s: AppState,
    c: char,
    key: Key,
    monitor: bool,
    b: Screen,
    t: AppState,
    r: KeyOutcome,
)
    requires
        keyed(a, s, key, false, monitor, b, t, r),
        entering(a),
        key == Key::Char(c) && c != 'm' || key is Backspace || key is Esc,
    ensures
        t == s && r.step is Stay,
        b == (Screen { entry: b.entry, status_msg: b.status_msg, ..a }),
        key is Esc ==> !b.entry.edit_mode && b.entry.edit_buf.len() == 0 && b.status_msg is None,
        key is Backspace && a.entry.edit_buf.len() > 0 ==> b.entry == (EntryModel {
            edit_buf: a.entry.edit_buf.drop_last(),
            ..a.entry
        }),
        key is Backspace && a.entry.edit_buf.len() == 0 ==> b.entry == a.entry,
        key is Char ==> ({
            let taken = a.entry.edit_is_label || a.entry.edit_is_profile || accepted(
                a.entry.edit_buf,
                c,
                a.table.base,
            );
            &&& taken ==> b.entry == (EntryModel {
                edit_buf: a.entry.edit_buf.push(c),
                ..a.entry
            }) && b.status_msg is None
            &&& !taken ==> b.entry == a.entry && b.status_msg == plain_note(
                "run_ui.char_rejected"@,
            )
        }),
{
}

/// For a register, digits of the base can be entered, and the letter of a mark behind a
/// single zero; white space and other characters cannot.
pub proof fn law_digits_can_be_entered(current: Seq<char>, c: char, base: DisplayBase)
    ensures
        '0' <= c <= '1' ==> accepted(current, c, base),
        '2' <= c <= '9' ==> (accepted(current, c, base) <==> !(base is Bin)),
        c == 'a' || 'c' <= c <= 'f' || c == 'A' || 'C' <= c <= 'F' ==> (accepted(current, c, base)
            <==> base is Hex),
        c == 'x' || c == 'X' || c == 'b' || c == 'B' ==> (accepted(current, c, base) <==> current
            == "0"@),
        c == ' ' || c == '-' || c == '+' || c == '.' || 'g' <= c <= 'w' || 'G' <= c <= 'W'
            ==> !accepted(current, c, base),
{
}

/// Why an entry is refused is said by its own message.
pub proof fn law_refusals_have_messages(e: ParseError)
    ensures
        match e {
            ParseError::Empty => refusal(e) == "main.parse_empty"@,
            ParseError::HexPrefix => refusal(e) == "main.parse_hex_prefix"@,
            ParseError::BinPrefix => refusal(e) == "main.parse_bin_prefix"@,
            ParseError::Hex => refusal(e) == "main.parse_hex"@,
            ParseError::Bin => refusal(e) == "main.parse_bin"@,
            ParseError::Dec => refusal(e) == "main.parse_dec"@,
        },
{
}

/// What is said after registers were filled: nothing if they were, and why if not.
pub proof fn law_filling_is_reported(o: FillOutcome)
    ensures
        match o {
            FillOutcome::Written | FillOutcome::TimedOut => fill_report(o) is None,
            FillOutcome::Refused(e) => fill_report(o) == Some(
                Part::Note(
                    Note {
                        key: "run_ui.modbus_exception"@,
                        args: seq![("ex"@, Said::Text(crate::client::exception_name(e)))],
                    },
                ),
            ),
            FillOutcome::Gone => fill_report(o) == plain_note("run_ui.worker_disconnected"@),
        },
{
}

/// What is said after a profile was saved: where, or why not.
pub proof fn law_saving_is_reported(name: Seq<char>, path: Seq<char>, o: SaveOutcome)
    ensures
        save_report(name, path, o) == Part::Note(
            match o {
                SaveOutcome::Written => Note {
                    key: "run_ui.save_success"@,
                    args: seq![("name"@, Said::Text(name)), ("path"@, Said::Text(path))],
                },
                SaveOutcome::NotWritten(why) => Note {
                    key: "run_ui.save_fail_write"@,
                    args: seq![("err"@, Said::Text(why@))],
                },
                SaveOutcome::NotFormed(why) => Note {
                    key: "run_ui.save_fail_serialize"@,
                    args: seq![("err"@, Said::Text(why@))],
                },
            },
        ),
{
}

/// Whether an address is entered to go to.
pub open spec fn going(a: Screen) -> bool {
    !a.pattern.open && !a.entry.edit_mode && !a.monitor.show_analysis && !a.show_scan_dialog
        && a.table.goto_mode
}

/// An address that is entered is gone to if the table has it, and else it is said how far
/// the table goes.
#[verifier::spinoff_prover]
pub proof fn law_address_is_gone_to(
    a: Screen,
    s: AppState,
    n: nat,
    monitor: bool,
    b: Screen,
    t: AppState,
    r: KeyOutcome,
)
    requires
        keyed(a, s, Key::Enter, false, monitor, b, t, r),
        going(a),
        a.table.goto_buf == decimal(n),
        n <= usize::MAX,
    ensures
        ({
            let len = match a.table.reg_view {
                RegView::Holding => s.holding@.len(),
                RegView::Coils => s.coils@.len(),
                RegView::Discrete => s.discrete@.len(),
                RegView::Input => s.input_registers@.len(),
            };
            &&& t == s && r.step is Stay
            &&& !b.table.goto_mode && b.table.goto_buf.len() == 0
            &&& n < len ==> b.table.selected == n && b.status_msg == Some(
                Part::Text("跳转到地址 "@ + decimal(n)),
            )
            &&& n >= len ==> b.table.selected == a.table.selected
            &&& n >= len && len > 0 ==> b.status_msg == Some(
                Part::Text(
                    "地址 "@ + decimal(n) + " 超出范围 (0-"@ + decimal((len - 1) as nat) + ")"@,
                ),
            )
            &&& b.table.scroll == a.table.scroll && b.table.reg_view == a.table.reg_view
        }),
{
    crate::laws::numbers::law_written_number_is_read(n, 10, 0, usize::MAX as nat);
    assert(padded(n, 10, 0) =~= decimal(n));
}

/// Digits are entered of an address, and nothing else is; a key takes the last one away,
/// and one leaves the mark where it is.
#[verifier::spinoff_prover]
pub proof fn law_address_is_entered(
    a: Screen,
    s: AppState,
    key: Key,
    monitor: bool,
    b: Screen,
    t: AppState,
    r: KeyOutcome,
)
    requires
        keyed(a, s, key, true, monitor, b, t, r),
        going(a),
        !(key is Enter),
        key != Key::Char('q') && key != Key::Char('c'),
    ensures
        t == s && r.step is Stay,
        b.table.selected == a.table.selected,
        key matches Key::Char(c) && '0' <= c <= '9' ==> b.table == (TableModel {
            goto_buf: a.table.goto_buf.push(key->Char_0),
            ..a.table
        }),
        key matches Key::Char(c) && !('0' <= c <= '9') ==> b.table == a.table,
        key is Backspace && a.table.goto_buf.len() > 0 ==> b.table == (TableModel {
            goto_buf: a.table.goto_buf.drop_last(),
            ..a.table
        }),
        key is Esc ==> !b.table.goto_mode && b.table.goto_buf.len() == 0 && b.status_msg is None,
{
}

/// Whether a search is entered.
pub open spec fn searching(a: Screen) -> bool {
    !a.pattern.open && !a.entry.edit_mode && !a.monitor.show_analysis && !a.show_scan_dialog
        && !a.table.goto_mode && a.table.search_mode
}

/// What can be seen of ASCII, and the blank, goes to the end of a search; a key takes the
/// last character away; and two keep what is searched for.
#[verifier::spinoff_prover]
pub proof fn law_search_is_entered(
    a: Screen,
    s: AppState,
    key: Key,
    monitor: bool,
    b: Screen,
    t: AppState,
    r: KeyOutcome,
)
    requires
        keyed(a, s, key, true, monitor, b, t, r),
        searching(a),
        key != Key::Char('q') && key != Key::Char('c'),
    ensures
        t == s && r.step is Stay,
        b == (Screen { table: b.table, status_msg: b.status_msg, ..a }),
        key matches Key::Char(c) && ' ' <= c <= '~' ==> b.table == (TableModel {
            search_buf: a.table.search_buf.push(key->Char_0),
            ..a.table
        }),
        key matches Key::Char(c) && !(' ' <= c <= '~') ==> b.table == a.table,
        key is Backspace && a.table.search_buf.len() > 0 ==> b.table == (TableModel {
            search_buf: a.table.search_buf.drop_last(),
            ..a.table
        }),
        key is Enter || key is Esc ==> b.table == (TableModel { search_mode: false, ..a.table })
            && (a.table.search_buf.len() == 0 ==> b.status_msg is None) && (a.table.search_buf.len()
            > 0 ==> b.status_msg == Some(Part::Text("搜索: "@ + a.table.search_buf))),
{
}

/// The analysis of a record is closed by two keys, and turns to the history; the list of
/// units by three, and what was found is forgotten.
#[verifier::spinoff_prover]
pub proof fn law_dialogs_are_closed(
    a: Screen,
    s: AppState,
    key: Key,
    monitor: bool,
    b: Screen,
    t: AppState,
    r: KeyOutcome,
)
    requires
        keyed(a, s, key, false, monitor, b, t, r),
        !a.pattern.open,
        !a.entry.edit_mode,
        a.monitor.show_analysis || a.show_scan_dialog,
        key is Enter || key is Esc || key == Key::Char('l'),
    ensures
        r.step is Stay,
        a.monitor.show_analysis && !(key is Char) ==> t == s && !b.monitor.show_analysis
            && b.monitor.focus_history && b.status_msg == plain_note("run_ui.analysis_closed"@),
        a.monitor.show_analysis && key is Char ==> t == s && b == a,
        !a.monitor.show_analysis ==> !b.show_scan_dialog && t == (AppState {
            slave_scan_result: None,
            ..s
        }) && b.status_msg == plain_note("run_ui.scan_closed"@),
{
}

/// In the dialog for a pattern the keys that go up and down choose among five; those of a
/// wave ask for a frequency first, and the others are set at once for the register.
#[verifier::spinoff_prover]
pub proof fn law_pattern_is_chosen(
    a: Screen,
    s: AppState,
    key: Key,
    monitor: bool,
    b: Screen,
    t: AppState,
    r: KeyOutcome,
)
    requires
        keyed(a, s, key, false, monitor, b, t, r),
        a.pattern.open,
        !a.pattern.editing_freq,
        !a.entry.edit_mode,
        key is Up || key is Down || key is Enter || key is Esc || key is Char && key != Key::Char(
            'q',
        ) && key != Key::Char('c'),
    ensures
        b == (Screen { pattern: b.pattern, status_msg: b.status_msg, ..a }),
        key is Char ==> t == s && r.step is Stay,
        key == Key::Char('k') && a.pattern.sel > 0 ==> b.pattern.sel == a.pattern.sel - 1,
        key == Key::Char('j') && a.pattern.sel < 4 ==> b.pattern.sel == a.pattern.sel + 1,
        key matches Key::Char(c) && c != 'k' && c != 'j' && c != '.' ==> b.pattern == a.pattern,
        key is Up || key is Down ==> t == s && r.step is Stay && b.pattern == (PatternModel {
            sel: b.pattern.sel,
            ..a.pattern
        }),
        key is Up && a.pattern.sel > 0 ==> b.pattern.sel == a.pattern.sel - 1,
        key is Up && a.pattern.sel == 0 ==> b.pattern.sel == 0,
        key is Down && a.pattern.sel < 4 ==> b.pattern.sel == a.pattern.sel + 1,
        key is Down && a.pattern.sel >= 4 ==> b.pattern.sel == a.pattern.sel,
        key is Esc ==> t == s && r.step is Stay && !b.pattern.open && b.status_msg == Some(
            Part::Text("Pattern config cancelled"@),
        ),
        key is Enter && a.pattern.sel >= 2 ==> r.step is ShowFrequency && t == s && b == a,
        key is Enter && a.pattern.sel < 2 ==> r.step is Stay && !b.pattern.open && b.status_msg
            == Some(Part::Text("Pattern updated"@)),
        key is Enter && a.pattern.sel < 2 && a.pattern.reg_type is Holding ==> ({
            let p = t.holding_change_patterns@;
            &&& a.pattern.addr < p.len()
            &&& a.pattern.sel == 0 ==> p[a.pattern.addr as int] is Random
            &&& a.pattern.sel == 1 ==> p[a.pattern.addr as int] is UpDown
            &&& t.input_change_patterns == s.input_change_patterns
        }),
        key is Enter && a.pattern.sel < 2 && a.pattern.reg_type is Input ==> ({
            let p = t.input_change_patterns@;
            &&& a.pattern.addr < p.len()
            &&& a.pattern.sel == 0 ==> p[a.pattern.addr as int] is Random
            &&& a.pattern.sel == 1 ==> p[a.pattern.addr as int] is UpDown
            &&& t.holding_change_patterns == s.holding_change_patterns
        }),
{
}

/// While a frequency is entered, digits and points go to its end, a key takes the last
/// character away, and the key that confirms has it read.
#[verifier::spinoff_prover]
pub proof fn law_frequency_is_entered(
    a: Screen,
    s: AppState,
    key: Key,
    monitor: bool,
    b: Screen,
    t: AppState,
    r: KeyOutcome,
)
    requires
        keyed(a, s, key, true, monitor, b, t, r),
        a.pattern.open,
        a.pattern.editing_freq,
        !a.entry.edit_mode,
        key != Key::Char('q') && key != Key::Char('c'),
    ensures
        t == s,
        key is Enter <==> r.step is ReadFrequency,
        !(key is Enter) ==> r.step is Stay,
        key matches Key::Char(c) && ('0' <= c <= '9' || c == '.') ==> b.pattern == (PatternModel {
            freq_buf: a.pattern.freq_buf.push(key->Char_0),
            ..a.pattern
        }),
        key matches Key::Char(c) && !('0' <= c <= '9' || c == '.') ==> b.pattern == a.pattern,
        key is Up || key is Down || key is Enter ==> b.pattern == a.pattern,
        key is Backspace && a.pattern.freq_buf.len() > 0 ==> b.pattern == (PatternModel {
            freq_buf: a.pattern.freq_buf.drop_last(),
            ..a.pattern
        }),
{
}

/// The patterns by their places.
pub proof fn law_patterns_by_place(i: int)
    ensures
        pattern_at(0) is Random && pattern_at(1) is UpDown && pattern_at(2) is Sine && pattern_at(3)
            is Square && pattern_at(4) is Triangle,
        crate::dialog::pattern_place(RegChangePattern::Random) == 0
            && crate::dialog::pattern_place(RegChangePattern::UpDown) == 1
            && crate::dialog::pattern_place(RegChangePattern::Sine) == 2
            && crate::dialog::pattern_place(RegChangePattern::Square) == 3
            && crate::dialog::pattern_place(RegChangePattern::Triangle) == 4,
{
}

/// The dialog shows its register, the value of it, a line for each pattern with a full
/// mark before the one that is chosen, and the frequency.
pub proof fn law_dialog_is_shown(
    a: PatternModel,
    s: AppState,
    base: DisplayBase,
    shown: Seq<char>,
    i: int,
    name: Seq<char>,
)
    ensures
        a.reg_type is Holding && a.addr < s.holding@.len() ==> dialog_value(a, s) == Some(
            s.holding@[a.addr as int],
        ),
        a.reg_type is Input && a.addr < s.input_registers@.len() ==> dialog_value(a, s) == Some(
            s.input_registers@[a.addr as int],
        ),
        i == a.sel && !a.editing_freq ==> pattern_line(a, i, name) == "  "@ + "●"@ + " "@ + name
            + "\n"@,
        i == a.sel && a.editing_freq ==> pattern_line(a, i, name) == "  "@ + "●"@ + " "@ + name
            + "   ←\n"@,
        i != a.sel ==> pattern_line(a, i, name) == "  "@ + "○"@ + " "@ + name + "\n"@,
        a.reg_type is Holding && a.addr < s.holding@.len() && base is Dec ==> dialog_text(
            a,
            s,
            base,
            shown,
        ) == "Register "@ + decimal(a.addr as nat) + " ["@ + "Holding"@ + "]\nCurrent: "@ + decimal(
            s.holding@[a.addr as int] as nat,
        ) + "\n\n"@ + pattern_line(a, 0, "Random"@) + pattern_line(a, 1, "Up/Down"@) + pattern_line(
            a,
            2,
            "Sine"@,
        ) + pattern_line(a, 3, "Square"@) + pattern_line(a, 4, "Triangle"@) + ("\nFrequency: ["@
            + (if a.editing_freq {
            a.freq_buf
        } else {
            shown
        }) + " ] Hz\n\n↑↓ select  Enter confirm  Esc cancel"@),
{
}

/// The pattern that was chosen is set with the frequency that was entered, if it was a number,
/// and else with the one that was set before; in the table of the register alone.
#[verifier::spinoff_prover]
pub proof fn law_pattern_is_set_with_frequency(
    s: AppState,
    a: PatternModel,
    entry: Option<u64>,
    t: AppState,
    i: int,
)
    requires
        crate::dialog::patterns_fit(s),
        pattern_applied(s, frequency_taken(a, entry), t),
        a.sel < 5,
        0 <= i,
    ensures
        ({
            let f = match entry {
                Some(x) => x,
                None => a.freq,
            };
            let input = a.reg_type is Input;
            let p0 = if input {
                s.input_change_patterns@
            } else {
                s.holding_change_patterns@
            };
            let p1 = if input {
                t.input_change_patterns@
            } else {
                t.holding_change_patterns@
            };
            let f0 = if input {
                s.input_pattern_freqs@
            } else {
                s.holding_pattern_freqs@
            };
            let f1 = if input {
                t.input_pattern_freqs@
            } else {
                t.holding_pattern_freqs@
            };
            let x = a.addr as int;
            &&& input ==> t.holding_change_patterns == s.holding_change_patterns
                && t.holding_pattern_freqs == s.holding_pattern_freqs
            &&& a.reg_type is Holding ==> t.input_change_patterns == s.input_change_patterns
                && t.input_pattern_freqs == s.input_pattern_freqs
            &&& input || a.reg_type is Holding ==> {
                &&& x < p1.len() && x < f1.len() && f1[x] == f
                &&& a.sel == 0 ==> p1[x] is Random
                &&& a.sel == 1 ==> p1[x] is UpDown
                &&& a.sel == 2 ==> p1[x] is Sine
                &&& a.sel == 3 ==> p1[x] is Square
                &&& a.sel == 4 ==> p1[x] is Triangle
                &&& i < p0.len() && i != x ==> p1[i] == p0[i]
                &&& i < f0.len() && i != x ==> f1[i] == f0[i]
                &&& p0.len() <= i < p1.len() && i != x ==> p1[i] is Random
            }
            &&& t.holding == s.holding && t.holding_change_enabled == s.holding_change_enabled
        }),
{
}

/// The head of the dialog shows the value of its register in the base that was chosen, or
/// that there is none.
pub proof fn law_dialog_shows_value(a: PatternModel, s: AppState, base: DisplayBase)
    ensures
        ({
            let start = "Register "@ + decimal(a.addr as nat) + " ["@ + (if a.reg_type is Holding {
                "Holding"@
            } else {
                "Input"@
            }) + "]\nCurrent: "@;
            match dialog_value(a, s) {
                Some(v) => crate::dialog::dialog_head(a, s, base) == start + (match base {
                    DisplayBase::Dec => decimal(v as nat),
                    DisplayBase::Hex => "0x"@ + padded(v as nat, 16, 4),
                    DisplayBase::Bin => "0b"@ + padded(v as nat, 2, 16),
                }) + "\n\n"@,
                None => crate::dialog::dialog_head(a, s, base) == start + "?"@ + "\n\n"@,
            }
        }),
        a.reg_type is Coils || a.reg_type is Discrete ==> dialog_value(a, s) is None,
        a.reg_type is Holding && a.addr >= s.holding@.len() ==> dialog_value(a, s) is None,
{
}

} // verus!

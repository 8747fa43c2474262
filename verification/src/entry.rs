//! Entries on the screen: notes, values and the names of profiles.
use crate::args::{Args, Settings};
use crate::menu::{Key, maybe_part};
use crate::message::{
    Part, Piece, message, message1, message2, message_in, note, note1, note2, note_in,
};
use crate::profile::Profiles;
use crate::state::AppState;
use crate::ui::{
    DisplayBase, EntryModel, EntryPane, Screen, TableModel, TablePane, Ui, UiStep,
    edit_accepts_char,
};
use crate::value::{ParseError, format_u16, parse_u16_str};
use crate::worker::{ExceptionCode, RegCmd};
use vstd::prelude::*;

verus! {

/// How many registers are written at once with one value.
pub const FILL_COUNT: usize = 100;

/// The register that an entry stands for.
pub open spec fn value_entered(buf: Seq<char>, base: DisplayBase) -> Result<nat, ParseError> {
    let t = crate::text::trim(buf);
    if t.len() == 0 {
        Err(ParseError::Empty)
    } else {
        crate::value::number_read(t, crate::ui::base_format(base).data_type, 1)
    }
}

/// No entry.
pub open spec fn entry_left(a: EntryModel) -> EntryModel {
    EntryModel { edit_mode: false, edit_buf: Seq::empty(), ..a }
}

/// What the key that ends an entry does: the name of a profile leads to saving
/// it, a note is kept, and a value is sent, or refused.
pub open spec fn entry_ended(
    table: TableModel,
    a: EntryModel,
    s: AppState,
    said: Option<Part>,
    b: EntryModel,
    t: AppState,
    says: Option<Part>,
    step: UiStep,
) -> bool {
    if a.edit_is_profile {
        &&& b == a && t == s && says == said
        &&& step matches UiStep::SaveProfile(name) && name@ == a.edit_buf
    } else if a.edit_is_label {
        &&& b == entry_left(a) && says == said && step is Stay
        &&& t == (AppState { holding_label: t.holding_label, ..s })
        &&& crate::text::texts(t.holding_label@) == crate::text::texts(s.holding_label@).update(
            table.selected as int,
            a.edit_buf,
        )
    } else {
        &&& t == s
        &&& match value_entered(a.edit_buf, table.base) {
            Ok(v) => {
                &&& b == entry_left(a) && says == said
                &&& step matches UiStep::Send(RegCmd::WriteSingleHolding { addr, value })
                    && addr == table.selected && value == v
            },
            Err(e) => {
                &&& b == a && step is Stay
                &&& says == Some(
                    note_in("main.invalid_input_value"@, "err"@, crate::value::refusal(e)),
                )
            },
        }
    }
}

/// What the key that fills registers does: many registers are written with the
/// value that is entered. In any other entry it is a letter.
pub open spec fn entry_filled(
    table: TableModel,
    a: EntryModel,
    said: Option<Part>,
    b: EntryModel,
    says: Option<Part>,
    step: UiStep,
) -> bool {
    if a.edit_is_label || a.edit_is_profile {
        &&& b == (EntryModel { edit_buf: a.edit_buf.push('m'), ..a })
        &&& says == said && step is Stay
    } else {
        &&& b == a
        &&& match value_entered(a.edit_buf, table.base) {
            Ok(v) => {
                &&& says == said
                &&& step matches UiStep::Await(RegCmd::WriteMultipleHolding { addr, values })
                    && addr == table.selected && values@ == crate::setup::repeated(
                    v as u16,
                    FILL_COUNT as int,
                )
            },
            Err(e) => {
                &&& step is Stay
                &&& says == Some(note_in("run_ui.invalid_value"@, "err"@, crate::value::refusal(e)))
            },
        }
    }
}

/// Whether a key leads from one state of an entry to another.
pub open spec fn entry_keyed(
    table: TableModel,
    a: EntryModel,
    s: AppState,
    said: Option<Part>,
    key: Key,
    b: EntryModel,
    t: AppState,
    says: Option<Part>,
    step: UiStep,
) -> bool {
    match key {
        Key::Esc => {
            &&& b == (EntryModel { edit_is_profile: false, ..entry_left(a) })
            &&& t == s && says is None && step is Stay
        },
        Key::Enter => entry_ended(table, a, s, said, b, t, says, step),
        Key::Backspace => {
            &&& b == (EntryModel {
                edit_buf: if a.edit_buf.len() > 0 {
                    a.edit_buf.drop_last()
                } else {
                    a.edit_buf
                },
                ..a
            })
            &&& t == s && says is None && step is Stay
        },
        Key::Char('m') => t == s && entry_filled(table, a, said, b, says, step),
        Key::Char(c) => {
            let taken = a.edit_is_label || a.edit_is_profile || crate::ui::accepted(
                a.edit_buf,
                c,
                table.base,
            );
            &&& b == if taken {
                EntryModel { edit_buf: a.edit_buf.push(c), ..a }
            } else {
                a
            }
            &&& says == if taken {
                None
            } else {
                Some(note("run_ui.char_rejected"@))
            }
            &&& t == s && step is Stay
        },
        _ => b == a && t == s && says == said && step is Stay,
    }
}

/// Whether the note that is entered belongs to a register.
pub open spec fn entry_fits(table: TableModel, a: EntryModel, s: AppState) -> bool {
    a.edit_mode && a.edit_is_label && !a.edit_is_profile ==> table.selected < s.holding_label@.len()
}

fn end_entry(
    table: &TablePane,
    entry: &mut EntryPane,
    s: &mut AppState,
    status: &mut Option<Piece>,
) -> (r: UiStep)
    requires
        old(entry)@.edit_mode,
        entry_fits(table@, old(entry)@, *old(s)),
    ensures
        entry_ended(
            table@,
            old(entry)@,
            *old(s),
            maybe_part(*old(status)),
            final(entry)@,
            *final(s),
            maybe_part(*final(status)),
            r,
        ),
        *final(s) == (AppState { holding_label: final(s).holding_label, ..*old(s) }),
        final(s).holding_label@.len() == old(s).holding_label@.len(),
        entry_fits(table@, final(entry)@, *final(s)),
{
    if entry.edit_is_profile {
        return UiStep::SaveProfile(entry.edit_buf.clone());
    }
    if entry.edit_is_label {
        let note: String = entry.edit_buf.clone();
        let ghost before = s.holding_label@;
        s.holding_label.set(table.selected, note);
        assert(crate::text::texts(s.holding_label@) =~= crate::text::texts(before).update(
            table.selected as int,
            entry@.edit_buf,
        ));
        entry.edit_mode = false;
        entry.edit_buf = String::new();
        return UiStep::Stay;
    }
    match parse_u16_str(entry.edit_buf.as_str(), table.base.format()) {
        Ok(value) => {
            entry.edit_mode = false;
            entry.edit_buf = String::new();
            UiStep::Send(RegCmd::WriteSingleHolding { addr: table.selected, value })
        },
        Err(e) => {
            *status = Some(message_in("main.invalid_input_value", "err", e.key()));
            UiStep::Stay
        },
    }
}

fn fill(table: &TablePane, entry: &mut EntryPane, status: &mut Option<Piece>) -> (r: UiStep)
    ensures
        entry_filled(
            table@,
            old(entry)@,
            maybe_part(*old(status)),
            final(entry)@,
            maybe_part(*final(status)),
            r,
        ),
{
    if entry.edit_is_label || entry.edit_is_profile {
        entry.edit_buf.push('m');
        return UiStep::Stay;
    }
    match parse_u16_str(entry.edit_buf.as_str(), table.base.format()) {
        Ok(value) => {
            let values: Vec<u16> = crate::setup::repeat(value, FILL_COUNT);
            UiStep::Await(RegCmd::WriteMultipleHolding { addr: table.selected, values })
        },
        Err(e) => {
            *status = Some(message_in("run_ui.invalid_value", "err", e.key()));
            UiStep::Stay
        },
    }
}

/// What a key does while an entry is made.
pub fn handle_entry_key(
    table: &TablePane,
    entry: &mut EntryPane,
    s: &mut AppState,
    status: &mut Option<Piece>,
    key: Key,
) -> (r: UiStep)
    requires
        old(entry)@.edit_mode,
        entry_fits(table@, old(entry)@, *old(s)),
    ensures
        entry_keyed(
            table@,
            old(entry)@,
            *old(s),
            maybe_part(*old(status)),
            key,
            final(entry)@,
            *final(s),
            maybe_part(*final(status)),
            r,
        ),
        *final(s) == (AppState { holding_label: final(s).holding_label, ..*old(s) }),
        final(s).holding_label@.len() == old(s).holding_label@.len(),
        entry_fits(table@, final(entry)@, *final(s)),
{
    match key {
        Key::Esc => {
            entry.edit_mode = false;
            entry.edit_is_profile = false;
            entry.edit_buf = String::new();
            *status = None;
            UiStep::Stay
        },
        Key::Enter => end_entry(table, entry, s, status),
        Key::Backspace => {
            entry.edit_buf.pop();
            *status = None;
            UiStep::Stay
        },
        Key::Char('m') => fill(table, entry, status),
        Key::Char(c) => {
            if entry.edit_is_label || entry.edit_is_profile || edit_accepts_char(
                entry.edit_buf.as_str(),
                c,
                table.base,
            ) {
                entry.edit_buf.push(c);
                *status = None;
            } else {
                *status = Some(message("run_ui.char_rejected"));
            }
            UiStep::Stay
        },
        _ => UiStep::Stay,
    }
}

/// What came of filling registers.
#[derive(Copy, Clone, Debug, PartialEq, Eq, Structural)]
pub enum FillOutcome {
    /// They were written.
    Written,
    /// The device refused.
    Refused(ExceptionCode),
    /// There is nobody left to answer.
    Gone,
    /// No answer came in time.
    TimedOut,
}

/// What is reported after registers were filled.
pub open spec fn fill_report(outcome: FillOutcome) -> Option<Part> {
    match outcome {
        FillOutcome::Written | FillOutcome::TimedOut => None,
        FillOutcome::Refused(e) => Some(
            note1("run_ui.modbus_exception"@, "ex"@, crate::client::exception_name(e)),
        ),
        FillOutcome::Gone => Some(note("run_ui.worker_disconnected"@)),
    }
}

/// Goes on after registers were filled. The entry stays where the device
/// refused, or did not get it.
pub fn filled(entry: &mut EntryPane, status: &mut Option<Piece>, outcome: FillOutcome)
    ensures
        final(entry)@ == if outcome is Written || outcome is TimedOut {
            entry_left(old(entry)@)
        } else {
            old(entry)@
        },
        maybe_part(*final(status)) == fill_report(outcome),
{
    match outcome {
        FillOutcome::Written | FillOutcome::TimedOut => {
            entry.edit_mode = false;
            entry.edit_buf = String::new();
            *status = None;
        },
        FillOutcome::Refused(e) => {
            *status = Some(
                message1("run_ui.modbus_exception", "ex", crate::client::exception_text(e)),
            );
        },
        FillOutcome::Gone => {
            *status = Some(message("run_ui.worker_disconnected"));
        },
    }
}

/// Whether settings are those of a run with the notes and the formats that the
/// device has by now.
pub open spec fn settings_now(a: Settings, s: AppState, b: Settings) -> bool {
    &&& b == (Settings { labels: b.labels, reg_combinations: b.reg_combinations, ..a })
    &&& b.labels == crate::setup::saved_labels(crate::text::texts(s.holding_label@), 0)
    &&& exists|h: Seq<usize>, n: Seq<usize>| #[trigger]
        crate::listing::is_listing(h, s.holding_combinations@)
            && #[trigger] crate::listing::is_listing(n, s.input_combinations@) && b.reg_combinations
            == crate::setup::saved_formats(h, s.holding_combinations@, false)
            + crate::setup::saved_formats(n, s.input_combinations@, true)
}

/// The settings of a run with the notes and the formats that the device has.
pub fn current_settings(args: &Args, s: &AppState) -> (r: Args)
    ensures
        settings_now(args@, *s, r@),
{
    let mut r: Args = args.clone();
    r.labels = crate::setup::save_labels(&s.holding_label);
    r.reg_combinations = crate::setup::save_combinations(
        &s.holding_combinations,
        &s.input_combinations,
    );
    r
}

/// Keeps the settings of a run among the profiles under the name that was
/// entered.
pub fn put_profile(p: &mut Profiles, name: &str, args: &Args, s: &AppState)
    requires
        old(p).wf(),
    ensures
        final(p).wf(),
        exists|now: Settings| #[trigger]
            settings_now(args@, *s, now) && final(p)@ == old(p)@.insert(name@, now),
{
    let now = current_settings(args, s);
    let ghost v = now@;
    p.put(name, now);
    assert(settings_now(args@, *s, v));
}

/// What came of writing the profiles.
#[derive(Debug)]
pub enum SaveOutcome {
    Written,
    /// The file could not be written, for a reason.
    NotWritten(String),
    /// The profiles could not be put into the form of the file, for a reason.
    NotFormed(String),
}

/// What is reported after a profile was saved.
pub open spec fn save_report(name: Seq<char>, path: Seq<char>, outcome: SaveOutcome) -> Part {
    match outcome {
        SaveOutcome::Written => note2("run_ui.save_success"@, "name"@, name, "path"@, path),
        SaveOutcome::NotWritten(why) => note1("run_ui.save_fail_write"@, "err"@, why@),
        SaveOutcome::NotFormed(why) => note1("run_ui.save_fail_serialize"@, "err"@, why@),
    }
}

/// Goes on after a profile was saved.
pub fn profile_saved(
    entry: &mut EntryPane,
    status: &mut Option<Piece>,
    name: &str,
    path: &str,
    outcome: SaveOutcome,
)
    ensures
        final(entry)@ == (EntryModel { edit_is_profile: false, ..entry_left(old(entry)@) }),
        maybe_part(*final(status)) == Some(save_report(name@, path@, outcome)),
{
    *status = Some(
        match outcome {
            SaveOutcome::Written => message2(
                "run_ui.save_success",
                "name",
                name.to_string(),
                "path",
                path.to_string(),
            ),
            SaveOutcome::NotWritten(why) => message1("run_ui.save_fail_write", "err", why),
            SaveOutcome::NotFormed(why) => message1("run_ui.save_fail_serialize", "err", why),
        },
    );
    entry.edit_mode = false;
    entry.edit_is_profile = false;
    entry.edit_buf = String::new();
}

/// The screen after a key that starts an entry: of the note on the marked
/// register, of its value, or of the name of a profile.
pub open spec fn entry_started(a: Screen, s: AppState, key: Key) -> Screen {
    let i = a.table.selected as int;
    match key {
        Key::Char('t') if i < s.holding@.len() => Screen {
            entry: EntryModel {
                edit_mode: true,
                edit_is_label: true,
                edit_is_profile: false,
                edit_buf: s.holding_label@[i]@,
            },
            status_msg: None,
            ..a
        },
        Key::Char('o') => Screen {
            entry: EntryModel {
                edit_mode: true,
                edit_is_label: false,
                edit_is_profile: true,
                edit_buf: Seq::empty(),
            },
            status_msg: None,
            ..a
        },
        Key::Char('e') if i < s.holding@.len() => Screen {
            entry: EntryModel {
                edit_mode: true,
                edit_is_label: false,
                edit_is_profile: false,
                edit_buf: crate::value::number_text(
                    s.holding@[i] as nat,
                    1,
                    crate::ui::base_format(a.table.base).data_type,
                ),
            },
            status_msg: None,
            ..a
        },
        _ => a,
    }
}

pub(crate) fn start_entry(ui: &mut Ui, s: &AppState, key: Key)
    requires
        s.holding@.len() <= s.holding_label@.len(),
    ensures
        final(ui)@ == entry_started(old(ui)@, *s, key),
        !old(ui)@.entry.edit_mode ==> entry_fits(final(ui)@.table, final(ui)@.entry, *s),
        final(ui)@.pattern == old(ui)@.pattern,
{
    let i: usize = ui.table.selected;
    let entry: Option<EntryPane> = match key {
        Key::Char('t') => if i < s.holding.len() {
            Some(
                EntryPane {
                    edit_mode: true,
                    edit_is_label: true,
                    edit_is_profile: false,
                    edit_buf: s.holding_label[i].clone(),
                },
            )
        } else {
            None
        },
        Key::Char('o') => Some(
            EntryPane {
                edit_mode: true,
                edit_is_label: false,
                edit_is_profile: true,
                edit_buf: String::new(),
            },
        ),
        Key::Char('e') => if i < s.holding.len() {
            Some(
                EntryPane {
                    edit_mode: true,
                    edit_is_label: false,
                    edit_is_profile: false,
                    edit_buf: format_u16(s.holding[i], ui.table.base.format()),
                },
            )
        } else {
            None
        },
        _ => None,
    };
    if let Some(e) = entry {
        ui.entry = e;
        ui.status_msg = None;
    }
}

/// The value of a register can be entered as it is offered for a change: it
/// stays what it was.
pub proof fn law_offered_value_is_kept(v: u16, base: DisplayBase)
    ensures
        value_entered(
            crate::value::number_text(v as nat, 1, crate::ui::base_format(base).data_type),
            base,
        ) == Ok::<nat, ParseError>(v as nat),
{
    let f = crate::ui::base_format(base);
    let t = crate::value::number_text(v as nat, 1, f.data_type);
    let regs = seq![v];
    let none = crate::value::FloatBits { single: None, double: None };
    assert(crate::words::number_of(regs) == v) by {
        reveal_with_fuel(crate::words::number_of, 2);
    }
    crate::value::lemma_shown_read(regs, f, t, none);
}

} // verus!

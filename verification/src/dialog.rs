//! The dialog in which the pattern of a simulated register is chosen.
use crate::menu::{maybe_part, Key};
use crate::message::{piece, text, Part, Piece};
use crate::numeral::push_decimal;
use crate::state::{AppState, DoubleBits, RegChangePattern, DOUBLE_ONE};
use crate::ui::{DisplayBase, PatternModel, PatternPane, RegView, UiStep};
use crate::value::format_u16;
use vstd::prelude::*;

verus! {

/// How many patterns there are.
pub const PATTERN_COUNT: usize = 5;

/// The place of a pattern among the patterns.
pub open spec fn pattern_place(p: RegChangePattern) -> int {
    match p {
        RegChangePattern::Random => 0,
        RegChangePattern::UpDown => 1,
        RegChangePattern::Sine => 2,
        RegChangePattern::Square => 3,
        RegChangePattern::Triangle => 4,
    }
}

/// The pattern at a place; the last one at any place behind it.
pub open spec fn pattern_at(i: int) -> RegChangePattern {
    if i == 0 {
        RegChangePattern::Random
    } else if i == 1 {
        RegChangePattern::UpDown
    } else if i == 2 {
        RegChangePattern::Sine
    } else if i == 3 {
        RegChangePattern::Square
    } else {
        RegChangePattern::Triangle
    }
}

/// The place of a pattern among the patterns.
pub fn pattern_index(p: &RegChangePattern) -> (r: usize)
    ensures
        r == pattern_place(*p),
        r < PATTERN_COUNT,
{
    match p {
        RegChangePattern::Random => 0,
        RegChangePattern::UpDown => 1,
        RegChangePattern::Sine => 2,
        RegChangePattern::Square => 3,
        RegChangePattern::Triangle => 4,
    }
}

/// The pattern at a place.
pub fn index_to_pattern(idx: usize) -> (r: RegChangePattern)
    ensures
        r == pattern_at(idx as int),
{
    match idx {
        0 => RegChangePattern::Random,
        1 => RegChangePattern::UpDown,
        2 => RegChangePattern::Sine,
        3 => RegChangePattern::Square,
        _ => RegChangePattern::Triangle,
    }
}

/// A pattern is found at its place, and every place has a pattern of its own.
pub proof fn law_patterns_have_places(p: RegChangePattern, i: int)
    requires
        0 <= i < PATTERN_COUNT,
    ensures
        pattern_at(pattern_place(p)) == p,
        pattern_place(pattern_at(i)) == i,
        0 <= pattern_place(p) < PATTERN_COUNT,
{
}

/// A list with as many more entries as another lacks up to a place.
pub open spec fn grown<T>(list: Seq<T>, lacking: int, x: T) -> Seq<T> {
    list + Seq::new(
        if lacking < 0 {
            0
        } else {
            lacking as nat
        },
        |i: int| x,
    )
}

/// The patterns with one of them set.
pub open spec fn patterns_set(
    patterns: Seq<RegChangePattern>,
    addr: int,
    p: RegChangePattern,
) -> Seq<RegChangePattern> {
    grown(patterns, addr + 1 - patterns.len(), RegChangePattern::Random).update(addr, p)
}

/// The frequencies with one of them set. They grow as the patterns do.
pub open spec fn freqs_set(
    patterns: Seq<RegChangePattern>,
    freqs: Seq<DoubleBits>,
    addr: int,
    f: DoubleBits,
) -> Seq<DoubleBits> {
    grown(freqs, addr + 1 - patterns.len(), DOUBLE_ONE).update(addr, f)
}

fn set_pattern(
    patterns: &mut Vec<RegChangePattern>,
    freqs: &mut Vec<DoubleBits>,
    addr: usize,
    p: RegChangePattern,
    f: DoubleBits,
)
    requires
        old(patterns)@.len() <= old(freqs)@.len(),
        addr < usize::MAX,
    ensures
        final(patterns)@ == patterns_set(old(patterns)@, addr as int, p),
        final(freqs)@ == freqs_set(old(patterns)@, old(freqs)@, addr as int, f),
        final(patterns)@.len() <= final(freqs)@.len(),
{
    let ghost ps = patterns@;
    let ghost fs = freqs@;
    assert(grown(ps, 0, RegChangePattern::Random) =~= ps);
    assert(grown(fs, 0, DOUBLE_ONE) =~= fs);
    while patterns.len() <= addr
        invariant
            addr < usize::MAX,
            ps.len() <= patterns@.len(),
            ps.len() <= addr ==> patterns@.len() <= addr + 1,
            ps.len() > addr ==> patterns@.len() == ps.len(),
            patterns@ == grown(ps, patterns@.len() - ps.len(), RegChangePattern::Random),
            freqs@ == grown(fs, patterns@.len() - ps.len(), DOUBLE_ONE),
        decreases addr + 1 - patterns.len(),
    {
        let ghost n = patterns@.len() - ps.len();
        patterns.push(RegChangePattern::Random);
        freqs.push(DOUBLE_ONE);
        assert(patterns@ =~= grown(ps, n + 1, RegChangePattern::Random));
        assert(freqs@ =~= grown(fs, n + 1, DOUBLE_ONE));
    }
    assert(patterns@ =~= grown(ps, addr + 1 - ps.len(), RegChangePattern::Random));
    assert(freqs@ =~= grown(fs, addr + 1 - ps.len(), DOUBLE_ONE));
    patterns.set(addr, p);
    freqs.set(addr, f);
}

/// Whether every pattern of a register has a frequency.
pub open spec fn patterns_fit(s: AppState) -> bool {
    &&& s.holding_change_patterns@.len() <= s.holding_pattern_freqs@.len()
    &&& s.input_change_patterns@.len() <= s.input_pattern_freqs@.len()
}

/// Whether the pattern and the frequency of the dialog were set for its
/// register, and nothing else changed.
pub open spec fn pattern_applied(s: AppState, a: PatternModel, t: AppState) -> bool {
    let addr = a.addr as int;
    let p = pattern_at(a.sel as int);
    match a.reg_type {
        RegView::Holding => {
            &&& t == (AppState {
                holding_change_patterns: t.holding_change_patterns,
                holding_pattern_freqs: t.holding_pattern_freqs,
                ..s
            })
            &&& t.holding_change_patterns@ == patterns_set(s.holding_change_patterns@, addr, p)
            &&& t.holding_pattern_freqs@ == freqs_set(
                s.holding_change_patterns@,
                s.holding_pattern_freqs@,
                addr,
                a.freq,
            )
        },
        RegView::Input => {
            &&& t == (AppState {
                input_change_patterns: t.input_change_patterns,
                input_pattern_freqs: t.input_pattern_freqs,
                ..s
            })
            &&& t.input_change_patterns@ == patterns_set(s.input_change_patterns@, addr, p)
            &&& t.input_pattern_freqs@ == freqs_set(
                s.input_change_patterns@,
                s.input_pattern_freqs@,
                addr,
                a.freq,
            )
        },
        _ => t == s,
    }
}

/// Sets the pattern and the frequency of the dialog for its register.
pub fn apply_pattern_dialog(ui: &PatternPane, s: &mut AppState)
    requires
        patterns_fit(*old(s)),
        ui@.addr < usize::MAX,
    ensures
        pattern_applied(*old(s), ui@, *final(s)),
        patterns_fit(*final(s)),
{
    let p = index_to_pattern(ui.sel);
    let addr: usize = ui.addr;
    match ui.reg_type {
        RegView::Holding => {
            set_pattern(
                &mut s.holding_change_patterns,
                &mut s.holding_pattern_freqs,
                addr,
                p,
                ui.freq,
            );
        },
        RegView::Input => {
            set_pattern(
                &mut s.input_change_patterns,
                &mut s.input_pattern_freqs,
                addr,
                p,
                ui.freq,
            );
        },
        _ => {},
    }
}

/// What was chosen in the dialog is the pattern and the frequency of the
/// register afterwards, and every other register keeps its own.
pub proof fn law_pattern_is_set(s: AppState, a: PatternModel, t: AppState, other: int)
    requires
        patterns_fit(s),
        pattern_applied(s, a, t),
        a.reg_type is Holding,
        a.sel < PATTERN_COUNT,
        0 <= other < s.holding_change_patterns@.len(),
        other != a.addr,
    ensures
        pattern_place(t.holding_change_patterns@[a.addr as int])
            == a.sel,
        t.holding_pattern_freqs@[a.addr as int] == a.freq,
        t.holding_change_patterns@[other] == s.holding_change_patterns@[other],
        t.holding_pattern_freqs@[other] == s.holding_pattern_freqs@[other],
        t.input_change_patterns@ == s.input_change_patterns@,
{
}

/// The dialog after it was confirmed.
pub open spec fn pattern_confirmed(a: PatternModel) -> PatternModel {
    PatternModel { editing_freq: false, open: false, ..a }
}

/// Whether a character belongs to a frequency that is entered. A point does
/// before one is entered, too.
pub open spec fn frequency_char(a: PatternModel, c: char) -> bool {
    (a.editing_freq && crate::text::is_ascii_digit(c)) || c == '.'
}

/// The dialog after a key that only changes what it shows.
pub open spec fn pattern_moved(a: PatternModel, key: Key) -> PatternModel {
    match key {
        Key::Esc => PatternModel { open: false, editing_freq: false, ..a },
        Key::Backspace => if a.editing_freq && a.freq_buf.len() > 0 {
            PatternModel { freq_buf: a.freq_buf.drop_last(), ..a }
        } else {
            a
        },
        Key::Char(c) if frequency_char(a, c) => PatternModel { freq_buf: a.freq_buf.push(c), ..a },
        Key::Up | Key::Char('k') => if a.editing_freq {
            a
        } else {
            PatternModel { sel: crate::menu::less_one(a.sel as int) as usize, ..a }
        },
        Key::Down | Key::Char('j') => if a.editing_freq || a.sel >= 4 {
            a
        } else {
            PatternModel { sel: (a.sel + 1) as usize, ..a }
        },
        _ => a,
    }
}

/// Whether a key leads from one state of the dialog to another, from one state
/// of the device to another, and to what is reported. A wave has a frequency,
/// which is entered before the pattern is set.
pub open spec fn pattern_keyed(
    a: PatternModel,
    s: AppState,
    said: Option<Part>,
    key: Key,
    b: PatternModel,
    t: AppState,
    says: Option<Part>,
    step: UiStep,
) -> bool {
    if key is Enter {
        if a.editing_freq {
            b == a && t == s && says == said && step is ReadFrequency
        } else if a.sel >= 2 {
            b == a && t == s && says == said && step is ShowFrequency
        } else {
            &&& b == pattern_confirmed(a)
            &&& pattern_applied(s, a, t)
            &&& says == Some(text("Pattern updated"@))
            &&& step is Stay
        }
    } else {
        &&& b == pattern_moved(a, key)
        &&& t == s
        &&& says == if key is Esc {
            Some(text("Pattern config cancelled"@))
        } else {
            said
        }
        &&& step is Stay
    }
}

fn move_pattern(ui: &mut PatternPane, key: Key)
    ensures
        final(ui)@ == pattern_moved(old(ui)@, key),
{
    let editing: bool = ui.editing_freq;
    match key {
        Key::Esc => {
            ui.open = false;
            ui.editing_freq = false;
        },
        Key::Backspace => {
            if editing {
                ui.freq_buf.pop();
            }
        },
        Key::Char(c) if (editing && '0' <= c && c <= '9') || c == '.' => {
            ui.freq_buf.push(c);
        },
        Key::Up | Key::Char('k') => {
            if !editing {
                ui.sel = ui.sel.saturating_sub(1);
            }
        },
        Key::Down | Key::Char('j') => {
            if !editing && ui.sel < 4 {
                ui.sel = ui.sel + 1;
            }
        },
        _ => {},
    }
}

/// What a key does in the dialog.
pub fn handle_pattern_key(
    ui: &mut PatternPane,
    s: &mut AppState,
    status: &mut Option<Piece>,
    key: Key,
) -> (r: UiStep)
    requires
        patterns_fit(*old(s)),
        old(ui)@.addr < usize::MAX,
    ensures
        pattern_keyed(
            old(ui)@,
            *old(s),
            maybe_part(*old(status)),
            key,
            final(ui)@,
            *final(s),
            maybe_part(*final(status)),
            r,
        ),
        patterns_fit(*final(s)),
{
    match key {
        Key::Enter => {
            if ui.editing_freq {
                return UiStep::ReadFrequency;
            }
            if ui.sel >= 2 {
                return UiStep::ShowFrequency;
            }
            apply_pattern_dialog(ui, s);
            ui.open = false;
            *status = Some(piece("Pattern updated"));
        },
        Key::Esc => {
            move_pattern(ui, key);
            *status = Some(piece("Pattern config cancelled"));
        },
        _ => {
            move_pattern(ui, key);
        },
    }
    UiStep::Stay
}

/// Starts the entry of a frequency with a text.
pub fn edit_frequency(ui: &mut PatternPane, shown: String)
    ensures
        final(ui)@ == (PatternModel { editing_freq: true, freq_buf: shown@, ..old(ui)@ }),
{
    ui.editing_freq = true;
    ui.freq_buf = shown;
}

/// The frequency that is set after an entry was read: the entry, if it was a
/// number, and else what was set before.
pub open spec fn frequency_taken(a: PatternModel, entry: Option<DoubleBits>) -> PatternModel {
    match entry {
        Some(f) => PatternModel { freq: f, ..a },
        None => a,
    }
}

/// Takes a frequency that was read from the entry, if it was a number, and sets
/// the pattern for the register.
pub fn take_frequency(
    ui: &mut PatternPane,
    s: &mut AppState,
    status: &mut Option<Piece>,
    entry: Option<DoubleBits>,
)
    requires
        patterns_fit(*old(s)),
        old(ui)@.addr < usize::MAX,
    ensures
        final(ui)@ == pattern_confirmed(frequency_taken(old(ui)@, entry)),
        pattern_applied(*old(s), frequency_taken(old(ui)@, entry), *final(s)),
        maybe_part(*final(status)) == Some(text("Pattern updated"@)),
        patterns_fit(*final(s)),
{
    if let Some(f) = entry {
        ui.freq = f;
    }
    apply_pattern_dialog(ui, s);
    ui.editing_freq = false;
    ui.open = false;
    *status = Some(piece("Pattern updated"));
}

/// The value of the register of the dialog, if there is such a register.
pub open spec fn dialog_value(a: PatternModel, s: AppState) -> Option<u16> {
    let addr = a.addr as int;
    match a.reg_type {
        RegView::Holding if addr < s.holding@.len() => Some(s.holding@[addr]),
        RegView::Input if addr < s.input_registers@.len() => Some(s.input_registers@[addr]),
        _ => None,
    }
}

/// The first lines of the dialog: its register, and the value of that.
pub open spec fn dialog_head(a: PatternModel, s: AppState, base: DisplayBase) -> Seq<char> {
    "Register "@ + crate::numeral::decimal(a.addr as nat) + " ["@ + if a.reg_type is Holding {
        "Holding"@
    } else {
        "Input"@
    } + "]\nCurrent: "@ + match dialog_value(a, s) {
        Some(v) => crate::value::number_text(
            v as nat,
            1,
            crate::ui::base_format(base).data_type,
        ),
        None => "?"@,
    } + "\n\n"@
}

/// The line of a pattern in the dialog.
pub open spec fn pattern_line(a: PatternModel, i: int, name: Seq<char>) -> Seq<char> {
    "  "@ + if i == a.sel {
        "●"@
    } else {
        "○"@
    } + " "@ + name + if i == a.sel && a.editing_freq {
        "   ←\n"@
    } else {
        "\n"@
    }
}

/// The last lines of the dialog: the frequency, as it is entered or as it is
/// set, and the keys.
pub open spec fn dialog_foot(a: PatternModel, shown: Seq<char>) -> Seq<char> {
    "\nFrequency: ["@ + if a.editing_freq {
        a.freq_buf
    } else {
        shown
    } + " ] Hz\n\n↑↓ select  Enter confirm  Esc cancel"@
}

/// The text of the dialog, with the frequency that is set as it is shown.
pub open spec fn dialog_text(
    a: PatternModel,
    s: AppState,
    base: DisplayBase,
    shown: Seq<char>,
) -> Seq<char> {
    dialog_head(a, s, base) + pattern_line(a, 0, "Random"@) + pattern_line(a, 1, "Up/Down"@)
        + pattern_line(a, 2, "Sine"@) + pattern_line(a, 3, "Square"@) + pattern_line(
        a,
        4,
        "Triangle"@,
    ) + dialog_foot(a, shown)
}

fn put_head(out: &mut String, ui: &PatternPane, s: &AppState, base: DisplayBase)
    ensures
        final(out)@ == old(out)@ + dialog_head(ui@, *s, base),
{
    let addr: usize = ui.addr;
    out.append("Register ");
    push_decimal(out, addr as u128);
    out.append(" [");
    let holding: bool = ui.reg_type == RegView::Holding;
    out.append(
        if holding {
            "Holding"
        } else {
            "Input"
        },
    );
    out.append("]\nCurrent: ");
    let value: Option<u16> = match ui.reg_type {
        RegView::Holding if addr < s.holding.len() => Some(s.holding[addr]),
        RegView::Input if addr < s.input_registers.len() => Some(s.input_registers[addr]),
        _ => None,
    };
    match value {
        Some(v) => {
            out.append(format_u16(v, base.format()).as_str());
        },
        None => {
            out.append("?");
        },
    }
    out.append("\n\n");
    assert(out@ =~= old(out)@ + dialog_head(ui@, *s, base));
}

fn put_pattern(out: &mut String, ui: &PatternPane, i: usize, name: &str)
    ensures
        final(out)@ == old(out)@ + pattern_line(ui@, i as int, name@),
{
    out.append("  ");
    if i == ui.sel {
        out.append("●");
    } else {
        out.append("○");
    }
    out.append(" ");
    out.append(name);
    if i == ui.sel && ui.editing_freq {
        out.append("   ←\n");
    } else {
        out.append("\n");
    }
    assert(out@ =~= old(out)@ + pattern_line(ui@, i as int, name@));
}

/// The text of the dialog, with the frequency that is set as it is shown.
pub fn render_pattern_dialog(ui: &PatternPane, s: &AppState, base: DisplayBase, shown: &str) -> (r:
    String)
    ensures
        r@ == dialog_text(ui@, *s, base, shown@),
{
    let mut out = String::new();
    put_head(&mut out, ui, s, base);
    assert(out@ =~= dialog_head(ui@, *s, base));
    put_pattern(&mut out, ui, 0, "Random");
    put_pattern(&mut out, ui, 1, "Up/Down");
    put_pattern(&mut out, ui, 2, "Sine");
    put_pattern(&mut out, ui, 3, "Square");
    put_pattern(&mut out, ui, 4, "Triangle");
    let ghost before = out@;
    out.append("\nFrequency: [");
    if ui.editing_freq {
        out.append(ui.freq_buf.as_str());
    } else {
        out.append(shown);
    }
    out.append(" ] Hz\n\n↑↓ select  Enter confirm  Esc cancel");
    assert(out@ =~= before + dialog_foot(ui@, shown@));
    out
}

} // verus!

//! The table of registers: which of its lines are shown, and what stands in them.
use crate::format::RegDataFormat;
use crate::layout::Extent;
use crate::listing::addresses_of;
use crate::numeral::{decimal_text, push_decimal};
use crate::state::{AppState, ChangeDirection, BAR_HISTORY_SLOTS};
use crate::text::{holds, lower};
use crate::ui::{DisplayBase, EntryModel, EntryPane, RegView, TableModel, TablePane};
use crate::value::{format_register_value, RegisterText, Shown};
use std::collections::HashMap;
use vstd::prelude::*;

verus! {

/// The numbers in a table.
pub open spec fn items_of(s: AppState, view: RegView) -> Seq<u16> {
    match view {
        RegView::Holding => s.holding@,
        RegView::Coils => crate::worker::bit_words(s.coils@),
        RegView::Discrete => crate::worker::bit_words(s.discrete@),
        RegView::Input => s.input_registers@,
    }
}

/// The notes on the registers of a table, if it has any.
pub open spec fn labels_of(s: AppState, view: RegView) -> Option<Seq<Seq<char>>> {
    match view {
        RegView::Holding => Some(crate::text::texts(s.holding_label@)),
        _ => None,
    }
}

/// The formats of single registers of a table.
pub open spec fn formats_of(s: AppState, view: RegView) -> Map<usize, RegDataFormat> {
    match view {
        RegView::Input => s.input_combinations@,
        _ => s.holding_combinations@,
    }
}

/// Whether a table holds bits.
pub open spec fn has_bits(view: RegView) -> bool {
    view is Coils || view is Discrete
}

fn numbers_of(v: &Vec<bool>) -> (r: Vec<u16>)
    ensures
        r@ == crate::worker::bit_words(v@),
{
    let mut r: Vec<u16> = Vec::new();
    for i in 0..v.len()
        invariant
            r@ == crate::worker::bit_words(v@.take(i as int)),
    {
        let n: u16 = if v[i] {
            1
        } else {
            0
        };
        r.push(n);
        assert(crate::worker::bit_words(v@.take(i + 1)) =~= crate::worker::bit_words(v@.take(i as int)).push(n));
    }
    assert(v@.take(v@.len() as int) =~= v@);
    r
}

/// The numbers in a table, and the notes on its registers, if it has any.
pub fn reg_view_data(s: &AppState, reg_view: RegView) -> (r: (Vec<u16>, Option<&Vec<String>>))
    ensures
        r.0@ == items_of(*s, reg_view),
        (match r.1 {
            Some(l) => Some(crate::text::texts(l@)),
            None => None,
        }) == labels_of(*s, reg_view),
{
    match reg_view {
        RegView::Holding => (crate::frame::copy_words(&s.holding), Some(&s.holding_label)),
        RegView::Coils => (numbers_of(&s.coils), None),
        RegView::Discrete => (numbers_of(&s.discrete), None),
        RegView::Input => (crate::frame::copy_words(&s.input_registers), None),
    }
}

/// Whether a search in small letters finds a register: by its address, or by
/// the note on it.
pub open spec fn is_match(idx: int, search: Seq<char>, labels: Option<Seq<Seq<char>>>) -> bool {
    crate::text::has_infix(crate::numeral::decimal(idx as nat), search) || match labels {
        Some(l) => idx < l.len() && crate::text::has_infix(crate::text::lowered(l[idx]), search),
        None => false,
    }
}

/// Whether a search in small letters finds a register.
pub fn search_match(idx: usize, search_lower: &str, labels: Option<&Vec<String>>) -> (r: bool)
    ensures
        r == is_match(
            idx as int,
            search_lower@,
            match labels {
                Some(l) => Some(crate::text::texts(l@)),
                None => None,
            },
        ),
{
    let number: String = decimal_text(idx as u128);
    if holds(number.as_str(), search_lower) {
        return true;
    }
    match labels {
        Some(l) => {
            if idx < l.len() {
                let small: String = lower(l[idx].as_str());
                holds(small.as_str(), search_lower)
            } else {
                false
            }
        },
        None => false,
    }
}

/// The registers below a bound that a search finds. A search for nothing finds
/// them all.
pub open spec fn found(search: Seq<char>, labels: Option<Seq<Seq<char>>>, len: nat) -> Seq<int>
    decreases len,
{
    if len == 0 {
        Seq::empty()
    } else {
        let i = len - 1;
        let before = found(search, labels, i as nat);
        if search.len() == 0 || is_match(i, crate::text::lowered(search), labels) {
            before.push(i)
        } else {
            before
        }
    }
}

/// Numbers as mathematical ones.
pub open spec fn ints(v: Seq<usize>) -> Seq<int> {
    Seq::new(v.len(), |i: int| v[i] as int)
}

/// The registers of a table that a search finds.
pub fn find_registers(search: &str, labels: Option<&Vec<String>>, len: usize) -> (r: Vec<usize>)
    ensures
        ints(r@) == found(
            search@,
            match labels {
                Some(l) => Some(crate::text::texts(l@)),
                None => None,
            },
            len as nat,
        ),
        forall|i: int| 0 <= i < r@.len() ==> r@[i] < len,
{
    let nothing: bool = crate::text::chars_of(search).len() == 0;
    let small: String = lower(search);
    let ghost l = match labels {
        Some(l) => Some(crate::text::texts(l@)),
        None => None,
    };
    let mut r: Vec<usize> = Vec::new();
    assert(ints(r@) =~= Seq::<int>::empty());
    for i in 0..len
        invariant
            nothing == (search@.len() == 0),
            small@ == crate::text::lowered(search@),
            l == (match labels {
                Some(l) => Some(crate::text::texts(l@)),
                None => None,
            }),
            ints(r@) == found(search@, l, i as nat),
            forall|j: int| 0 <= j < r@.len() ==> r@[j] < len,
    {
        if nothing || search_match(i, small.as_str(), labels) {
            let ghost before = r@;
            r.push(i);
            assert(ints(r@) =~= ints(before).push(i as int));
        }
    }
    r
}

/// Whether a register belongs to the value of one before it.
pub open spec fn is_secondary(addr: int, formats: Map<usize, RegDataFormat>) -> bool {
    exists|p: usize|
        #[trigger] formats.contains_key(p) && p < addr < p + crate::format::regs_of(
            formats[p].width,
        )
}

/// Whether a register belongs to the value of one before it.
pub fn is_secondary_register(addr: usize, combinations: &HashMap<usize, RegDataFormat>) -> (r: bool)
    ensures
        r == is_secondary(addr as int, combinations@),
{
    broadcast use vstd::std_specs::hash::group_hash_axioms;

    let keys: Vec<usize> = addresses_of(combinations);
    for i in 0..keys.len()
        invariant
            crate::listing::is_listing(keys@, combinations@),
            forall|j: int|
                0 <= j < i ==> !(keys@[j] < addr < keys@[j] + crate::format::regs_of(
                    combinations@[#[trigger] keys@[j]].width,
                )),
    {
        broadcast use vstd::std_specs::hash::group_hash_axioms;

        let p: usize = keys[i];
        assert(keys@.contains(p));
        if let Some(f) = combinations.get(&p) {
            let count: usize = f.regs_needed();
            if addr > p && addr - p < count {
                return true;
            }
        }
    }
    assert forall|p: usize| #[trigger] combinations@.contains_key(p) implies !(p < addr < p
        + crate::format::regs_of(combinations@[p].width)) by {
        assert(keys@.contains(p));
        let j = choose|j: int| 0 <= j < keys@.len() && keys@[j] == p;
        assert(keys@[j] == p);
    }
    false
}

/// The registers of a list that do not belong to the value of another one.
pub open spec fn primaries(list: Seq<int>, formats: Map<usize, RegDataFormat>) -> Seq<int>
    decreases list.len(),
{
    if list.len() == 0 {
        Seq::empty()
    } else {
        let before = primaries(list.drop_last(), formats);
        if is_secondary(list.last(), formats) {
            before
        } else {
            before.push(list.last())
        }
    }
}

/// What the change bar shows of one value: that it is as large as the one
/// before it, smaller or larger.
#[derive(Copy, Clone, Debug, PartialEq, Eq, Structural)]
pub enum BarMark {
    Same,
    Lower,
    Higher,
}

/// The mark for a value behind another.
pub open spec fn mark(before: u16, value: u16) -> BarMark {
    if value < before {
        BarMark::Lower
    } else if value > before {
        BarMark::Higher
    } else {
        BarMark::Same
    }
}

/// The marks for the last values of a register, filled up to the length of the
/// bar.
pub open spec fn bar_marks(values: Seq<u16>) -> Seq<BarMark> {
    Seq::new(
        if values.len() < BAR_HISTORY_SLOTS {
            BAR_HISTORY_SLOTS as nat
        } else {
            values.len()
        },
        |i: int|
            if 0 < i < values.len() {
                mark(values[i - 1], values[i])
            } else {
                BarMark::Same
            },
    )
}

/// The last values that are kept of a register.
pub open spec fn bar_of(s: AppState, addr: int) -> Seq<u16> {
    if addr < s.reg_bar_history@.len() {
        s.reg_bar_history@[addr]@
    } else {
        Seq::empty()
    }
}

/// The change bar of a register.
pub fn render_change_bar(s: &AppState, addr: usize) -> (r: Vec<BarMark>)
    ensures
        r@ == bar_marks(bar_of(*s, addr as int)),
{
    let mut marks: Vec<BarMark> = Vec::new();
    if addr < s.reg_bar_history.len() {
        let history: &Vec<u16> = &s.reg_bar_history[addr];
        for i in 0..history.len()
            invariant
                marks@ == bar_marks(history@).take(i as int),
        {
            let m = if i == 0 || history[i] == history[i - 1] {
                BarMark::Same
            } else if history[i] < history[i - 1] {
                BarMark::Lower
            } else {
                BarMark::Higher
            };
            let ghost before = marks@;
            marks.push(m);
            assert(bar_marks(history@).take(i + 1) =~= before.push(m));
        }
    }
    let ghost values = bar_of(*s, addr as int);
    while marks.len() < BAR_HISTORY_SLOTS
        invariant
            values.len() <= marks@.len(),
            values.len() < BAR_HISTORY_SLOTS ==> marks@.len() <= BAR_HISTORY_SLOTS,
            values.len() >= BAR_HISTORY_SLOTS ==> marks@.len() == values.len(),
            marks@ == bar_marks(values).take(marks@.len() as int),
        decreases BAR_HISTORY_SLOTS - marks.len(),
    {
        let ghost before = marks@;
        marks.push(BarMark::Same);
        assert(bar_marks(values).take(marks@.len() as int) =~= before.push(BarMark::Same));
    }
    assert(bar_marks(values).take(marks@.len() as int) =~= bar_marks(values));
    marks
}

/// A bar has a mark for each place, whatever is kept of the register, as long
/// as no more is kept than the bar has places; and it starts without a change.
pub proof fn law_bar_is_full(values: Seq<u16>)
    requires
        values.len() <= BAR_HISTORY_SLOTS,
    ensures
        bar_marks(values).len() == BAR_HISTORY_SLOTS,
        bar_marks(values)[0] is Same,
{
}

/// Where the mark and the first line of a table end up.
pub struct Place {
    pub selected: int,
    pub scroll: int,
}

/// The place at which a table is shown: the mark is moved into the table, and
/// the first line so that the mark is among those shown; then the mark is moved
/// to a line that was found, and the first line so that no line stays empty.
pub open spec fn placed(p: Place, len: int, visible: int, places: Seq<int>) -> Place {
    let selected = if p.selected < len {
        p.selected
    } else if len == 0 {
        0
    } else {
        len - 1
    };
    let scroll = if selected < p.scroll {
        selected
    } else if visible > 0 && selected >= p.scroll + visible {
        selected + 1 - visible
    } else {
        p.scroll
    };
    let moved = places.len() > 0 && !places.contains(selected);
    let selected2 = if moved {
        places[0]
    } else {
        selected
    };
    let scroll2 = if moved && selected2 < scroll {
        selected2
    } else {
        scroll
    };
    let scroll3 = if visible > 0 && scroll2 + visible > places.len() {
        if places.len() < visible {
            0
        } else {
            places.len() - visible
        }
    } else {
        scroll2
    };
    Place { selected: selected2, scroll: scroll3 }
}

/// The place of a number in a list.
fn position(list: &Vec<usize>, x: usize) -> (r: Option<usize>)
    ensures
        match r {
            Some(i) => i < list@.len() && list@[i as int] == x && forall|j: int|
                0 <= j < i ==> list@[j] != x,
            None => forall|j: int| 0 <= j < list@.len() ==> list@[j] != x,
        },
{
    for i in 0..list.len()
        invariant
            forall|j: int| 0 <= j < i ==> list@[j] != x,
    {
        if list[i] == x {
            return Some(i);
        }
    }
    None
}

/// Whether a number stands in a list.
fn in_list(list: &Vec<usize>, x: usize) -> (r: bool)
    ensures
        r == ints(list@).contains(x as int),
{
    match position(list, x) {
        Some(i) => {
            assert(ints(list@)[i as int] == x);
            true
        },
        None => {
            assert(forall|j: int| 0 <= j < list@.len() ==> ints(list@)[j] != x);
            false
        },
    }
}

/// The place at which a table is shown: the mark, and the first line.
pub fn place(
    selected: usize,
    scroll: usize,
    len: usize,
    visible: usize,
    places: &Vec<usize>,
) -> (r: (usize, usize))
    ensures
        (Place { selected: r.0 as int, scroll: r.1 as int }) == placed(
            Place { selected: selected as int, scroll: scroll as int },
            len as int,
            visible as int,
            ints(places@),
        ),
{
    let mut selected: usize = selected;
    let mut scroll: usize = scroll;
    if selected >= len {
        selected = if len == 0 {
            0
        } else {
            len - 1
        };
    }
    if selected < scroll {
        scroll = selected;
    }
    if visible > 0 && selected - scroll >= visible {
        scroll = selected - (visible - 1);
    }
    if places.len() > 0 && !in_list(places, selected) {
        selected = places[0];
        if selected < scroll {
            scroll = selected;
        }
    }
    let found: usize = places.len();
    if visible > 0 && (scroll > found || visible > found - scroll) {
        scroll = if found < visible {
            0
        } else {
            found - visible
        };
    }
    (selected, scroll)
}

/// In a table that is not searched the mark stands on a register of the table,
/// and its line is among those shown.
pub proof fn law_mark_is_shown(p: Place, len: nat, visible: int, labels: Option<Seq<Seq<char>>>)
    requires
        0 <= p.selected,
        0 <= p.scroll,
        0 < visible,
        0 < len,
    ensures
        ({
            let q = placed(p, len as int, visible, found(Seq::empty(), labels, len));
            &&& 0 <= q.selected < len
            &&& 0 <= q.scroll <= q.selected < q.scroll + visible
            &&& q.scroll + visible <= len || q.scroll == 0
        }),
{
    lemma_found_all(labels, len);
    let all = found(Seq::empty(), labels, len);
    let selected = if p.selected < len {
        p.selected
    } else {
        len - 1
    };
    assert(all[selected] == selected);
}

/// A search for nothing finds every register, in order.
pub proof fn lemma_found_all(labels: Option<Seq<Seq<char>>>, len: nat)
    ensures
        found(Seq::empty(), labels, len).len() == len,
        forall|i: int| 0 <= i < len ==> found(Seq::empty(), labels, len)[i] == i,
    decreases len,
{
    if len > 0 {
        lemma_found_all(labels, (len - 1) as nat);
    }
}

/// Whatever is searched for, the mark stands on a register that was found, if
/// there is one; and the lines shown go no further than what was found.
pub proof fn law_mark_is_found(p: Place, len: nat, visible: int, places: Seq<int>)
    requires
        0 < places.len(),
        0 < visible,
    ensures
        places.contains(placed(p, len as int, visible, places).selected),
        placed(p, len as int, visible, places).scroll + visible <= places.len() || placed(
            p,
            len as int,
            visible,
            places,
        ).scroll == 0,
{
    assert(places.contains(places[0]));
}

/// What is shown of the last change of a register: that it went up or down just
/// now, that it is simulated, or nothing.
#[derive(Copy, Clone, Debug, PartialEq, Eq, Structural)]
pub enum ChangeCell {
    Arrow(ChangeDirection),
    Simulated,
    Nothing,
}

/// A line of a table.
#[derive(Debug)]
pub enum TableRow {
    Switch { address: usize, on: bool },
    Register {
        addr: usize,
        label: String,
        value: RegisterText,
        change: ChangeCell,
        bar: Option<Vec<BarMark>>,
    },
}

/// A line of a table, mathematically.
pub enum RowView {
    Switch { address: int, on: bool },
    Register {
        addr: int,
        label: Seq<char>,
        value: Shown,
        change: ChangeCell,
        bar: Option<Seq<BarMark>>,
    },
}

impl View for TableRow {
    type V = RowView;

    open spec fn view(&self) -> RowView {
        match self {
            TableRow::Switch { address, on } => RowView::Switch { address: *address as int, on: *on },
            TableRow::Register { addr, label, value, change, bar } => RowView::Register {
                addr: *addr as int,
                label: label@,
                value: value@,
                change: *change,
                bar: match bar {
                    Some(b) => Some(b@),
                    None => None,
                },
            },
        }
    }
}

/// Whether an entry is made in the line of a register.
pub open spec fn is_edited(ui: TableModel, entry: EntryModel, i: int) -> bool {
    ui.reg_view is Holding && entry.edit_mode && i == ui.selected && !entry.edit_is_profile
}

/// The format in which a register is shown: its own, or that of all registers.
/// A plain register is shown in the chosen base.
pub open spec fn format_shown(
    formats: Map<usize, RegDataFormat>,
    i: int,
    all: RegDataFormat,
    base: DisplayBase,
) -> RegDataFormat {
    let f = if formats.contains_key(i as usize) {
        formats[i as usize]
    } else {
        all
    };
    if f == crate::format::plain_format() {
        crate::ui::base_format(base)
    } else {
        f
    }
}

/// The format in which a register is shown.
pub fn shown_format(
    formats: &HashMap<usize, RegDataFormat>,
    i: usize,
    all: RegDataFormat,
    base: DisplayBase,
) -> (r: RegDataFormat)
    ensures
        r == format_shown(formats@, i as int, all, base),
{
    broadcast use vstd::std_specs::hash::group_hash_axioms;

    let f: RegDataFormat = match formats.get(&i) {
        Some(f) => *f,
        None => all,
    };
    if f == RegDataFormat::default() {
        base.format()
    } else {
        f
    }
}

/// The note shown on a register: first its own format, if it has one.
pub open spec fn label_shown(
    formats: Map<usize, RegDataFormat>,
    i: int,
    labels: Option<Seq<Seq<char>>>,
) -> Seq<char> {
    let label = match labels {
        Some(l) => if i < l.len() {
            l[i]
        } else {
            Seq::empty()
        },
        None => Seq::empty(),
    };
    if formats.contains_key(i as usize) {
        let f = formats[i as usize];
        let own = "["@ + crate::numeral::decimal(crate::format::regs_of(f.width)) + "×"@
            + crate::format::label_of(f) + "]"@;
        if label.len() == 0 {
            own
        } else {
            own + " "@ + label
        }
    } else {
        label
    }
}

/// The note shown on a register.
pub fn shown_label(
    formats: &HashMap<usize, RegDataFormat>,
    i: usize,
    labels: Option<&Vec<String>>,
) -> (r: String)
    ensures
        r@ == label_shown(
            formats@,
            i as int,
            match labels {
                Some(l) => Some(crate::text::texts(l@)),
                None => None,
            },
        ),
{
    broadcast use vstd::std_specs::hash::group_hash_axioms;

    let mut label: String = String::new();
    if let Some(l) = labels {
        if i < l.len() {
            label = l[i].clone();
        }
    }
    match formats.get(&i) {
        Some(f) => {
            let mut own: String = "[".to_string();
            push_decimal(&mut own, f.regs_needed() as u128);
            own.append("×");
            own.append(f.short_label().as_str());
            own.append("]");
            if crate::text::chars_of(label.as_str()).len() == 0 {
                own
            } else {
                own.append(" ");
                own.append(label.as_str());
                own
            }
        },
        None => label,
    }
}

/// Which registers of a table are simulated.
pub open spec fn simulated(s: AppState, view: RegView) -> Seq<bool> {
    match view {
        RegView::Holding => s.holding_change_enabled@,
        RegView::Input => s.input_change_enabled@,
        _ => Seq::empty(),
    }
}

/// What is shown of the last change of a register.
pub open spec fn change_cell(s: AppState, view: RegView, i: int) -> ChangeCell {
    if i < s.reg_just_changed@.len() && s.reg_just_changed@[i] {
        ChangeCell::Arrow(s.reg_change_direction@[i])
    } else if i < simulated(s, view).len() && simulated(s, view)[i] {
        ChangeCell::Simulated
    } else {
        ChangeCell::Nothing
    }
}

/// What is shown of the last change of a register.
pub fn shown_change(s: &AppState, view: RegView, i: usize) -> (r: ChangeCell)
    requires
        s.wf(),
    ensures
        r == change_cell(*s, view, i as int),
{
    let enabled: bool = match view {
        RegView::Holding => i < s.holding_change_enabled.len() && s.holding_change_enabled[i],
        RegView::Input => i < s.input_change_enabled.len() && s.input_change_enabled[i],
        _ => false,
    };
    if i < s.reg_just_changed.len() && s.reg_just_changed[i] {
        ChangeCell::Arrow(s.reg_change_direction[i])
    } else if enabled {
        ChangeCell::Simulated
    } else {
        ChangeCell::Nothing
    }
}

/// Whether a line shows a register of the table that is shown. Where an entry
/// is made, it stands in place of the note or of the value.
pub open spec fn row_shows(
    s: AppState,
    ui: TableModel,
    entry: EntryModel,
    i: int,
    row: RowView,
) -> bool {
    let view = ui.reg_view;
    let items = items_of(s, view);
    if has_bits(view) {
        row == (RowView::Switch { address: i, on: items[i] == 1 })
    } else {
        match row {
            RowView::Switch { .. } => false,
            RowView::Register { addr, label, value, change, bar } => {
                &&& addr == i
                &&& label == if is_edited(ui, entry, i) && entry.edit_is_label {
                    entry.edit_buf
                } else {
                    label_shown(formats_of(s, view), i, labels_of(s, view))
                }
                &&& if is_edited(ui, entry, i) && !entry.edit_is_label {
                    value == Shown::Text(entry.edit_buf)
                } else {
                    crate::value::register_shown(
                        items,
                        i,
                        format_shown(formats_of(s, view), i, ui.reg_format, ui.base),
                        ui.swap_bytes,
                        ui.swap_words,
                        value,
                    )
                }
                &&& change == change_cell(s, view, i)
                &&& bar == if ui.show_change_bar {
                    Some(bar_marks(bar_of(s, i)))
                } else {
                    None
                }
            },
        }
    }
}

/// The line of a register of the table that is shown.
pub fn register_row(
    s: &AppState,
    ui: &TablePane,
    entry: &EntryPane,
    items: &Vec<u16>,
    labels: Option<&Vec<String>>,
    i: usize,
) -> (r: TableRow)
    requires
        s.wf(),
        i < items@.len(),
        items@ == items_of(*s, ui@.reg_view),
        (match labels {
            Some(l) => Some(crate::text::texts(l@)),
            None => None,
        }) == labels_of(*s, ui@.reg_view),
    ensures
        row_shows(*s, ui@, entry@, i as int, r@),
{
    match ui.reg_view {
        RegView::Coils | RegView::Discrete => {
            return TableRow::Switch { address: i, on: items[i] == 1 };
        },
        _ => {},
    }
    let formats: &HashMap<usize, RegDataFormat> = match ui.reg_view {
        RegView::Input => &s.input_combinations,
        _ => &s.holding_combinations,
    };
    let edited: bool = ui.reg_view == RegView::Holding && entry.edit_mode && i == ui.selected
        && !entry.edit_is_profile;
    let label: String = if edited && entry.edit_is_label {
        entry.edit_buf.clone()
    } else {
        shown_label(formats, i, labels)
    };
    let value: RegisterText = if edited && !entry.edit_is_label {
        RegisterText::Text(entry.edit_buf.clone())
    } else {
        let f: RegDataFormat = shown_format(formats, i, ui.reg_format, ui.base);
        format_register_value(items, i, f, ui.swap_bytes, ui.swap_words)
    };
    let change: ChangeCell = shown_change(s, ui.reg_view, i);
    let bar: Option<Vec<BarMark>> = if ui.show_change_bar {
        Some(render_change_bar(s, i))
    } else {
        None
    };
    TableRow::Register { addr: i, label, value, change, bar }
}

/// A column of a table, with the key of its heading.
#[derive(Copy, Clone, Debug)]
pub struct Column {
    pub heading: &'static str,
    pub width: Extent,
}

/// A column, mathematically.
pub open spec fn column(heading: Seq<char>, width: Extent) -> (Seq<char>, Extent) {
    (heading, width)
}

/// Columns, mathematically.
pub open spec fn headings(v: Seq<Column>) -> Seq<(Seq<char>, Extent)> {
    Seq::new(v.len(), |i: int| (v[i].heading@, v[i].width))
}

/// The columns of a table. Only registers have notes and changes.
pub open spec fn columns_of(view: RegView, bar: bool) -> Seq<(Seq<char>, Extent)> {
    if has_bits(view) {
        seq![
            column("register_table.col_addr"@, Extent::Exactly(18)),
            column("register_table.col_value"@, Extent::AtLeast(16)),
        ]
    } else {
        let plain = seq![
            column("register_table.col_addr"@, Extent::Exactly(18)),
            column("register_table.col_label"@, Extent::Exactly(36)),
            column("register_table.col_value"@, Extent::AtLeast(10)),
            column("register_table.col_change"@, Extent::Exactly(6)),
        ];
        if bar {
            plain.push(
                column("register_table.col_bar"@, Extent::Exactly(BAR_HISTORY_SLOTS as u16)),
            )
        } else {
            plain
        }
    }
}

/// The columns of a table.
pub fn table_columns(view: RegView, bar: bool) -> (r: Vec<Column>)
    ensures
        headings(r@) == columns_of(view, bar),
{
    match view {
        RegView::Coils | RegView::Discrete => {
            let v = vec![
                Column { heading: "register_table.col_addr", width: Extent::Exactly(18) },
                Column { heading: "register_table.col_value", width: Extent::AtLeast(16) },
            ];
            assert(headings(v@) =~= columns_of(view, bar));
            return v;
        },
        _ => {},
    }
    let mut v = vec![
        Column { heading: "register_table.col_addr", width: Extent::Exactly(18) },
        Column { heading: "register_table.col_label", width: Extent::Exactly(36) },
        Column { heading: "register_table.col_value", width: Extent::AtLeast(10) },
        Column { heading: "register_table.col_change", width: Extent::Exactly(6) },
    ];
    if bar {
        v.push(
            Column {
                heading: "register_table.col_bar",
                width: Extent::Exactly(BAR_HISTORY_SLOTS as u16),
            },
        );
    }
    assert(headings(v@) =~= columns_of(view, bar));
    v
}

/// The key of the title of a table.
pub open spec fn title_of(view: RegView) -> Seq<char> {
    match view {
        RegView::Holding => "register_table.title"@,
        RegView::Coils => "register_table.title_coils"@,
        RegView::Discrete => "register_table.title_discrete"@,
        RegView::Input => "register_table.title_input"@,
    }
}

/// What stands behind the title of a table: whether a client reads it.
pub open spec fn read_status(read: bool) -> Seq<char> {
    if read {
        " [读]"@
    } else {
        " [禁读]"@
    }
}

/// A table as it is shown.
#[derive(Debug)]
pub struct TableView {
    /// The key of the title.
    pub title: &'static str,
    /// What stands behind the title.
    pub status: &'static str,
    pub columns: Vec<Column>,
    pub rows: Vec<TableRow>,
    /// The line that is marked.
    pub marked: usize,
}

/// Lines, mathematically.
pub open spec fn row_views(v: Seq<TableRow>) -> Seq<RowView> {
    Seq::new(v.len(), |i: int| v[i]@)
}

/// Some of a list, from a place on.
pub open spec fn window(list: Seq<int>, from: int, n: int) -> Seq<int> {
    if from >= list.len() {
        Seq::empty()
    } else if from + n <= list.len() {
        list.subrange(from, from + n)
    } else {
        list.skip(from)
    }
}

/// How many lines of a table fit into a height.
pub open spec fn lines_in(height: u16) -> int {
    if height < 3 {
        0
    } else {
        height - 3
    }
}

/// The registers of the table that is shown whose lines are shown.
pub open spec fn lines_shown(s: AppState, ui: TableModel, height: u16) -> Seq<int> {
    let places = found(ui.search_buf, labels_of(s, ui.reg_view), items_of(s, ui.reg_view).len());
    let n = lines_in(height);
    let some = window(
        places,
        ui.scroll as int,
        if n == 0 {
            1
        } else {
            n
        },
    );
    if has_bits(ui.reg_view) {
        some
    } else {
        primaries(some, formats_of(s, ui.reg_view))
    }
}

/// The line that is marked: that of the marked register among those found,
/// counted from the first line shown.
pub open spec fn marked_line(places: Seq<int>, selected: int, scroll: int) -> int {
    let at = if places.contains(selected) {
        places.index_of(selected)
    } else {
        0
    };
    if at < scroll {
        0
    } else {
        at - scroll
    }
}

/// The table with the mark and the first line moved for showing it.
pub open spec fn table_placed(s: AppState, ui: TableModel, height: u16) -> TableModel {
    let items = items_of(s, ui.reg_view);
    let p = placed(
        Place { selected: ui.selected as int, scroll: ui.scroll as int },
        items.len() as int,
        lines_in(height),
        found(ui.search_buf, labels_of(s, ui.reg_view), items.len()),
    );
    TableModel { selected: p.selected as usize, scroll: p.scroll as usize, ..ui }
}

/// Whether the table that is shown is shown right.
pub open spec fn table_shown(
    s: AppState,
    ui: TableModel,
    entry: EntryModel,
    height: u16,
    t: TableView,
) -> bool {
    let view = ui.reg_view;
    let lines = lines_shown(s, ui, height);
    &&& t.title@ == title_of(view)
    &&& t.status@ == read_status(s.read_enabled@[crate::ui::view_place(view)])
    &&& headings(t.columns@) == columns_of(view, ui.show_change_bar)
    &&& t.rows@.len() == lines.len()
    &&& forall|i: int|
        0 <= i < lines.len() ==> row_shows(s, ui, entry, lines[i], #[trigger] row_views(t.rows@)[i])
    &&& t.marked == marked_line(
        found(ui.search_buf, labels_of(s, view), items_of(s, view).len()),
        ui.selected as int,
        ui.scroll as int,
    )
}

fn window_rows(
    s: &AppState,
    ui: &TablePane,
    entry: &EntryPane,
    items: &Vec<u16>,
    labels: Option<&Vec<String>>,
    places: &Vec<usize>,
    n: usize,
) -> (r: Vec<TableRow>)
    requires
        s.wf(),
        items@ == items_of(*s, ui@.reg_view),
        (match labels {
            Some(l) => Some(crate::text::texts(l@)),
            None => None,
        }) == labels_of(*s, ui@.reg_view),
        forall|i: int| 0 <= i < places@.len() ==> places@[i] < items@.len(),
    ensures
        ({
            let some = window(ints(places@), ui@.scroll as int, n as int);
            let lines = if has_bits(ui@.reg_view) {
                some
            } else {
                primaries(some, formats_of(*s, ui@.reg_view))
            };
            &&& r@.len() == lines.len()
            &&& forall|i: int|
                0 <= i < lines.len() ==> row_shows(*s, ui@, entry@, lines[i], #[trigger] row_views(r@)[i])
        }),
{
    let mut r: Vec<TableRow> = Vec::new();
    let count: usize = places.len();
    let from: usize = if ui.scroll > count {
        count
    } else {
        ui.scroll
    };
    let to: usize = if n > count - from {
        count
    } else {
        from + n
    };
    let ghost some = window(ints(places@), ui@.scroll as int, n as int);
    assert(some =~= ints(places@).subrange(from as int, to as int));
    let bits: bool = ui.reg_view == RegView::Coils || ui.reg_view == RegView::Discrete;
    let formats: &HashMap<usize, RegDataFormat> = match ui.reg_view {
        RegView::Input => &s.input_combinations,
        _ => &s.holding_combinations,
    };
    let ghost mut lines: Seq<int> = Seq::empty();
    for k in from..to
        invariant
            s.wf(),
            from <= to <= count,
            count == places@.len(),
            some == ints(places@).subrange(from as int, to as int),
            items@ == items_of(*s, ui@.reg_view),
            (match labels {
                Some(l) => Some(crate::text::texts(l@)),
                None => None,
            }) == labels_of(*s, ui@.reg_view),
            forall|i: int| 0 <= i < places@.len() ==> places@[i] < items@.len(),
            bits == has_bits(ui@.reg_view),
            formats@ == formats_of(*s, ui@.reg_view),
            lines == (if bits {
                some.take(k - from)
            } else {
                primaries(some.take(k - from), formats@)
            }),
            r@.len() == lines.len(),
            forall|i: int|
                0 <= i < lines.len() ==> row_shows(*s, ui@, entry@, lines[i], #[trigger] row_views(r@)[i]),
    {
        let i: usize = places[k];
        let ghost next = some.take(k - from + 1);
        assert(next.drop_last() =~= some.take(k - from));
        assert(next.last() == i);
        if bits || !is_secondary_register(i, formats) {
            let row = register_row(s, ui, entry, items, labels, i);
            let ghost before = r@;
            r.push(row);
            proof {
                assert(next =~= some.take(k - from).push(i as int));
                lines = lines.push(i as int);
            }
            assert forall|j: int| 0 <= j < lines.len() implies row_shows(
                *s,
                ui@,
                entry@,
                lines[j],
                #[trigger] row_views(r@)[j],
            ) by {
                if j < before.len() {
                    assert(row_views(r@)[j] == row_views(before)[j]);
                }
            }
        }
    }
    assert(some.take(to - from) =~= some);
    r
}

/// The table of registers as it is shown in a height. The mark and the first
/// line are moved so that they fit.
pub fn render_register_table(
    s: &AppState,
    ui: &mut TablePane,
    entry: &EntryPane,
    height: u16,
) -> (r: TableView)
    requires
        s.wf(),
    ensures
        final(ui)@ == table_placed(*s, old(ui)@, height),
        table_shown(*s, final(ui)@, entry@, height, r),
{
    let visible: usize = if height < 3 {
        0
    } else {
        (height - 3) as usize
    };
    let (items, labels) = reg_view_data(s, ui.reg_view);
    let places: Vec<usize> = find_registers(ui.search_buf.as_str(), labels, items.len());
    let (selected, scroll) = place(ui.selected, ui.scroll, items.len(), visible, &places);
    ui.selected = selected;
    ui.scroll = scroll;
    let n: usize = if visible == 0 {
        1
    } else {
        visible
    };
    let rows: Vec<TableRow> = window_rows(s, ui, entry, &items, labels, &places, n);
    let at: usize = match position(&places, selected) {
        Some(i) => i,
        None => 0,
    };
    proof {
        let list = ints(places@);
        if list.contains(selected as int) {
            let j = choose|j: int| 0 <= j < list.len() && list[j] == selected;
            assert(places@[j] == selected);
            assert(places@[at as int] == selected);
            assert(list[at as int] == selected);
            assert(list.index_of(selected as int) == at) by {
                let k = list.index_of(selected as int);
                lemma_found_distinct(ui@.search_buf, labels_of(*s, ui@.reg_view), items@.len());
                assert(list[k] == selected);
            }
        } else {
            assert(forall|j: int| 0 <= j < places@.len() ==> list[j] == places@[j]);
        }
    }
    let marked: usize = if at < scroll {
        0
    } else {
        at - scroll
    };
    let title = match ui.reg_view {
        RegView::Holding => "register_table.title",
        RegView::Coils => "register_table.title_coils",
        RegView::Discrete => "register_table.title_discrete",
        RegView::Input => "register_table.title_input",
    };
    let status = if s.read_enabled[ui.reg_view.place()] {
        " [读]"
    } else {
        " [禁读]"
    };
    let columns: Vec<Column> = table_columns(ui.reg_view, ui.show_change_bar);
    TableView { title, status, columns, rows, marked }
}

proof fn lemma_found_distinct(search: Seq<char>, labels: Option<Seq<Seq<char>>>, len: nat)
    ensures
        forall|i: int, j: int|
            0 <= i < j < found(search, labels, len).len() ==> found(search, labels, len)[i]
                < found(search, labels, len)[j],
        forall|i: int|
            0 <= i < found(search, labels, len).len() ==> 0 <= #[trigger] found(
                search,
                labels,
                len,
            )[i] < len,
    decreases len,
{
    if len > 0 {
        lemma_found_distinct(search, labels, (len - 1) as nat);
        let before = found(search, labels, (len - 1) as nat);
        let all = found(search, labels, len);
        assert(all == before || all == before.push(len - 1));
        assert forall|i: int| 0 <= i < all.len() implies 0 <= #[trigger] all[i] < len by {
            if i < before.len() {
                assert(all[i] == before[i]);
            }
        }
        assert forall|i: int, j: int| 0 <= i < j < all.len() implies all[i] < all[j] by {
            assert(all[i] == before[i]);
            if j < before.len() {
                assert(all[j] == before[j]);
            }
        }
    }
}

} // verus!

//! The table of registers on the screen: which lines stand there, and what they show.
use crate::format::RegDataFormat;
use crate::layout::Extent;
use crate::laws::values::{count, shows};
use crate::laws::numbers::weighed;
use crate::numeral::decimal;
use crate::state::AppState;
use crate::table::{
    bar_marks, change_cell, columns_of, format_shown, found, is_secondary, items_of, label_shown,
    lines_in, lines_shown, marked_line, placed, primaries, read_status, row_shows, title_of, window,
    ChangeCell, Place, RowView,
};
use crate::text::{has_infix, lowered};
use crate::ui::{DisplayBase, EntryModel, RegView, TableModel};
use crate::value::Shown;
use crate::words::arranged;
use vstd::prelude::*;

verus! {

/// Each table shows its own registers, and bits as 0 and 1.
pub proof fn law_tables_show_their_registers(s: AppState, i: int)
    ensures
        items_of(s, RegView::Holding) == s.holding@,
        items_of(s, RegView::Input) == s.input_registers@,
        items_of(s, RegView::Coils).len() == s.coils@.len(),
        items_of(s, RegView::Discrete).len() == s.discrete@.len(),
        0 <= i < s.coils@.len() ==> items_of(s, RegView::Coils)[i] == if s.coils@[i] {
            1u16
        } else {
            0
        },
        0 <= i < s.discrete@.len() ==> items_of(s, RegView::Discrete)[i] == if s.discrete@[i] {
            1u16
        } else {
            0
        },
{
}

/// A search finds a register by its address in decimal digits or by the note on it, in
/// whatever case; a search for nothing finds every register. What is found stands in the
/// order of the addresses.
pub proof fn law_search_finds(
    search: Seq<char>,
    labels: Option<Seq<Seq<char>>>,
    len: nat,
    x: int,
    i: int,
    j: int,
)
    ensures
        found(search, labels, len).contains(x) <==> 0 <= x < len && (search.len() == 0 || has_infix(
            decimal(x as nat),
            lowered(search),
        ) || (labels matches Some(l) && x < l.len() && has_infix(
            lowered(l[x]),
            lowered(search),
        ))),
        0 <= i < j < found(search, labels, len).len() ==> found(search, labels, len)[i] < found(
            search,
            labels,
            len,
        )[j],
        0 <= i < found(search, labels, len).len() ==> 0 <= found(search, labels, len)[i] < len,
    decreases len,
{
    if len > 0 {
        let k = (len - 1) as nat;
        let before = found(search, labels, k);
        let all = found(search, labels, len);
        law_search_finds(search, labels, k, x, i, j);
        let n = before.len() as int;
        if all.len() > n {
            assert(all =~= before.push(k as int));
            assert(all[n] == k);
            if before.contains(x) {
                let m = choose|m: int| 0 <= m < before.len() && before[m] == x;
                assert(all[m] == x);
            }
            if all.contains(x) && x != k {
                let m = choose|m: int| 0 <= m < all.len() && all[m] == x;
                assert(before[m] == x);
            }
            if 0 <= i < n {
                law_search_finds(search, labels, k, x, i, i);
            }
        }
    }
}

/// A register belongs to the value of another one if that is of more registers than
/// lie before it.
pub proof fn law_register_belongs_to_value(addr: int, formats: Map<usize, RegDataFormat>, p: usize)
    ensures
        formats.contains_key(p) && p < addr < p + count(formats[p].width) ==> is_secondary(
            addr,
            formats,
        ),
        (forall|q: usize|
            formats.contains_key(q) ==> !(q < addr < q + count(
                (#[trigger] formats[q]).width,
            ))) ==> !is_secondary(addr, formats),
{
    if forall|q: usize|
        formats.contains_key(q) ==> !(q < addr < q + count((#[trigger] formats[q]).width)) {
        if is_secondary(addr, formats) {
            let q = choose|q: usize|
                #[trigger] formats.contains_key(q) && q < addr < q + crate::format::regs_of(
                    formats[q].width,
                );
            assert(count(formats[q].width) == crate::format::regs_of(formats[q].width));
        }
    }
}

/// Of some registers, all but those that belong to the value of another one have a
/// line, in the same order.
pub proof fn law_values_have_one_line(list: Seq<int>, x: int, formats: Map<usize, RegDataFormat>)
    ensures
        primaries(Seq::empty(), formats).len() == 0,
        is_secondary(x, formats) ==> primaries(list.push(x), formats) == primaries(list, formats),
        !is_secondary(x, formats) ==> primaries(list.push(x), formats) == primaries(
            list,
            formats,
        ).push(x),
{
    assert(list.push(x).drop_last() =~= list);
}

/// The bar of a register has a mark for each of its last values, by whether it went up
/// or down to it, and is filled up to twenty.
pub proof fn law_bar_marks_changes(values: Seq<u16>, i: int)
    requires
        0 <= i,
    ensures
        bar_marks(values).len() == if values.len() < 20 {
            20
        } else {
            values.len()
        },
        0 < i < values.len() && values[i] > values[i - 1] ==> bar_marks(values)[i] is Higher,
        0 < i < values.len() && values[i] < values[i - 1] ==> bar_marks(values)[i] is Lower,
        0 < i < values.len() && values[i] == values[i - 1] ==> bar_marks(values)[i] is Same,
        i == 0 || values.len() <= i < 20 ==> bar_marks(values)[i] is Same,
{
}

/// In a table that is not searched, the mark stays where it is, or goes to the last
/// register if there are fewer; and where its line is in sight and the lines are full,
/// none moves.
pub proof fn law_mark_stays(p: Place, len: nat, visible: int, labels: Option<Seq<Seq<char>>>)
    requires
        0 <= p.selected,
        0 <= p.scroll,
        0 < visible,
        0 < len,
    ensures
        ({
            let q = placed(p, len as int, visible, found(Seq::empty(), labels, len));
            &&& q.selected == if p.selected < len {
                p.selected
            } else {
                len - 1
            }
            &&& p.selected < len && p.scroll <= p.selected < p.scroll + visible && p.scroll
                + visible <= len ==> q.scroll == p.scroll
        }),
{
    let places = found(Seq::empty(), labels, len);
    let sel = if p.selected < len {
        p.selected
    } else {
        len - 1
    };
    law_search_finds(Seq::empty(), labels, len, sel, 0, 0);
    crate::table::law_mark_is_shown(p, len, visible, labels);
    crate::table::lemma_found_all(labels, len);
}

/// A register is shown in its own format, or in that of all registers; where that is the
/// plain one, in the base that was chosen.
pub proof fn law_format_is_chosen(
    formats: Map<usize, RegDataFormat>,
    i: int,
    all: RegDataFormat,
    base: DisplayBase,
)
    ensures
        ({
            let own = formats.contains_key(i as usize);
            let f = if own {
                formats[i as usize]
            } else {
                all
            };
            let r = format_shown(formats, i, all, base);
            &&& !(f.data_type is Uint && f.width is Bits16) ==> r == f
            &&& f.data_type is Uint && f.width is Bits16 ==> r.width is Bits16 && match base {
                DisplayBase::Dec => r.data_type is Uint,
                DisplayBase::Hex => r.data_type is Hex,
                DisplayBase::Bin => r.data_type is Binary,
            }
        }),
{
}

/// A register shows its note, and before it how many registers of which format its value
/// has, if it has a format of its own.
pub proof fn law_note_is_shown(
    formats: Map<usize, RegDataFormat>,
    i: int,
    labels: Seq<Seq<char>>,
)
    requires
        0 <= i < labels.len(),
    ensures
        !formats.contains_key(i as usize) ==> label_shown(formats, i, Some(labels)) == labels[i],
        !formats.contains_key(i as usize) ==> label_shown(formats, i, None).len() == 0,
        formats.contains_key(i as usize) ==> ({
            let f = formats[i as usize];
            let own = "["@ + decimal(count(f.width)) + "×"@ + crate::format::label_of(f) + "]"@;
            &&& labels[i].len() > 0 ==> label_shown(formats, i, Some(labels)) == own + " "@
                + labels[i]
            &&& labels[i].len() == 0 ==> label_shown(formats, i, Some(labels)) == own
            &&& label_shown(formats, i, None) == own
        }),
{
}

/// An arrow is shown of a register that changed just now, the way it went; of any other
/// it is shown whether it is simulated.
pub proof fn law_change_is_shown(s: AppState, view: RegView, i: int)
    requires
        0 <= i,
    ensures
        ({
            let cell = change_cell(s, view, i);
            let changed = i < s.reg_just_changed@.len() && s.reg_just_changed@[i];
            let moving = view is Holding && i < s.holding_change_enabled@.len()
                && s.holding_change_enabled@[i] || view is Input && i
                < s.input_change_enabled@.len() && s.input_change_enabled@[i];
            &&& changed ==> cell == ChangeCell::Arrow(s.reg_change_direction@[i])
            &&& !changed && moving ==> cell is Simulated
            &&& !changed && !moving ==> cell is Nothing
        }),
{
}

/// The line of a bit shows its address and whether it is on.
pub proof fn law_line_of_a_bit(
    s: AppState,
    ui: TableModel,
    entry: EntryModel,
    i: int,
    row: RowView,
)
    requires
        row_shows(s, ui, entry, i, row),
    ensures
        ui.reg_view is Coils && 0 <= i < s.coils@.len() ==> row == (RowView::Switch {
            address: i,
            on: s.coils@[i],
        }),
        ui.reg_view is Discrete && 0 <= i < s.discrete@.len() ==> row == (RowView::Switch {
            address: i,
            on: s.discrete@[i],
        }),
        ui.reg_view is Holding || ui.reg_view is Input ==> row is Register,
{
}

/// The line of a register shows its address, and the number that its registers hold in
/// the format in which it is shown.
pub proof fn law_line_of_a_register(
    s: AppState,
    ui: TableModel,
    entry: EntryModel,
    i: int,
    row: RowView,
)
    requires
        row_shows(s, ui, entry, i, row),
        ui.reg_view is Holding || ui.reg_view is Input,
        !entry.edit_mode || ui.reg_view is Input || i != ui.selected,
        0 <= i,
    ensures
        ({
            let regs = if ui.reg_view is Holding {
                s.holding@
            } else {
                s.input_registers@
            };
            let formats = if ui.reg_view is Holding {
                s.holding_combinations@
            } else {
                s.input_combinations@
            };
            let f = format_shown(formats, i, ui.reg_format, ui.base);
            let n = count(f.width);
            let w = arranged(regs.subrange(i, i + n), ui.swap_bytes, ui.swap_words);
            row matches RowView::Register { addr, label, value, change, bar } && {
                &&& addr == i
                &&& i + n <= regs.len() ==> shows(value, w, weighed(w), f)
                &&& i + n > regs.len() ==> value == Shown::Text(
                    "-- (need "@ + decimal(n) + ")"@,
                )
                &&& change == change_cell(s, ui.reg_view, i)
                &&& !ui.show_change_bar <==> bar is None
                &&& ui.reg_view is Input ==> label == label_shown(formats, i, None)
                &&& ui.reg_view is Holding ==> label == label_shown(
                    formats,
                    i,
                    Some(crate::text::texts(s.holding_label@)),
                )
            }
        }),
{
    let regs = if ui.reg_view is Holding {
        s.holding@
    } else {
        s.input_registers@
    };
    let formats = if ui.reg_view is Holding {
        s.holding_combinations@
    } else {
        s.input_combinations@
    };
    let f = format_shown(formats, i, ui.reg_format, ui.base);
    match row {
        RowView::Register { addr, label, value, change, bar } => {
            crate::laws::values::law_value_shows_its_number(
                regs,
                i,
                f,
                ui.swap_bytes,
                ui.swap_words,
                value,
            );
        },
        RowView::Switch { .. } => {},
    }
}

/// An entry stands in the line of the marked holding register: in place of its note, or
/// of its value.
pub proof fn law_entry_stands_in_line(
    s: AppState,
    ui: TableModel,
    entry: EntryModel,
    row: RowView,
)
    requires
        row_shows(s, ui, entry, ui.selected as int, row),
        ui.reg_view is Holding,
        entry.edit_mode,
        !entry.edit_is_profile,
    ensures
        row matches RowView::Register { addr, label, value, change, bar } && addr == ui.selected
            && (entry.edit_is_label ==> label == entry.edit_buf) && (!entry.edit_is_label ==> value
            == Shown::Text(entry.edit_buf)),
{
}

/// The columns: address and value, and for registers the note and the change, and the
/// bar where it is shown.
pub proof fn law_columns_of_tables(view: RegView, bar: bool)
    ensures
        ({
            let c = columns_of(view, bar);
            let bits = view is Coils || view is Discrete;
            &&& c[0] == ("register_table.col_addr"@, Extent::Exactly(18))
            &&& bits ==> c.len() == 2 && c[1] == (
                "register_table.col_value"@,
                Extent::AtLeast(16),
            )
            &&& !bits ==> c.len() == (if bar {
                5int
            } else {
                4
            }) && c[1] == ("register_table.col_label"@, Extent::Exactly(36)) && c[2] == (
                "register_table.col_value"@,
                Extent::AtLeast(10),
            ) && c[3] == ("register_table.col_change"@, Extent::Exactly(6))
            &&& !bits && bar ==> c[4] == ("register_table.col_bar"@, Extent::Exactly(20))
        }),
{
}

/// Each table has its title, and behind it whether it is read.
pub proof fn law_tables_have_titles(read: bool)
    ensures
        title_of(RegView::Holding) == "register_table.title"@,
        title_of(RegView::Coils) == "register_table.title_coils"@,
        title_of(RegView::Discrete) == "register_table.title_discrete"@,
        title_of(RegView::Input) == "register_table.title_input"@,
        read ==> read_status(read) == " [读]"@,
        !read ==> read_status(read) == " [禁读]"@,
{
}

/// From a list, as many as fit are shown from a place on, in order.
pub proof fn law_some_are_shown(list: Seq<int>, from: int, n: int, i: int)
    requires
        0 <= from,
        0 <= n,
    ensures
        window(list, from, n).len() == if from >= list.len() {
            0
        } else if from + n <= list.len() {
            n
        } else {
            list.len() - from
        },
        0 <= i < window(list, from, n).len() ==> window(list, from, n)[i] == list[from + i],
{
}

/// A table has a line less than its height for each of its frame and its heading.
pub proof fn law_lines_fit_height(height: u16)
    ensures
        height >= 3 ==> lines_in(height) == height - 3,
        height < 3 ==> lines_in(height) == 0,
{
}

/// In a table of bits that is not searched, each line is that of the next bit, from the
/// first line shown on, as far as there is room; and the mark is on the marked one.
pub proof fn law_lines_of_bits(s: AppState, ui: TableModel, height: u16, i: int)
    requires
        ui.reg_view is Coils,
        ui.search_buf.len() == 0,
        height > 3,
        ui.scroll <= ui.selected < s.coils@.len(),
        0 <= i < height - 3,
        ui.scroll + i < s.coils@.len(),
    ensures
        i < lines_shown(s, ui, height).len() <= height - 3,
        lines_shown(s, ui, height)[i] == ui.scroll + i,
        marked_line(
            found(ui.search_buf, None, s.coils@.len()),
            ui.selected as int,
            ui.scroll as int,
        ) == ui.selected - ui.scroll,
{
    let len = s.coils@.len();
    assert(ui.search_buf =~= Seq::empty());
    crate::table::lemma_found_all(None, len);
    let places = found(ui.search_buf, None, len);
    assert(items_of(s, RegView::Coils).len() == len);
    assert(places[ui.selected as int] == ui.selected);
    assert(places.contains(ui.selected as int));
    let at = places.index_of(ui.selected as int);
    assert(places[at] == at);
}

/// A table as it is shown: with its title, whether it is read, its columns, and a line for
/// each register whose line is shown.
pub proof fn law_table_is_shown(
    s: AppState,
    ui: TableModel,
    entry: EntryModel,
    height: u16,
    t: crate::table::TableView,
    i: int,
)
    requires
        crate::table::table_shown(s, ui, entry, height, t),
    ensures
        ({
            let place = match ui.reg_view {
                RegView::Holding => 0int,
                RegView::Coils => 1,
                RegView::Discrete => 2,
                RegView::Input => 3,
            };
            let lines = lines_shown(s, ui, height);
            &&& t.title@ == title_of(ui.reg_view)
            &&& s.read_enabled@[place] ==> t.status@ == " [读]"@
            &&& !s.read_enabled@[place] ==> t.status@ == " [禁读]"@
            &&& t.rows@.len() == lines.len()
            &&& 0 <= i < lines.len() ==> row_shows(s, ui, entry, lines[i], t.rows@[i]@)
            &&& t.columns@.len() == columns_of(ui.reg_view, ui.show_change_bar).len()
        }),
{
    let rows = crate::table::row_views(t.rows@);
    assert(rows.len() == t.rows@.len());
    if 0 <= i < rows.len() {
        assert(rows[i] == t.rows@[i]@);
    }
    assert(crate::table::headings(t.columns@).len() == t.columns@.len());
}

/// Where a table is shown without a search, the mark is in sight afterwards, and nothing
/// but the mark and the first line has moved.
pub proof fn law_table_is_placed(s: AppState, ui: TableModel, height: u16)
    requires
        ui.search_buf.len() == 0,
        height > 3,
        ui.reg_view is Holding,
        s.holding@.len() > 0,
    ensures
        ({
            let a = crate::table::table_placed(s, ui, height);
            &&& a == (TableModel { selected: a.selected, scroll: a.scroll, ..ui })
            &&& a.selected < s.holding@.len()
            &&& ui.selected < s.holding@.len() ==> a.selected == ui.selected
            &&& a.scroll <= a.selected < a.scroll + (height - 3)
        }),
{
    let labels = crate::table::labels_of(s, ui.reg_view);
    let len = s.holding@.len();
    let p = Place { selected: ui.selected as int, scroll: ui.scroll as int };
    assert(ui.search_buf =~= Seq::empty());
    assert(s.holding.len() == len);
    crate::table::law_mark_is_shown(p, len, height - 3, labels);
    law_mark_stays(p, len, height - 3, labels);
}

proof fn lemma_primaries(list: Seq<int>, formats: Map<usize, RegDataFormat>, x: int)
    ensures
        primaries(list, formats).contains(x) <==> list.contains(x) && !is_secondary(x, formats),
    decreases list.len(),
{
    if list.len() > 0 {
        let before = list.drop_last();
        let p = primaries(before, formats);
        lemma_primaries(before, formats, x);
        assert(list =~= before.push(list.last()));
        if list.contains(x) && x != list.last() {
            let k = choose|k: int| 0 <= k < list.len() && list[k] == x;
            assert(before[k] == x);
        }
        if before.contains(x) {
            let k = choose|k: int| 0 <= k < before.len() && before[k] == x;
            assert(list[k] == x);
        }
        assert(list[list.len() - 1] == list.last());
        if !is_secondary(list.last(), formats) {
            let q = p.push(list.last());
            assert(q[p.len() as int] == list.last());
            if p.contains(x) {
                let k = choose|k: int| 0 <= k < p.len() && p[k] == x;
                assert(q[k] == x);
            }
            if q.contains(x) && x != list.last() {
                let k = choose|k: int| 0 <= k < q.len() && q[k] == x;
                assert(p[k] == x);
            }
        }
    }
}

/// In a table of registers that is not searched, a register has a line if it stands among
/// those that fit from the first line on, and does not belong to the value of another one.
pub proof fn law_lines_of_registers(s: AppState, ui: TableModel, height: u16, x: int)
    requires
        ui.reg_view is Holding || ui.reg_view is Input,
        ui.search_buf.len() == 0,
        height > 3,
    ensures
        ({
            let len = if ui.reg_view is Holding {
                s.holding@.len()
            } else {
                s.input_registers@.len()
            };
            let formats = if ui.reg_view is Holding {
                s.holding_combinations@
            } else {
                s.input_combinations@
            };
            lines_shown(s, ui, height).contains(x) <==> ui.scroll <= x < len && x < ui.scroll + (
            height - 3) && !is_secondary(x, formats)
        }),
{
    let len = if ui.reg_view is Holding {
        s.holding@.len()
    } else {
        s.input_registers@.len()
    };
    let formats = if ui.reg_view is Holding {
        s.holding_combinations@
    } else {
        s.input_combinations@
    };
    let labels = crate::table::labels_of(s, ui.reg_view);
    assert(ui.search_buf =~= Seq::empty());
    crate::table::lemma_found_all(labels, len);
    let places = found(ui.search_buf, labels, len);
    let some = window(places, ui.scroll as int, height - 3);
    lemma_primaries(some, formats, x);
    law_some_are_shown(places, ui.scroll as int, height - 3, x - ui.scroll);
    if some.contains(x) {
        let k = choose|k: int| 0 <= k < some.len() && some[k] == x;
        law_some_are_shown(places, ui.scroll as int, height - 3, k);
        assert(places[ui.scroll + k] == ui.scroll + k);
    }
    if ui.scroll <= x < len && x < ui.scroll + (height - 3) {
        assert(some[x - ui.scroll] == places[x]);
        assert(places[x] == x);
    }
}

/// The line that is marked is that of the marked register among those found, counted from
/// the first line shown.
pub proof fn law_marked_line(search: Seq<char>, labels: Option<Seq<Seq<char>>>, len: nat, k: int, scroll: int)
    requires
        0 <= k < found(search, labels, len).len(),
        0 <= scroll,
    ensures
        k >= scroll ==> marked_line(
            found(search, labels, len),
            found(search, labels, len)[k],
            scroll,
        ) == k - scroll,
        k < scroll ==> marked_line(
            found(search, labels, len),
            found(search, labels, len)[k],
            scroll,
        ) == 0,
{
    let p = found(search, labels, len);
    assert(p.contains(p[k]));
    let at = p.index_of(p[k]);
    law_search_finds(search, labels, len, 0, at, k);
    law_search_finds(search, labels, len, 0, k, at);
}

/// In a table that is searched, the mark goes to the first register that was found, unless
/// it is on one that was. The first line goes no further than that register, and no
/// further than it may without leaving a line empty.
pub proof fn law_mark_goes_to_what_was_found(p: Place, len: int, visible: int, places: Seq<int>)
    requires
        0 <= p.selected < len,
        0 <= p.scroll <= p.selected < p.scroll + visible,
        0 < places.len(),
        forall|i: int| 0 <= i < places.len() ==> 0 <= #[trigger] places[i] < len,
    ensures
        ({
            let q = placed(p, len, visible, places);
            let n = places.len() as int;
            let on = places.contains(p.selected);
            let most = if n > visible {
                n - visible
            } else {
                0
            };
            let wanted = if !on && places[0] < p.scroll {
                places[0]
            } else {
                p.scroll
            };
            &&& on ==> q.selected == p.selected
            &&& !on ==> q.selected == places[0]
            &&& wanted <= most ==> q.scroll == wanted
            &&& wanted > most ==> q.scroll == most
        }),
{
    assert(places[0] == places[0]);
}

/// A table without room for lines shows one at most.
pub proof fn law_low_table_shows_one_line(s: AppState, ui: TableModel, height: u16)
    requires
        height <= 3,
        ui.reg_view is Coils,
    ensures
        lines_shown(s, ui, height).len() <= 1,
{
}

} // verus!

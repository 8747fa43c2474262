//! Where the parts of the screen stand.
use crate::panel::wrapped_lines;
use ratatui::layout::{Constraint, Layout, Rect};
use vstd::prelude::*;

verus! {

/// How large a part of the screen is to be, along one side.
#[derive(Copy, Clone, Debug, PartialEq, Eq, Structural)]
pub enum Extent {
    Exactly(u16),
    AtLeast(u16),
}

/// A part of the screen.
#[derive(Copy, Clone, Debug, PartialEq, Eq, Structural)]
pub struct Area {
    pub left: u16,
    pub top: u16,
    pub width: u16,
    pub height: u16,
}

/// Whether an area lies within another.
pub open spec fn within(a: Area, b: Area) -> bool {
    &&& b.left <= a.left && a.left + a.width <= b.left + b.width
    &&& b.top <= a.top && a.top + a.height <= b.top + b.height
}

/// Whether an area ends before the largest coordinate there is.
pub open spec fn ends_in_range(a: Area) -> bool {
    a.left + a.width <= u16::MAX && a.top + a.height <= u16::MAX
}

/// Where an area begins, from the top or from the left.
pub open spec fn begin_of(a: Area, down: bool) -> int {
    if down {
        a.top as int
    } else {
        a.left as int
    }
}

/// How long an area is, from the top down or from the left to the right.
pub open spec fn length_of(a: Area, down: bool) -> int {
    if down {
        a.height as int
    } else {
        a.width as int
    }
}

/// Whether extents are those of a part between two that are as large as each
/// other, and no larger than it.
pub open spec fn flanked(extents: Seq<Extent>) -> bool {
    &&& extents.len() == 3
    &&& extents[0] is Exactly && extents[1] is Exactly && extents[2] == extents[0]
    &&& extents[0]->Exactly_0 <= extents[1]->Exactly_0
}

/// Where a part between two others begins in a whole, and how long it is. If
/// all three fit, they stand one behind the other from the start. If not, the
/// outer two keep their lengths and the middle one has the rest, as long as it
/// is no shorter than they are; or else each has a third, to the nearest line or
/// column.
pub open spec fn middle_part(outer: int, middle: int, whole: int) -> (int, int) {
    if 2 * outer + middle <= whole {
        (outer, middle)
    } else if 3 * outer <= whole {
        (outer, whole - 2 * outer)
    } else {
        ((whole + 1) / 3, (2 * whole + 1) / 3 - (whole + 1) / 3)
    }
}

/// How much an extent asks for.
pub open spec fn asked(e: Extent) -> nat {
    match e {
        Extent::Exactly(n) => n as nat,
        Extent::AtLeast(n) => n as nat,
    }
}

/// How much extents ask for together.
pub open spec fn asked_in_all(extents: Seq<Extent>) -> nat
    decreases extents.len(),
{
    if extents.len() == 0 {
        0
    } else {
        asked_in_all(extents.drop_last()) + asked(extents.last())
    }
}

/// Whether extents fit in a length, and at most one of them takes more than it
/// asks for.
pub open spec fn fits(extents: Seq<Extent>, length: int) -> bool {
    &&& asked_in_all(extents) <= length
    &&& forall|i: int, j: int|
        0 <= i < j < extents.len() && #[trigger] extents[i] is AtLeast ==> !(
        #[trigger] extents[j] is AtLeast)
}

/// What a part gets of a length in which all extents fit: what it asks for, and
/// all that is left over where it may have more.
pub open spec fn share(extents: Seq<Extent>, length: int, i: int) -> int {
    match extents[i] {
        Extent::Exactly(n) => n as int,
        Extent::AtLeast(n) => n + length - asked_in_all(extents),
    }
}

/// Whether areas stand one behind the other, without gaps, from the start of a
/// whole on.
pub open spec fn in_a_row(parts: Seq<Area>, whole: Area, down: bool) -> bool {
    &&& parts.len() > 0 ==> begin_of(parts[0], down) == begin_of(whole, down)
    &&& forall|i: int, j: int|
        0 <= i < parts.len() && j == i + 1 && j < parts.len() ==> begin_of(
            #[trigger] parts[j],
            down,
        ) == begin_of(#[trigger] parts[i], down) + length_of(parts[i], down)
}

/// What an exact extent gets of a length that is too short for it and for one
/// behind it that asks for at least `least`: what that one leaves.
pub open spec fn left_over(length: int, least: int) -> int {
    if least <= length {
        length - least
    } else {
        0
    }
}

/// What an extent with a least length gets of a length in which not all fit: that
/// length, as far as there is as much.
pub open spec fn least_kept(length: int, least: int) -> int {
    if least <= length {
        least
    } else {
        length
    }
}

/// Whether extents are one with a least length, and exact ones behind it.
pub open spec fn led_by_least(extents: Seq<Extent>) -> bool {
    &&& extents.len() > 1
    &&& extents[0] is AtLeast && extents[0]->AtLeast_0 <= i16::MAX
    &&& forall|i: int| 0 < i < extents.len() ==> #[trigger] extents[i] is Exactly
}

/// Divides an area by `ratatui::layout::Layout::split`: from the top down by
/// `Layout::vertical`, or from the left to the right by `Layout::horizontal`.
/// There is one area for each extent, as high or as wide as the whole across
/// the way in which it is divided, and within the whole.
///
/// How large each becomes along that way is found by a solver. Before all it has
/// the parts begin at the start and follow each other without gaps; next it gives
/// each extent the least that it asks for, and then the length that it asks for;
/// then parts that may be larger grow; and last of all it makes neighbours as
/// large as each other. So where all extents fit, each exact one gets its length,
/// and one that may be larger gets the rest. Of an exact extent and one behind it
/// with a least length that do not fit, the exact one gets what the other leaves.
/// Of one with a least length and exact ones behind it that do not fit, the first
/// gets its least length, or the whole where that is shorter, and the others
/// together get all that it leaves. And for a part between two equal ones that are no larger there is one outcome
/// too, whether they fit or not.
///
/// Nothing is said of the sizes of other extents that do not fit: more than one
/// outcome may be as good, and which of them the solver finds may be another in
/// another run.
#[verifier::external_body]
fn divide(area: Area, extents: &Vec<Extent>, down: bool) -> (r: Vec<Area>)
    requires
        ends_in_range(area),
        extents@.len() <= 4,
    ensures
        r@.len() == extents@.len(),
        forall|i: int| 0 <= i < r@.len() ==> within(#[trigger] r@[i], area),
        forall|i: int|
            0 <= i < r@.len() && down ==> (#[trigger] r@[i]).left == area.left && r@[i].width
                == area.width,
        forall|i: int|
            0 <= i < r@.len() && !down ==> (#[trigger] r@[i]).top == area.top && r@[i].height
                == area.height,
        in_a_row(r@, area, down),
        fits(extents@, length_of(area, down)) ==> forall|i: int|
            0 <= i < r@.len() ==> length_of(#[trigger] r@[i], down) == share(
                extents@,
                length_of(area, down),
                i,
            ),
        extents@.len() == 2 && extents@[0] is Exactly && extents@[1] is AtLeast
            && extents@[1]->AtLeast_0 <= i16::MAX && asked_in_all(extents@) > length_of(area, down)
            ==> length_of(r@[0], down) == left_over(
            length_of(area, down),
            extents@[1]->AtLeast_0 as int,
        ) && length_of(r@[1], down) == length_of(area, down) - length_of(r@[0], down),
        led_by_least(extents@) && asked_in_all(extents@) > length_of(area, down) ==> length_of(
            r@[0],
            down,
        ) == least_kept(length_of(area, down), extents@[0]->AtLeast_0 as int) && begin_of(
            r@.last(),
            down,
        ) + length_of(r@.last(), down) == begin_of(area, down) + length_of(area, down),
        flanked(extents@) ==> (
            begin_of(r@[1], down) - begin_of(area, down),
            length_of(r@[1], down),
        ) == middle_part(
            extents@[0]->Exactly_0 as int,
            extents@[1]->Exactly_0 as int,
            length_of(area, down),
        ),
{
    let sizes = extents.iter().map(|e| match e {
        Extent::Exactly(n) => Constraint::Length(*n),
        Extent::AtLeast(n) => Constraint::Min(*n),
    });
    let layout = if down { Layout::vertical(sizes) } else { Layout::horizontal(sizes) };
    let rects = layout.split(Rect::new(area.left, area.top, area.width, area.height));
    rects.iter().map(|r| Area { left: r.x, top: r.y, width: r.width, height: r.height }).collect()
}

/// How large a dialog is along a side of a length, and what is left on either
/// side of it.
pub open spec fn dialog_extents(length: u16, percent: u16) -> Seq<Extent> {
    let half = length * percent / 200;
    let rest = Extent::Exactly(
        if half == 0 {
            0u16
        } else {
            (half - 1) as u16
        },
    );
    seq![rest, Extent::Exactly((length * percent / 100) as u16), rest]
}

/// How large a dialog is along a side of a length, and what is left on either
/// side of it.
pub fn dialog_sizes(length: u16, percent: u16) -> (r: Vec<Extent>)
    requires
        length * percent <= u16::MAX,
    ensures
        r@ == dialog_extents(length, percent),
{
    let product: u16 = length * percent;
    let rest: u16 = (product / 200).saturating_sub(1);
    let r = vec![Extent::Exactly(rest), Extent::Exactly(product / 100), Extent::Exactly(rest)];
    assert(r@ =~= dialog_extents(length, percent));
    r
}

/// Where a dialog begins along a side of a length, and how long it is.
pub open spec fn dialog_place(length: u16, percent: u16) -> (int, int) {
    let extents = dialog_extents(length, percent);
    middle_part(
        extents[0]->Exactly_0 as int,
        extents[1]->Exactly_0 as int,
        length as int,
    )
}

/// The area of a dialog that takes some of each side of an area. It lies within
/// the area.
pub fn centered_rect(percent_x: u16, percent_y: u16, area: Area) -> (r: Area)
    requires
        area.height * percent_y <= u16::MAX,
        area.width * percent_x <= u16::MAX,
        ends_in_range(area),
    ensures
        within(r, area),
        r.left == area.left + dialog_place(area.width, percent_x).0,
        r.width == dialog_place(area.width, percent_x).1,
        r.top == area.top + dialog_place(area.height, percent_y).0,
        r.height == dialog_place(area.height, percent_y).1,
{
    let rows: Vec<Area> = divide(area, &dialog_sizes(area.height, percent_y), true);
    let row: Area = rows[1];
    assert(within(rows@[1], area));
    let columns: Vec<Area> = divide(row, &dialog_sizes(area.width, percent_x), false);
    assert(within(columns@[1], row));
    columns[1]
}

/// How high the help is: as high as its lines in the width of the screen, and
/// its border.
pub open spec fn help_lines(help: Seq<char>, width: u16) -> nat {
    let inner = if width <= 3 {
        1
    } else {
        (width - 2) as nat
    };
    let lines = crate::panel::flowed(help, inner).0 + 2;
    if lines < 3 {
        3
    } else {
        lines
    }
}

/// How high the help is.
pub fn help_height(help: &str, width: u16) -> (r: u16)
    requires
        help@.len() + 3 <= usize::MAX,
    ensures
        r == help_lines(help@, width) % 65536,
{
    let inner: usize = if width <= 3 {
        1
    } else {
        (width - 2) as usize
    };
    let mut lines: usize = wrapped_lines(help, inner) + 2;
    if lines < 3 {
        lines = 3;
    }
    (lines % 65536) as u16
}

/// The heights of the parts of the screen: the table or the monitor, the monitor
/// beside the table, the status, and the help.
pub open spec fn heights(monitor: bool, show_monitor: bool, help: u16) -> Seq<Extent> {
    let below = seq![Extent::Exactly(3), Extent::Exactly(help)];
    if monitor {
        seq![Extent::AtLeast(3)] + below
    } else if show_monitor {
        seq![Extent::AtLeast(3), Extent::Exactly(12)] + below
    } else {
        seq![Extent::AtLeast(5)] + below
    }
}

/// The heights of the parts of the screen.
pub fn screen_heights(monitor: bool, show_monitor: bool, help: u16) -> (r: Vec<Extent>)
    ensures
        r@ == heights(monitor, show_monitor, help),
{
    let r = if monitor {
        vec![Extent::AtLeast(3), Extent::Exactly(3), Extent::Exactly(help)]
    } else if show_monitor {
        vec![
            Extent::AtLeast(3),
            Extent::Exactly(12),
            Extent::Exactly(3),
            Extent::Exactly(help),
        ]
    } else {
        vec![Extent::AtLeast(5), Extent::Exactly(3), Extent::Exactly(help)]
    };
    assert(r@ =~= heights(monitor, show_monitor, help));
    r
}

/// How high the screen has to be for all its parts.
pub open spec fn height_asked(monitor: bool, show_monitor: bool, help: u16) -> int {
    if monitor {
        6 + help
    } else if show_monitor {
        18 + help
    } else {
        8 + help
    }
}

proof fn lemma_heights_asked(monitor: bool, show_monitor: bool, help: u16)
    ensures
        asked_in_all(heights(monitor, show_monitor, help)) == height_asked(
            monitor,
            show_monitor,
            help,
        ),
{
    reveal_with_fuel(asked_in_all, 5);
    let h = heights(monitor, show_monitor, help);
    let first = if monitor {
        seq![Extent::AtLeast(3)]
    } else if show_monitor {
        seq![Extent::AtLeast(3), Extent::Exactly(12)]
    } else {
        seq![Extent::AtLeast(5)]
    };
    assert(h.drop_last().drop_last() =~= first);
    assert(h.last() == Extent::Exactly(help));
    assert(h.drop_last().last() == Extent::Exactly(3));
    assert(first.take(1).drop_last() =~= Seq::<Extent>::empty());
    if !monitor && show_monitor {
        assert(first.drop_last() =~= seq![Extent::AtLeast(3)]);
    }
    assert(seq![Extent::AtLeast(3)].drop_last() =~= Seq::<Extent>::empty());
    assert(seq![Extent::AtLeast(5)].drop_last() =~= Seq::<Extent>::empty());
}

/// The parts of the screen, from the top down, without gaps. Each is as wide as
/// the screen, and within it. If the screen is high enough, the first has what the
/// others leave, and each of those has its height. If it is not, the first keeps
/// the least height that it asks for, as far as the screen has it, and the others
/// share what is left, of which nothing more is said. Either way the last one ends
/// where the screen does.
pub fn screen_parts(area: Area, monitor: bool, show_monitor: bool, help: u16) -> (r: Vec<Area>)
    requires
        ends_in_range(area),
    ensures
        r@.len() == heights(monitor, show_monitor, help).len(),
        forall|i: int| 0 <= i < r@.len() ==> within(#[trigger] r@[i], area),
        forall|i: int|
            0 <= i < r@.len() ==> (#[trigger] r@[i]).left == area.left && r@[i].width
                == area.width,
        in_a_row(r@, area, true),
        height_asked(monitor, show_monitor, help) <= area.height ==> forall|i: int|
            0 < i < r@.len() ==> (#[trigger] r@[i]).height == asked(
                heights(monitor, show_monitor, help)[i],
            ),
        height_asked(monitor, show_monitor, help) <= area.height ==> r@[0].height == asked(
            heights(monitor, show_monitor, help)[0],
        ) + area.height - height_asked(monitor, show_monitor, help),
        height_asked(monitor, show_monitor, help) > area.height ==> r@[0].height == least_kept(
            area.height as int,
            asked(heights(monitor, show_monitor, help)[0]) as int,
        ),
        r@.last().top + r@.last().height == area.top + area.height,
{
    proof {
        lemma_heights_asked(monitor, show_monitor, help);
        let h = heights(monitor, show_monitor, help);
        assert(led_by_least(h));
    }
    let parts = divide(area, &screen_heights(monitor, show_monitor, help), true);
    assert(forall|i: int|
        0 <= i < parts@.len() ==> length_of(#[trigger] parts@[i], true) == parts@[i].height);
    proof {
        let n = parts@.len() as int;
        assert(begin_of(parts@[1], true) == parts@[0].top + parts@[0].height);
        assert(begin_of(parts@[2], true) == parts@[1].top + parts@[1].height);
        if n == 4 {
            assert(begin_of(parts@[3], true) == parts@[2].top + parts@[2].height);
        }
        assert(length_of(parts@[n - 1], true) == parts@[n - 1].height);
    }
    parts
}

/// The parts beside each other where the bytes of the last frame are shown: for
/// them, and for the table to their right. The bytes have their width, or what the
/// table leaves of a screen that is too narrow for both.
pub fn byte_panel_parts(area: Area) -> (r: (Area, Area))
    requires
        ends_in_range(area),
    ensures
        within(r.0, area),
        within(r.1, area),
        r.0.top == area.top && r.0.height == area.height,
        r.1.top == area.top && r.1.height == area.height,
        r.0.left == area.left,
        r.0.width == (if area.width >= 62 {
            42int
        } else {
            left_over(area.width as int, 20)
        }),
        r.1.left == area.left + r.0.width,
        r.1.width == area.width - r.0.width,
{
    let sizes = vec![Extent::Exactly(42), Extent::AtLeast(20)];
    proof {
        reveal_with_fuel(asked_in_all, 3);
        assert(sizes@.drop_last() =~= seq![Extent::Exactly(42)]);
        assert(sizes@.drop_last().drop_last() =~= Seq::<Extent>::empty());
        assert(asked_in_all(sizes@) == 62);
    }
    let parts: Vec<Area> = divide(area, &sizes, false);
    assert(within(parts@[0], area) && within(parts@[1], area));
    assert(length_of(parts@[0], false) == parts@[0].width);
    assert(length_of(parts@[1], false) == parts@[1].width);
    assert(begin_of(parts@[1], false) == begin_of(parts@[0], false) + length_of(parts@[0], false));
    (parts[0], parts[1])
}

} // verus!

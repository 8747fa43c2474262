//! What is said around the table and in the menus, and where the parts of the screen
//! stand.
use crate::args::Settings;
use crate::field::{field_list, ProfileField};
use crate::layout::{
    asked_in_all, dialog_extents, dialog_place, heights, help_lines, left_over, least_kept,
    middle_part, share, Extent,
};
use crate::message::{Note, Part, Said};
use crate::numeral::{decimal, padded};
use crate::page::{Run, Tone};
use crate::screens::{
    field_line, field_lines, info_bar, logo_look, main_page, mode_line, mode_lines,
    mode_title, name_line, pick_lines, pick_page, preview, preview_shown, profile_lines,
    settings_page, summary, LogoTone,
};
use crate::state::AppState;
use crate::status::{
    answered, entry_status, frame_status, help_line, help_note, scan_shown, status_shown,
    swap_mark, unit_lines, work_status,
};
use crate::ui::{DisplayBase, EntryModel, Screen, TableModel};
use vstd::prelude::*;

verus! {

/// A message without words.
pub open spec fn said(key: Seq<char>) -> Part {
    Part::Note(Note { key, args: Seq::empty() })
}

/// The help is that of an entry while one is made, else that of the stability test while
/// it runs, else that of a monitor, and else that of the table; behind it stands how many
/// registers are simulated.
pub proof fn law_help_says_what_keys_do(a: Screen, s: AppState, monitor: bool)
    ensures
        a.entry.edit_mode ==> help_note(a, s, monitor) == Part::Note(
            Note { key: "run_ui.help_edit"@, args: seq![("buf"@, Said::Text(a.entry.edit_buf))] },
        ),
        !a.entry.edit_mode && s.stability_test_running ==> help_note(a, s, monitor) == said(
            "run_ui.help_stability"@,
        ),
        !a.entry.edit_mode && !s.stability_test_running && monitor ==> help_note(a, s, monitor)
            == said("run_ui.help_monitoring"@),
        !a.entry.edit_mode && !s.stability_test_running && !monitor && a.monitor.show
            ==> help_note(a, s, monitor) == said("run_ui.help_monitor"@),
        !a.entry.edit_mode && !s.stability_test_running && !monitor && !a.monitor.show
            ==> help_note(a, s, monitor) == said("run_ui.help_normal"@),
        help_line(a, s, monitor).len() == 2,
        help_line(a, s, monitor)[1] == Part::Text(
            " | v:"@ + decimal(
                crate::control::count_on(s.holding_change_enabled@) + crate::control::count_on(
                    s.input_change_enabled@,
                ),
            ),
        ),
{
}

/// The status says an error before all, then a search that is entered, then what was
/// reported last, then an entry, and else what the program does.
pub proof fn law_status_says_first_things_first(
    a: Screen,
    s: AppState,
    e: Seq<char>,
    monitor: bool,
)
    ensures
        status_shown(a, s, Some(e), monitor) == Part::Note(
            Note { key: "run_ui.error_prefix"@, args: seq![("msg"@, Said::Text(e))] },
        ),
        a.table.search_mode ==> status_shown(a, s, None, monitor) == Part::Text(
            "/"@ + a.table.search_buf,
        ),
        !a.table.search_mode && a.status_msg is Some ==> status_shown(a, s, None, monitor)
            == a.status_msg->0,
        !a.table.search_mode && a.status_msg is None && a.entry.edit_mode ==> status_shown(
            a,
            s,
            None,
            monitor,
        ) == entry_status(a.entry, a.table.base),
        !a.table.search_mode && a.status_msg is None && !a.entry.edit_mode ==> status_shown(
            a,
            s,
            None,
            monitor,
        ) == work_status(a, s, monitor),
{
}

/// An entry is told from what it is of: a profile, a note, or a value in a base.
pub proof fn law_status_tells_entry(a: EntryModel, base: DisplayBase)
    ensures
        ({
            let name = match base {
                DisplayBase::Dec => "Dec"@,
                DisplayBase::Hex => "Hex"@,
                DisplayBase::Bin => "Bin"@,
            };
            entry_status(a, base) == Part::Note(
                if a.edit_is_profile {
                    Note {
                        key: "run_ui.edit_save_profile"@,
                        args: seq![("buf"@, Said::Text(a.edit_buf))],
                    }
                } else if a.edit_is_label {
                    Note {
                        key: "run_ui.edit_label"@,
                        args: seq![("buf"@, Said::Text(a.edit_buf))],
                    }
                } else {
                    Note {
                        key: "run_ui.edit_value"@,
                        args: seq![("base"@, Said::Text(name)), ("buf"@, Said::Text(a.edit_buf))],
                    }
                },
            )
        }),
{
}

/// What the program does: the counts of the stability test while it runs; the frames of a
/// monitor; the last change and how many there were; and else the last frame.
pub proof fn law_status_tells_work(a: Screen, s: AppState, monitor: bool)
    ensures
        ({
            let frames = Said::Text(decimal(s.monitor.total_frames as nat));
            let w = work_status(a, s, monitor);
            let n = s.reg_change_history@.len();
            if s.stability_test_running {
                w == Part::Note(
                    Note {
                        key: "run_ui.status_stability"@,
                        args: seq![
                            ("total"@, Said::Text(decimal(s.stability_stats.0 as nat))),
                            ("ok"@, Said::Text(decimal(s.stability_stats.1 as nat))),
                            ("fail"@, Said::Text(decimal(s.stability_stats.2 as nat))),
                        ],
                    },
                )
            } else if monitor {
                w == Part::Note(
                    Note { key: "run_ui.status_monitoring"@, args: seq![("frames"@, frames)] },
                )
            } else if a.monitor.show && s.monitor.total_frames > 0 {
                w == Part::Note(
                    Note { key: "run_ui.status_monitor"@, args: seq![("frames"@, frames)] },
                )
            } else if n > 0 {
                let last = s.reg_change_history@[n - 1];
                w == Part::Note(
                    Note {
                        key: "run_ui.status_reg_change"@,
                        args: seq![
                            ("count"@, Said::Text(decimal(n))),
                            ("addr"@, Said::Text(decimal(last.addr as nat))),
                            (
                                "dir"@,
                                Said::Text(
                                    if last.direction is Up {
                                        "↑"@
                                    } else {
                                        "↓"@
                                    },
                                ),
                            ),
                        ],
                    },
                )
            } else {
                w == frame_status(s, a.table)
            }
        }),
{
}

/// The last frame is told by its function, or that none came; and with it the base, the
/// format and the order of bytes and registers.
pub proof fn law_status_tells_frame(s: AppState, t: TableModel)
    ensures
        ({
            let base = Said::Text(
                match t.base {
                    DisplayBase::Dec => "Dec"@,
                    DisplayBase::Hex => "Hex"@,
                    DisplayBase::Bin => "Bin"@,
                },
            );
            let fmt = Said::Text(crate::format::label_of(t.reg_format));
            let sw = Said::Text(swap_mark(t));
            match s.last_frame {
                Some(fi) => frame_status(s, t) == Part::Note(
                    Note {
                        key: if fi.is_tcp {
                            "run_ui.status_tcp"@
                        } else {
                            "run_ui.status_rtu"@
                        },
                        args: seq![
                            ("func"@, Said::Text(fi.func_name@)),
                            ("base"@, base),
                            ("fmt"@, fmt),
                            ("sw"@, sw),
                        ],
                    },
                ),
                None => frame_status(s, t) == Part::Note(
                    Note {
                        key: "run_ui.status_waiting"@,
                        args: seq![("base"@, base), ("fmt"@, fmt), ("sw"@, sw)],
                    },
                ),
            }
        }),
        t.swap_bytes && t.swap_words ==> swap_mark(t) == " sw:BW"@,
        t.swap_bytes && !t.swap_words ==> swap_mark(t) == " sw:B"@,
        !t.swap_bytes && t.swap_words ==> swap_mark(t) == " sw:W"@,
        !t.swap_bytes && !t.swap_words ==> swap_mark(t).len() == 0,
{
}

/// Of the units that were asked, those that answered are shown, in order, with their
/// first register.
pub proof fn law_units_that_answered(units: Seq<(u8, Option<u16>)>, unit: u8, v: u16)
    ensures
        answered(Seq::empty()).len() == 0,
        answered(units.push((unit, Some(v)))) == answered(units).push((unit, v)),
        answered(units.push((unit, None))) == answered(units),
{
    assert(units.push((unit, Some(v))).drop_last() =~= units);
    assert(units.push((unit, None)).drop_last() =~= units);
}

proof fn lemma_unit_line(units: Seq<(u8, u16)>, base: DisplayBase, i: int)
    requires
        0 <= i < units.len(),
    ensures
        unit_lines(units, base).len() == units.len(),
        unit_lines(units, base)[i] == Part::Text(
            "  Slave "@ + decimal(units[i].0 as nat) + ":  "@ + (match base {
                DisplayBase::Dec => decimal(units[i].1 as nat),
                DisplayBase::Hex => "0x"@ + padded(units[i].1 as nat, 16, 4),
                DisplayBase::Bin => "0b"@ + padded(units[i].1 as nat, 2, 16),
            }) + "\n"@,
        ),
    decreases units.len(),
{
    if units.len() > 1 {
        lemma_unit_line(
            units.drop_last(),
            base,
            if i < units.len() - 1 {
                i
            } else {
                0
            },
        );
    } else {
        assert(unit_lines(units.drop_last(), base).len() == 0);
    }
}

/// The list of units says how many answered, and has a line for each, or that there is
/// none.
pub proof fn law_list_of_units(units: Seq<(u8, Option<u16>)>, base: DisplayBase, i: int)
    ensures
        ({
            let a = answered(units);
            let s = scan_shown(units, base);
            &&& s[0] == Part::Note(
                Note {
                    key: "run_ui.scan_found_slaves"@,
                    args: seq![("count"@, Said::Text(decimal(a.len())))],
                },
            )
            &&& a.len() == 0 ==> s.len() == 7 && s[3] == said("run_ui.scan_no_slaves"@)
            &&& a.len() > 0 ==> s.len() == a.len() + 4
            &&& 0 <= i < a.len() ==> s[2 + i] == Part::Text(
                "  Slave "@ + decimal(a[i].0 as nat) + ":  "@ + (match base {
                    DisplayBase::Dec => decimal(a[i].1 as nat),
                    DisplayBase::Hex => "0x"@ + padded(a[i].1 as nat, 16, 4),
                    DisplayBase::Bin => "0b"@ + padded(a[i].1 as nat, 2, 16),
                }) + "\n"@,
            )
            &&& s.last() == said("run_ui.scan_close_hint"@)
        }),
{
    let a = answered(units);
    if a.len() > 0 {
        lemma_unit_line(a, base, 0);
        if 0 <= i < a.len() {
            lemma_unit_line(a, base, i);
        }
    }
}

proof fn lemma_mode_lines(idx: int, counts: Seq<usize>, n: nat, i: int)
    requires
        0 <= i < n,
    ensures
        mode_lines(idx, counts, n).len() == 2 * n,
        mode_lines(idx, counts, n)[2 * i] == mode_line(i, idx, counts[i] as nat),
    decreases n,
{
    if n > 1 {
        lemma_mode_lines(
            idx,
            counts,
            (n - 1) as nat,
            if i < n - 1 {
                i
            } else {
                0
            },
        );
    } else {
        assert(mode_lines(idx, counts, 0).len() == 0);
    }
}

/// The main menu has a line for each mode, with its number and how many profiles there
/// are for it, and one for all profiles; the marked one is shown so.
pub proof fn law_main_menu_lines(idx: int, counts: Seq<usize>, i: int)
    requires
        counts.len() == 6,
        0 <= i < 6,
    ensures
        ({
            let p = main_page(idx, counts);
            let key = if i == 0 {
                "main_menu.tcp_server"@
            } else if i == 1 {
                "main_menu.tcp_client"@
            } else if i == 2 {
                "main_menu.rtu_server"@
            } else if i == 3 {
                "main_menu.rtu_client"@
            } else if i == 4 {
                "main_menu.tcp_monitor"@
            } else {
                "main_menu.rtu_monitor"@
            };
            &&& p.len() == 13
            &&& p[2 * i].len() == 1
            &&& p[2 * i][0].parts.len() == 3
            &&& p[2 * i][0].tone == (if i == idx {
                Tone::Marked
            } else {
                Tone::Plain
            })
            &&& p[2 * i][0].parts[0] == Part::Text(
                (if i == idx {
                    " ▸ "@
                } else {
                    "   "@
                }) + "["@ + decimal((i + 1) as nat) + "] "@,
            )
            &&& p[2 * i][0].parts[1] == said(key)
            &&& p[2 * i][0].parts[2] == Part::Text(" ("@ + decimal(counts[i] as nat) + ")"@)
            &&& p[12][0].tone == (if idx == 6 {
                Tone::Marked
            } else {
                Tone::Plain
            })
            &&& p[12][0].parts[1] == said("main_menu.profile_settings"@)
        }),
{
    lemma_mode_lines(idx, counts, 6, i);
}

/// The line of a profile has a full mark before the name of the default one, and the
/// marked one is shown so.
pub proof fn law_line_of_a_profile(name: Seq<char>, default: Option<Seq<char>>, marked: bool)
    ensures
        ({
            let l = name_line(name, default, marked);
            let own = default == Some(name);
            &&& l.len() == 1 && l[0].parts.len() == 1
            &&& own ==> l[0].parts[0] == Part::Text(" "@ + "●"@ + " "@ + name)
            &&& !own ==> l[0].parts[0] == Part::Text(" "@ + "○"@ + " "@ + name)
            &&& marked ==> l[0].tone is Marked
            &&& !marked && own ==> l[0].tone is Default
            &&& !marked && !own ==> l[0].tone is Plain
        }),
{
}

/// A list of profiles has two lines for each: its name, and what it is in short.
pub proof fn law_list_of_profiles(
    names: Seq<Seq<char>>,
    briefs: Seq<Seq<char>>,
    default: Option<Seq<char>>,
    idx: int,
    why: Option<Seq<char>>,
    i: int,
)
    requires
        0 <= i < names.len(),
        briefs.len() == names.len(),
    ensures
        ({
            let p = pick_page(names, briefs, default, idx, why);
            &&& p.len() == 2 * names.len()
            &&& p[2 * i] == name_line(names[i], default, i == idx)
            &&& p[2 * i + 1].len() == 1 && p[2 * i + 1][0].parts.len() == 1
            &&& p[2 * i + 1][0].parts[0] == Part::Text("   "@ + briefs[i])
        }),
{
    lemma_pick_lines(names, briefs, default, idx, names.len(), i);
}

proof fn lemma_pick_lines(
    names: Seq<Seq<char>>,
    briefs: Seq<Seq<char>>,
    default: Option<Seq<char>>,
    idx: int,
    n: nat,
    i: int,
)
    requires
        0 <= i < n <= names.len(),
        briefs.len() == names.len(),
    ensures
        pick_lines(names, briefs, default, idx, n).len() == 2 * n,
        pick_lines(names, briefs, default, idx, n)[2 * i] == name_line(
            names[i],
            default,
            i == idx,
        ),
        pick_lines(names, briefs, default, idx, n)[2 * i + 1]
            == crate::screens::brief_line(briefs[i], i == idx),
    decreases n,
{
    if n > 1 {
        lemma_pick_lines(
            names,
            briefs,
            default,
            idx,
            (n - 1) as nat,
            if i < n - 1 {
                i
            } else {
                0
            },
        );
    } else {
        assert(pick_lines(names, briefs, default, idx, 0).len() == 0);
    }
}

/// The list of all profiles has a line for each, in order.
pub proof fn law_list_of_all_profiles(
    names: Seq<Seq<char>>,
    default: Option<Seq<char>>,
    idx: int,
    i: int,
)
    requires
        0 <= i < names.len(),
    ensures
        settings_page(names, default, idx).len() == names.len(),
        settings_page(names, default, idx)[i] == name_line(names[i], default, i == idx),
{
    lemma_profile_lines(names, default, idx, names.len(), i);
}

proof fn lemma_profile_lines(
    names: Seq<Seq<char>>,
    default: Option<Seq<char>>,
    idx: int,
    n: nat,
    i: int,
)
    requires
        0 <= i < n <= names.len(),
    ensures
        profile_lines(names, default, idx, n).len() == n,
        profile_lines(names, default, idx, n)[i] == name_line(names[i], default, i == idx),
    decreases n,
{
    if n > 1 {
        lemma_profile_lines(
            names,
            default,
            idx,
            (n - 1) as nat,
            if i < n - 1 {
                i
            } else {
                0
            },
        );
    } else {
        assert(profile_lines(names, default, idx, 0).len() == 0);
    }
}

/// A line of a preview.
pub open spec fn preview_says(
    l: Seq<Run>,
    key: Seq<char>,
    name: Seq<char>,
    value: Seq<char>,
) -> bool {
    l.len() == 1 && l[0].parts.len() == 2 && l[0].parts[1] == Part::Note(
        Note { key, args: seq![(name, Said::Text(value))] },
    )
}

/// The preview of a profile says its name, its mode, its unit, how many holding registers
/// it has, how the device is reached, and how many there are of all else.
pub proof fn law_preview_of_a_profile(name: Seq<char>, mode: Seq<char>, a: Settings)
    ensures
        ({
            let p = preview(name, mode, a);
            let tcp = crate::profile::named_tcp(a);
            &&& p.len() == (if tcp {
                8int
            } else {
                9
            })
            &&& preview_says(p[2], "profile_pick.preview_name"@, "name"@, name)
            &&& preview_says(p[3], "profile_pick.preview_mode"@, "mode"@, mode)
            &&& preview_says(p[4], "profile_pick.preview_unit"@, "unit"@, decimal(a.unit as nat))
            &&& preview_says(
                p[5],
                "profile_pick.preview_count"@,
                "count"@,
                decimal(a.holding_count as nat),
            )
            &&& tcp ==> preview_says(
                p[6],
                "profile_pick.preview_port"@,
                "port"@,
                decimal(a.tcp_port as nat),
            )
            &&& !tcp ==> preview_says(p[6], "profile_pick.preview_device"@, "device"@, a.device)
            &&& !tcp ==> preview_says(
                p[7],
                "profile_pick.preview_baud"@,
                "baud"@,
                decimal(a.baudrate as nat),
            )
            &&& p.last()[0].parts[0] == Part::Text(
                "  coils:"@ + decimal(a.coil_count as nat) + " disc:"@ + decimal(
                    a.discrete_count as nat,
                ) + " input:"@ + decimal(a.input_count as nat),
            )
        }),
{
}

/// The fields of a profile stand in their order, each with its name and its value.
pub proof fn law_lines_of_fields(a: Settings, idx: int, i: int)
    requires
        0 <= i < 11,
    ensures
        ({
            let p = field_lines(a, idx, 11);
            let f = field_list()[i];
            &&& p.len() == 11
            &&& p[i].len() == 5
            &&& p[i][1].parts[0] == said(crate::field::field_key(f))
            &&& p[i][2].parts[0] == Part::Text(crate::field::field_text(f, a))
            &&& i == idx ==> p[i][2].tone is Chosen && p[i][0].parts[0] == Part::Text(" ▸ "@)
            &&& i != idx ==> p[i][2].tone is Good && p[i][0].parts[0] == Part::Text("   "@)
            &&& p[i][4].parts[0] == said(
                if f is TcpPort {
                    "profile_edit.field_mode_tcp"@
                } else if f is MainMode || f is Unit || f is HoldingCount || f is ClientTickMs {
                    "profile_edit.field_mode_all"@
                } else {
                    "profile_edit.field_mode_rtu"@
                },
            )
        }),
{
    lemma_field_lines(a, idx, 11, i);
}

proof fn lemma_field_lines(a: Settings, idx: int, n: nat, i: int)
    requires
        0 <= i < n <= 11,
    ensures
        field_lines(a, idx, n).len() == n,
        field_lines(a, idx, n)[i] == field_line(field_list()[i], a, i == idx),
    decreases n,
{
    if n > 1 {
        lemma_field_lines(
            a,
            idx,
            (n - 1) as nat,
            if i < n - 1 {
                i
            } else {
                0
            },
        );
    } else {
        assert(field_lines(a, idx, 0).len() == 0);
    }
}

/// The fields of a profile in short: for each its name and its value, in order.
pub proof fn law_fields_in_short(a: Settings, i: int)
    requires
        0 <= i < 11,
    ensures
        ({
            let s = summary(a, 11);
            let f = field_list()[i];
            &&& s.len() == 33
            &&& i == 0 ==> s[0] == Part::Text("  "@)
            &&& i > 0 ==> s[3 * i] == Part::Text("\n  "@)
            &&& s[3 * i + 1] == said(crate::field::field_key(f))
            &&& s[3 * i + 2] == Part::Text(": "@ + crate::field::field_text(f, a))
        }),
{
    lemma_summary(a, 11, i);
}

proof fn lemma_summary(a: Settings, n: nat, i: int)
    requires
        0 <= i < n <= 11,
    ensures
        summary(a, n).len() == 3 * n,
        i == 0 ==> summary(a, n)[0] == Part::Text("  "@),
        i > 0 ==> summary(a, n)[3 * i] == Part::Text("\n  "@),
        summary(a, n)[3 * i + 1] == said(crate::field::field_key(field_list()[i])),
        summary(a, n)[3 * i + 2] == Part::Text(
            ": "@ + crate::field::field_text(field_list()[i], a),
        ),
    decreases n,
{
    if n > 1 {
        lemma_summary(
            a,
            (n - 1) as nat,
            if i < n - 1 {
                i
            } else {
                0
            },
        );
    } else {
        assert(summary(a, 0).len() == 0);
    }
}

/// Beside the fields of a profile stand all of them in short, below a title and above what
/// the keys do; where no profile is edited there is the title alone.
pub proof fn law_fields_are_told_beside(a: Settings, i: int)
    requires
        0 <= i < 11,
    ensures
        ({
            let p = crate::screens::field_panel(Some(a));
            let none = crate::screens::field_panel(None);
            let title = seq![
                Run { tone: Tone::Heading, parts: seq![said("profile_edit.preview_title"@)] },
            ];
            let f = field_list()[i];
            &&& p.len() == 5 && none.len() == 4
            &&& p[0] == title && none[0] == title
            &&& p[1].len() == 1 && p[1][0].parts.len() == 0
            &&& p[2].len() == 1 && p[2][0].tone is Faint
            &&& p[2][0].parts.len() == 33
            &&& p[2][0].parts[3 * i + 1] == said(crate::field::field_key(f))
            &&& p[2][0].parts[3 * i + 2] == Part::Text(": "@ + crate::field::field_text(f, a))
            &&& p[3].len() == 1 && p[3][0].parts.len() == 0
            &&& p[4] == seq![Run { tone: Tone::Faint, parts: seq![said("profile_edit.nav_help"@)] }]
            &&& forall|j: int|
                1 <= j < 4 ==> (#[trigger] none[j]).len() == 1 && none[j][0].parts.len() == 0
        }),
{
    law_fields_in_short(a, i);
}

/// The main menu says which profile is the default one and which was chosen, or that none
/// is.
pub proof fn law_main_menu_tells_profiles(a: crate::menu::Menus)
    ensures
        info_bar(a) matches Part::Note(n) && n.key == "main_menu.info_bar"@ && n.args.len() == 2
            && n.args[0] == ("default"@, match a.default {
            Some(d) => Said::Text(d),
            None => Said::Key("main_menu.none"@),
        }) && n.args[1] == ("selected"@, match a.selected {
            Some(d) => Said::Text(d),
            None => Said::Key("main_menu.none"@),
        }),
{
}

/// The name of a mode in a title.
pub proof fn law_titles_name_modes(m: crate::args::MainMode)
    ensures
        match m {
            crate::args::MainMode::TcpServer => mode_title(Some(m)) == "TCP Server"@,
            crate::args::MainMode::TcpClient => mode_title(Some(m)) == "TCP Client"@,
            crate::args::MainMode::RTUServer => mode_title(Some(m)) == "RTU Server"@,
            crate::args::MainMode::RTUClient => mode_title(Some(m)) == "RTU Client"@,
            crate::args::MainMode::TcpMonitor => mode_title(Some(m)) == "TCP Monitor"@,
            crate::args::MainMode::RtuMonitor => mode_title(Some(m)) == "RTU Monitor"@,
        },
        mode_title(None) == "?"@,
{
}

/// The logo comes up from dark gray to cyan, three steps to a color, and is bold from the
/// last color on.
pub proof fn law_logo_comes_up(frame: int)
    requires
        0 <= frame,
    ensures
        frame / 3 == 0 ==> logo_look(frame) == (LogoTone::DarkGray, false),
        frame / 3 == 1 ==> logo_look(frame) == (LogoTone::Gray, false),
        frame / 3 == 2 ==> logo_look(frame) == (LogoTone::White, false),
        frame / 3 == 3 ==> logo_look(frame) == (LogoTone::LightCyan, false),
        frame / 3 >= 4 ==> logo_look(frame) == (LogoTone::Cyan, true),
{
}

/// The parts of the screen from the top down: the table or the monitor has the most, the
/// monitor beside the table twelve lines, the status three, and the help what it needs.
pub proof fn law_heights_of_parts(monitor: bool, show: bool, help: u16)
    ensures
        ({
            let h = heights(monitor, show, help);
            &&& h.last() == Extent::Exactly(help)
            &&& h[h.len() - 2] == Extent::Exactly(3)
            &&& monitor ==> h.len() == 3 && h[0] == Extent::AtLeast(3)
            &&& !monitor && show ==> h.len() == 4 && h[0] == Extent::AtLeast(3) && h[1]
                == Extent::Exactly(12)
            &&& !monitor && !show ==> h.len() == 3 && h[0] == Extent::AtLeast(5)
        }),
{
}

/// The help has the lines of its text within its border, and the border.
pub proof fn law_help_is_high_enough(help: Seq<char>, width: u16)
    ensures
        width > 3 ==> help_lines(help, width) == crate::panel::flowed(
            help,
            (width - 2) as nat,
        ).0 + 2 || help_lines(help, width) == 3,
        help_lines(help, width) >= 3,
        width <= 3 ==> help_lines(help, width) >= crate::panel::flowed(help, 1).0 + 2,
        width > 3 ==> help_lines(help, width) >= crate::panel::flowed(
            help,
            (width - 2) as nat,
        ).0 + 2,
{
}

/// A dialog takes its percentage of a side, with the rest before and behind it, and never
/// reaches beyond the side.
pub proof fn law_dialog_takes_percentage(length: u16, percent: u16)
    requires
        length * percent <= u16::MAX,
    ensures
        ({
            let e = dialog_extents(length, percent);
            let p = dialog_place(length, percent);
            let half = length * percent / 200;
            &&& e.len() == 3 && e[0] == e[2]
            &&& e[1] == Extent::Exactly((length * percent / 100) as u16)
            &&& half > 0 ==> e[0] == Extent::Exactly((half - 1) as u16)
            &&& half == 0 ==> e[0] == Extent::Exactly(0)
            &&& half > 0 && 2 * (half - 1) + length * percent / 100 <= length ==> p == (
                half - 1,
                length * percent / 100,
            )
            &&& 0 <= p.0 && 0 <= p.1 && p.0 + p.1 <= length
        }),
{
    let half = length * percent / 200;
    assert(0 <= half <= u16::MAX);
}

/// A part between two others begins behind the first and never reaches beyond the whole;
/// where not all fit, it is cut, but no shorter than the outer ones.
pub proof fn law_middle_part_is_within(outer: int, middle: int, whole: int)
    requires
        0 <= outer <= middle,
        0 <= whole,
    ensures
        ({
            let (at, len) = middle_part(outer, middle, whole);
            &&& 0 <= at && 0 <= len && at + len <= whole
            &&& 2 * outer + middle <= whole ==> at == outer && len == middle
            &&& 2 * outer + middle > whole && 3 * outer <= whole ==> at == outer && len == whole - 2
                * outer && len >= outer
            &&& 3 * outer > whole ==> at <= outer && 3 * at <= whole + 1 && 3 * len <= whole + 2
        }),
{
}

/// An exact extent gets what it asks for, and one that may have more gets what all others
/// leave.
pub proof fn law_rest_goes_to_one(extents: Seq<Extent>, length: int, i: int, e: Extent)
    requires
        0 <= i < extents.len(),
    ensures
        extents[i] matches Extent::Exactly(n) ==> share(extents, length, i) == n,
        extents[i] matches Extent::AtLeast(n) ==> share(extents, length, i) - n == length
            - asked_in_all(extents),
        asked_in_all(Seq::empty()) == 0,
        asked_in_all(extents.push(e)) == asked_in_all(extents) + match e {
            Extent::Exactly(n) => n as nat,
            Extent::AtLeast(n) => n as nat,
        },
{
    assert(extents.push(e).drop_last() =~= extents);
}

/// Of a length that is too short, what has a least length keeps it as far as there is as
/// much, and what stands before it gets what it leaves.
pub proof fn law_least_is_kept(length: int, least: int)
    requires
        0 <= length,
        0 <= least,
    ensures
        least <= length ==> least_kept(length, least) == least && left_over(length, least) + least
            == length,
        least > length ==> least_kept(length, least) == length && left_over(length, least) == 0,
{
}

/// The preview is of the marked profile, if one is marked and can be read; to a monitor its
/// mode is called by the monitor of its line.
pub proof fn law_preview_is_of_the_marked(
    names: Seq<Seq<char>>,
    idx: int,
    profiles: Map<Seq<char>, Settings>,
)
    requires
        0 <= idx,
    ensures
        ({
            let known = idx < names.len() && profiles.contains_key(names[idx]);
            let a = profiles[names[idx]];
            &&& known ==> preview_shown(names, idx, profiles, false) == preview(
                names[idx],
                a.main_mode,
                a,
            )
            &&& known && crate::profile::named_tcp(a) ==> preview_shown(names, idx, profiles, true)
                == preview(names[idx], "tcp-monitor"@, a)
            &&& known && !crate::profile::named_tcp(a) ==> preview_shown(
                names,
                idx,
                profiles,
                true,
            ) == preview(names[idx], "rtu-monitor"@, a)
            &&& idx < names.len() && !known ==> preview_shown(names, idx, profiles, false)
                == seq![seq![Run { tone: Tone::Bad, parts: seq![said("profile_pick.load_fail"@)] }]]
            &&& idx >= names.len() ==> preview_shown(names, idx, profiles, false) == seq![
                seq![Run { tone: Tone::Faint, parts: seq![said("profile_pick.select_hint"@)] }],
            ]
        }),
{
}

/// Where no profile is offered, it is said why: there is none, or none for the mode.
pub proof fn law_empty_list_says_why(profiles: Seq<Seq<char>>, default: Option<Seq<char>>, idx: int)
    ensures
        ({
            let p = pick_page(
                Seq::empty(),
                Seq::empty(),
                default,
                idx,
                Some(crate::screens::why_none(profiles)),
            );
            &&& p.len() == 2
            &&& p[0][0].parts[0] == said("profile_settings.empty_list"@)
            &&& profiles.len() == 0 ==> p[1][0].parts[0] == said(
                "profile_pick.no_profiles_hint"@,
            )
            &&& profiles.len() > 0 ==> p[1][0].parts[0] == said("profile_pick.no_match_hint"@)
        }),
        settings_page(Seq::empty(), default, idx).len() == 1,
{
}

/// Beside the profiles it is said which is the default one; and a new profile is asked for
/// by whether it is a copy.
pub proof fn law_profile_menu_says(a: crate::menu::Menus)
    ensures
        crate::screens::settings_info(a) == Part::Note(
            Note {
                key: "profile_settings.info_text"@,
                args: seq![
                    (
                        "name"@,
                        match a.default {
                            Some(d) => Said::Text(d),
                            None => Said::Key("profile_settings.info_default"@),
                        },
                    ),
                ],
            },
        ),
        crate::screens::name_title(true) == "profile_settings.clone_title"@,
        crate::screens::name_title(false) == "profile_settings.add_title"@,
{
}

/// While a field is entered, what is entered so far is shown, and what can be entered; for
/// the device, the ports that there are, with a mark before the one that is offered.
pub proof fn law_entry_of_a_field(
    f: ProfileField,
    buf: Seq<char>,
    ports: Seq<Seq<char>>,
    port: int,
    i: int,
)
    requires
        0 <= port < ports.len(),
        0 <= i < ports.len(),
    ensures
        ({
            let p = crate::screens::entry_panel(f, buf, ports, port);
            &&& p[0][0].parts[0] == Part::Note(
                Note {
                    key: "profile_edit.editing"@,
                    args: seq![("label"@, Said::Key(crate::field::field_key(f)))],
                },
            )
            &&& p[2][0].parts[0] == Part::Text("> "@ + buf)
            &&& p.last()[0].parts[0] == said("profile_edit.edit_help"@)
            &&& f is Device ==> p.len() == ports.len() + 8 && p[5 + i].len() == 2
                && p[5 + i][1].parts[0] == Part::Text(ports[i]) && (ports[i] == ports[port]
                ==> p[5 + i][0].parts[0] == Part::Text(" ● "@)) && (ports[i] != ports[port]
                ==> p[5 + i][0].parts[0] == Part::Text(" ○ "@))
            &&& f is Databits ==> p.len() == 7 && p[4][0].parts[0] == Part::Text("5 / 6 / 7 / 8"@)
            &&& f is Stopbits ==> p.len() == 7 && p[4][0].parts[0] == Part::Text("1 / 2"@)
            &&& f is Parity ==> p.len() == 7 && p[4][0].parts[0] == Part::Text(
                "n(even) / e(ven) / o(dd)"@,
            )
            &&& f is Flow ==> p.len() == 7 && p[4][0].parts[0] == Part::Text(
                "none / hard(ware) / soft(ware)"@,
            )
            &&& f is TcpPort || f is Unit || f is HoldingCount || f is ClientTickMs || f is Baudrate
                ==> p.len() == 5
        }),
{
    lemma_port_lines(ports, ports[port], ports.len(), i);
    if f is Device {
        let p = crate::screens::entry_panel(f, buf, ports, port);
        let l = crate::screens::port_lines(ports, ports[port], ports.len());
        assert(p[5 + i] == l[i]);
    }
}

proof fn lemma_port_lines(ports: Seq<Seq<char>>, offered: Seq<char>, n: nat, i: int)
    requires
        0 <= i < n <= ports.len(),
    ensures
        crate::screens::port_lines(ports, offered, n).len() == n,
        crate::screens::port_lines(ports, offered, n)[i] == crate::screens::port_line(
            ports[i],
            offered,
        ),
    decreases n,
{
    if n > 1 {
        lemma_port_lines(
            ports,
            offered,
            (n - 1) as nat,
            if i < n - 1 {
                i
            } else {
                0
            },
        );
    } else {
        assert(crate::screens::port_lines(ports, offered, 0).len() == 0);
    }
}

} // verus!

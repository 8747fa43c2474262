//! The menus as they are shown.
use crate::args::{Args, MainMode, Settings};
use crate::field::{field_at, FieldScope, ProfileField, FIELD_COUNT};
use crate::menu::{maybe, Menu, Menus};
use crate::message::{
    message, message1, message_in, note, note1, note_in, piece, text, Draft, Message, Note, Part,
    Piece, Said, Word,
};
use crate::numeral::{decimal_text, push_decimal};
use crate::page::{blank, line, run, Line, Page, Run, Tone};
use crate::profile::{profile_monitor_mode_label, PickList, Profiles};
use crate::text::same;
use vstd::prelude::*;

verus! {

/// How the logo comes up.
#[derive(Copy, Clone, Debug, PartialEq, Eq, Structural)]
pub enum LogoTone {
    DarkGray,
    Gray,
    White,
    LightCyan,
    Cyan,
}

/// The color of the logo, and whether it is bold.
pub open spec fn logo_look(frame: int) -> (LogoTone, bool) {
    (
        if frame <= 2 {
            LogoTone::DarkGray
        } else if frame <= 5 {
            LogoTone::Gray
        } else if frame <= 8 {
            LogoTone::White
        } else if frame <= 11 {
            LogoTone::LightCyan
        } else {
            LogoTone::Cyan
        },
        frame >= 12,
    )
}

/// The color of the logo, and whether it is bold.
pub fn logo_tone(frame: u8) -> (r: (LogoTone, bool))
    ensures
        r == logo_look(frame as int),
{
    let tone = if frame <= 2 {
        LogoTone::DarkGray
    } else if frame <= 5 {
        LogoTone::Gray
    } else if frame <= 8 {
        LogoTone::White
    } else if frame <= 11 {
        LogoTone::LightCyan
    } else {
        LogoTone::Cyan
    };
    (tone, frame >= 12)
}

/// The key of a mode in the main menu.
pub open spec fn item_key(i: int) -> Seq<char> {
    if i == 0 {
        "main_menu.tcp_server"@
    } else if i == 1 {
        "main_menu.tcp_client"@
    } else if i == 2 {
        "main_menu.rtu_server"@
    } else if i == 3 {
        "main_menu.rtu_client"@
    } else if i == 4 {
        "main_menu.tcp_monitor"@
    } else {
        "main_menu.rtu_monitor"@
    }
}

fn item_name(i: usize) -> (r: &'static str)
    ensures
        r@ == item_key(i as int),
{
    match i {
        0 => "main_menu.tcp_server",
        1 => "main_menu.tcp_client",
        2 => "main_menu.rtu_server",
        3 => "main_menu.rtu_client",
        4 => "main_menu.tcp_monitor",
        _ => "main_menu.rtu_monitor",
    }
}

/// The tone of an entry of a menu.
pub open spec fn entry_tone(marked: bool) -> Tone {
    if marked {
        Tone::Marked
    } else {
        Tone::Plain
    }
}

/// What stands before an entry of a menu.
pub open spec fn pointer(marked: bool) -> Seq<char> {
    if marked {
        " ▸ "@
    } else {
        "   "@
    }
}

/// The line of a mode in the main menu, with the number of its profiles.
pub open spec fn mode_line(i: int, idx: int, count: nat) -> Seq<Run> {
    line(
        entry_tone(i == idx),
        seq![
            text(
                pointer(i == idx) + "["@ + crate::numeral::decimal((i + 1) as nat) + "] "@,
            ),
            note(item_key(i)),
            text(" ("@ + crate::numeral::decimal(count) + ")"@),
        ],
    )
}

/// The lines of the first modes in the main menu, each with a blank one.
pub open spec fn mode_lines(idx: int, counts: Seq<usize>, n: nat) -> Seq<Seq<Run>>
    decreases n,
{
    if n == 0 {
        Seq::empty()
    } else {
        mode_lines(idx, counts, (n - 1) as nat).push(
            mode_line(n - 1, idx, counts[n - 1] as nat),
        ).push(blank())
    }
}

/// The lines of the main menu.
pub open spec fn main_page(idx: int, counts: Seq<usize>) -> Seq<Seq<Run>> {
    mode_lines(idx, counts, 6).push(
        line(
            entry_tone(idx == 6),
            seq![text(pointer(idx == 6) + "[7] "@), note("main_menu.profile_settings"@)],
        ),
    )
}

fn tone_of(marked: bool) -> (r: Tone)
    ensures
        r == entry_tone(marked),
{
    if marked {
        Tone::Marked
    } else {
        Tone::Plain
    }
}

fn pointer_of(marked: bool) -> (r: &'static str)
    ensures
        r@ == pointer(marked),
{
    if marked {
        " ▸ "
    } else {
        "   "
    }
}

fn put_mode(page: &mut Page, i: usize, idx: usize, count: usize)
    requires
        i < 6,
    ensures
        final(page)@ == old(page)@.push(mode_line(i as int, idx as int, count as nat)),
{
    let marked: bool = i == idx;
    let mut head: String = pointer_of(marked).to_string();
    head.append("[");
    push_decimal(&mut head, i as u128 + 1);
    head.append("] ");
    let mut tail: String = " (".to_string();
    push_decimal(&mut tail, count as u128);
    tail.append(")");
    let mut d = Draft::new();
    d.text(head.as_str());
    d.note(item_name(i));
    d.text(tail.as_str());
    assert(d@ =~= seq![text(head@), note(item_key(i as int)), text(tail@)]);
    page.put(tone_of(marked), d);
}

/// The lines of the main menu, with the number of profiles for each mode.
pub fn main_menu_page(menu: &Menu, counts: &[usize; 6]) -> (r: Page)
    ensures
        r@ == main_page(menu@.idx, counts@),
{
    let idx: usize = menu.menu_list_idx;
    let mut page = Page::new();
    for i in 0..6usize
        invariant
            page@ == mode_lines(idx as int, counts@, i as nat),
    {
        put_mode(&mut page, i, idx, counts[i]);
        page.blank();
    }
    let marked: bool = idx == 6;
    let mut head: String = pointer_of(marked).to_string();
    head.append("[7] ");
    let mut d = Draft::new();
    d.text(head.as_str());
    d.note("main_menu.profile_settings");
    assert(d@ =~= seq![text(head@), note("main_menu.profile_settings"@)]);
    page.put(tone_of(marked), d);
    page
}

/// A name, or a message where there is none.
pub open spec fn name_or(name: Option<Seq<char>>, key: Seq<char>) -> Said {
    match name {
        Some(n) => Said::Text(n),
        None => Said::Key(key),
    }
}

fn name_word(name: &Option<String>, key: &'static str) -> (r: Word)
    ensures
        r@ == name_or(maybe(*name), key@),
{
    match name {
        Some(n) => Word::Text(n.clone()),
        None => Word::Key(key),
    }
}

/// What the main menu says below: the default profile, and the one chosen.
pub open spec fn info_bar(a: Menus) -> Part {
    Part::Note(
        Note {
            key: "main_menu.info_bar"@,
            args: seq![
                ("default"@, name_or(a.default, "main_menu.none"@)),
                ("selected"@, name_or(a.selected, "main_menu.none"@)),
            ],
        },
    )
}

/// What the main menu says below.
pub fn main_menu_info(menu: &Menu) -> (r: Piece)
    ensures
        r@ == info_bar(menu@),
{
    let m = Message {
        key: "main_menu.info_bar",
        args: vec![
            ("default", name_word(&menu.default_profile, "main_menu.none")),
            ("selected", name_word(&menu.selected_profile, "main_menu.none")),
        ],
    };
    assert(m@.args =~= info_bar(menu@)->Note_0.args);
    Piece::Message(m)
}

/// The name of a mode in a title.
pub open spec fn mode_title(m: Option<MainMode>) -> Seq<char> {
    match m {
        Some(MainMode::TcpServer) => "TCP Server"@,
        Some(MainMode::TcpClient) => "TCP Client"@,
        Some(MainMode::RTUServer) => "RTU Server"@,
        Some(MainMode::RTUClient) => "RTU Client"@,
        Some(MainMode::TcpMonitor) => "TCP Monitor"@,
        Some(MainMode::RtuMonitor) => "RTU Monitor"@,
        None => "?"@,
    }
}

/// The title of the menu of profiles for a mode.
pub fn profile_pick_title(menu: &Menu) -> (r: String)
    ensures
        r@ == "Select Profile — "@ + mode_title(menu@.pending) + " ("@ + crate::numeral::decimal(
            menu@.pick_names.len(),
        ) + " profiles)"@,
{
    let mut r: String = "Select Profile — ".to_string();
    r.append(
        match menu.pending_mode {
            Some(MainMode::TcpServer) => "TCP Server",
            Some(MainMode::TcpClient) => "TCP Client",
            Some(MainMode::RTUServer) => "RTU Server",
            Some(MainMode::RTUClient) => "RTU Client",
            Some(MainMode::TcpMonitor) => "TCP Monitor",
            Some(MainMode::RtuMonitor) => "RTU Monitor",
            None => "?",
        },
    );
    r.append(" (");
    push_decimal(&mut r, menu.pick.names.len() as u128);
    r.append(" profiles)");
    r
}

/// The line of a profile in a list. The default profile has a mark of its own.
pub open spec fn name_line(name: Seq<char>, default: Option<Seq<char>>, marked: bool) -> Seq<Run> {
    let is_default = default == Some(name);
    line(
        if marked {
            Tone::Marked
        } else if is_default {
            Tone::Default
        } else {
            Tone::Plain
        },
        seq![
            text(
                " "@ + if is_default {
                    "●"@
                } else {
                    "○"@
                } + " "@ + name,
            ),
        ],
    )
}

fn put_name(page: &mut Page, name: &str, default: &Option<String>, marked: bool)
    ensures
        final(page)@ == old(page)@.push(name_line(name@, maybe(*default), marked)),
{
    let is_default: bool = match default {
        Some(d) => same(d.as_str(), name),
        None => false,
    };
    let mut s: String = " ".to_string();
    s.append(
        if is_default {
            "●"
        } else {
            "○"
        },
    );
    s.append(" ");
    s.append(name);
    let tone = if marked {
        Tone::Marked
    } else if is_default {
        Tone::Default
    } else {
        Tone::Plain
    };
    page.piece(tone, piece(s.as_str()));
}

/// The line of what a profile is in short.
pub open spec fn brief_line(brief: Seq<char>, marked: bool) -> Seq<Run> {
    line(
        if marked {
            Tone::MarkedDim
        } else {
            Tone::Dim
        },
        seq![text("   "@ + brief)],
    )
}

/// The lines of the first profiles of a list, each with what it is in short.
pub open spec fn pick_lines(
    names: Seq<Seq<char>>,
    briefs: Seq<Seq<char>>,
    default: Option<Seq<char>>,
    idx: int,
    n: nat,
) -> Seq<Seq<Run>>
    decreases n,
{
    if n == 0 {
        Seq::empty()
    } else {
        let i = n - 1;
        let brief = if i < briefs.len() {
            briefs[i]
        } else {
            Seq::empty()
        };
        pick_lines(names, briefs, default, idx, i as nat).push(
            name_line(names[i], default, i == idx),
        ).push(brief_line(brief, i == idx))
    }
}

/// The lines of a list of profiles: those that there are, or that there are
/// none, and why.
pub open spec fn pick_page(
    names: Seq<Seq<char>>,
    briefs: Seq<Seq<char>>,
    default: Option<Seq<char>>,
    idx: int,
    why: Option<Seq<char>>,
) -> Seq<Seq<Run>> {
    if names.len() == 0 {
        let none = seq![line(Tone::Faint, seq![note("profile_settings.empty_list"@)])];
        match why {
            Some(key) => none.push(line(Tone::Faint, seq![note(key)])),
            None => none,
        }
    } else {
        pick_lines(names, briefs, default, idx, names.len())
    }
}

fn list_page(
    pick: &PickList,
    default: &Option<String>,
    idx: usize,
    why: Option<&'static str>,
) -> (r: Page)
    ensures
        r@ == pick_page(
            crate::text::texts(pick.names@),
            crate::text::texts(pick.briefs@),
            maybe(*default),
            idx as int,
            match why {
                Some(k) => Some(k@),
                None => None,
            },
        ),
{
    let ghost names = crate::text::texts(pick.names@);
    let ghost briefs = crate::text::texts(pick.briefs@);
    let mut page = Page::new();
    for i in 0..pick.names.len()
        invariant
            names == crate::text::texts(pick.names@),
            briefs == crate::text::texts(pick.briefs@),
            page@ == pick_lines(names, briefs, maybe(*default), idx as int, i as nat),
    {
        let marked: bool = i == idx;
        put_name(&mut page, pick.names[i].as_str(), default, marked);
        let mut s: String = "   ".to_string();
        if i < pick.briefs.len() {
            s.append(pick.briefs[i].as_str());
        }
        let tone = if marked {
            Tone::MarkedDim
        } else {
            Tone::Dim
        };
        assert(i < briefs.len() ==> briefs[i as int] == pick.briefs@[i as int]@);
        assert(s@ =~= "   "@ + if i < briefs.len() {
            briefs[i as int]
        } else {
            Seq::empty()
        });
        page.piece(tone, piece(s.as_str()));
    }
    if pick.names.len() == 0 {
        page.piece(Tone::Faint, message("profile_settings.empty_list"));
        assert(page@ =~= seq![line(Tone::Faint, seq![note("profile_settings.empty_list"@)])]);
        if let Some(key) = why {
            page.piece(Tone::Faint, message(key));
        }
    }
    page
}

/// Why no profile is offered for a mode: there is none, or none for the mode.
pub open spec fn why_none(profiles: Seq<Seq<char>>) -> Seq<char> {
    if profiles.len() == 0 {
        "profile_pick.no_profiles_hint"@
    } else {
        "profile_pick.no_match_hint"@
    }
}

/// The list of the profiles for a mode.
pub fn profile_pick_page(menu: &Menu) -> (r: Page)
    ensures
        r@ == pick_page(
            menu@.pick_names,
            menu@.pick_briefs,
            menu@.default,
            menu@.idx,
            Some(why_none(menu@.profiles)),
        ),
{
    let why = if menu.profiles.len() == 0 {
        "profile_pick.no_profiles_hint"
    } else {
        "profile_pick.no_match_hint"
    };
    list_page(&menu.pick, &menu.default_profile, menu.menu_list_idx, Some(why))
}

/// The list of the profiles that are offered to a monitor, one of them marked.
pub fn monitor_pick_page(pick: &PickList, idx: usize) -> (r: Page)
    ensures
        r@ == pick_page(
            crate::text::texts(pick.names@),
            crate::text::texts(pick.briefs@),
            None,
            idx as int,
            None,
        ),
{
    list_page(pick, &None, idx, None)
}

/// A line of the preview of a profile.
pub open spec fn preview_line(tone: Tone, p: Part) -> Seq<Run> {
    line(tone, seq![text("  "@), p])
}

fn put_preview(page: &mut Page, tone: Tone, p: Piece)
    ensures
        final(page)@ == old(page)@.push(preview_line(tone, p@)),
{
    let ghost said = p@;
    let mut d = Draft::new();
    d.text("  ");
    d.put(p);
    assert(d@ =~= seq![text("  "@), said]);
    page.put(tone, d);
}

/// The first lines of the preview of a profile.
pub open spec fn preview_head(name: Seq<char>, mode: Seq<char>, a: Settings) -> Seq<Seq<Run>> {
    seq![
        line(Tone::Heading, seq![note("profile_pick.preview_title"@)]),
        blank(),
        preview_line(Tone::Good, note1("profile_pick.preview_name"@, "name"@, name)),
        preview_line(Tone::Plain, note1("profile_pick.preview_mode"@, "mode"@, mode)),
        preview_line(
            Tone::Plain,
            note1(
                "profile_pick.preview_unit"@,
                "unit"@,
                crate::numeral::decimal(a.unit as nat),
            ),
        ),
        preview_line(
            Tone::Plain,
            note1(
                "profile_pick.preview_count"@,
                "count"@,
                crate::numeral::decimal(a.holding_count as nat),
            ),
        ),
    ]
}

/// The lines of the preview that say how a device is reached.
pub open spec fn preview_way(a: Settings) -> Seq<Seq<Run>> {
    if crate::profile::named_tcp(a) {
        seq![
            preview_line(
                Tone::Plain,
                note1(
                    "profile_pick.preview_port"@,
                    "port"@,
                    crate::numeral::decimal(a.tcp_port as nat),
                ),
            ),
        ]
    } else {
        seq![
            preview_line(
                Tone::Plain,
                note1("profile_pick.preview_device"@, "device"@, a.device),
            ),
            preview_line(
                Tone::Plain,
                note1(
                    "profile_pick.preview_baud"@,
                    "baud"@,
                    crate::numeral::decimal(a.baudrate as nat),
                ),
            ),
        ]
    }
}

/// The last line of the preview of a profile: how many of each there are.
pub open spec fn preview_counts(a: Settings) -> Seq<char> {
    "  coils:"@ + crate::numeral::decimal(a.coil_count as nat) + " disc:"@
        + crate::numeral::decimal(a.discrete_count as nat) + " input:"@ + crate::numeral::decimal(
        a.input_count as nat,
    )
}

/// The preview of a profile under a name, with its mode as it is called.
pub open spec fn preview(name: Seq<char>, mode: Seq<char>, a: Settings) -> Seq<Seq<Run>> {
    (preview_head(name, mode, a) + preview_way(a)).push(
        line(Tone::Faint, seq![text(preview_counts(a))]),
    )
}

fn preview_first(name: &str, mode: &str, args: &Args) -> (r: Page)
    ensures
        r@ == preview_head(name@, mode@, args@),
{
    let mut page = Page::new();
    page.piece(Tone::Heading, message("profile_pick.preview_title"));
    page.blank();
    put_preview(
        &mut page,
        Tone::Good,
        message1("profile_pick.preview_name", "name", name.to_string()),
    );
    put_preview(
        &mut page,
        Tone::Plain,
        message1("profile_pick.preview_mode", "mode", mode.to_string()),
    );
    put_preview(
        &mut page,
        Tone::Plain,
        message1("profile_pick.preview_unit", "unit", decimal_text(args.unit as u128)),
    );
    put_preview(
        &mut page,
        Tone::Plain,
        message1("profile_pick.preview_count", "count", decimal_text(args.holding_count as u128)),
    );
    assert(page@ =~= preview_head(name@, mode@, args@));
    page
}

fn preview_of(name: &str, mode: &str, args: &Args) -> (r: Page)
    ensures
        r@ == preview(name@, mode@, args@),
{
    let mut page: Page = preview_first(name, mode, args);
    if crate::profile::is_named(args, "tcp") {
        put_preview(
            &mut page,
            Tone::Plain,
            message1("profile_pick.preview_port", "port", decimal_text(args.tcp_port as u128)),
        );
    } else {
        put_preview(
            &mut page,
            Tone::Plain,
            message1("profile_pick.preview_device", "device", args.device.clone()),
        );
        put_preview(
            &mut page,
            Tone::Plain,
            message1("profile_pick.preview_baud", "baud", decimal_text(args.baudrate as u128)),
        );
    }
    assert(page@ =~= preview_head(name@, mode@, args@) + preview_way(args@));
    let mut s: String = "  coils:".to_string();
    push_decimal(&mut s, args.coil_count as u128);
    s.append(" disc:");
    push_decimal(&mut s, args.discrete_count as u128);
    s.append(" input:");
    push_decimal(&mut s, args.input_count as u128);
    page.piece(Tone::Faint, piece(s.as_str()));
    page
}

/// The preview of the marked profile of a list, if one is marked and it can be
/// read. To a monitor its mode is called by the way to the device.
pub open spec fn preview_shown(
    names: Seq<Seq<char>>,
    idx: int,
    profiles: Map<Seq<char>, Settings>,
    monitor: bool,
) -> Seq<Seq<Run>> {
    if idx < names.len() {
        if profiles.contains_key(names[idx]) {
            let a = profiles[names[idx]];
            preview(
                names[idx],
                if monitor {
                    crate::profile::monitor_label(a)
                } else {
                    a.main_mode
                },
                a,
            )
        } else {
            seq![line(Tone::Bad, seq![note("profile_pick.load_fail"@)])]
        }
    } else {
        seq![line(Tone::Faint, seq![note("profile_pick.select_hint"@)])]
    }
}

/// The preview of the marked profile of a list.
pub fn preview_page(names: &Vec<String>, idx: usize, p: &Profiles, monitor: bool) -> (r: Page)
    requires
        p.wf(),
    ensures
        r@ == preview_shown(crate::text::texts(names@), idx as int, p@, monitor),
{
    let mut page = Page::new();
    if idx < names.len() {
        let name: &str = names[idx].as_str();
        match p.get(name) {
            Some(args) => {
                return if monitor {
                    preview_of(name, profile_monitor_mode_label(args), args)
                } else {
                    preview_of(name, args.main_mode.as_str(), args)
                };
            },
            None => {
                page.piece(Tone::Bad, message("profile_pick.load_fail"));
                assert(page@ =~= seq![line(Tone::Bad, seq![note("profile_pick.load_fail"@)])]);
            },
        }
    } else {
        page.piece(Tone::Faint, message("profile_pick.select_hint"));
        assert(page@ =~= seq![line(Tone::Faint, seq![note("profile_pick.select_hint"@)])]);
    }
    page
}

/// The lines of the first of all profiles.
pub open spec fn profile_lines(
    names: Seq<Seq<char>>,
    default: Option<Seq<char>>,
    idx: int,
    n: nat,
) -> Seq<Seq<Run>>
    decreases n,
{
    if n == 0 {
        Seq::empty()
    } else {
        profile_lines(names, default, idx, (n - 1) as nat).push(
            name_line(names[n - 1], default, n - 1 == idx),
        )
    }
}

/// The lines of the list of all profiles.
pub open spec fn settings_page(
    names: Seq<Seq<char>>,
    default: Option<Seq<char>>,
    idx: int,
) -> Seq<Seq<Run>> {
    if names.len() == 0 {
        seq![line(Tone::Faint, seq![note("profile_settings.empty_list"@)])]
    } else {
        profile_lines(names, default, idx, names.len())
    }
}

/// The list of all profiles.
pub fn profile_settings_page(menu: &Menu) -> (r: Page)
    ensures
        r@ == settings_page(menu@.profiles, menu@.default, menu@.idx),
{
    let idx: usize = menu.menu_list_idx;
    let ghost names = crate::text::texts(menu.profiles@);
    let mut page = Page::new();
    for i in 0..menu.profiles.len()
        invariant
            names == crate::text::texts(menu.profiles@),
            page@ == profile_lines(names, maybe(menu.default_profile), idx as int, i as nat),
    {
        put_name(&mut page, menu.profiles[i].as_str(), &menu.default_profile, i == idx);
    }
    if menu.profiles.len() == 0 {
        page.piece(Tone::Faint, message("profile_settings.empty_list"));
        assert(page@ =~= seq![line(Tone::Faint, seq![note("profile_settings.empty_list"@)])]);
    }
    page
}

/// What is said beside the list of all profiles: the default profile.
pub open spec fn settings_info(a: Menus) -> Part {
    Part::Note(
        Note {
            key: "profile_settings.info_text"@,
            args: seq![("name"@, name_or(a.default, "profile_settings.info_default"@))],
        },
    )
}

/// What is said beside the list of all profiles.
pub fn profile_settings_info(menu: &Menu) -> (r: Piece)
    ensures
        r@ == settings_info(menu@),
{
    let m = Message {
        key: "profile_settings.info_text",
        args: vec![("name", name_word(&menu.default_profile, "profile_settings.info_default"))],
    };
    assert(m@.args =~= settings_info(menu@)->Note_0.args);
    Piece::Message(m)
}

/// The title of the fields of a profile.
pub fn profile_edit_title(menu: &Menu) -> (r: Piece)
    ensures
        r@ == note1(
            "profile_edit.title"@,
            "name"@,
            match menu@.edit_name {
                Some(n) => n,
                None => "?"@,
            },
        ),
{
    let name: String = match &menu.edit_profile_name {
        Some(n) => n.clone(),
        None => "?".to_string(),
    };
    message1("profile_edit.title", "name", name)
}

/// The key of the message that says where a field matters.
pub open spec fn scope_key(f: ProfileField) -> Seq<char> {
    match crate::field::scope_of(f) {
        FieldScope::Tcp => "profile_edit.field_mode_tcp"@,
        FieldScope::Rtu => "profile_edit.field_mode_rtu"@,
        FieldScope::All => "profile_edit.field_mode_all"@,
    }
}

/// The line of a field of a profile.
pub open spec fn field_line(f: ProfileField, a: Settings, marked: bool) -> Seq<Run> {
    let value = seq![text(crate::field::field_text(f, a))];
    let name = seq![note(crate::field::field_key(f)), text(": "@)];
    let first = if marked {
        seq![
            run(Tone::Pointer, seq![text(" ▸ "@)]),
            run(Tone::Strong, name),
            run(Tone::Chosen, value),
        ]
    } else {
        seq![
            run(Tone::Plain, seq![text("   "@)]),
            run(Tone::Plain, name),
            run(Tone::Good, value),
        ]
    };
    first + seq![
        run(Tone::Plain, seq![text(" "@)]),
        run(Tone::Dim, seq![note(scope_key(f))]),
    ]
}

fn field_name(f: ProfileField) -> (r: Draft)
    ensures
        r@ == seq![note(crate::field::field_key(f)), text(": "@)],
{
    let mut d = Draft::new();
    d.note(f.key());
    d.text(": ");
    assert(d@ =~= seq![note(crate::field::field_key(f)), text(": "@)]);
    d
}

fn put_field(page: &mut Page, f: ProfileField, args: &Args, marked: bool)
    ensures
        final(page)@ == old(page)@.push(field_line(f, args@, marked)),
{
    let mut l = Line::new();
    let value: String = f.display(args);
    if marked {
        l.piece(Tone::Pointer, piece(" ▸ "));
        l.put(Tone::Strong, field_name(f));
        l.piece(Tone::Chosen, piece(value.as_str()));
    } else {
        l.piece(Tone::Plain, piece("   "));
        l.put(Tone::Plain, field_name(f));
        l.piece(Tone::Good, piece(value.as_str()));
    }
    l.piece(Tone::Plain, piece(" "));
    let scope = match f.scope() {
        FieldScope::Tcp => "profile_edit.field_mode_tcp",
        FieldScope::Rtu => "profile_edit.field_mode_rtu",
        FieldScope::All => "profile_edit.field_mode_all",
    };
    l.piece(Tone::Dim, message(scope));
    assert(l@ =~= field_line(f, args@, marked));
    page.push(l);
}

/// The lines of the first fields of a profile.
pub open spec fn field_lines(a: Settings, idx: int, n: nat) -> Seq<Seq<Run>>
    decreases n,
{
    if n == 0 {
        Seq::empty()
    } else {
        field_lines(a, idx, (n - 1) as nat).push(
            field_line(crate::field::field_list()[n - 1], a, n - 1 == idx),
        )
    }
}

/// The fields of the profile that is edited.
pub fn profile_edit_page(menu: &Menu) -> (r: Page)
    ensures
        r@ == match menu@.edit_args {
            Some(a) => field_lines(a, menu@.idx, FIELD_COUNT as nat),
            None => Seq::empty(),
        },
{
    let mut page = Page::new();
    if let Some(args) = &menu.edit_args {
        let idx: usize = menu.menu_list_idx;
        for i in 0..FIELD_COUNT
            invariant
                page@ == field_lines(args@, idx as int, i as nat),
        {
            put_field(&mut page, field_at(i), args, i == idx);
        }
    }
    page
}

/// What can be entered for a field, where that needs saying.
pub open spec fn field_hint(f: ProfileField) -> Seq<char> {
    match f {
        ProfileField::MainMode => "ts/tc/tm/rs/rc/rm 或 tcp-client/tcp-server/tcp-monitor/rtu-client/rtu-server/rtu-monitor"@,
        ProfileField::Parity => "n(even) / e(ven) / o(dd)"@,
        ProfileField::Flow => "none / hard(ware) / soft(ware)"@,
        ProfileField::Databits => "5 / 6 / 7 / 8"@,
        ProfileField::Stopbits => "1 / 2"@,
        _ => Seq::empty(),
    }
}

/// Whether something can be said of what a field takes.
pub open spec fn has_hint(f: ProfileField) -> bool {
    f is MainMode || f is Parity || f is Flow || f is Databits || f is Stopbits
}

fn hint_of(f: ProfileField) -> (r: Option<&'static str>)
    ensures
        match r {
            Some(h) => has_hint(f) && h@ == field_hint(f),
            None => !has_hint(f),
        },
{
    match f {
        ProfileField::MainMode => Some(
            "ts/tc/tm/rs/rc/rm 或 tcp-client/tcp-server/tcp-monitor/rtu-client/rtu-server/rtu-monitor",
        ),
        ProfileField::Parity => Some("n(even) / e(ven) / o(dd)"),
        ProfileField::Flow => Some("none / hard(ware) / soft(ware)"),
        ProfileField::Databits => Some("5 / 6 / 7 / 8"),
        ProfileField::Stopbits => Some("1 / 2"),
        _ => None,
    }
}

/// The line of a serial port. The port that is offered has a mark.
pub open spec fn port_line(port: Seq<char>, offered: Seq<char>) -> Seq<Run> {
    if port == offered {
        seq![run(Tone::Accent, seq![text(" ● "@)]), run(Tone::Title, seq![text(port)])]
    } else {
        seq![run(Tone::Plain, seq![text(" ○ "@)]), run(Tone::Faint, seq![text(port)])]
    }
}

/// The lines of the first serial ports.
pub open spec fn port_lines(ports: Seq<Seq<char>>, offered: Seq<char>, n: nat) -> Seq<Seq<Run>>
    decreases n,
{
    if n == 0 {
        Seq::empty()
    } else {
        port_lines(ports, offered, (n - 1) as nat).push(port_line(ports[n - 1], offered))
    }
}

/// The lines on serial ports, where the serial device is entered.
pub open spec fn ports_part(f: ProfileField, ports: Seq<Seq<char>>, port: int) -> Seq<Seq<Run>> {
    if !(f is Device) {
        Seq::empty()
    } else if ports.len() == 0 {
        seq![line(Tone::Dim, seq![note("profile_edit.device_no_ports"@)]), blank()]
    } else {
        seq![line(Tone::Heading, seq![note("profile_edit.device_port_list"@)])] + port_lines(
            ports,
            ports[port],
            ports.len(),
        ) + seq![blank(), line(Tone::Faint, seq![note("profile_edit.serial_hint"@)])]
    }
}

/// The lines beside the fields while one is entered.
pub open spec fn entry_panel(
    f: ProfileField,
    buf: Seq<char>,
    ports: Seq<Seq<char>>,
    port: int,
) -> Seq<Seq<Run>> {
    seq![
        line(
            Tone::Heading,
            seq![note_in("profile_edit.editing"@, "label"@, crate::field::field_key(f))],
        ),
        blank(),
        line(Tone::Accent, seq![text("> "@ + buf)]),
        blank(),
    ] + ports_part(f, ports, port) + if has_hint(f) {
        seq![line(Tone::Faint, seq![text(field_hint(f))]), blank()]
    } else {
        Seq::empty()
    } + seq![line(Tone::Faint, seq![note("profile_edit.edit_help"@)])]
}

fn put_port(page: &mut Page, port: &str, offered: &str)
    ensures
        final(page)@ == old(page)@.push(port_line(port@, offered@)),
{
    let mut l = Line::new();
    if same(port, offered) {
        l.piece(Tone::Accent, piece(" ● "));
        l.piece(Tone::Title, piece(port));
    } else {
        l.piece(Tone::Plain, piece(" ○ "));
        l.piece(Tone::Faint, piece(port));
    }
    assert(l@ =~= port_line(port@, offered@));
    page.push(l);
}

fn put_ports(page: &mut Page, ports: &Vec<String>, port: usize)
    requires
        ports@.len() > 0 ==> port < ports@.len(),
    ensures
        final(page)@ == old(page)@ + ports_part(
            ProfileField::Device,
            crate::text::texts(ports@),
            port as int,
        ),
{
    let ghost start = page@;
    let ghost names = crate::text::texts(ports@);
    if ports.len() == 0 {
        page.piece(Tone::Dim, message("profile_edit.device_no_ports"));
        page.blank();
        assert(page@ =~= start + ports_part(ProfileField::Device, names, port as int));
        return ;
    }
    let offered: &str = ports[port].as_str();
    page.piece(Tone::Heading, message("profile_edit.device_port_list"));
    let ghost first = seq![line(Tone::Heading, seq![note("profile_edit.device_port_list"@)])];
    assert(page@ =~= start + (first + port_lines(names, offered@, 0)));
    for i in 0..ports.len()
        invariant
            names == crate::text::texts(ports@),
            page@ == start + (first + port_lines(names, offered@, i as nat)),
    {
        put_port(page, ports[i].as_str(), offered);
        assert(page@ =~= start + (first + port_lines(names, offered@, (i + 1) as nat)));
    }
    page.blank();
    page.piece(Tone::Faint, message("profile_edit.serial_hint"));
    assert(page@ =~= start + ports_part(ProfileField::Device, names, port as int));
}

fn entry_panel_page(f: ProfileField, buf: &str, ports: &Vec<String>, port: usize) -> (r: Page)
    requires
        ports@.len() > 0 ==> port < ports@.len(),
    ensures
        r@ == entry_panel(f, buf@, crate::text::texts(ports@), port as int),
{
    let mut page = Page::new();
    page.piece(Tone::Heading, message_in("profile_edit.editing", "label", f.key()));
    page.blank();
    let mut s: String = "> ".to_string();
    s.append(buf);
    page.piece(Tone::Accent, piece(s.as_str()));
    page.blank();
    let ghost head = page@;
    let ghost names = crate::text::texts(ports@);
    if f == ProfileField::Device {
        put_ports(&mut page, ports, port);
    }
    assert(page@ =~= head + ports_part(f, names, port as int));
    if let Some(h) = hint_of(f) {
        page.piece(Tone::Faint, piece(h));
        page.blank();
    }
    page.piece(Tone::Faint, message("profile_edit.edit_help"));
    assert(page@ =~= entry_panel(f, buf@, names, port as int));
    page
}

/// The first fields of a profile in short.
pub open spec fn summary(a: Settings, n: nat) -> Seq<Part>
    decreases n,
{
    if n == 0 {
        Seq::empty()
    } else {
        let f = crate::field::field_list()[n - 1];
        summary(a, (n - 1) as nat).push(
            text(
                if n == 1 {
                    "  "@
                } else {
                    "\n  "@
                },
            ),
        ).push(note(crate::field::field_key(f))).push(
            text(": "@ + crate::field::field_text(f, a)),
        )
    }
}

fn summary_of(args: &Args) -> (r: Draft)
    ensures
        r@ == summary(args@, FIELD_COUNT as nat),
{
    let mut d = Draft::new();
    for i in 0..FIELD_COUNT
        invariant
            d@ == summary(args@, i as nat),
    {
        let f = field_at(i);
        d.text(
            if i == 0 {
                "  "
            } else {
                "\n  "
            },
        );
        d.note(f.key());
        let mut s: String = ": ".to_string();
        s.append(f.display(args).as_str());
        d.text(s.as_str());
    }
    d
}

/// The lines beside the fields while none is entered.
pub open spec fn field_panel(a: Option<Settings>) -> Seq<Seq<Run>> {
    let head = seq![line(Tone::Heading, seq![note("profile_edit.preview_title"@)]), blank()];
    match a {
        Some(args) => head.push(line(Tone::Faint, summary(args, FIELD_COUNT as nat))).push(
            blank(),
        ).push(line(Tone::Faint, seq![note("profile_edit.nav_help"@)])),
        None => head.push(blank()).push(line(Tone::Faint, Seq::empty())),
    }
}

fn field_panel_page(args: &Option<Args>) -> (r: Page)
    ensures
        r@ == field_panel(crate::menu::maybe_args(*args)),
{
    let mut page = Page::new();
    page.piece(Tone::Heading, message("profile_edit.preview_title"));
    page.blank();
    assert(page@ =~= seq![line(Tone::Heading, seq![note("profile_edit.preview_title"@)]), blank()]);
    match args {
        Some(a) => {
            page.put(Tone::Faint, summary_of(a));
            page.blank();
            page.piece(Tone::Faint, message("profile_edit.nav_help"));
        },
        None => {
            page.blank();
            page.put(Tone::Faint, Draft::new());
        },
    }
    page
}

/// The lines beside the fields of the profile that is edited.
pub fn profile_edit_panel(menu: &Menu) -> (r: Page)
    requires
        menu@.wf(),
        menu.menu_screen is ProfileEdit,
    ensures
        r@ == if menu@.editing {
            entry_panel(
                crate::field::field_list()[menu@.idx],
                menu@.field_buf,
                menu@.ports,
                menu@.port,
            )
        } else {
            field_panel(menu@.edit_args)
        },
{
    if menu.field_edit_mode {
        entry_panel_page(
            field_at(menu.menu_list_idx),
            menu.field_edit_buf.as_str(),
            &menu.serial_ports,
            menu.serial_port_idx,
        )
    } else {
        field_panel_page(&menu.edit_args)
    }
}

/// The key of the title of the menu for the name of a new profile.
pub open spec fn name_title(is_clone: bool) -> Seq<char> {
    if is_clone {
        "profile_settings.clone_title"@
    } else {
        "profile_settings.add_title"@
    }
}

/// The title of the menu for the name of a new profile, and the name so far, or
/// what stands in its place.
pub fn name_prompt(menu: &Menu) -> (r: (Piece, Piece))
    ensures
        r.0@ == note(name_title(menu@.is_clone)),
        r.1@ == if menu@.name_buf.len() == 0 {
            note("profile_settings.name_placeholder"@)
        } else {
            text(menu@.name_buf)
        },
{
    let title = if menu.name_prompt_is_clone {
        "profile_settings.clone_title"
    } else {
        "profile_settings.add_title"
    };
    let name = if crate::text::chars_of(menu.name_prompt_buf.as_str()).len() == 0 {
        message("profile_settings.name_placeholder")
    } else {
        piece(menu.name_prompt_buf.as_str())
    };
    (message(title), name)
}

} // verus!

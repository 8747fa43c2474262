//! The menus before the program runs: which keys do what.
use crate::args::{Args, MainMode, Settings};
use crate::field::{field_at, ProfileField, FIELD_COUNT};
use crate::message::{message, message1, note, note1, text, Part, Piece, Said, Word};
use crate::profile::{
    load_pick_list, load_profile_args, load_profile_list, MenuSelection, PickList, Profiles,
    DEFAULT_KEY,
};
use crate::text::{listed, place_of, same, trimmed, word_char};
use vstd::prelude::*;

verus! {

/// A key that was pressed.
#[derive(Copy, Clone, Debug, PartialEq, Eq, Structural)]
pub enum Key {
    Up,
    Down,
    Enter,
    Esc,
    Tab,
    Backspace,
    PageUp,
    PageDown,
    Home,
    End,
    Char(char),
    /// Any other key.
    Other,
}

/// The menu that is shown.
#[derive(Copy, Clone, Debug, PartialEq, Eq, Structural)]
pub enum MenuScreen {
    /// The main menu.
    Main,
    /// The profiles for a mode.
    ProfilePick,
    /// All profiles.
    ProfileSet,
    /// The fields of a profile.
    ProfileEdit,
    /// The name of a new profile.
    NamePrompt,
}

/// The menus.
#[derive(Debug)]
pub struct Menu {
    pub menu_screen: MenuScreen,
    /// The line that is marked.
    pub menu_list_idx: usize,
    /// The names of all profiles.
    pub profiles: Vec<String>,
    pub selected_profile: Option<String>,
    /// The mode for which a profile is chosen.
    pub pending_mode: Option<MainMode>,
    pub default_profile: Option<String>,
    /// The profiles for a mode.
    pub pick: PickList,
    /// The profile that is edited, and its settings so far.
    pub edit_profile_name: Option<String>,
    pub edit_args: Option<Args>,
    /// The entry for a field, while one is made.
    pub field_edit_buf: String,
    pub field_edit_mode: bool,
    /// The serial ports that there are, and the one that is offered.
    pub serial_ports: Vec<String>,
    pub serial_port_idx: usize,
    /// The name of a new profile, and the settings that it starts with.
    pub name_prompt_buf: String,
    pub name_prompt_is_clone: bool,
    pub name_prompt_clone_args: Option<Args>,
    pub status_msg: Option<Piece>,
    /// How far the logo has come up.
    pub logo_frame: u8,
}

/// The menus, mathematically.
pub struct Menus {
    pub screen: MenuScreen,
    pub idx: int,
    pub profiles: Seq<Seq<char>>,
    pub selected: Option<Seq<char>>,
    pub pending: Option<MainMode>,
    pub default: Option<Seq<char>>,
    pub pick_names: Seq<Seq<char>>,
    pub pick_briefs: Seq<Seq<char>>,
    pub edit_name: Option<Seq<char>>,
    pub edit_args: Option<Settings>,
    pub field_buf: Seq<char>,
    pub editing: bool,
    pub ports: Seq<Seq<char>>,
    pub port: int,
    pub name_buf: Seq<char>,
    pub is_clone: bool,
    pub clone_args: Option<Settings>,
    pub status: Option<Part>,
    pub logo: int,
}

/// What stands in an optional text.
pub open spec fn maybe(s: Option<String>) -> Option<Seq<char>> {
    match s {
        Some(t) => Some(t@),
        None => None,
    }
}

/// What optional settings say.
pub open spec fn maybe_args(a: Option<Args>) -> Option<Settings> {
    match a {
        Some(x) => Some(x@),
        None => None,
    }
}

/// What an optional part of a text says.
pub open spec fn maybe_part(p: Option<Piece>) -> Option<Part> {
    match p {
        Some(x) => Some(x@),
        None => None,
    }
}

impl View for Menu {
    type V = Menus;

    open spec fn view(&self) -> Menus {
        Menus {
            screen: self.menu_screen,
            idx: self.menu_list_idx as int,
            profiles: crate::text::texts(self.profiles@),
            selected: maybe(self.selected_profile),
            pending: self.pending_mode,
            default: maybe(self.default_profile),
            pick_names: crate::text::texts(self.pick.names@),
            pick_briefs: crate::text::texts(self.pick.briefs@),
            edit_name: maybe(self.edit_profile_name),
            edit_args: maybe_args(self.edit_args),
            field_buf: self.field_edit_buf@,
            editing: self.field_edit_mode,
            ports: crate::text::texts(self.serial_ports@),
            port: self.serial_port_idx as int,
            name_buf: self.name_prompt_buf@,
            is_clone: self.name_prompt_is_clone,
            clone_args: maybe_args(self.name_prompt_clone_args),
            status: maybe_part(self.status_msg),
            logo: self.logo_frame as int,
        }
    }
}

impl Menus {
    /// Whether there is a profile to edit where one is edited, and a field is
    /// marked; and whether the offered port is one of the ports.
    pub open spec fn wf(self) -> bool {
        &&& self.screen is ProfileEdit ==> self.edit_args is Some && self.idx < FIELD_COUNT
        &&& self.ports.len() > 0 ==> self.port < self.ports.len()
        &&& 0 <= self.idx
        &&& 0 <= self.port
    }
}

/// What is to be saved.
#[derive(Debug)]
pub enum Saving {
    /// The name of the default profile.
    Default(String),
    /// That a profile is gone.
    Removal(String),
    /// A profile that was edited.
    Edited(String),
    /// A new profile, and its settings.
    Added(String, Args),
}

/// What a key leads to.
#[derive(Debug)]
pub enum MenuStep {
    /// The menus go on.
    Stay,
    /// Something was chosen.
    Select(MenuSelection),
    /// Profiles are to be written, for a reason.
    Save(Saving, Profiles),
}

/// The choice that ends the program.
pub open spec fn quits(step: MenuStep) -> bool {
    step == MenuStep::Select(
        MenuSelection { main_mode: MainMode::TcpClient, profile_name: None, quit: true },
    )
}

fn quit() -> (r: MenuStep)
    ensures
        quits(r),
{
    MenuStep::Select(
        MenuSelection { main_mode: MainMode::TcpClient, profile_name: None, quit: true },
    )
}

/// A number that is one less, but not below zero.
pub open spec fn less_one(n: int) -> int {
    if n > 0 {
        n - 1
    } else {
        0
    }
}

/// A place in a list that is one further, but not beyond its end.
pub open spec fn one_further(n: int, len: int) -> int {
    if n + 1 < len {
        n + 1
    } else {
        n
    }
}

/// How many lines the main menu has.
pub const ITEM_COUNT: usize = 7;

/// The mode of a line of the main menu.
pub open spec fn mode_at(i: int) -> Option<MainMode> {
    if i == 0 {
        Some(MainMode::TcpServer)
    } else if i == 1 {
        Some(MainMode::TcpClient)
    } else if i == 2 {
        Some(MainMode::RTUServer)
    } else if i == 3 {
        Some(MainMode::RTUClient)
    } else if i == 4 {
        Some(MainMode::TcpMonitor)
    } else if i == 5 {
        Some(MainMode::RtuMonitor)
    } else {
        None
    }
}

/// Whether the choice of a line of the main menu leads from one state of the
/// menus to another: to the profiles for its mode, or to all profiles.
pub open spec fn line_chosen(a: Menus, p: Profiles, i: int, b: Menu) -> bool {
    match mode_at(i) {
        Some(m) => {
            &&& b@ == (Menus {
                pending: Some(m),
                screen: MenuScreen::ProfilePick,
                idx: 0,
                pick_names: b@.pick_names,
                pick_briefs: b@.pick_briefs,
                ..a
            })
            &&& crate::profile::lists(p, Some(m), false, b.pick)
        },
        None => if i == 6 {
            b@ == (Menus { screen: MenuScreen::ProfileSet, idx: 0, ..a })
        } else {
            b@ == a
        },
    }
}

/// Whether a key leads from one state of the main menu to another.
pub open spec fn main_keyed(a: Menus, p: Profiles, key: Key, b: Menu, step: MenuStep) -> bool {
    match key {
        Key::Up => step is Stay && b@ == (Menus { idx: less_one(a.idx), ..a }),
        Key::Down => step is Stay && b@ == (Menus {
            idx: one_further(a.idx, ITEM_COUNT as int),
            ..a
        }),
        Key::Enter => step is Stay && line_chosen(a, p, a.idx, b),
        Key::Char(c) => if '1' <= c <= '9' {
            step is Stay && line_chosen(a, p, c as int - '1' as int, b)
        } else if c == 'q' {
            quits(step) && b@ == a
        } else {
            step is Stay && b@ == a
        },
        _ => step is Stay && b@ == a,
    }
}

fn choose_line(menu: &mut Menu, p: &Profiles, i: usize)
    requires
        p.wf(),
    ensures
        line_chosen(old(menu)@, *p, i as int, *final(menu)),
{
    let mode = if i == 0 {
        MainMode::TcpServer
    } else if i == 1 {
        MainMode::TcpClient
    } else if i == 2 {
        MainMode::RTUServer
    } else if i == 3 {
        MainMode::RTUClient
    } else if i == 4 {
        MainMode::TcpMonitor
    } else if i == 5 {
        MainMode::RtuMonitor
    } else {
        if i == 6 {
            menu.menu_screen = MenuScreen::ProfileSet;
            menu.menu_list_idx = 0;
        }
        return ;
    };
    menu.pending_mode = Some(mode);
    menu.pick = load_pick_list(p, Some(mode), false);
    menu.menu_screen = MenuScreen::ProfilePick;
    menu.menu_list_idx = 0;
}

/// What a key does in the main menu.
pub fn handle_main_menu_key(menu: &mut Menu, key: Key, p: &Profiles) -> (r: MenuStep)
    requires
        old(menu)@.wf(),
        old(menu)@.screen is Main,
        p.wf(),
    ensures
        final(menu)@.wf(),
        main_keyed(old(menu)@, *p, key, *final(menu), r),
{
    match key {
        Key::Up => {
            menu.menu_list_idx = menu.menu_list_idx.saturating_sub(1);
        },
        Key::Down => {
            if menu.menu_list_idx < ITEM_COUNT - 1 {
                menu.menu_list_idx = menu.menu_list_idx + 1;
            }
        },
        Key::Enter => {
            let i: usize = menu.menu_list_idx;
            choose_line(menu, p, i);
        },
        Key::Char(c) => {
            if '1' <= c && c <= '9' {
                let i: usize = (c as u32 - 49) as usize;
                choose_line(menu, p, i);
            } else if c == 'q' {
                return quit();
            }
        },
        _ => {},
    }
    MenuStep::Stay
}

/// Whether a key leads from one state of the menu of profiles for a mode to
/// another.
pub open spec fn pick_keyed(a: Menus, key: Key, b: Menus, step: MenuStep) -> bool {
    match key {
        Key::Up => step is Stay && b == (Menus {
            idx: if a.pick_names.len() > 0 {
                less_one(a.idx)
            } else {
                a.idx
            },
            ..a
        }),
        Key::Down => step is Stay && b == (Menus {
            idx: one_further(a.idx, a.pick_names.len() as int),
            ..a
        }),
        Key::Enter => {
            let name = if a.idx < a.pick_names.len() {
                Some(a.pick_names[a.idx])
            } else {
                None
            };
            &&& b == (Menus { selected: name, ..a })
            &&& step matches MenuStep::Select(sel) && {
                &&& maybe(sel.profile_name) == name
                &&& !sel.quit
                &&& sel.main_mode == match a.pending {
                    Some(m) => m,
                    None => MainMode::TcpClient,
                }
            }
        },
        Key::Esc => step is Stay && b == (Menus { screen: MenuScreen::Main, ..a }),
        Key::Char('q') => quits(step) && b == a,
        _ => step is Stay && b == a,
    }
}

/// What a key does in the menu of profiles for a mode.
pub fn handle_profile_pick_key(menu: &mut Menu, key: Key) -> (r: MenuStep)
    requires
        old(menu)@.wf(),
        old(menu)@.screen is ProfilePick,
    ensures
        final(menu)@.wf(),
        pick_keyed(old(menu)@, key, final(menu)@, r),
{
    match key {
        Key::Up => {
            if menu.pick.names.len() > 0 {
                menu.menu_list_idx = menu.menu_list_idx.saturating_sub(1);
            }
        },
        Key::Down => {
            if menu.pick.names.len() > 0 && menu.menu_list_idx < menu.pick.names.len() - 1 {
                menu.menu_list_idx = menu.menu_list_idx + 1;
            }
        },
        Key::Enter => {
            let mode = match menu.pending_mode {
                Some(m) => m,
                None => MainMode::TcpClient,
            };
            let i: usize = menu.menu_list_idx;
            let (name, again): (Option<String>, Option<String>) = if i < menu.pick.names.len() {
                (Some(menu.pick.names[i].clone()), Some(menu.pick.names[i].clone()))
            } else {
                (None, None)
            };
            menu.selected_profile = name;
            return MenuStep::Select(
                MenuSelection { main_mode: mode, profile_name: again, quit: false },
            );
        },
        Key::Esc => {
            menu.menu_screen = MenuScreen::Main;
        },
        Key::Char('q') => {
            return quit();
        },
        _ => {},
    }
    MenuStep::Stay
}

/// The question whether a profile is to be removed.
pub open spec fn confirm(name: Seq<char>) -> Part {
    note1("profile_settings.delete_confirm"@, "name"@, name)
}

/// Whether a key leads from one state of the menu of all profiles to another.
pub open spec fn set_keyed(a: Menus, p: Profiles, key: Key, b: Menus, step: MenuStep) -> bool {
    let name = a.profiles[a.idx];
    let marked = a.idx < a.profiles.len();
    match key {
        Key::Up => step is Stay && b == (Menus {
            idx: if a.profiles.len() > 0 {
                less_one(a.idx)
            } else {
                a.idx
            },
            ..a
        }),
        Key::Down => step is Stay && b == (Menus {
            idx: one_further(a.idx, a.profiles.len() as int),
            ..a
        }),
        Key::Enter => b == a && if marked {
            step matches MenuStep::Save(Saving::Default(n), q) && n@ == name && q.wf() && q@
                == p@.insert(DEFAULT_KEY@, crate::profile::default_mark(name))
        } else {
            step is Stay
        },
        Key::Char('e') => step is Stay && if !marked {
            b == a
        } else if p@.contains_key(name) {
            b == (Menus {
                edit_name: Some(name),
                edit_args: Some(p@[name]),
                idx: 0,
                editing: false,
                field_buf: Seq::empty(),
                screen: MenuScreen::ProfileEdit,
                ..a
            })
        } else {
            b == (Menus { status: Some(note("profile_settings.load_fail"@)), ..a })
        },
        Key::Char('a') => step is Stay && b == (Menus {
            name_buf: Seq::empty(),
            is_clone: false,
            clone_args: None,
            screen: MenuScreen::NamePrompt,
            ..a
        }),
        Key::Char('c') => step is Stay && if !marked {
            b == a
        } else if p@.contains_key(name) {
            b == (Menus {
                name_buf: Seq::empty(),
                is_clone: true,
                clone_args: Some(p@[name]),
                screen: MenuScreen::NamePrompt,
                ..a
            })
        } else {
            b == (Menus { status: Some(note("profile_settings.load_fail"@)), ..a })
        },
        Key::Char('d') => if !marked {
            step is Stay && b == a
        } else if a.status == Some(confirm(name)) {
            b == a && (step matches MenuStep::Save(Saving::Removal(n), q) && n@ == name && q.wf()
                && q@ == p@.remove(name))
        } else {
            step is Stay && b == (Menus { status: Some(confirm(name)), ..a })
        },
        Key::Esc => step is Stay && b == (Menus { screen: MenuScreen::Main, ..a }),
        Key::Char('q') => quits(step) && b == a,
        _ => step is Stay && b == a,
    }
}

fn asks_removal(status: &Option<Piece>, name: &str) -> (r: bool)
    ensures
        r == (maybe_part(*status) == Some(confirm(name@))),
{
    match status {
        Some(Piece::Message(m)) => {
            let ghost args = m@.args;
            let ghost asked = seq![("name"@, Said::Text(name@))];
            assert(args.len() == m.args@.len() && asked.len() == 1);
            if !same(m.key, "profile_settings.delete_confirm") || m.args.len() != 1 {
                return false;
            }
            assert(args[0] == (m.args@[0].0@, m.args@[0].1@));
            if !same(m.args[0].0, "name") {
                assert(args[0] != ("name"@, Said::Text(name@)));
                return false;
            }
            match &m.args[0].1 {
                Word::Text(s) => {
                    if same(s.as_str(), name) {
                        assert(args =~= seq![("name"@, Said::Text(name@))]);
                        true
                    } else {
                        assert(args[0] != ("name"@, Said::Text(name@)));
                        false
                    }
                },
                Word::Key(_) => {
                    assert(args[0] != ("name"@, Said::Text(name@)));
                    false
                },
            }
        },
        _ => false,
    }
}

/// A copy of profiles.
pub fn copy_profiles(p: &Profiles) -> (r: Profiles)
    requires
        p.wf(),
    ensures
        r.wf(),
        r@ == p@,
        crate::profile::entry_names(r.entries@) == crate::profile::entry_names(p.entries@),
{
    let n: usize = p.entries.len();
    let mut entries: Vec<(String, Args)> = Vec::new();
    assert(p.entries@.take(0) =~= Seq::<(String, Args)>::empty());
    for i in 0..n
        invariant
            n == p.entries@.len(),
            entries@.len() == i,
            forall|j: int|
                0 <= j < i ==> (#[trigger] entries@[j]).0@ == p.entries@[j].0@ && entries@[j].1@
                    == p.entries@[j].1@,
            crate::profile::stored(entries@) == crate::profile::stored(p.entries@.take(i as int)),
    {
        let ghost before = entries@;
        entries.push((p.entries[i].0.clone(), p.entries[i].1.clone()));
        assert(entries@.drop_last() =~= before);
        assert(p.entries@.take(i + 1).drop_last() =~= p.entries@.take(i as int));
    }
    assert(p.entries@.take(n as int) =~= p.entries@);
    let r = Profiles { entries };
    assert(crate::profile::entry_names(r.entries@) =~= crate::profile::entry_names(p.entries@));
    r
}

/// What a key does in the menu of all profiles.
pub fn handle_profile_set_key(menu: &mut Menu, key: Key, p: &Profiles) -> (r: MenuStep)
    requires
        old(menu)@.wf(),
        old(menu)@.screen is ProfileSet,
        p.wf(),
    ensures
        final(menu)@.wf(),
        set_keyed(old(menu)@, *p, key, final(menu)@, r),
{
    let i: usize = menu.menu_list_idx;
    let marked: bool = i < menu.profiles.len();
    match key {
        Key::Up => {
            if menu.profiles.len() > 0 {
                menu.menu_list_idx = menu.menu_list_idx.saturating_sub(1);
            }
        },
        Key::Down => {
            if menu.profiles.len() > 0 && i < menu.profiles.len() - 1 {
                menu.menu_list_idx = i + 1;
            }
        },
        Key::Enter => {
            if marked {
                let name = menu.profiles[i].clone();
                let mut q = copy_profiles(p);
                crate::profile::save_default_profile(&mut q, name.as_str());
                return MenuStep::Save(Saving::Default(name), q);
            }
        },
        Key::Char('e') => {
            if marked {
                let name = menu.profiles[i].clone();
                match load_profile_args(p, name.as_str()) {
                    Some(args) => {
                        menu.edit_profile_name = Some(name);
                        menu.edit_args = Some(args);
                        menu.menu_list_idx = 0;
                        menu.field_edit_mode = false;
                        menu.field_edit_buf = String::new();
                        menu.menu_screen = MenuScreen::ProfileEdit;
                    },
                    None => {
                        menu.status_msg = Some(message("profile_settings.load_fail"));
                    },
                }
            }
        },
        Key::Char('a') => {
            menu.name_prompt_buf = String::new();
            menu.name_prompt_is_clone = false;
            menu.name_prompt_clone_args = None;
            menu.menu_screen = MenuScreen::NamePrompt;
        },
        Key::Char('c') => {
            if marked {
                let name = menu.profiles[i].clone();
                match load_profile_args(p, name.as_str()) {
                    Some(args) => {
                        menu.name_prompt_buf = String::new();
                        menu.name_prompt_is_clone = true;
                        menu.name_prompt_clone_args = Some(args);
                        menu.menu_screen = MenuScreen::NamePrompt;
                    },
                    None => {
                        menu.status_msg = Some(message("profile_settings.load_fail"));
                    },
                }
            }
        },
        Key::Char('d') => {
            if marked {
                let name = menu.profiles[i].clone();
                if asks_removal(&menu.status_msg, name.as_str()) {
                    let mut q = copy_profiles(p);
                    q.remove(name.as_str());
                    return MenuStep::Save(Saving::Removal(name), q);
                }
                menu.status_msg = Some(
                    message1("profile_settings.delete_confirm", "name", name),
                );
            }
        },
        Key::Esc => {
            menu.menu_screen = MenuScreen::Main;
        },
        Key::Char('q') => {
            return quit();
        },
        _ => {},
    }
    MenuStep::Stay
}

/// Whether a place is the first of a text in a list, or zero where the text does
/// not stand in it.
pub open spec fn is_place(names: Seq<Seq<char>>, x: Option<Seq<char>>, i: int) -> bool {
    match x {
        Some(t) => if names.contains(t) {
            0 <= i < names.len() && names[i] == t && forall|j: int| 0 <= j < i ==> names[j] != t
        } else {
            i == 0
        },
        None => i == 0,
    }
}

fn place_or_zero(names: &Vec<String>, x: &Option<String>) -> (r: usize)
    ensures
        is_place(crate::text::texts(names@), maybe(*x), r as int),
{
    match x {
        Some(t) => match place_of(names, t.as_str()) {
            Some(i) => {
                let ghost all = crate::text::texts(names@);
                assert(all[i as int] == t@);
                assert forall|j: int| 0 <= j < i implies all[j] != t@ by {
                    assert(all[j] == names@[j]@);
                }
                i
            },
            None => 0,
        },
        None => 0,
    }
}

/// The next of some ports, and the first behind the last.
pub open spec fn next_port(i: int, n: int) -> int {
    if i + 1 < n {
        i + 1
    } else {
        0
    }
}

/// The port before one of some ports, and the last before the first.
pub open spec fn prev_port(i: int, n: int) -> int {
    if i > 0 {
        i - 1
    } else {
        n - 1
    }
}

/// Whether ports are offered for the field that is marked.
pub open spec fn offers_ports(a: Menus) -> bool {
    crate::field::field_list()[a.idx] is Device && a.ports.len() > 0
}

/// Whether a key leads from one state of the entry for a field to another.
pub open spec fn entry_keyed(a: Menus, key: Key, b: Menus) -> bool {
    match key {
        Key::Esc => b == (Menus {
            editing: false,
            field_buf: Seq::empty(),
            status: Some(note("profile_edit.edit_cancelled"@)),
            ..a
        }),
        Key::Enter => exists|s: Settings, r: Result<(), Seq<char>>| #[trigger]
            crate::field::field_applied(
                crate::field::field_list()[a.idx],
                a.edit_args->0,
                a.field_buf,
                s,
                r,
            ) && match r {
                Ok(_) => b == (Menus {
                    edit_args: Some(s),
                    editing: false,
                    field_buf: Seq::empty(),
                    status: Some(note("profile_edit.field_updated"@)),
                    ..a
                }),
                Err(e) => b == (Menus { status: Some(text(e)), ..a }),
            },
        Key::Backspace => b == (Menus {
            field_buf: if a.field_buf.len() > 0 {
                a.field_buf.drop_last()
            } else {
                a.field_buf
            },
            ..a
        }),
        Key::Tab | Key::Down => if offers_ports(a) {
            let i = next_port(a.port, a.ports.len() as int);
            b == (Menus { port: i, field_buf: a.ports[i], ..a })
        } else {
            b == a
        },
        Key::Up => if offers_ports(a) {
            let i = prev_port(a.port, a.ports.len() as int);
            b == (Menus { port: i, field_buf: a.ports[i], ..a })
        } else {
            b == a
        },
        Key::Char(c) => b == (Menus { field_buf: a.field_buf.push(c), ..a }),
        _ => b == a,
    }
}

/// Whether a key leads from one state of the menu of fields to another.
pub open spec fn fields_keyed(a: Menus, p: Profiles, key: Key, b: Menus, step: MenuStep) -> bool {
    match key {
        Key::Up => step is Stay && b == (Menus { idx: less_one(a.idx), ..a }),
        Key::Down => step is Stay && b == (Menus {
            idx: one_further(a.idx, FIELD_COUNT as int),
            ..a
        }),
        Key::Enter => step is Stay && b == (Menus {
            field_buf: crate::field::field_text(
                crate::field::field_list()[a.idx],
                a.edit_args->0,
            ),
            editing: true,
            ..a
        }),
        Key::Char('s') => b == a && match a.edit_name {
            Some(name) => step matches MenuStep::Save(Saving::Edited(n), q) && n@ == name && q.wf()
                && q@ == p@.insert(name, a.edit_args->0),
            None => step is Stay,
        },
        Key::Esc => step is Stay && exists|i: int| #[trigger]
            is_place(a.profiles, a.edit_name, i) && b == (Menus {
                screen: MenuScreen::ProfileSet,
                idx: i,
                edit_name: None,
                edit_args: None,
                status: Some(note("profile_edit.edit_cancelled"@)),
                ..a
            }),
        Key::Char('q') => quits(step) && b == a,
        _ => step is Stay && b == a,
    }
}

fn handle_entry_key(menu: &mut Menu, key: Key)
    requires
        old(menu)@.wf(),
        old(menu)@.screen is ProfileEdit,
    ensures
        final(menu)@.wf(),
        entry_keyed(old(menu)@, key, final(menu)@),
{
    let field = field_at(menu.menu_list_idx);
    let count: usize = menu.serial_ports.len();
    let on_device: bool = match field {
        ProfileField::Device => true,
        _ => false,
    };
    match key {
        Key::Esc => {
            menu.field_edit_mode = false;
            menu.field_edit_buf = String::new();
            menu.status_msg = Some(message("profile_edit.edit_cancelled"));
        },
        Key::Enter => {
            match &menu.edit_args {
                Some(args) => {
                    let mut edited = args.clone();
                    let r = field.apply(&mut edited, menu.field_edit_buf.as_str());
                    let ghost told = crate::field::told(r);
                    proof {
                        let m = old(menu)@;
                        assert(crate::field::field_applied(
                            crate::field::field_list()[m.idx],
                            m.edit_args->0,
                            m.field_buf,
                            edited@,
                            told,
                        ));
                    }
                    match r {
                        Ok(_) => {
                            menu.edit_args = Some(edited);
                            menu.field_edit_mode = false;
                            menu.field_edit_buf = String::new();
                            menu.status_msg = Some(message("profile_edit.field_updated"));
                        },
                        Err(why) => {
                            menu.status_msg = Some(Piece::Text(why));
                            assert(menu@ == (Menus { status: Some(text(why@)), ..old(menu)@ }));
                        },
                    }
                },
                None => {},
            }
        },
        Key::Backspace => {
            menu.field_edit_buf.pop();
        },
        Key::Tab | Key::Down => {
            if on_device && count > 0 {
                let i: usize = if menu.serial_port_idx < count - 1 {
                    menu.serial_port_idx + 1
                } else {
                    0
                };
                menu.serial_port_idx = i;
                menu.field_edit_buf = menu.serial_ports[i].clone();
            }
        },
        Key::Up => {
            if on_device && count > 0 {
                let i: usize = if menu.serial_port_idx > 0 {
                    menu.serial_port_idx - 1
                } else {
                    count - 1
                };
                menu.serial_port_idx = i;
                menu.field_edit_buf = menu.serial_ports[i].clone();
            }
        },
        Key::Char(c) => {
            menu.field_edit_buf.push(c);
        },
        _ => {},
    }
}

fn handle_fields_key(menu: &mut Menu, key: Key, p: &Profiles) -> (r: MenuStep)
    requires
        old(menu)@.wf(),
        old(menu)@.screen is ProfileEdit,
        p.wf(),
    ensures
        final(menu)@.wf(),
        fields_keyed(old(menu)@, *p, key, final(menu)@, r),
{
    match key {
        Key::Up => {
            menu.menu_list_idx = menu.menu_list_idx.saturating_sub(1);
        },
        Key::Down => {
            if menu.menu_list_idx < FIELD_COUNT - 1 {
                menu.menu_list_idx = menu.menu_list_idx + 1;
            }
        },
        Key::Enter => {
            match &menu.edit_args {
                Some(args) => {
                    menu.field_edit_buf = field_at(menu.menu_list_idx).display(args);
                    menu.field_edit_mode = true;
                },
                None => {},
            }
        },
        Key::Char('s') => {
            match (&menu.edit_profile_name, &menu.edit_args) {
                (Some(name), Some(args)) => {
                    let mut q = copy_profiles(p);
                    q.put(name.as_str(), args.clone());
                    return MenuStep::Save(Saving::Edited(name.clone()), q);
                },
                _ => {},
            }
        },
        Key::Esc => {
            let i: usize = place_or_zero(&menu.profiles, &menu.edit_profile_name);
            menu.menu_screen = MenuScreen::ProfileSet;
            menu.menu_list_idx = i;
            menu.edit_profile_name = None;
            menu.edit_args = None;
            menu.status_msg = Some(message("profile_edit.edit_cancelled"));
        },
        Key::Char('q') => {
            return quit();
        },
        _ => {},
    }
    MenuStep::Stay
}

/// What a key does in the menu of fields.
pub fn handle_profile_edit_key(menu: &mut Menu, key: Key, p: &Profiles) -> (r: MenuStep)
    requires
        old(menu)@.wf(),
        old(menu)@.screen is ProfileEdit,
        p.wf(),
    ensures
        final(menu)@.wf(),
        old(menu)@.editing ==> r is Stay && entry_keyed(old(menu)@, key, final(menu)@),
        !old(menu)@.editing ==> fields_keyed(old(menu)@, *p, key, final(menu)@, r),
{
    if menu.field_edit_mode {
        handle_entry_key(menu, key);
        MenuStep::Stay
    } else {
        handle_fields_key(menu, key, p)
    }
}

/// Why a name is refused for a new profile.
pub open spec fn name_refusal(a: Menus) -> Option<Seq<char>> {
    let name = crate::text::trim(a.name_buf);
    if name.len() == 0 {
        Some("profile_settings.name_empty"@)
    } else if a.profiles.contains(name) {
        Some("profile_settings.name_exists"@)
    } else if name == DEFAULT_KEY@ {
        Some("profile_settings.name_reserved"@)
    } else {
        None
    }
}

/// The settings with which a new profile starts.
pub open spec fn new_settings(a: Menus) -> Settings {
    if a.is_clone && a.clone_args is Some {
        a.clone_args->0
    } else {
        crate::args::default_settings()
    }
}

/// Whether a key leads from one state of the entry of a name to another.
pub open spec fn name_keyed(a: Menus, p: Profiles, key: Key, b: Menus, step: MenuStep) -> bool {
    match key {
        Key::Enter => match name_refusal(a) {
            Some(why) => step is Stay && b == (Menus { status: Some(note(why)), ..a }),
            None => b == a && (step matches MenuStep::Save(Saving::Added(n, args), q) && n@
                == crate::text::trim(a.name_buf) && args@ == new_settings(a) && q.wf() && q@
                == p@.insert(crate::text::trim(a.name_buf), new_settings(a))),
        },
        Key::Esc => step is Stay && b == (Menus { screen: MenuScreen::ProfileSet, ..a }),
        Key::Backspace => step is Stay && b == (Menus {
            name_buf: if a.name_buf.len() > 0 {
                a.name_buf.drop_last()
            } else {
                a.name_buf
            },
            ..a
        }),
        Key::Char('q') => quits(step) && b == a,
        Key::Char(c) => step is Stay && b == (Menus {
            name_buf: if crate::text::is_word_char(c) || c == '_' || c == '-' {
                a.name_buf.push(c)
            } else {
                a.name_buf
            },
            ..a
        }),
        _ => step is Stay && b == a,
    }
}

/// What a key does in the entry of a name.
pub fn handle_name_prompt_key(menu: &mut Menu, key: Key, p: &Profiles) -> (r: MenuStep)
    requires
        old(menu)@.wf(),
        old(menu)@.screen is NamePrompt,
        p.wf(),
    ensures
        final(menu)@.wf(),
        name_keyed(old(menu)@, *p, key, final(menu)@, r),
{
    match key {
        Key::Enter => {
            let name = trimmed(menu.name_prompt_buf.as_str());
            if crate::text::chars_of(name.as_str()).len() == 0 {
                menu.status_msg = Some(message("profile_settings.name_empty"));
                return MenuStep::Stay;
            }
            if listed(&menu.profiles, name.as_str()) {
                menu.status_msg = Some(message("profile_settings.name_exists"));
                return MenuStep::Stay;
            }
            if same(name.as_str(), DEFAULT_KEY) {
                menu.status_msg = Some(message("profile_settings.name_reserved"));
                return MenuStep::Stay;
            }
            let args: Args = if menu.name_prompt_is_clone {
                match &menu.name_prompt_clone_args {
                    Some(a) => a.clone(),
                    None => Args::default(),
                }
            } else {
                Args::default()
            };
            let mut q = copy_profiles(p);
            q.put(name.as_str(), args.clone());
            return MenuStep::Save(Saving::Added(name, args), q);
        },
        Key::Esc => {
            menu.menu_screen = MenuScreen::ProfileSet;
        },
        Key::Backspace => {
            menu.name_prompt_buf.pop();
        },
        Key::Char('q') => {
            return quit();
        },
        Key::Char(c) => {
            if word_char(c) || c == '_' || c == '-' {
                menu.name_prompt_buf.push(c);
            }
        },
        _ => {},
    }
    MenuStep::Stay
}

/// Whether the menus go from one state to another when something was saved, with
/// the profiles as they are then, or could not be, for a reason; and what else is
/// to be written.
pub open spec fn after_saving(
    a: Menus,
    saving: Saving,
    outcome: Result<Profiles, String>,
    b: Menus,
    more: Option<Profiles>,
) -> bool {
    match (saving, outcome) {
        (Saving::Default(name), Ok(_)) => more is None && b == (Menus {
            default: Some(name@),
            selected: Some(name@),
            status: Some(note1("profile_settings.set_success"@, "name"@, name@)),
            ..a
        }),
        (Saving::Default(_), Err(_)) => more is None && b == (Menus {
            status: Some(note("profile_settings.set_fail"@)),
            ..a
        }),
        (Saving::Removal(name), Ok(q)) => {
            let last = if b.profiles.len() > 0 {
                b.profiles.len() - 1
            } else {
                0
            };
            &&& crate::listing::is_sorted_copy(
                b.profiles,
                crate::profile::entry_names(q.entries@),
            )
            &&& b == (Menus {
                profiles: b.profiles,
                idx: if a.idx < last {
                    a.idx
                } else {
                    last
                },
                default: if a.default == Some(name@) {
                    None
                } else {
                    a.default
                },
                status: Some(note1("profile_settings.delete_success"@, "name"@, name@)),
                ..a
            })
            &&& if a.default == Some(name@) {
                more matches Some(m) && m.wf() && m@ == q@.insert(
                    DEFAULT_KEY@,
                    crate::profile::default_mark(Seq::empty()),
                )
            } else {
                more is None
            }
        },
        (Saving::Removal(_), Err(_)) => more is None && b == (Menus {
            status: Some(note("profile_settings.delete_fail"@)),
            ..a
        }),
        (Saving::Edited(name), Ok(_)) => more is None && exists|i: int| #[trigger]
            is_place(a.profiles, Some(name@), i) && b == (Menus {
                screen: MenuScreen::ProfileSet,
                idx: i,
                edit_name: None,
                edit_args: None,
                status: Some(note1("profile_edit.save_success"@, "name"@, name@)),
                ..a
            }),
        (Saving::Added(name, args), Ok(q)) => {
            &&& more is None
            &&& crate::listing::is_sorted_copy(
                b.profiles,
                crate::profile::entry_names(q.entries@),
            )
            &&& b == (Menus {
                profiles: b.profiles,
                edit_name: Some(name@),
                edit_args: Some(args@),
                idx: 0,
                editing: false,
                field_buf: Seq::empty(),
                screen: MenuScreen::ProfileEdit,
                status: Some(note1("profile_settings.add_success"@, "name"@, name@)),
                ..a
            })
        },
        (Saving::Edited(_), Err(why)) | (Saving::Added(_, _), Err(why)) => more is None && b == (
        Menus { status: Some(text(why@)), ..a }),
    }
}

/// Goes on after something was saved, or could not be. Gives the profiles that
/// are to be written besides, whether that succeeds or not.
pub fn saved(menu: &mut Menu, saving: Saving, outcome: Result<Profiles, String>) -> (r: Option<
    Profiles,
>)
    requires
        old(menu)@.wf(),
        outcome matches Ok(q) ==> q.wf(),
        saving is Removal ==> !(old(menu)@.screen is ProfileEdit),
    ensures
        final(menu)@.wf(),
        after_saving(old(menu)@, saving, outcome, final(menu)@, r),
{
    match (saving, outcome) {
        (Saving::Default(name), Ok(_)) => {
            menu.default_profile = Some(name.clone());
            menu.selected_profile = Some(name.clone());
            menu.status_msg = Some(message1("profile_settings.set_success", "name", name));
            None
        },
        (Saving::Default(_), Err(_)) => {
            menu.status_msg = Some(message("profile_settings.set_fail"));
            None
        },
        (Saving::Removal(name), Ok(q)) => {
            menu.profiles = load_profile_list(&q);
            let count: usize = menu.profiles.len();
            let last: usize = if count > 0 {
                count - 1
            } else {
                0
            };
            if menu.menu_list_idx > last {
                menu.menu_list_idx = last;
            }
            let was_default: bool = match &menu.default_profile {
                Some(d) => same(d.as_str(), name.as_str()),
                None => false,
            };
            menu.status_msg = Some(message1("profile_settings.delete_success", "name", name));
            if was_default {
                menu.default_profile = None;
                let mut m = copy_profiles(&q);
                let empty = String::new();
                assert(empty@ =~= Seq::<char>::empty());
                crate::profile::save_default_profile(&mut m, empty.as_str());
                Some(m)
            } else {
                None
            }
        },
        (Saving::Removal(_), Err(_)) => {
            menu.status_msg = Some(message("profile_settings.delete_fail"));
            None
        },
        (Saving::Edited(name), Ok(_)) => {
            let sought = Some(name.clone());
            let i: usize = place_or_zero(&menu.profiles, &sought);
            menu.menu_screen = MenuScreen::ProfileSet;
            menu.menu_list_idx = i;
            menu.edit_profile_name = None;
            menu.edit_args = None;
            menu.status_msg = Some(message1("profile_edit.save_success", "name", name));
            None
        },
        (Saving::Added(name, args), Ok(q)) => {
            menu.profiles = load_profile_list(&q);
            menu.edit_profile_name = Some(name.clone());
            menu.edit_args = Some(args);
            menu.menu_list_idx = 0;
            menu.field_edit_mode = false;
            menu.field_edit_buf = String::new();
            menu.menu_screen = MenuScreen::ProfileEdit;
            menu.status_msg = Some(message1("profile_settings.add_success", "name", name));
            None
        },
        (Saving::Edited(_), Err(why)) => {
            menu.status_msg = Some(Piece::Text(why));
            None
        },
        (Saving::Added(_, _), Err(why)) => {
            menu.status_msg = Some(Piece::Text(why));
            None
        },
    }
}

/// The menus with which the program starts. The first profile is the default one
/// until another is known.
pub open spec fn first_menus(profiles: Seq<Seq<char>>, ports: Seq<Seq<char>>) -> Menus {
    let first = if profiles.len() > 0 {
        Some(profiles[0])
    } else {
        None
    };
    Menus {
        screen: MenuScreen::Main,
        idx: 0,
        profiles,
        selected: first,
        pending: None,
        default: first,
        pick_names: Seq::empty(),
        pick_briefs: Seq::empty(),
        edit_name: None,
        edit_args: None,
        field_buf: Seq::empty(),
        editing: false,
        ports,
        port: 0,
        name_buf: Seq::empty(),
        is_clone: false,
        clone_args: None,
        status: None,
        logo: 0,
    }
}

/// How far the logo comes up.
pub const LOGO_FRAMES: u8 = 30;

impl Menu {
    /// The menus with which the program starts.
    pub fn new(profiles: Vec<String>, serial_ports: Vec<String>) -> (r: Menu)
        ensures
            r@ == first_menus(crate::text::texts(profiles@), crate::text::texts(serial_ports@)),
            r@.wf(),
    {
        let (first, again): (Option<String>, Option<String>) = if profiles.len() > 0 {
            (Some(profiles[0].clone()), Some(profiles[0].clone()))
        } else {
            (None, None)
        };
        let r = Menu {
            menu_screen: MenuScreen::Main,
            menu_list_idx: 0,
            profiles,
            selected_profile: first,
            pending_mode: None,
            default_profile: again,
            pick: PickList { names: Vec::new(), briefs: Vec::new() },
            edit_profile_name: None,
            edit_args: None,
            field_edit_buf: String::new(),
            field_edit_mode: false,
            serial_ports,
            serial_port_idx: 0,
            name_prompt_buf: String::new(),
            name_prompt_is_clone: false,
            name_prompt_clone_args: None,
            status_msg: None,
            logo_frame: 0,
        };
        assert(r@.pick_names =~= Seq::<Seq<char>>::empty());
        assert(r@.pick_briefs =~= Seq::<Seq<char>>::empty());
        r
    }

    /// Takes the default profile that is kept with the profiles, if there is one
    /// of that name.
    pub fn take_default(&mut self, p: &Profiles)
        requires
            p.wf(),
        ensures
            ({
                let kept = p@[DEFAULT_KEY@].main_mode;
                if p@.contains_key(DEFAULT_KEY@) && old(self)@.profiles.contains(kept) {
                    final(self)@ == (Menus {
                        default: Some(kept),
                        selected: Some(kept),
                        ..old(self)@
                    })
                } else {
                    final(self)@ == old(self)@
                }
            }),
    {
        match crate::profile::load_default_profile(p) {
            Some(d) => {
                if listed(&self.profiles, d.as_str()) {
                    self.default_profile = Some(d.clone());
                    self.selected_profile = Some(d);
                }
            },
            None => {},
        }
    }

    /// Brings the logo up by a step.
    pub fn tick(&mut self)
        ensures
            final(self)@ == (Menus {
                logo: if old(self)@.logo < LOGO_FRAMES {
                    old(self)@.logo + 1
                } else {
                    old(self)@.logo
                },
                ..old(self)@
            }),
    {
        if self.logo_frame < LOGO_FRAMES {
            self.logo_frame = self.logo_frame + 1;
        }
    }

    /// What a key does in the menu that is shown.
    pub fn handle_key(&mut self, key: Key, p: &Profiles) -> (r: MenuStep)
        requires
            old(self)@.wf(),
            p.wf(),
        ensures
            final(self)@.wf(),
            match old(self)@.screen {
                MenuScreen::Main => main_keyed(old(self)@, *p, key, *final(self), r),
                MenuScreen::ProfilePick => pick_keyed(old(self)@, key, final(self)@, r),
                MenuScreen::ProfileSet => set_keyed(old(self)@, *p, key, final(self)@, r),
                MenuScreen::ProfileEdit => if old(self)@.editing {
                    r is Stay && entry_keyed(old(self)@, key, final(self)@)
                } else {
                    fields_keyed(old(self)@, *p, key, final(self)@, r)
                },
                MenuScreen::NamePrompt => name_keyed(old(self)@, *p, key, final(self)@, r),
            },
    {
        match self.menu_screen {
            MenuScreen::Main => handle_main_menu_key(self, key, p),
            MenuScreen::ProfilePick => handle_profile_pick_key(self, key),
            MenuScreen::ProfileSet => handle_profile_set_key(self, key, p),
            MenuScreen::ProfileEdit => handle_profile_edit_key(self, key, p),
            MenuScreen::NamePrompt => handle_name_prompt_key(self, key, p),
        }
    }
}

/// A profile is removed only when the same key is pressed twice on it: the first
/// time it is asked, and nothing is saved.
pub proof fn law_removal_is_confirmed(a: Menus, p: Profiles, b: Menus, step: MenuStep)
    requires
        set_keyed(a, p, Key::Char('d'), b, step),
        step is Save,
    ensures
        0 <= a.idx ==> a.status == Some(confirm(a.profiles[a.idx])),
{
}

/// In the menu of profiles for a mode a marked line stays within the list, and
/// what is chosen is one of the profiles that are offered, or none where there
/// are none.
pub proof fn law_choice_is_offered(a: Menus, b: Menus, sel: MenuSelection)
    requires
        pick_keyed(a, Key::Enter, b, MenuStep::Select(sel)),
        0 <= a.idx,
        a.pick_names.len() > 0 ==> a.idx < a.pick_names.len(),
    ensures
        match sel.profile_name {
            Some(name) => a.pick_names.contains(name@),
            None => a.pick_names.len() == 0,
        },
{
}

/// The marked line stays within the list of profiles for a mode, whatever key is
/// pressed.
pub proof fn law_mark_stays_in_list(a: Menus, key: Key, b: Menus, step: MenuStep)
    requires
        pick_keyed(a, key, b, step),
        0 <= a.idx,
        a.pick_names.len() > 0 ==> a.idx < a.pick_names.len(),
    ensures
        b.pick_names == a.pick_names,
        0 <= b.idx,
        a.pick_names.len() > 0 ==> b.idx < a.pick_names.len(),
{
}

} // verus!

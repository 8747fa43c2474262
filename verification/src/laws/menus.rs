//! The menus: what keys do in them, and what stands there.
use crate::args::{MainMode, Settings};
use crate::field::{
    field_applied, field_key, field_list, field_text, flow_kept, parity_kept, scope_of,
    ProfileField,
};
use crate::menu::{
    after_saving, entry_keyed, fields_keyed, first_menus, main_keyed, mode_at, name_keyed,
    name_refusal, new_settings, pick_keyed, set_keyed, Key, Menu, MenuScreen, MenuStep, Menus,
    Saving,
};
use crate::message::{Note, Part, Said};
use crate::numeral::{decimal, padded};
use crate::profile::Profiles;
use crate::text::{lowered, trim};
use vstd::prelude::*;

verus! {

/// A message with one text in it.
pub open spec fn note_on(key: Seq<char>, name: Seq<char>, value: Seq<char>) -> Option<Part> {
    Some(Part::Note(Note { key, args: seq![(name, Said::Text(value))] }))
}

/// A message without words.
pub open spec fn bare(key: Seq<char>) -> Option<Part> {
    Some(Part::Note(Note { key, args: Seq::empty() }))
}

/// Whether a key ends the program.
pub open spec fn ends_program(step: MenuStep) -> bool {
    step matches MenuStep::Select(sel) && sel.quit
}

/// The lines of the main menu stand for the modes: servers and clients, then monitors.
pub proof fn law_main_menu_has_modes(i: int)
    ensures
        mode_at(0) == Some(MainMode::TcpServer) && mode_at(1) == Some(MainMode::TcpClient),
        mode_at(2) == Some(MainMode::RTUServer) && mode_at(3) == Some(MainMode::RTUClient),
        mode_at(4) == Some(MainMode::TcpMonitor) && mode_at(5) == Some(MainMode::RtuMonitor),
        i < 0 || i > 5 ==> mode_at(i) is None,
{
}

/// In the main menu the mark moves over seven lines; a line is chosen where the mark is,
/// or by its number: a mode leads to its profiles, the last to all profiles.
#[verifier::spinoff_prover]
pub proof fn law_main_menu_keys(a: Menus, p: Profiles, key: Key, b: Menu, step: MenuStep)
    requires
        main_keyed(a, p, key, b, step),
        0 <= a.idx < 7,
    ensures
        key is Up && a.idx > 0 ==> b@ == (Menus { idx: a.idx - 1, ..a }),
        key is Up && a.idx == 0 ==> b@ == a,
        key is Down && a.idx < 6 ==> b@ == (Menus { idx: a.idx + 1, ..a }),
        key is Down && a.idx == 6 ==> b@ == a,
        ends_program(step) <==> key == Key::Char('q'),
        !ends_program(step) ==> step is Stay,
        key == Key::Char('q') || key is Esc || key is Tab || key is Backspace || key is Other
            ==> b@ == a,
        ({
            let line = match key {
                Key::Enter => a.idx,
                Key::Char(c) => c as int - '1' as int,
                _ => -1,
            };
            &&& 0 <= line < 6 ==> b@.screen is ProfilePick && b@.idx == 0 && b@.pending == Some(
                if line == 0 {
                    MainMode::TcpServer
                } else if line == 1 {
                    MainMode::TcpClient
                } else if line == 2 {
                    MainMode::RTUServer
                } else if line == 3 {
                    MainMode::RTUClient
                } else if line == 4 {
                    MainMode::TcpMonitor
                } else {
                    MainMode::RtuMonitor
                },
            ) && crate::profile::lists(p, b@.pending, false, b.pick)
            &&& line == 6 ==> b@ == (Menus { screen: MenuScreen::ProfileSet, idx: 0, ..a })
            &&& line == 7 || line == 8 ==> b@ == a
        }),
{
}

/// In the menu of profiles for a mode the mark moves over the profiles, and the marked
/// one is chosen for the mode.
#[verifier::spinoff_prover]
pub proof fn law_pick_menu_keys(a: Menus, key: Key, b: Menus, step: MenuStep)
    requires
        pick_keyed(a, key, b, step),
        0 <= a.idx < a.pick_names.len(),
    ensures
        key is Up && a.idx > 0 ==> b == (Menus { idx: a.idx - 1, ..a }),
        key is Down && a.idx + 1 < a.pick_names.len() ==> b == (Menus { idx: a.idx + 1, ..a }),
        key is Up && a.idx == 0 || key is Down && a.idx + 1 == a.pick_names.len() ==> b == a,
        key is Esc ==> b == (Menus { screen: MenuScreen::Main, ..a }) && step is Stay,
        key is Enter ==> (step matches MenuStep::Select(sel) && !sel.quit && (sel.profile_name
            matches Some(n) && n@ == a.pick_names[a.idx]) && (a.pending is Some ==> sel.main_mode
            == a.pending->0) && (a.pending is None ==> sel.main_mode is TcpClient)),
        key is Enter ==> b == (Menus { selected: Some(a.pick_names[a.idx]), ..a }),
        ends_program(step) <==> key == Key::Char('q'),
        step is Save ==> false,
{
}

/// In the menu of all profiles the marked one can be made the default, edited, copied,
/// and, when that is asked twice, removed; and a new one can be added.
#[verifier::spinoff_prover]
pub proof fn law_profile_menu_keys(a: Menus, p: Profiles, key: Key, b: Menus, step: MenuStep)
    requires
        set_keyed(a, p, key, b, step),
        0 <= a.idx < a.profiles.len(),
        p@.contains_key(a.profiles[a.idx]),
    ensures
        ({
            let name = a.profiles[a.idx];
            let asked = a.status == note_on("profile_settings.delete_confirm"@, "name"@, name);
            &&& key is Up && a.idx > 0 ==> b == (Menus { idx: a.idx - 1, ..a })
            &&& key is Down && a.idx + 1 < a.profiles.len() ==> b == (Menus { idx: a.idx + 1, ..a })
            &&& key is Esc ==> b == (Menus { screen: MenuScreen::Main, ..a }) && step is Stay
            &&& key is Enter ==> b == a && (step matches MenuStep::Save(Saving::Default(n), q)
                && n@ == name && q@.contains_key("__default__"@) && q@["__default__"@].main_mode
                == name && q@.remove("__default__"@) == p@.remove("__default__"@))
            &&& key == Key::Char('e') ==> step is Stay && b.screen is ProfileEdit && b.edit_name
                == Some(name) && b.edit_args == Some(p@[name]) && b.idx == 0 && !b.editing
            &&& key == Key::Char('a') ==> step is Stay && b.screen is NamePrompt && !b.is_clone
                && b.clone_args is None && b.name_buf.len() == 0
            &&& key == Key::Char('c') ==> step is Stay && b.screen is NamePrompt && b.is_clone
                && b.clone_args == Some(p@[name]) && b.name_buf.len() == 0
            &&& key == Key::Char('d') && !asked ==> step is Stay && b == (Menus {
                status: note_on("profile_settings.delete_confirm"@, "name"@, name),
                ..a
            })
            &&& key == Key::Char('d') && asked ==> b == a && (step matches MenuStep::Save(
                Saving::Removal(n),
                q,
            ) && n@ == name && q@ == p@.remove(name))
            &&& ends_program(step) <==> key == Key::Char('q')
        }),
{
    let name = a.profiles[a.idx];
    assert(crate::profile::DEFAULT_KEY@ == "__default__"@);
    if key is Enter {
        let d = crate::profile::default_mark(name);
        assert(p@.insert("__default__"@, d).remove("__default__"@) =~= p@.remove("__default__"@));
    }
}

/// In the menu of fields the mark moves over eleven; the marked one is entered from what
/// it shows; and the settings are saved under the name of the profile.
#[verifier::spinoff_prover]
pub proof fn law_field_menu_keys(a: Menus, p: Profiles, key: Key, b: Menus, step: MenuStep)
    requires
        fields_keyed(a, p, key, b, step),
        0 <= a.idx < 11,
        a.edit_args is Some,
    ensures
        key is Up && a.idx > 0 ==> b == (Menus { idx: a.idx - 1, ..a }),
        key is Down && a.idx < 10 ==> b == (Menus { idx: a.idx + 1, ..a }),
        key is Down && a.idx == 10 || key is Up && a.idx == 0 ==> b == a,
        key is Enter ==> step is Stay && b.editing && b.field_buf == field_text(
            field_list()[a.idx],
            a.edit_args->0,
        ) && b.edit_args == a.edit_args && b.idx == a.idx,
        key == Key::Char('s') && a.edit_name is Some ==> b == a && (step matches MenuStep::Save(
            Saving::Edited(n),
            q,
        ) && n@ == a.edit_name->0 && q@ == p@.insert(a.edit_name->0, a.edit_args->0)),
        key is Esc ==> step is Stay && b.screen is ProfileSet && b.edit_name is None && b.edit_args
            is None,
        key is Esc && (a.edit_name matches Some(n) && a.profiles.contains(n)) ==> 0 <= b.idx
            < a.profiles.len() && a.profiles[b.idx] == a.edit_name->0,
        ends_program(step) <==> key == Key::Char('q'),
{
}

/// While a field is entered, characters go to its end, a key takes the last one away, and
/// one leaves the field as it was.
#[verifier::spinoff_prover]
pub proof fn law_field_entry_keys(a: Menus, key: Key, b: Menus)
    requires
        entry_keyed(a, key, b),
        0 <= a.idx < 11,
        a.edit_args is Some,
        0 <= a.port,
        a.ports.len() > 0 ==> a.port < a.ports.len(),
    ensures
        key matches Key::Char(c) ==> b == (Menus { field_buf: a.field_buf.push(c), ..a }),
        key is Backspace && a.field_buf.len() > 0 ==> b == (Menus {
            field_buf: a.field_buf.drop_last(),
            ..a
        }),
        key is Esc ==> !b.editing && b.field_buf.len() == 0 && b.edit_args == a.edit_args
            && b.status == bare("profile_edit.edit_cancelled"@),
        (key is Tab || key is Down || key is Up) && (a.idx != 5 || a.ports.len() == 0) ==> b == a,
        (key is Tab || key is Down) && a.idx == 5 && a.ports.len() > 0 ==> b == (Menus {
            port: b.port,
            field_buf: a.ports[b.port],
            ..a
        }) && (a.port + 1 < a.ports.len() ==> b.port == a.port + 1) && (a.port + 1 == a.ports.len()
            ==> b.port == 0),
        key is Up && a.idx == 5 && a.ports.len() > 0 ==> b == (Menus {
            port: b.port,
            field_buf: a.ports[b.port],
            ..a
        }) && (a.port > 0 ==> b.port == a.port - 1) && (a.port == 0 ==> b.port == a.ports.len()
            - 1),
{
}

/// An entry of a number of data bits, say, is taken over if the field accepts it, and
/// else the entry stays and it is said why.
#[verifier::spinoff_prover]
pub proof fn law_field_entry_is_taken(a: Menus, b: Menus, n: nat)
    requires
        entry_keyed(a, Key::Enter, b),
        a.idx == 9,
        a.edit_args is Some,
        a.field_buf == decimal(n),
    ensures
        5 <= n <= 8 ==> b.edit_args == Some(Settings { databits: n as u8, ..a.edit_args->0 })
            && !b.editing && b.status == bare("profile_edit.field_updated"@),
        n < 5 || n > 8 ==> b.edit_args == a.edit_args && b.editing == a.editing && b.field_buf
            == a.field_buf,
{
    let (s, r) = choose|s: Settings, r: Result<(), Seq<char>>| #[trigger]
        field_applied(field_list()[a.idx], a.edit_args->0, a.field_buf, s, r) && match r {
            Ok(_) => b == (Menus {
                edit_args: Some(s),
                editing: false,
                field_buf: Seq::empty(),
                status: Some(crate::message::note("profile_edit.field_updated"@)),
                ..a
            }),
            Err(e) => b == (Menus { status: Some(crate::message::text(e)), ..a }),
        };
    assert(field_list()[9] is Databits);
    law_number_is_put_into_field(ProfileField::Databits, a.edit_args->0, n, s, r);
}

/// The fields in their order.
pub proof fn law_fields_stand_in_order(i: int)
    ensures
        field_list().len() == 11,
        field_list()[0] is MainMode && field_list()[1] is TcpPort && field_list()[2] is Unit
            && field_list()[3] is HoldingCount && field_list()[4] is ClientTickMs,
        field_list()[5] is Device && field_list()[6] is Baudrate && field_list()[7] is Parity
            && field_list()[8] is Flow && field_list()[9] is Databits && field_list()[10]
            is Stopbits,
{
}

/// Each field is called by its own message, and matters for all modes, over TCP or on a
/// serial line.
pub proof fn law_fields_have_names(f: ProfileField)
    ensures
        match f {
            ProfileField::MainMode => field_key(f) == "profile_edit.main_mode"@ && scope_of(f)
                is All,
            ProfileField::TcpPort => field_key(f) == "profile_edit.tcp_port"@ && scope_of(f) is Tcp,
            ProfileField::Unit => field_key(f) == "profile_edit.unit"@ && scope_of(f) is All,
            ProfileField::HoldingCount => field_key(f) == "profile_edit.holding_count"@ && scope_of(
                f,
            ) is All,
            ProfileField::ClientTickMs => field_key(f) == "profile_edit.client_tick_ms"@
                && scope_of(f) is All,
            ProfileField::Device => field_key(f) == "profile_edit.device"@ && scope_of(f) is Rtu,
            ProfileField::Baudrate => field_key(f) == "profile_edit.baudrate"@ && scope_of(f)
                is Rtu,
            ProfileField::Parity => field_key(f) == "profile_edit.parity"@ && scope_of(f) is Rtu,
            ProfileField::Flow => field_key(f) == "profile_edit.flow"@ && scope_of(f) is Rtu,
            ProfileField::Databits => field_key(f) == "profile_edit.databits"@ && scope_of(f)
                is Rtu,
            ProfileField::Stopbits => field_key(f) == "profile_edit.stopbits"@ && scope_of(f)
                is Rtu,
        },
{
}

/// A field shows the setting that it is of: a text as it is, a number in decimal digits.
pub proof fn law_fields_show_settings(a: Settings)
    ensures
        field_text(ProfileField::MainMode, a) == a.main_mode,
        field_text(ProfileField::TcpPort, a) == decimal(a.tcp_port as nat),
        field_text(ProfileField::Unit, a) == decimal(a.unit as nat),
        field_text(ProfileField::HoldingCount, a) == decimal(a.holding_count as nat),
        field_text(ProfileField::ClientTickMs, a) == decimal(a.client_tick_ms as nat),
        field_text(ProfileField::Device, a) == a.device,
        field_text(ProfileField::Baudrate, a) == decimal(a.baudrate as nat),
        field_text(ProfileField::Parity, a) == a.parity,
        field_text(ProfileField::Flow, a) == a.flow,
        field_text(ProfileField::Databits, a) == decimal(a.databits as nat),
        field_text(ProfileField::Stopbits, a) == decimal(a.stopbits as nat),
{
}

/// A number is accepted in a field if and only if its setting can hold it, and for data
/// and stop bits if there are so many; then the setting is that number, and no other
/// setting changes.
#[verifier::spinoff_prover]
pub proof fn law_number_is_put_into_field(
    f: ProfileField,
    a: Settings,
    n: nat,
    b: Settings,
    r: Result<(), Seq<char>>,
)
    requires
        field_applied(f, a, decimal(n), b, r),
    ensures
        r is Err ==> b == a || f is MainMode,
        f is TcpPort ==> (r is Ok <==> n <= 65535) && (r is Ok ==> b == (Settings {
            tcp_port: n as u16,
            ..a
        })),
        f is Unit ==> (r is Ok <==> n <= 255) && (r is Ok ==> b == (Settings {
            unit: n as u8,
            ..a
        })),
        f is HoldingCount ==> (r is Ok <==> n <= usize::MAX) && (r is Ok ==> b == (Settings {
            holding_count: n as usize,
            ..a
        })),
        f is ClientTickMs ==> (r is Ok <==> n <= u64::MAX) && (r is Ok ==> b == (Settings {
            client_tick_ms: n as u64,
            ..a
        })),
        f is Baudrate ==> (r is Ok <==> n <= u32::MAX) && (r is Ok ==> b == (Settings {
            baudrate: n as u32,
            ..a
        })),
        f is Databits ==> (r is Ok <==> 5 <= n <= 8) && (r is Ok ==> b == (Settings {
            databits: n as u8,
            ..a
        })),
        f is Stopbits ==> (r is Ok <==> 1 <= n <= 2) && (r is Ok ==> b == (Settings {
            stopbits: n as u8,
            ..a
        })),
        f is Device ==> r is Ok && b == (Settings { device: decimal(n), ..a }),
{
    let d = decimal(n);
    crate::numeral::lemma_numeral(n, 10);
    crate::numeral::lemma_digits_plain(d, 10, 0);
    crate::numeral::lemma_digits_plain(d, 10, d.len() - 1);
    crate::text::lemma_trim_plain(d);
    crate::laws::numbers::law_written_number_is_read(n, 10, 0, crate::field::field_max(f));
    assert(padded(n, 10, 0) =~= d);
}

/// What is no number is refused where one is wanted, and nothing changes.
pub proof fn law_no_number_is_refused(
    f: ProfileField,
    a: Settings,
    v: Seq<char>,
    b: Settings,
    r: Result<(), Seq<char>>,
)
    requires
        field_applied(f, a, v, b, r),
        !(f is MainMode || f is Device || f is Parity || f is Flow),
        crate::numeral::unsigned_of(trim(v), 10, crate::field::field_max(f)) is None,
    ensures
        b == a,
        f is TcpPort ==> r == Err::<(), Seq<char>>("TCP端口 必须是有效数字"@),
        f is Unit ==> r == Err::<(), Seq<char>>("从站地址 必须是有效数字"@),
        f is HoldingCount ==> r == Err::<(), Seq<char>>("寄存器数 必须是有效数字"@),
        f is ClientTickMs ==> r == Err::<(), Seq<char>>("轮询间隔 必须是有效数字"@),
        f is Baudrate ==> r == Err::<(), Seq<char>>("波特率 必须是有效数字"@),
        f is Databits ==> r == Err::<(), Seq<char>>("数据位必须是数字"@),
        f is Stopbits ==> r == Err::<(), Seq<char>>("停止位必须是数字"@),
{
}

/// A mode is put into its field by its name or its two letters, and is kept by its name.
pub proof fn law_mode_is_put_into_field(
    a: Settings,
    v: Seq<char>,
    m: MainMode,
    b: Settings,
    r: Result<(), Seq<char>>,
)
    requires
        field_applied(ProfileField::MainMode, a, v, b, r),
    ensures
        lowered(trim(v)) == crate::args::mode_name(m) || lowered(trim(v)) == crate::args::mode_mark(
            m,
        ) ==> r is Ok && b == (Settings { main_mode: crate::args::mode_name(m), ..a }),
        r is Err ==> b == a,
{
    let t = lowered(trim(v));
    if crate::args::stands_for_mode(t, m) {
        if r is Ok {
            let k = choose|k: MainMode| #[trigger]
                crate::args::stands_for_mode(t, k) && b == (Settings {
                    main_mode: crate::args::mode_name(k),
                    ..a
                });
            crate::args::lemma_mode_texts();
            assert(stands_both(t, m, k));
        }
    }
}

spec fn stands_both(t: Seq<char>, m: MainMode, k: MainMode) -> bool {
    crate::args::stands_for_mode(t, m) && crate::args::stands_for_mode(t, k) && m == k
}

/// Parity and flow control are kept by their short names.
pub proof fn law_line_settings_are_kept(t: Seq<char>)
    ensures
        t == "n"@ || t == "none"@ ==> parity_kept(t) == Some("n"@),
        t == "e"@ || t == "even"@ ==> parity_kept(t) == Some("e"@),
        t == "o"@ || t == "odd"@ ==> parity_kept(t) == Some("o"@),
        parity_kept(t) is Some ==> t == "n"@ || t == "none"@ || t == "e"@ || t == "even"@ || t
            == "o"@ || t == "odd"@,
        t == "none"@ ==> flow_kept(t) == Some("none"@),
        t == "hard"@ || t == "hardware"@ ==> flow_kept(t) == Some("hard"@),
        t == "soft"@ || t == "software"@ ==> flow_kept(t) == Some("soft"@),
        flow_kept(t) is Some ==> t == "none"@ || t == "hard"@ || t == "hardware"@ || t == "soft"@
            || t == "software"@,
{
    reveal_strlit("n");
    reveal_strlit("none");
    reveal_strlit("e");
    reveal_strlit("even");
    reveal_strlit("o");
    reveal_strlit("odd");
    reveal_strlit("hard");
    reveal_strlit("hardware");
    reveal_strlit("soft");
    reveal_strlit("software");
    assert("n"@[0] == 'n' && "none"@[0] == 'n' && "e"@[0] == 'e' && "even"@[0] == 'e' && "o"@[0]
        == 'o' && "odd"@[0] == 'o');
    assert("hard"@[0] == 'h' && "hardware"@[0] == 'h' && "soft"@[0] == 's' && "software"@[0]
        == 's');
}

/// A name is refused for a new profile if it is empty, taken or kept for the default one.
pub proof fn law_names_are_refused(a: Menus)
    ensures
        ({
            let name = trim(a.name_buf);
            let taken = a.profiles.contains(name);
            &&& name_refusal(a) is None <==> name.len() > 0 && !taken && name != "__default__"@
            &&& name.len() == 0 ==> name_refusal(a) == Some("profile_settings.name_empty"@)
            &&& name.len() > 0 && taken ==> name_refusal(a) == Some(
                "profile_settings.name_exists"@,
            )
            &&& name == "__default__"@ && !taken ==> name_refusal(a) == Some(
                "profile_settings.name_reserved"@,
            )
        }),
{
    reveal_strlit("__default__");
    assert(crate::profile::DEFAULT_KEY@ == "__default__"@);
}

/// A new profile is added under its name, with the settings of the one that was copied,
/// or with those where nothing was said.
#[verifier::spinoff_prover]
pub proof fn law_name_menu_keys(a: Menus, p: Profiles, key: Key, b: Menus, step: MenuStep)
    requires
        name_keyed(a, p, key, b, step),
    ensures
        key is Enter && name_refusal(a) is None ==> b == a && (step matches MenuStep::Save(
            Saving::Added(n, args),
            q,
        ) && n@ == trim(a.name_buf) && args@ == new_settings(a) && q@ == p@.insert(
            trim(a.name_buf),
            new_settings(a),
        )),
        key is Enter && name_refusal(a) is Some ==> step is Stay && b == (Menus {
            status: bare(name_refusal(a)->0),
            ..a
        }),
        a.is_clone && a.clone_args is Some ==> new_settings(a) == a.clone_args->0,
        !a.is_clone ==> new_settings(a) == crate::args::default_settings(),
        key is Esc ==> step is Stay && b == (Menus { screen: MenuScreen::ProfileSet, ..a }),
        key is Backspace && a.name_buf.len() > 0 ==> b == (Menus {
            name_buf: a.name_buf.drop_last(),
            ..a
        }),
        key matches Key::Char(c) && c != 'q' && ('a' <= c <= 'z' || 'A' <= c <= 'Z' || '0' <= c
            <= '9' || c == '_' || c == '-') ==> step is Stay && b == (Menus {
            name_buf: a.name_buf.push(key->Char_0),
            ..a
        }),
        key matches Key::Char(c) && (c == ' ' || c == '/' || c == '.') ==> step is Stay && b == a,
        ends_program(step) <==> key == Key::Char('q'),
{
}

/// What the menus are after something was saved: the default profile is another; a
/// removed profile is gone, also as the default one; an edited one is marked in the list;
/// and a new one is edited next.
#[verifier::spinoff_prover]
pub proof fn law_menus_after_saving(
    a: Menus,
    saving: Saving,
    q: Profiles,
    b: Menus,
    more: Option<Profiles>,
)
    requires
        after_saving(a, saving, Ok::<Profiles, String>(q), b, more),
    ensures
        match saving {
            Saving::Default(name) => more is None && b == (Menus {
                default: Some(name@),
                selected: Some(name@),
                status: note_on("profile_settings.set_success"@, "name"@, name@),
                ..a
            }),
            Saving::Removal(name) => crate::listing::is_sorted_copy(
                b.profiles,
                crate::profile::entry_names(q.entries@),
            ) && b.screen == a.screen && b.status == note_on(
                "profile_settings.delete_success"@,
                "name"@,
                name@,
            ) && (a.default == Some(name@) ==> b.default is None && (more matches Some(m)
                && m@.contains_key("__default__"@) && m@["__default__"@].main_mode.len() == 0)) && (
            a.default != Some(name@) ==> b.default == a.default && more is None) && (a.idx
                < b.profiles.len() ==> b.idx == a.idx) && (a.idx >= b.profiles.len()
                && b.profiles.len() > 0 ==> b.idx == b.profiles.len() - 1),
            Saving::Edited(name) => more is None && b.screen is ProfileSet && b.edit_name is None
                && b.edit_args is None && b.profiles == a.profiles && (a.profiles.contains(name@)
                ==> 0 <= b.idx < a.profiles.len() && a.profiles[b.idx] == name@) && b.status
                == note_on("profile_edit.save_success"@, "name"@, name@),
            Saving::Added(name, args) => crate::listing::is_sorted_copy(
                b.profiles,
                crate::profile::entry_names(q.entries@),
            ) && more is None && b.screen is ProfileEdit && b.edit_name
                == Some(name@) && b.edit_args == Some(args@) && b.idx == 0 && !b.editing
                && b.status == note_on("profile_settings.add_success"@, "name"@, name@),
        },
{
    assert(crate::profile::DEFAULT_KEY@ == "__default__"@);
}

/// What is said if something could not be saved; nothing else changes.
pub proof fn law_menus_after_failing(
    a: Menus,
    saving: Saving,
    why: String,
    b: Menus,
    more: Option<Profiles>,
)
    requires
        after_saving(a, saving, Err::<Profiles, String>(why), b, more),
    ensures
        more is None,
        b == (Menus { status: b.status, ..a }),
        saving is Default ==> b.status == bare("profile_settings.set_fail"@),
        saving is Removal ==> b.status == bare("profile_settings.delete_fail"@),
        saving is Edited || saving is Added ==> b.status == Some(Part::Text(why@)),
{
}

/// The menus start with the main menu on its first line, and the first profile is the
/// default one.
pub proof fn law_menus_start(profiles: Seq<Seq<char>>, ports: Seq<Seq<char>>)
    ensures
        ({
            let m = first_menus(profiles, ports);
            &&& m.screen is Main && m.idx == 0 && m.profiles == profiles && m.ports == ports
            &&& profiles.len() > 0 ==> m.default == Some(profiles[0]) && m.selected == Some(
                profiles[0],
            )
            &&& profiles.len() == 0 ==> m.default is None && m.selected is None
            &&& m.pending is None && m.edit_args is None && !m.editing && m.status is None && m.logo
                == 0 && m.port == 0
        }),
{
}

/// Where no profile is marked nothing happens to one; and one that cannot be read is not
/// edited or copied.
#[verifier::spinoff_prover]
pub proof fn law_only_known_profiles_are_edited(
    a: Menus,
    p: Profiles,
    key: Key,
    b: Menus,
    step: MenuStep,
)
    requires
        set_keyed(a, p, key, b, step),
        0 <= a.idx,
        key is Enter || key == Key::Char('e') || key == Key::Char('c') || key == Key::Char('d'),
    ensures
        a.idx >= a.profiles.len() ==> step is Stay && b == a,
        a.idx < a.profiles.len() && !p@.contains_key(a.profiles[a.idx]) && (key == Key::Char('e')
            || key == Key::Char('c')) ==> step is Stay && b == (Menus {
            status: bare("profile_settings.load_fail"@),
            ..a
        }),
{
}

/// Why an entry for a field is refused is said with the entry and what there is to choose
/// from.
pub proof fn law_refused_entries_are_told(
    f: ProfileField,
    a: Settings,
    v: Seq<char>,
    b: Settings,
    r: Result<(), Seq<char>>,
)
    requires
        field_applied(f, a, v, b, r),
        r is Err,
    ensures
        ({
            let t = lowered(trim(v));
            let n = crate::numeral::unsigned_of(trim(v), 10, 255);
            &&& b == a
            &&& f is MainMode ==> r->Err_0 == "无效模式: "@ + t + " (ts/tc/tm/rs/rc/rm)"@
            &&& f is Parity ==> r->Err_0 == "无效校验位: "@ + t + " (n/e/o)"@
            &&& f is Flow ==> r->Err_0 == "无效流控: "@ + t + " (none/hard/soft)"@
            &&& f is Databits && n is Some ==> r->Err_0 == "数据位必须是 5/6/7/8"@
            &&& f is Stopbits && n is Some ==> r->Err_0 == "停止位必须是 1 或 2"@
            &&& !(f is Device)
        }),
{
}

} // verus!

use modbus_toolbox::args::{parse_flow, Args, FlowControl, MainMode};
use modbus_toolbox::field::{profile_fields, FieldScope, ProfileField, FIELD_COUNT};
use modbus_toolbox::listing::{rank_addresses, rank_codes, sort_names};
use modbus_toolbox::menu::{saved, Key, Menu, MenuScreen, MenuStep, Saving};
use modbus_toolbox::message::{Message, Piece, Word};
use modbus_toolbox::page::{Page, Tone};
use modbus_toolbox::profile::{
    count_profiles_by_mode, load_default_profile, load_pick_list, load_profile_args, load_profile_list,
    profile_monitor_mode_label, profile_pick_brief, resolve_selection, save_default_profile, select_profile,
    MenuSelection, Profiles, SelectError,
};
use modbus_toolbox::screens::{
    logo_tone, main_menu_info, main_menu_page, monitor_pick_page, name_prompt, preview_page, profile_edit_page,
    profile_edit_panel, profile_edit_title, profile_pick_page, profile_pick_title, profile_settings_info,
    profile_settings_page, LogoTone,
};
use std::collections::HashMap;

fn args(mode: &str) -> Args {
    Args { main_mode: mode.to_string(), ..Args::default() }
}

fn profiles() -> Profiles {
    let mut p = Profiles::new();
    p.put("b", args("tcp-client"));
    p.put("a", args("tcp-server"));
    p.put("c", args("rtu-client"));
    p
}

fn said(m: &Message) -> String {
    let mut s = format!("<{}", m.key);
    for (name, word) in &m.args {
        match word {
            Word::Text(t) => s.push_str(&format!(" {}={}", name, t)),
            Word::Key(k) => s.push_str(&format!(" {}=<{}>", name, k)),
        }
    }
    s.push('>');
    s
}

fn text(p: &Piece) -> String {
    match p {
        Piece::Text(s) => s.clone(),
        Piece::Message(m) => said(m),
        Piece::Headed(s, m) => format!("{}{}", s, said(m)),
    }
}

fn lines(page: &Page) -> Vec<(Tone, String)> {
    let mut r = Vec::new();
    for l in &page.lines {
        let whole: String =
            l.spans.iter().map(|s| s.draft.pieces.iter().map(text).collect::<String>()).collect::<Vec<_>>().join("|");
        r.push((l.spans[0].tone, whole));
    }
    r
}

fn press(menu: &mut Menu, p: &Profiles, keys: &[Key]) -> MenuStep {
    let mut step = MenuStep::Stay;
    for k in keys {
        step = menu.handle_key(*k, p);
    }
    step
}

fn names(p: &Profiles) -> Vec<String> {
    load_profile_list(p)
}

#[test]
fn profiles_are_kept_by_name() {
    let mut p = profiles();
    assert_eq!(load_profile_list(&p), vec!["a", "b", "c"]);
    assert_eq!(load_profile_args(&p, "c").unwrap().main_mode, "rtu-client");
    assert!(load_profile_args(&p, "d").is_none());
    p.put("c", args("rtu-server"));
    assert_eq!(p.entries.len(), 3);
    assert_eq!(p.get("c").unwrap().main_mode, "rtu-server");
    p.remove("a");
    assert_eq!(load_profile_list(&p), vec!["b", "c"]);
}

#[test]
fn the_default_profile_is_kept() {
    let mut p = profiles();
    assert_eq!(load_default_profile(&p), None);
    save_default_profile(&mut p, "b");
    assert_eq!(load_default_profile(&p), Some("b".to_string()));
    assert_eq!(count_profiles_by_mode(&p), [1, 1, 0, 1, 0, 0]);
}

#[test]
fn profiles_in_short() {
    let mut a = args("tcp-server");
    a.tcp_port = 502;
    a.unit = 3;
    a.holding_count = 9;
    assert_eq!(profile_pick_brief(&a), "TCP-S | port 502 | slv 3 | hld 9");
    assert_eq!(profile_monitor_mode_label(&a), "tcp-monitor");
    let mut b = args("rtu-client");
    b.device = "/dev/x".to_string();
    b.baudrate = 9600;
    b.parity = "n".to_string();
    b.databits = 8;
    b.stopbits = 1;
    b.unit = 1;
    b.holding_count = 2;
    assert_eq!(profile_pick_brief(&b), "RTU-C | /dev/x | 9600-N81 | slv 1 | hld 2");
    assert_eq!(profile_monitor_mode_label(&b), "rtu-monitor");
}

#[test]
fn profiles_are_offered_by_mode() {
    let p = profiles();
    assert_eq!(load_pick_list(&p, Some(MainMode::TcpServer), false).names, vec!["a"]);
    assert_eq!(load_pick_list(&p, Some(MainMode::TcpMonitor), false).names, vec!["a", "b"]);
    assert_eq!(load_pick_list(&p, None, true).names, vec!["a", "b", "c"]);
    assert_eq!(load_pick_list(&p, Some(MainMode::RtuMonitor), true).names, vec!["c"]);
}

#[test]
fn a_selection_becomes_settings() {
    let p = profiles();
    let sel = MenuSelection { main_mode: MainMode::TcpServer, profile_name: Some("a".to_string()), quit: false };
    let (mode, a) = resolve_selection(&p, &sel).unwrap();
    assert_eq!(mode, MainMode::TcpServer);
    assert_eq!(a.main_mode, "tcp-server");
    let gone = MenuSelection { main_mode: MainMode::TcpServer, profile_name: Some("z".to_string()), quit: false };
    assert_eq!(resolve_selection(&p, &gone).unwrap_err(), SelectError::ProfileMissing);
    let (mode, a) = select_profile(&p, "c", "my.toml").unwrap();
    assert_eq!((mode, a.config.as_str()), (MainMode::RTUClient, "my.toml"));
    assert_eq!(select_profile(&p, "z", "x").unwrap_err(), SelectError::ProfileMissing);
    let mut q = profiles();
    q.put("odd", args("?"));
    assert_eq!(select_profile(&q, "odd", "x").unwrap_err(), SelectError::InvalidMainMode);
}

#[test]
fn names_and_counts_in_order() {
    let v: Vec<String> = ["b", "", "a", "b", "ab"].iter().map(|s| s.to_string()).collect();
    let mut expected = v.clone();
    expected.sort();
    assert_eq!(sort_names(&v), expected);
    let m: HashMap<u8, usize> = [(3, 5), (6, 9), (1, 1)].into_iter().collect();
    assert_eq!(rank_codes(&m), vec![(6, 9), (3, 5), (1, 1)]);
    let m: HashMap<u16, usize> = [(300, 1), (7, 2)].into_iter().collect();
    assert_eq!(rank_addresses(&m), vec![(7, 2), (300, 1)]);
}

#[test]
fn fields_take_what_they_show() {
    let fields = profile_fields();
    assert_eq!(fields.len(), FIELD_COUNT);
    let mut a = args("tcp-server");
    a.parity = "n".to_string();
    a.flow = "none".to_string();
    a.databits = 8;
    a.stopbits = 1;
    for f in fields {
        let shown = f.display(&a);
        assert_eq!(f.apply(&mut a, &shown), Ok(()), "{:?}", f);
        assert_eq!(f.display(&a), shown);
    }
    assert_eq!(ProfileField::TcpPort.apply(&mut a, "70000"), Err("TCP端口 必须是有效数字".to_string()));
    assert_eq!(ProfileField::Unit.apply(&mut a, " 17 "), Ok(()));
    assert_eq!(a.unit, 17);
    assert_eq!(ProfileField::Flow.apply(&mut a, "HARD"), Ok(()));
    assert_eq!(a.flow, "hard");
    assert_eq!(parse_flow(&a.flow), Ok(FlowControl::Hardware));
    assert_eq!(ProfileField::Flow.apply(&mut a, "software"), Ok(()));
    assert_eq!(a.flow, "soft");
    assert_eq!(parse_flow(&a.flow), Ok(FlowControl::Software));
    assert_eq!(
        ProfileField::Flow.apply(&mut a, "hw"),
        Err("无效流控: hw (none/hard/soft)".to_string())
    );
    assert!(ProfileField::Parity.apply(&mut a, "x").is_err());
    assert!(ProfileField::Databits.apply(&mut a, "9").is_err());
    assert!(ProfileField::Stopbits.apply(&mut a, "x").is_err());
    assert!(ProfileField::MainMode.apply(&mut a, "x").is_err());
    assert_eq!(ProfileField::MainMode.apply(&mut a, "rs"), Ok(()));
    assert_eq!(a.main_mode, "rtu-server");
    assert_eq!(ProfileField::TcpPort.scope(), FieldScope::Tcp);
    assert_eq!(ProfileField::Device.scope(), FieldScope::Rtu);
    assert_eq!(ProfileField::Unit.scope(), FieldScope::All);
    assert_eq!(ProfileField::Unit.key(), "profile_edit.unit");
}

#[test]
fn a_mode_and_a_profile_are_chosen() {
    let p = profiles();
    let mut menu = Menu::new(names(&p), vec![]);
    press(&mut menu, &p, &[Key::Down, Key::Enter]);
    assert_eq!(menu.menu_screen, MenuScreen::ProfilePick);
    assert_eq!(menu.pending_mode, Some(MainMode::TcpClient));
    assert_eq!(menu.pick.names, vec!["b"]);
    assert_eq!(profile_pick_title(&menu), "Select Profile — TCP Client (1 profiles)");
    let l = lines(&profile_pick_page(&menu));
    assert_eq!(l[0], (Tone::Marked, " ○ b".to_string()));
    assert_eq!(l[1].0, Tone::MarkedDim);
    let preview = lines(&preview_page(&menu.pick.names, 0, &p, false));
    assert_eq!(preview[0], (Tone::Heading, "<profile_pick.preview_title>".to_string()));
    assert_eq!(preview[3].1, "  <profile_pick.preview_mode mode=tcp-client>");
    assert_eq!(preview.last().unwrap().1, "  coils:512 disc:512 input:512");
    match press(&mut menu, &p, &[Key::Enter]) {
        MenuStep::Select(sel) => {
            assert_eq!(sel.profile_name, Some("b".to_string()));
            assert_eq!(sel.main_mode, MainMode::TcpClient);
            assert!(!sel.quit);
        }
        other => panic!("{:?}", other),
    }
    match press(&mut menu, &p, &[Key::Char('q')]) {
        MenuStep::Select(sel) => assert!(sel.quit),
        other => panic!("{:?}", other),
    }
}

#[test]
fn the_main_menu_counts_profiles() {
    let p = profiles();
    let mut menu = Menu::new(names(&p), vec![]);
    let l = lines(&main_menu_page(&menu, &count_profiles_by_mode(&p)));
    assert_eq!(l.len(), 13);
    assert_eq!(l[0], (Tone::Marked, " ▸ [1] <main_menu.tcp_server> (1)".to_string()));
    assert_eq!(l[1], (Tone::Plain, "".to_string()));
    assert_eq!(l[8], (Tone::Plain, "   [5] <main_menu.tcp_monitor> (0)".to_string()));
    assert_eq!(l[12].1, "   [7] <main_menu.profile_settings>");
    assert_eq!(text(&main_menu_info(&menu)), "<main_menu.info_bar default=a selected=a>");
    assert_eq!(
        text(&main_menu_info(&Menu::new(vec![], vec![]))),
        "<main_menu.info_bar default=<main_menu.none> selected=<main_menu.none>>"
    );
    let mut q = profiles();
    save_default_profile(&mut q, "c");
    menu.take_default(&q);
    assert_eq!(text(&main_menu_info(&menu)), "<main_menu.info_bar default=c selected=c>");
    assert_eq!(logo_tone(0), (LogoTone::DarkGray, false));
    assert_eq!(logo_tone(8), (LogoTone::White, false));
    assert_eq!(logo_tone(12), (LogoTone::Cyan, true));
    for _ in 0..40 {
        menu.tick();
    }
    assert_eq!(menu.logo_frame, 30);
}

#[test]
fn a_profile_is_removed_only_after_a_question() {
    let p = profiles();
    let mut menu = Menu::new(names(&p), vec![]);
    press(&mut menu, &p, &[Key::Char('7')]);
    assert_eq!(menu.menu_screen, MenuScreen::ProfileSet);
    let l = lines(&profile_settings_page(&menu));
    assert_eq!(l[0], (Tone::Marked, " ● a".to_string()));
    assert_eq!(l[1], (Tone::Plain, " ○ b".to_string()));
    assert_eq!(text(&profile_settings_info(&menu)), "<profile_settings.info_text name=a>");
    assert_eq!(
        text(&profile_settings_info(&Menu::new(vec![], vec![]))),
        "<profile_settings.info_text name=<profile_settings.info_default>>"
    );
    assert!(matches!(press(&mut menu, &p, &[Key::Char('d')]), MenuStep::Stay));
    assert!(menu.status_msg.is_some());
    match press(&mut menu, &p, &[Key::Char('d')]) {
        MenuStep::Save(saving, q) => {
            assert!(matches!(saving, Saving::Removal(ref n) if n == "a"));
            assert_eq!(load_profile_list(&q), vec!["b", "c"]);
            saved(&mut menu, saving, Ok(q));
            assert_eq!(menu.profiles, vec!["b", "c"]);
        }
        other => panic!("{:?}", other),
    }
}

#[test]
fn a_profile_is_added_and_edited() {
    let p = profiles();
    let mut menu = Menu::new(names(&p), vec!["/dev/one".to_string(), "/dev/two".to_string()]);
    press(&mut menu, &p, &[Key::Char('7'), Key::Char('a')]);
    assert_eq!(menu.menu_screen, MenuScreen::NamePrompt);
    let (title, shown) = name_prompt(&menu);
    assert_eq!(text(&title), "<profile_settings.add_title>");
    assert_eq!(text(&shown), "<profile_settings.name_placeholder>");
    press(&mut menu, &p, &[Key::Enter]);
    assert_eq!(text(menu.status_msg.as_ref().unwrap()), "<profile_settings.name_empty>");
    press(&mut menu, &p, &[Key::Char('b'), Key::Enter]);
    assert_eq!(text(menu.status_msg.as_ref().unwrap()), "<profile_settings.name_exists>");
    press(&mut menu, &p, &[Key::Char('_'), Key::Char('/')]);
    assert_eq!(menu.name_prompt_buf, "b_");
    assert_eq!(text(&name_prompt(&menu).1), "b_");
    let q = match press(&mut menu, &p, &[Key::Enter]) {
        MenuStep::Save(saving, q) => {
            assert!(matches!(saving, Saving::Added(ref n, _) if n == "b_"));
            saved(&mut menu, saving, Ok(q)).unwrap_or_else(profiles)
        }
        other => panic!("{:?}", other),
    };
    assert_eq!(menu.menu_screen, MenuScreen::ProfileEdit);
    assert_eq!(text(&profile_edit_title(&menu)), "<profile_edit.title name=b_>");
    let l = lines(&profile_edit_page(&menu));
    assert_eq!(l.len(), FIELD_COUNT);
    assert!(l[0].1.starts_with(" ▸ |<profile_edit.main_mode>: |"));
    assert!(l[1].1.ends_with("| |<profile_edit.field_mode_tcp>"));
    let panel = lines(&profile_edit_panel(&menu));
    assert_eq!(panel[0].1, "<profile_edit.preview_title>");
    assert_eq!(panel[4].1, "<profile_edit.nav_help>");
    for _ in 0..5 {
        press(&mut menu, &q, &[Key::Down]);
    }
    press(&mut menu, &q, &[Key::Enter]);
    assert!(menu.field_edit_mode);
    let panel = lines(&profile_edit_panel(&menu));
    assert_eq!(panel[0].1, "<profile_edit.editing label=<profile_edit.device>>");
    assert_eq!(panel[4].1, "<profile_edit.device_port_list>");
    assert_eq!(panel[5].1, " ● |/dev/one");
    assert_eq!(panel[6].1, " ○ |/dev/two");
    assert_eq!(panel.last().unwrap().1, "<profile_edit.edit_help>");
}

#[test]
fn empty_lists_say_so() {
    let p = Profiles::new();
    let mut menu = Menu::new(vec![], vec![]);
    press(&mut menu, &p, &[Key::Enter]);
    let l = lines(&profile_pick_page(&menu));
    assert_eq!(l[0].1, "<profile_settings.empty_list>");
    assert_eq!(l[1].1, "<profile_pick.no_profiles_hint>");
    assert_eq!(lines(&preview_page(&menu.pick.names, 0, &p, false))[0].1, "<profile_pick.select_hint>");
    let gone = vec!["x".to_string()];
    assert_eq!(lines(&preview_page(&gone, 0, &p, false))[0], (Tone::Bad, "<profile_pick.load_fail>".to_string()));
    assert_eq!(lines(&monitor_pick_page(&load_pick_list(&p, None, true), 0)).len(), 1);
    let q = profiles();
    let l = lines(&monitor_pick_page(&load_pick_list(&q, None, true), 1));
    assert_eq!(l[2], (Tone::Marked, " ○ b".to_string()));
    let preview = lines(&preview_page(&load_profile_list(&q), 2, &q, true));
    assert_eq!(preview[3].1, "  <profile_pick.preview_mode mode=rtu-monitor>");
}

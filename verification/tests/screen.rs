use modbus_toolbox::args::{main_mode_name, Args, MainMode};
use modbus_toolbox::clock::Moment;
use modbus_toolbox::dialog::{
    edit_frequency, index_to_pattern, pattern_index, render_pattern_dialog, take_frequency,
};
use modbus_toolbox::entry::{filled, profile_saved, put_profile, FillOutcome, SaveOutcome};
use modbus_toolbox::export::export_registers_at;
use modbus_toolbox::format::RegDataFormat;
use modbus_toolbox::frame::FrameInfo;
use modbus_toolbox::keys::{exported, fits_device, handle_key, monitor_settings};
use modbus_toolbox::control::scan_done;
use modbus_toolbox::layout::{
    byte_panel_parts, centered_rect, dialog_sizes, help_height, screen_heights, screen_parts, Area, Extent,
};
use modbus_toolbox::menu::Key;
use modbus_toolbox::message::{Draft, Message, Piece, Word};
use modbus_toolbox::monitor::record_frame_at;
use modbus_toolbox::panel::{
    format_byte_panel, format_monitor_history, format_monitor_stats, format_protocol_analysis, wrapped_lines,
};
use modbus_toolbox::profile::Profiles;
use modbus_toolbox::setup::new_state;
use modbus_toolbox::state::{record_reg_change, AppState, ChangeDirection, RegChangePattern};
use modbus_toolbox::status::{help_text, scan_text, status_line};
use modbus_toolbox::table::{
    is_secondary_register, render_change_bar, render_register_table, search_match, BarMark, ChangeCell, TableRow,
    TableView,
};
use modbus_toolbox::ui::{edit_accepts_char, is_monitor, DisplayBase, RegView, Ui, UiStep};
use modbus_toolbox::value::RegisterText;
use modbus_toolbox::worker::{ExceptionCode, RegCmd};

fn said(m: &Message) -> String {
    let mut s = format!("<{}", m.key);
    for (name, word) in &m.args {
        match word {
            Word::Text(t) => s.push_str(&format!(" {}={}", name, t)),
            Word::Key(k) => s.push_str(&format!(" {}=<{}>", name, k)),
        }
    }
    s.push('>');
    s
}

fn text(p: &Piece) -> String {
    match p {
        Piece::Text(s) => s.clone(),
        Piece::Message(m) => said(m),
        Piece::Headed(s, m) => format!("{}{}", s, said(m)),
    }
}

fn draft(d: &Draft) -> String {
    d.pieces.iter().map(text).collect()
}

fn device(holding: usize, input: usize) -> AppState {
    let args = Args { holding_count: holding, coil_count: 4, discrete_count: 2, input_count: input, ..Args::default() };
    new_state(&args, MainMode::TcpServer)
}

fn screen() -> Ui {
    Ui::new(DisplayBase::Dec, RegDataFormat::default(), false, false, vec!["p".to_string()], "tcp-server")
}

fn press(ui: &mut Ui, s: &mut AppState, keys: &str) -> UiStep {
    let mut step = UiStep::Stay;
    for c in keys.chars() {
        step = handle_key(ui, s, Key::Char(c), false, "tcp-server").step;
    }
    step
}

fn hit(ui: &mut Ui, s: &mut AppState, key: Key) -> UiStep {
    handle_key(ui, s, key, false, "tcp-server").step
}

fn status(ui: &Ui) -> String {
    ui.status_msg.as_ref().map(text).unwrap_or_default()
}

fn cells(t: &TableView) -> Vec<(usize, String, String)> {
    t.rows
        .iter()
        .map(|r| match r {
            TableRow::Switch { address, on } => (*address, "".to_string(), on.to_string()),
            TableRow::Register { addr, label, value, .. } => {
                let v = match value {
                    RegisterText::Text(s) => s.clone(),
                    other => format!("{:?}", other),
                };
                (*addr, label.clone(), v)
            }
        })
        .collect()
}

#[test]
fn a_table_shows_its_lines() {
    let mut s = device(5, 0);
    s.holding = vec![10, 20, 30, 40, 50];
    s.holding_label[1] = "Pump".to_string();
    let mut ui = screen();
    let t = render_register_table(&s, &mut ui.table, &ui.entry, 6);
    assert_eq!(t.title, "register_table.title");
    assert_eq!(t.status, " [读]");
    assert_eq!(t.columns.len(), 4);
    assert_eq!(t.marked, 0);
    assert_eq!(
        cells(&t),
        vec![
            (0, "".to_string(), "10".to_string()),
            (1, "Pump".to_string(), "20".to_string()),
            (2, "".to_string(), "30".to_string())
        ]
    );
    ui.table.selected = 9;
    ui.table.base = DisplayBase::Hex;
    let t = render_register_table(&s, &mut ui.table, &ui.entry, 6);
    assert_eq!((ui.table.selected, ui.table.scroll, t.marked), (4, 2, 2));
    assert_eq!(cells(&t)[2], (4, "".to_string(), "0x0032".to_string()));
}

#[test]
fn a_search_narrows_the_table() {
    let mut s = device(30, 0);
    s.holding_label[7] = "PUMP".to_string();
    let mut ui = screen();
    ui.table.search_buf = "pump".to_string();
    let t = render_register_table(&s, &mut ui.table, &ui.entry, 20);
    assert_eq!(cells(&t).iter().map(|c| c.0).collect::<Vec<_>>(), vec![7]);
    assert_eq!((ui.table.selected, t.marked), (7, 0));
    ui.table.search_buf = "2".to_string();
    let t = render_register_table(&s, &mut ui.table, &ui.entry, 20);
    assert_eq!(cells(&t).iter().map(|c| c.0).collect::<Vec<_>>(), vec![2, 12, 20, 21, 22, 23, 24, 25, 26, 27, 28, 29]);
    assert!(search_match(12, "1", None));
    assert!(!search_match(12, "3", None));
    assert!(search_match(7, "um", Some(&s.holding_label.iter().map(|l| l.to_lowercase()).collect())));
}

#[test]
fn combined_registers_take_one_line() {
    let mut s = device(4, 0);
    s.holding = vec![1, 2, 3, 4];
    s.holding_label[0] = "sum".to_string();
    let mut ui = screen();
    press(&mut ui, &mut s, "f");
    assert_eq!(status(&ui), "<run_ui.combination_set addr=0 fmt=i32 count=2>");
    assert!(is_secondary_register(1, &s.holding_combinations));
    assert!(!is_secondary_register(0, &s.holding_combinations));
    let t = render_register_table(&s, &mut ui.table, &ui.entry, 20);
    assert_eq!(cells(&t)[0], (0, "[2×i32] sum".to_string(), 0x10002.to_string()));
    assert_eq!(cells(&t)[1].0, 2);
    press(&mut ui, &mut s, "F");
    assert_eq!(status(&ui), "<run_ui.combination_removed addr=0>");
    assert!(s.holding_combinations.is_empty());
}

#[test]
fn bits_are_shown_as_switches() {
    let mut s = device(1, 0);
    s.coils[2] = true;
    let mut ui = screen();
    press(&mut ui, &mut s, "R");
    assert_eq!(ui.table.reg_view, RegView::Coils);
    assert_eq!(status(&ui), "View: Coils");
    let t = render_register_table(&s, &mut ui.table, &ui.entry, 20);
    assert_eq!(t.title, "register_table.title_coils");
    assert_eq!(t.status, " [禁读]");
    assert_eq!(t.columns.len(), 2);
    assert_eq!(cells(&t)[2].2, "true");
    press(&mut ui, &mut s, " ");
    assert_eq!(status(&ui), "Coils Read enabled");
    assert_eq!(s.read_enabled, [true, true, false, false]);
    press(&mut ui, &mut s, "RRR");
    assert_eq!(ui.table.reg_view, RegView::Holding);
}

#[test]
fn changes_are_shown() {
    let mut s = device(3, 0);
    record_reg_change(&mut s, 1, 0, 5);
    record_reg_change(&mut s, 1, 5, 3);
    record_reg_change(&mut s, 1, 3, 9);
    s.holding_change_enabled[2] = true;
    let marks = render_change_bar(&s, 1);
    assert_eq!(marks.len(), 20);
    assert_eq!(marks[..4], [BarMark::Same, BarMark::Lower, BarMark::Higher, BarMark::Same]);
    assert_eq!(render_change_bar(&s, 77), vec![BarMark::Same; 20]);
    let mut ui = screen();
    let out = handle_key(&mut ui, &mut s, Key::Char('c'), false, "tcp-server");
    assert!(out.clear_error);
    assert_eq!(status(&ui), "<run_ui.change_bar_on>");
    let t = render_register_table(&s, &mut ui.table, &ui.entry, 20);
    assert_eq!(t.columns.len(), 5);
    let changes: Vec<ChangeCell> = t
        .rows
        .iter()
        .map(|r| match r {
            TableRow::Register { change, bar, .. } => {
                assert!(bar.is_some());
                *change
            }
            _ => panic!("no register"),
        })
        .collect();
    assert_eq!(changes, vec![ChangeCell::Nothing, ChangeCell::Arrow(ChangeDirection::Up), ChangeCell::Simulated]);
    press(&mut ui, &mut s, "C");
    assert_eq!(status(&ui), "已清除 3 条变化记录");
    assert!(s.reg_change_history.is_empty() && s.reg_bar_history.is_empty());
}

#[test]
fn a_value_is_entered() {
    let mut s = device(3, 0);
    s.holding[1] = 300;
    let mut ui = screen();
    press(&mut ui, &mut s, "je");
    assert_eq!(ui.entry.edit_buf, "300");
    let t = render_register_table(&s, &mut ui.table, &ui.entry, 20);
    assert_eq!(cells(&t)[1].2, "300");
    match hit(&mut ui, &mut s, Key::Enter) {
        UiStep::Send(RegCmd::WriteSingleHolding { addr: 1, value: 300 }) => {}
        other => panic!("{:?}", other),
    }
    assert!(!ui.entry.edit_mode);
    press(&mut ui, &mut s, "hex");
    assert_eq!(ui.entry.edit_buf, "0x012C");
    assert_eq!(status(&ui), "<run_ui.char_rejected>");
    hit(&mut ui, &mut s, Key::Backspace);
    hit(&mut ui, &mut s, Key::Backspace);
    assert_eq!(ui.entry.edit_buf, "0x01");
    match press(&mut ui, &mut s, "m") {
        UiStep::Await(RegCmd::WriteMultipleHolding { addr: 1, values }) => assert_eq!(values, vec![1; 100]),
        other => panic!("{:?}", other),
    }
    filled(&mut ui.entry, &mut ui.status_msg, FillOutcome::Refused(ExceptionCode::IllegalDataAddress));
    assert_eq!(status(&ui), "<run_ui.modbus_exception ex=IllegalDataAddress>");
    assert!(ui.entry.edit_mode);
    filled(&mut ui.entry, &mut ui.status_msg, FillOutcome::Gone);
    assert_eq!(status(&ui), "<run_ui.worker_disconnected>");
    filled(&mut ui.entry, &mut ui.status_msg, FillOutcome::TimedOut);
    assert!(!ui.entry.edit_mode && ui.status_msg.is_none());
    press(&mut ui, &mut s, "de");
    for _ in 0..5 {
        hit(&mut ui, &mut s, Key::Backspace);
    }
    hit(&mut ui, &mut s, Key::Enter);
    assert_eq!(status(&ui), "<main.invalid_input_value err=<main.parse_empty>>");
    press(&mut ui, &mut s, "m");
    assert_eq!(status(&ui), "<run_ui.invalid_value err=<main.parse_empty>>");
    hit(&mut ui, &mut s, Key::Esc);
    assert!(!ui.entry.edit_mode);
}

#[test]
fn entries_take_digits_of_the_base() {
    assert!(edit_accepts_char("", '7', DisplayBase::Dec));
    assert!(!edit_accepts_char("", 'a', DisplayBase::Dec));
    assert!(edit_accepts_char("", 'A', DisplayBase::Hex));
    assert!(edit_accepts_char("0", 'x', DisplayBase::Dec));
    assert!(!edit_accepts_char("1", 'b', DisplayBase::Hex));
    assert!(edit_accepts_char("", '0', DisplayBase::Bin));
    assert!(!edit_accepts_char("", '2', DisplayBase::Bin));
    assert!(!edit_accepts_char("1", ' ', DisplayBase::Hex));
}

#[test]
fn a_note_and_a_profile_are_entered() {
    let mut s = device(2, 0);
    let mut ui = screen();
    press(&mut ui, &mut s, "tpump m");
    assert_eq!(ui.entry.edit_buf, "pump m");
    let t = render_register_table(&s, &mut ui.table, &ui.entry, 20);
    assert_eq!(cells(&t)[0].1, "pump m");
    hit(&mut ui, &mut s, Key::Enter);
    assert_eq!(s.holding_label[0], "pump m");
    press(&mut ui, &mut s, "oquick");
    match hit(&mut ui, &mut s, Key::Enter) {
        UiStep::SaveProfile(name) => assert_eq!(name, "quick"),
        other => panic!("{:?}", other),
    }
    s.input_combinations.insert(4, RegDataFormat::default().next_combination());
    let mut p = Profiles::new();
    put_profile(&mut p, "quick", &Args::default(), &s);
    let kept = p.get("quick").unwrap();
    assert_eq!(kept.labels, vec![("0".to_string(), "pump m".to_string())]);
    assert_eq!(kept.reg_combinations, vec![("i:4".to_string(), "i32".to_string())]);
    profile_saved(&mut ui.entry, &mut ui.status_msg, "quick", "c.toml", SaveOutcome::Written);
    assert_eq!(status(&ui), "<run_ui.save_success name=quick path=c.toml>");
    assert!(!ui.entry.edit_mode && !ui.entry.edit_is_profile);
    profile_saved(&mut ui.entry, &mut ui.status_msg, "x", "y", SaveOutcome::NotWritten("no".to_string()));
    assert_eq!(status(&ui), "<run_ui.save_fail_write err=no>");
    profile_saved(&mut ui.entry, &mut ui.status_msg, "x", "y", SaveOutcome::NotFormed("bad".to_string()));
    assert_eq!(status(&ui), "<run_ui.save_fail_serialize err=bad>");
    let m = monitor_settings(&p, "quick").unwrap();
    assert_eq!(m.main_mode, "tcp-monitor");
    assert!(monitor_settings(&p, "other").is_none());
}

#[test]
fn the_mark_moves() {
    let mut s = device(3, 0);
    let mut ui = screen();
    press(&mut ui, &mut s, "kjjjj");
    assert_eq!(ui.table.selected, 2);
    hit(&mut ui, &mut s, Key::PageUp);
    assert_eq!(ui.table.selected, 0);
    hit(&mut ui, &mut s, Key::PageDown);
    assert_eq!(ui.table.selected, 2);
    hit(&mut ui, &mut s, Key::Home);
    assert_eq!((ui.table.selected, status(&ui)), (0, "<run_ui.home>".to_string()));
    press(&mut ui, &mut s, "R");
    hit(&mut ui, &mut s, Key::End);
    assert_eq!((ui.table.selected, status(&ui)), (3, "<run_ui.end>".to_string()));
    press(&mut ui, &mut s, "G12");
    hit(&mut ui, &mut s, Key::Backspace);
    hit(&mut ui, &mut s, Key::Enter);
    assert_eq!((ui.table.selected, status(&ui)), (1, "跳转到地址 1".to_string()));
    press(&mut ui, &mut s, "G99");
    hit(&mut ui, &mut s, Key::Enter);
    assert_eq!((ui.table.selected, status(&ui)), (1, "地址 99 超出范围 (0-3)".to_string()));
    press(&mut ui, &mut s, "G1");
    hit(&mut ui, &mut s, Key::Esc);
    assert!(!ui.table.goto_mode && ui.table.goto_buf.is_empty());
}

#[test]
fn a_search_is_entered() {
    let mut s = device(3, 0);
    let mut ui = screen();
    press(&mut ui, &mut s, "/ab c");
    assert_eq!(ui.table.search_buf, "ab c");
    assert!(ui.table.show_change_bar);
    assert_eq!(text(&status_line(&ui, &s, &None, "tcp-server")), "/ab c");
    hit(&mut ui, &mut s, Key::Backspace);
    hit(&mut ui, &mut s, Key::Enter);
    assert_eq!(status(&ui), "搜索: ab ");
    press(&mut ui, &mut s, "/");
    hit(&mut ui, &mut s, Key::Esc);
    assert!(ui.status_msg.is_none() && !ui.table.search_mode);
}

#[test]
fn orders_and_switches() {
    let mut s = device(3, 3);
    let mut ui = screen();
    press(&mut ui, &mut s, "w");
    assert!(s.swap_bytes && ui.table.swap_bytes);
    assert_eq!(status(&ui), "Byte swap: ON");
    press(&mut ui, &mut s, "W");
    assert_eq!(status(&ui), "Word swap: ON");
    press(&mut ui, &mut s, "wW");
    assert_eq!(status(&ui), "Word swap: OFF");
    press(&mut ui, &mut s, "S");
    assert!(s.stability_test_running);
    press(&mut ui, &mut s, "S");
    assert_eq!(status(&ui), "<run_ui.stability_stopped>");
    press(&mut ui, &mut s, "v");
    assert_eq!(status(&ui), "Holding[0] <run_ui.value_change_on>");
    assert_eq!(s.holding_change_enabled, vec![true, false, false]);
    press(&mut ui, &mut s, "V");
    assert_eq!(status(&ui), "Holding: 全部开启变化 (3/3)");
    press(&mut ui, &mut s, "V");
    assert_eq!(status(&ui), "Holding: 全部关闭变化 (0/3)");
    press(&mut ui, &mut s, "RV");
    assert_eq!(status(&ui), "<run_ui.value_change_unsupported>");
    press(&mut ui, &mut s, "BM");
    assert!(ui.show_byte_panel && ui.monitor.show);
    hit(&mut ui, &mut s, Key::Tab);
    assert_eq!(status(&ui), "<run_ui.monitor_stats_mode>");
    assert!(matches!(press(&mut ui, &mut s, "E"), UiStep::Export));
    assert!(matches!(press(&mut ui, &mut s, "q"), UiStep::Quit));
    let out = handle_key(&mut ui, &mut s, Key::Char('c'), true, "tcp-server");
    assert!(matches!(out.step, UiStep::Quit) && !out.clear_error);
}

#[test]
fn a_pattern_is_chosen() {
    let mut s = device(2, 0);
    let mut ui = screen();
    press(&mut ui, &mut s, "jpj");
    assert!(ui.pattern.open);
    assert_eq!((ui.pattern.addr, ui.pattern.sel), (1, 1));
    hit(&mut ui, &mut s, Key::Enter);
    assert_eq!(s.holding_change_patterns[1], RegChangePattern::UpDown);
    assert_eq!(status(&ui), "Pattern updated");
    press(&mut ui, &mut s, "pj");
    assert!(matches!(hit(&mut ui, &mut s, Key::Enter), UiStep::ShowFrequency));
    edit_frequency(&mut ui.pattern, "1.00".to_string());
    hit(&mut ui, &mut s, Key::Backspace);
    press(&mut ui, &mut s, "5j");
    assert_eq!(ui.pattern.freq_buf, "1.05");
    let shown = render_pattern_dialog(&ui.pattern, &s, DisplayBase::Dec, "1.00");
    assert!(shown.starts_with("Register 1 [Holding]\nCurrent: 0\n\n  ○ Random\n  ○ Up/Down\n  ● Sine   ←\n"));
    assert!(shown.ends_with("\nFrequency: [1.05 ] Hz\n\n↑↓ select  Enter confirm  Esc cancel"));
    assert!(matches!(hit(&mut ui, &mut s, Key::Enter), UiStep::ReadFrequency));
    take_frequency(&mut ui.pattern, &mut s, &mut ui.status_msg, Some(1.05f64.to_bits()));
    assert_eq!(s.holding_change_patterns[1], RegChangePattern::Sine);
    assert_eq!(f64::from_bits(s.holding_pattern_freqs[1]), 1.05);
    assert!(!ui.pattern.open);
    press(&mut ui, &mut s, "p");
    hit(&mut ui, &mut s, Key::Esc);
    assert_eq!(status(&ui), "Pattern config cancelled");
    press(&mut ui, &mut s, "Rp");
    assert_eq!(status(&ui), "Pattern config not available for this register type");
    for i in 0..5 {
        assert_eq!(pattern_index(&index_to_pattern(i)), i);
    }
}

#[test]
fn units_are_searched_for_once() {
    let mut s = device(2, 0);
    let mut ui = screen();
    assert!(matches!(press(&mut ui, &mut s, "l"), UiStep::Scan));
    assert!(s.slave_scan_running);
    assert!(matches!(press(&mut ui, &mut s, "l"), UiStep::Stay));
    assert_eq!(status(&ui), "<run_ui.scan_running>");
    scan_done(&mut s, vec![(1, None), (2, Some(10))]);
    press(&mut ui, &mut s, "l");
    assert!(ui.show_scan_dialog);
    assert_eq!(
        draft(&scan_text(s.slave_scan_result.as_ref().unwrap(), DisplayBase::Hex)),
        "<run_ui.scan_found_slaves count=1>\n\n  Slave 2:  0x000A\n\n<run_ui.scan_close_hint>"
    );
    assert_eq!(
        draft(&scan_text(&vec![(1, None)], DisplayBase::Dec)),
        "<run_ui.scan_found_slaves count=0>\n\n  <run_ui.scan_no_slaves>\n\n<run_ui.scan_close_hint>"
    );
    hit(&mut ui, &mut s, Key::Esc);
    assert!(s.slave_scan_result.is_none() && !ui.show_scan_dialog);
    assert_eq!(status(&ui), "<run_ui.scan_closed>");
}

#[test]
fn a_monitor_takes_the_keys() {
    let mut s = device(2, 0);
    let mut ui =
        Ui::new(DisplayBase::Dec, RegDataFormat::default(), false, false, vec!["p".to_string()], "tcp-monitor");
    assert!(ui.monitor.show);
    match handle_key(&mut ui, &mut s, Key::Enter, false, "tcp-monitor").step {
        UiStep::Monitor(name) => assert_eq!(name, "p"),
        other => panic!("{:?}", other),
    }
    assert_eq!(status(&ui), "<run_ui.monitor_selected name=p>");
    let fi = FrameInfo {
        is_tcp: true,
        unit: 1,
        func_code: 3,
        func_name: "read".to_string(),
        addr: 0,
        values: vec![1],
        is_request: false,
    };
    for _ in 0..12 {
        record_frame_at(&mut s.monitor, &fi, Some(Moment { secs: 0, millis: 0 }));
    }
    for _ in 0..9 {
        handle_key(&mut ui, &mut s, Key::Down, false, "tcp-monitor");
    }
    assert_eq!(ui.monitor.scroll, 3);
    handle_key(&mut ui, &mut s, Key::Enter, false, "tcp-monitor");
    assert!(ui.monitor.show_analysis);
    assert_eq!(ui.monitor.analysis_idx, 8);
    handle_key(&mut ui, &mut s, Key::Esc, false, "tcp-monitor");
    assert!(!ui.monitor.show_analysis);
    for c in "fwv VlG/".chars() {
        handle_key(&mut ui, &mut s, Key::Char(c), false, "tcp-monitor");
    }
    assert!(s.holding_combinations.is_empty() && !s.swap_bytes && !s.slave_scan_running);
    handle_key(&mut ui, &mut s, Key::Char('P'), false, "tcp-monitor");
    assert_eq!(status(&ui), "<run_ui.monitor_picking>");
}

#[test]
fn the_status_line() {
    let mut s = device(2, 0);
    let mut ui = screen();
    let line = |ui: &Ui, s: &AppState| text(&status_line(ui, s, &None, "tcp-server"));
    assert_eq!(line(&ui, &s), "<run_ui.status_waiting base=Dec fmt=u16 sw=>");
    ui.table.swap_bytes = true;
    ui.table.swap_words = true;
    assert_eq!(line(&ui, &s), "<run_ui.status_waiting base=Dec fmt=u16 sw= sw:BW>");
    record_reg_change(&mut s, 1, 0, 5);
    assert_eq!(line(&ui, &s), "<run_ui.status_reg_change count=1 addr=1 dir=↑>");
    s.stability_test_running = true;
    s.stability_stats = (3, 2, 1);
    assert_eq!(line(&ui, &s), "<run_ui.status_stability total=3 ok=2 fail=1>");
    assert_eq!(draft(&help_text(&ui, &s, "tcp-server")), "<run_ui.help_stability> | v:0");
    press(&mut ui, &mut s, "t");
    assert_eq!(line(&ui, &s), "<run_ui.edit_label buf=>");
    ui.status_msg = Some(Piece::Text("x".to_string()));
    assert_eq!(line(&ui, &s), "x");
    assert_eq!(
        text(&status_line(&ui, &s, &Some("down".to_string()), "tcp-server")),
        "<run_ui.error_prefix msg=down>"
    );
    assert_eq!(draft(&help_text(&ui, &s, "tcp-server")), "<run_ui.help_edit buf=> | v:0");
    ui.table.sync(&s);
    assert!(!ui.table.swap_bytes);
}

#[test]
fn registers_are_written_to_a_file() {
    let mut s = device(2, 1);
    s.holding = vec![0x0102, 7];
    s.holding_label[1] = "b".to_string();
    s.holding_swap_bytes.insert(0, true);
    let (name, d) = export_registers_at(RegDataFormat::default(), &s, Some(Moment { secs: 61, millis: 0 }));
    assert_eq!(name, "modbus_export_1970-01-01_00-01-01.json");
    assert_eq!(d.reg_format, "u16");
    assert_eq!(d.holding.len(), 2);
    assert!(matches!(&d.holding[0].value, RegisterText::Text(t) if t == "513"));
    assert_eq!((d.holding[0].raw, d.holding[1].label.as_str()), (0x0102, "b"));
    assert_eq!(d.coils, vec![false; 4]);
    assert_eq!(d.input_registers.len(), 1);
    let mut said = None;
    exported(&mut said, Ok(name));
    assert_eq!(text(said.as_ref().unwrap()), "Exported: modbus_export_1970-01-01_00-01-01.json");
    exported(&mut said, Err("full".to_string()));
    assert_eq!(text(said.as_ref().unwrap()), "Export error: full");
}

#[test]
fn the_screen_is_divided() {
    let area = Area { left: 0, top: 0, width: 100, height: 40 };
    assert_eq!(dialog_sizes(40, 50), vec![Extent::Exactly(9), Extent::Exactly(20), Extent::Exactly(9)]);
    let d = centered_rect(50, 50, area);
    assert!(d.width <= 100 && d.left + d.width <= 100 && d.top + d.height <= 40);
    assert_eq!((d.top, d.left), (9, 24));
    let parts = screen_parts(area, false, true, 5);
    assert_eq!(parts.len(), 4);
    assert_eq!(parts[0], Area { left: 0, top: 0, width: 100, height: 20 });
    assert_eq!(parts[1], Area { left: 0, top: 20, width: 100, height: 12 });
    assert_eq!(parts[3], Area { left: 0, top: 35, width: 100, height: 5 });
    assert_eq!(
        screen_heights(true, true, 4),
        vec![Extent::AtLeast(3), Extent::Exactly(3), Extent::Exactly(4)]
    );
    let (a, b) = byte_panel_parts(area);
    assert_eq!((a.width, b.left, b.height), (42, 42, 40));
    assert_eq!(help_height("abc", 80), 3);
    assert_eq!(help_height("abcdef", 5), 4);
    assert_eq!(wrapped_lines("中文", 3), 2);
    assert_eq!(wrapped_lines("a\nb", 10), 2);
    assert_eq!(wrapped_lines("a", 0), 0);
}

#[test]
fn frames_are_shown() {
    let mut s = device(1, 0);
    let fi = FrameInfo {
        is_tcp: false,
        unit: 1,
        func_code: 3,
        func_name: "read".to_string(),
        addr: 0,
        values: vec![0x1234],
        is_request: false,
    };
    assert!(draft(&format_byte_panel(&fi)).contains("12 34"));
    for _ in 0..3 {
        record_frame_at(&mut s.monitor, &fi, Some(Moment { secs: 0, millis: 0 }));
    }
    assert!(draft(&format_monitor_history(&s.monitor, 0)).contains("00:00:00.000"));
    assert!(draft(&format_monitor_stats(&s.monitor)).contains("3"));
    assert!(draft(&format_protocol_analysis(&s.monitor.history[0])).contains("read"));
}

#[test]
fn a_screen_goes_with_a_device_that_has_what_is_entered() {
    let mut s = device(4, 2);
    let mut ui = screen();
    assert!(fits_device(&ui, &s));
    ui.entry.edit_mode = true;
    ui.entry.edit_is_label = true;
    ui.table.selected = 4;
    assert!(!fits_device(&ui, &s));
    ui.table.selected = 3;
    assert!(fits_device(&ui, &s));
    s.holding_label.pop();
    assert!(!fits_device(&ui, &s));
}

/// Where a dialog begins along a side, and how long it is.
fn along(length: u16, percent: u16) -> (u16, u16) {
    let outer = (length * percent / 200).saturating_sub(1);
    let middle = length * percent / 100;
    if 2 * outer as u32 + middle as u32 <= length as u32 {
        (outer, middle)
    } else if 3 * outer as u32 <= length as u32 {
        (outer, length - 2 * outer)
    } else {
        let (begin, end) = ((length as u32 + 1) / 3, (2 * length as u32 + 1) / 3);
        (begin as u16, (end - begin) as u16)
    }
}

#[test]
fn a_dialog_stands_in_its_place() {
    let area = Area { left: 10, top: 5, width: 100, height: 50 };
    assert_eq!(centered_rect(50, 50, area), Area { left: 34, top: 16, width: 50, height: 25 });
    assert_eq!(centered_rect(60, 70, area), Area { left: 39, top: 21, width: 42, height: 18 });
    assert_eq!(centered_rect(75, 80, area), Area { left: 43, top: 22, width: 34, height: 16 });
    for length in 0..=60u16 {
        for percent in [0u16, 10, 25, 50, 67, 70, 75, 80, 100, 130] {
            let area = Area { left: 7, top: 3, width: length, height: length };
            let d = centered_rect(percent, percent, area);
            let (begin, size) = along(length, percent);
            assert_eq!(d, Area { left: 7 + begin, top: 3 + begin, width: size, height: size });
        }
    }
}

#[test]
fn the_history_is_scrolled() {
    let mut s = device(1, 1);
    for i in 0..12u16 {
        let fi = FrameInfo {
            is_tcp: i % 2 == 0,
            unit: 1,
            func_code: 3,
            func_name: "read".to_string(),
            addr: i,
            values: vec![],
            is_request: i == 9,
        };
        record_frame_at(&mut s.monitor, &fi, Some(Moment { secs: 0, millis: i as u32 }));
    }
    let lines = |scroll: usize| -> Vec<String> {
        draft(&format_monitor_history(&s.monitor, scroll)).lines().map(|l| l.to_string()).collect()
    };
    assert_eq!(lines(0).len(), 8);
    assert_eq!(lines(0)[0], "00:00:00.011 ⇐ RTU read addr=0x000B");
    assert_eq!(lines(2).len(), 8);
    assert_eq!(lines(2)[0], "00:00:00.009 ⇒ RTU read addr=0x0009");
    assert_eq!(lines(2)[7], "00:00:00.002 ⇐ TCP read addr=0x0002");
    assert_eq!(lines(9).len(), 3);
    assert_eq!(lines(9)[2], "00:00:00.000 ⇐ TCP read addr=0x0000");
    assert_eq!(lines(12), lines(40));
    assert_eq!(lines(12), vec!["<run_ui.no_data>".to_string()]);
}

#[test]
fn the_bytes_stand_left_of_the_table() {
    for width in [0u16, 1, 19, 20, 21, 40, 61, 62, 63, 200] {
        let (bytes, table) = byte_panel_parts(Area { left: 3, top: 2, width, height: 9 });
        let w = if width >= 62 { 42 } else { width.saturating_sub(20) };
        assert_eq!(bytes, Area { left: 3, top: 2, width: w, height: 9 });
        assert_eq!(table, Area { left: 3 + w, top: 2, width: width - w, height: 9 });
    }
}

#[test]
fn the_parts_of_the_screen_follow_each_other() {
    for height in 0..=40u16 {
        for help in [0u16, 3, 5, 9, 50] {
            for (monitor, show) in [(true, false), (false, true), (false, false)] {
                let area = Area { left: 1, top: 4, width: 70, height };
                let parts = screen_parts(area, monitor, show, help);
                let mut at = 4;
                for p in &parts {
                    assert_eq!((p.left, p.width, p.top), (1, 70, at));
                    at += p.height;
                }
                let asked = help + if monitor { 6 } else if show { 18 } else { 8 };
                if asked <= height {
                    let n = parts.len();
                    assert_eq!((parts[n - 2].height, parts[n - 1].height), (3, help));
                } else {
                    let least = if monitor || show { 3 } else { 5 };
                    assert_eq!(parts[0].height, height.min(least));
                }
                assert_eq!(at, 4 + height);
            }
        }
    }
}

#[test]
fn monitors_are_known_by_the_names_of_their_modes() {
    let s = device(1, 1);
    let ui = screen();
    for m in [
        MainMode::TcpServer,
        MainMode::TcpClient,
        MainMode::RTUServer,
        MainMode::RTUClient,
        MainMode::TcpMonitor,
        MainMode::RtuMonitor,
    ] {
        let monitor = m == MainMode::TcpMonitor || m == MainMode::RtuMonitor;
        let name = main_mode_name(m);
        assert_eq!(is_monitor(name), monitor);
        assert_eq!(draft(&help_text(&ui, &s, name)).contains("help_monitoring"), monitor);
        assert_eq!(text(&status_line(&ui, &s, &None, name)).contains("status_monitoring"), monitor);
    }
}

use modbus_toolbox::args::{
    main_mode_name, parse_combination_format, parse_databits, parse_flow, parse_mainmode, parse_parity,
    parse_reg_format, parse_stopbits, Args, DataBits, FlowControl, MainMode, Parity, SettingError, StopBits,
};
use modbus_toolbox::client::{
    exception_text, monitor_connected, monitor_take, read_key, settle, tcp_listen, tcp_target, ChunkedWrite, MonitorOutcome,
    Outcome, Poll, PollError, ReadOutcome, SlaveScan, Table, CHUNK,
};
use modbus_toolbox::clock::Moment;
use modbus_toolbox::format::{RegDataFormat, RegDataType, RegDataWidth};
use modbus_toolbox::service::{HoldingService, Request, Response};
use modbus_toolbox::setup::{new_state, save_combinations, save_labels};
use modbus_toolbox::simulator::{compute_pattern_value, draw, prepare, simulate, simulate_at, Draw, Wave};
use modbus_toolbox::state::{
    record_reg_change, record_reg_change_at, AppState, ChangeDirection, RegChangePattern, BAR_HISTORY_SLOTS,
    MAX_CHANGES,
};
use modbus_toolbox::worker::{execute, ExceptionCode, RegCmd, Reply};

fn args(holding: usize, coils: usize, discrete: usize, input: usize) -> Args {
    Args {
        holding_count: holding,
        coil_count: coils,
        discrete_count: discrete,
        input_count: input,
        ..Args::default()
    }
}

fn device(holding: usize, coils: usize, discrete: usize, input: usize) -> AppState {
    new_state(&args(holding, coils, discrete, input), MainMode::TcpServer)
}

#[test]
fn modes_by_name() {
    for (s, m) in [
        ("ts", MainMode::TcpServer),
        ("TCP-Client", MainMode::TcpClient),
        ("tm", MainMode::TcpMonitor),
        ("rtu-server", MainMode::RTUServer),
        ("RC", MainMode::RTUClient),
        ("rtu-monitor", MainMode::RtuMonitor),
    ] {
        assert_eq!(parse_mainmode(s), Ok(m));
        assert_eq!(parse_mainmode(main_mode_name(m)), Ok(m));
    }
    assert_eq!(parse_mainmode("monitor"), Err(SettingError::InvalidMainMode));
}

#[test]
fn settings_of_a_serial_line() {
    assert_eq!(parse_parity("N"), Ok(Parity::Off));
    assert_eq!(parse_parity("even"), Ok(Parity::Even));
    assert_eq!(parse_parity("o"), Ok(Parity::Odd));
    assert_eq!(parse_parity("x"), Err(SettingError::InvalidParity));
    assert_eq!(parse_flow("none"), Ok(FlowControl::Off));
    assert_eq!(parse_flow("RTSCTS"), Ok(FlowControl::Hardware));
    assert_eq!(parse_flow("sw"), Ok(FlowControl::Software));
    assert_eq!(parse_flow("hardware"), Err(SettingError::InvalidFlow));
    assert_eq!(parse_databits(7), Ok(DataBits::Seven));
    assert_eq!(parse_databits(9), Err(SettingError::InvalidDatabits));
    assert_eq!(parse_stopbits(2), Ok(StopBits::Two));
    assert_eq!(parse_stopbits(0), Err(SettingError::InvalidStopbits));
}

#[test]
fn formats_by_name() {
    let int32 = RegDataFormat { data_type: RegDataType::Int, width: RegDataWidth::Bits32 };
    assert_eq!(parse_combination_format(" INT32 "), int32);
    assert_eq!(parse_combination_format("float").short_label(), "f32");
    assert_eq!(parse_combination_format("nonsense"), RegDataFormat::default());
    assert_eq!(parse_reg_format("double").short_label(), "f64");
    assert_eq!(parse_reg_format("i16").short_label(), "i16");
    assert_eq!(parse_reg_format("hex").short_label(), "u16");
    assert_eq!(parse_reg_format("Binary").short_label(), "bin");
}

#[test]
fn a_device_starts_with_what_its_settings_say() {
    let mut a = args(3, 2, 1, 4);
    a.labels = vec![
        ("1".to_string(), "pump".to_string()),
        ("9".to_string(), "none".to_string()),
        ("x".to_string(), "none".to_string()),
    ];
    a.reg_combinations = vec![
        ("0".to_string(), "u32".to_string()),
        ("i:2".to_string(), "f32".to_string()),
        ("1".to_string(), "u16".to_string()),
    ];
    a.swap_bytes_reg = vec![("1".to_string(), "true".to_string()), ("2".to_string(), "yes".to_string())];
    a.swap_words_reg = vec![("i:3".to_string(), "true".to_string())];
    let s = new_state(&a, MainMode::RTUClient);
    assert_eq!((s.holding.len(), s.coils.len(), s.discrete.len(), s.input_registers.len()), (3, 2, 1, 4));
    assert_eq!(s.holding_label, vec!["", "pump", ""]);
    assert!(!s.is_tcp);
    assert_eq!(s.holding_combinations.len(), 1);
    assert_eq!(s.holding_combinations[&0].short_label(), "u32");
    assert_eq!(s.input_combinations[&2].short_label(), "f32");
    assert_eq!(s.holding_swap_bytes.len(), 1);
    assert!(s.holding_swap_bytes[&1] && s.input_swap_words[&3]);
    assert_eq!(s.reg_just_changed.len(), 4);
    assert_eq!(save_labels(&s.holding_label), vec![("1".to_string(), "pump".to_string())]);
    let saved = save_combinations(&s.holding_combinations, &s.input_combinations);
    assert_eq!(
        saved,
        vec![("0".to_string(), "u32".to_string()), ("i:2".to_string(), "f32".to_string())]
    );
}

#[test]
fn changes_are_kept_within_bounds() {
    let mut s = device(2, 0, 0, 0);
    for i in 0..MAX_CHANGES + 5 {
        record_reg_change(&mut s, 1, i as u16, i as u16 + 1);
    }
    assert_eq!(s.reg_change_history.len(), MAX_CHANGES);
    assert_eq!(s.reg_change_history[0].old_value, 5);
    assert_eq!(s.reg_bar_history[1].len(), BAR_HISTORY_SLOTS);
    assert_eq!(s.reg_bar_history[1][19], MAX_CHANGES as u16 + 5);
    let before = s.reg_change_history.len();
    record_reg_change(&mut s, 1, 7, 7);
    assert_eq!(s.reg_change_history.len(), before);
    record_reg_change_at(&mut s, 6, 9, 8, None);
    assert_eq!(s.reg_bar_history[6], vec![8]);
    assert_eq!(s.reg_change_history.last().unwrap().direction, ChangeDirection::Down);
    assert_eq!(s.reg_change_history.last().unwrap().human_time, "??:??:??.???");
    assert_eq!(ChangeDirection::Up.label(), "↑");
    assert_eq!(RegChangePattern::Sine.label(), "正弦");
}

#[test]
fn a_server_answers_requests() {
    let mut s = device(4, 2, 2, 2);
    let svc = HoldingService { holding_len: 4, unit: 1, is_tcp: true };
    let req = Request::WriteMultipleRegisters(1, vec![7, 8]);
    let cmd = svc.call(&s, 1, &req).unwrap();
    let reply = execute(&mut s, &cmd);
    match svc.respond(&mut s, &req, Some(reply)) {
        Ok(Response::WriteMultipleRegisters(1, 2)) => {}
        other => panic!("{:?}", other),
    }
    assert_eq!(s.holding, vec![0, 7, 8, 0]);
    assert_eq!(s.last_frame.as_ref().unwrap().func_code, 0x10);
    assert_eq!(s.monitor.total_frames, 1);
    let req = Request::ReadHoldingRegisters(1, 2);
    let cmd = svc.call(&s, 1, &req).unwrap();
    let reply = execute(&mut s, &cmd);
    match svc.respond(&mut s, &req, Some(reply)) {
        Ok(Response::ReadHoldingRegisters(v)) => assert_eq!(v, vec![7, 8]),
        other => panic!("{:?}", other),
    }
    assert_eq!(svc.call(&s, 2, &req).unwrap_err(), ExceptionCode::IllegalFunction);
    assert_eq!(svc.call(&s, 1, &Request::Other).unwrap_err(), ExceptionCode::IllegalFunction);
    let far = Request::ReadCoils(1, 2);
    assert_eq!(svc.call(&s, 1, &far).unwrap_err(), ExceptionCode::IllegalDataAddress);
    assert_eq!(svc.respond(&mut s, &req, None).unwrap_err(), ExceptionCode::ServerDeviceFailure);
    let refused = Some(Reply::Words(Err(ExceptionCode::IllegalDataAddress)));
    assert_eq!(svc.respond(&mut s, &req, refused).unwrap_err(), ExceptionCode::IllegalDataAddress);
}

#[test]
fn long_writes_go_in_runs() {
    let mut w = ChunkedWrite::new(10, vec![1u16; 250]);
    let (addr, first) = w.next_chunk().unwrap();
    assert_eq!((addr, first.len()), (10, CHUNK));
    assert!(w.advance(Outcome::Done).is_none());
    let (addr, second) = w.next_chunk().unwrap();
    assert_eq!((addr, second.len()), (130, CHUNK));
    assert!(w.advance(Outcome::Done).is_none());
    let (addr, last) = w.next_chunk().unwrap();
    assert_eq!((addr, last.len()), (250, 10));
    assert_eq!(w.advance(Outcome::Done), Some(Ok(())));
    assert!(w.next_chunk().is_none());
    let mut w = ChunkedWrite::new(0, vec![true; 3]);
    assert_eq!(
        w.advance(Outcome::Refused(ExceptionCode::IllegalDataValue)),
        Some(Err(ExceptionCode::IllegalDataValue))
    );
    assert_eq!(settle(Outcome::Done), Ok(()));
    assert_eq!(settle(Outcome::Failed), Err(ExceptionCode::ServerDeviceFailure));
    assert_eq!(settle(Outcome::TimedOut), Err(ExceptionCode::ServerDeviceFailure));
}

#[test]
fn a_client_reads_every_table_that_is_enabled() {
    let mut s = device(130, 3, 0, 2);
    let counts = [130, 3, 0, 2];
    let enabled = [true, true, true, true];
    let mut poll = Poll::start();
    let mut seen = Vec::new();
    while let Some(q) = poll.next_read(&counts, &enabled) {
        seen.push((q.table, q.addr, q.cnt));
        let outcome = match q.table {
            Table::Holding | Table::Input => ReadOutcome::Words(vec![9; q.cnt as usize]),
            _ => ReadOutcome::Bits(vec![true; q.cnt as usize]),
        };
        assert_eq!(poll.take(&mut s, &counts, &outcome, 1, "poll", Some(Moment { secs: 1, millis: 2 })), Ok(()));
    }
    assert_eq!(
        seen,
        vec![(Table::Holding, 0, 120), (Table::Holding, 120, 10), (Table::Coils, 0, 3), (Table::Input, 0, 2)]
    );
    assert_eq!(s.holding, vec![9; 130]);
    assert_eq!(s.coils, vec![true; 3]);
    assert_eq!(s.input_registers, vec![9; 2]);
    let mut poll = Poll::start();
    assert!(poll.next_read(&counts, &[false; 4]).is_none());
    let mut poll = Poll::start();
    poll.next_read(&counts, &enabled);
    assert_eq!(poll.take(&mut s, &counts, &ReadOutcome::Failed, 1, "poll", None), Err(PollError::ReadFail));
    assert_eq!(poll.take(&mut s, &counts, &ReadOutcome::TimedOut, 1, "poll", None), Err(PollError::Timeout));
    assert_eq!(
        poll.take(&mut s, &counts, &ReadOutcome::Refused(ExceptionCode::Acknowledge), 1, "poll", None),
        Err(PollError::Exception(ExceptionCode::Acknowledge))
    );
}

#[test]
fn a_scan_asks_every_unit() {
    let mut scan = SlaveScan::start();
    let mut asked = 0;
    while let Some(unit) = scan.next_unit() {
        asked += 1;
        assert_eq!(unit as usize, asked);
        if unit == 7 {
            scan.note(Some(&vec![42]));
        } else {
            scan.note(None);
        }
    }
    assert_eq!(asked, 255);
    assert_eq!(scan.results[6], (7, Some(42)));
    assert_eq!(scan.results[7], (8, None));
}

#[test]
fn addresses_over_tcp() {
    assert_eq!(tcp_target("dev/null", 502), "127.0.0.1:502");
    assert_eq!(tcp_target("10.0.0.7", 1502), "10.0.0.7:1502");
    assert_eq!(tcp_listen(502), "0.0.0.0:502");
    assert_eq!(exception_text(ExceptionCode::Custom(9)), "Custom(9)");
    assert_eq!(exception_text(ExceptionCode::IllegalDataAddress), "IllegalDataAddress");
}

#[test]
fn a_monitor_reads_on_while_it_is_answered() {
    let mut s = device(130, 0, 0, 0);
    let at = Some(Moment { secs: 0, millis: 0 });
    monitor_connected(&mut s, 3, 130, at);
    assert_eq!(s.monitor.total_frames, 1);
    let next = monitor_take(&mut s, 0, 130, &MonitorOutcome::Values(vec![5; 120]), 3, at);
    assert_eq!(next, Some(120));
    assert_eq!(s.holding[119], 5);
    assert_eq!(monitor_take(&mut s, 120, 130, &MonitorOutcome::TimedOut, 3, at), None);
    assert_eq!(s.last_frame.as_ref().unwrap().func_name, "读取超时 (Timeout)");
    let why = MonitorOutcome::Failed("gone".to_string());
    assert_eq!(monitor_take(&mut s, 120, 130, &why, 3, at), None);
    assert_eq!(s.last_frame.as_ref().unwrap().func_name, "读取失败: gone");
    let refused = MonitorOutcome::Refused(ExceptionCode::IllegalFunction);
    assert_eq!(monitor_take(&mut s, 120, 130, &refused, 3, at), None);
    assert_eq!(s.last_frame.as_ref().unwrap().func_name, "异常: IllegalFunction");
}

#[test]
fn patterns_step() {
    let up = Draw { skip: false, delta: 50, rise: true };
    let down = Draw { skip: false, delta: 50, rise: false };
    assert_eq!(compute_pattern_value(RegChangePattern::Random, 65500, true, up, 0), (65535, true));
    assert_eq!(compute_pattern_value(RegChangePattern::Random, 20, true, down, 0), (0, true));
    assert_eq!(compute_pattern_value(RegChangePattern::UpDown, 65534, true, up, 0), (65535, false));
    assert_eq!(compute_pattern_value(RegChangePattern::UpDown, 1, false, up, 0), (0, true));
    assert_eq!(compute_pattern_value(RegChangePattern::Sine, 1, false, up, 77), (77, false));
}

#[test]
fn draws_stay_in_their_range() {
    let mut skipped = 0;
    let mut rises = 0;
    for _ in 0..2000 {
        let d = draw();
        assert!(d.delta >= 1 && d.delta <= 50);
        if d.skip {
            skipped += 1;
        }
        if d.rise {
            rises += 1;
        }
    }
    assert!(skipped > 1000 && skipped < 1700);
    assert!(rises > 700 && rises < 1300);
}

#[test]
fn a_tick_moves_what_is_simulated() {
    let mut s = device(3, 0, 0, 1);
    prepare(&mut s);
    s.holding_change_enabled = vec![true, false, true];
    s.holding_change_patterns[2] = RegChangePattern::Triangle;
    s.input_change_enabled = vec![true];
    s.input_change_patterns = vec![RegChangePattern::UpDown];
    let draws = vec![Draw { skip: false, delta: 7, rise: true }; 4];
    let waves = vec![Wave { phase: 1, value: 99 }; 4];
    simulate_at(&mut s, &draws, &waves, None);
    assert_eq!(s.holding, vec![7, 0, 99]);
    assert_eq!(s.input_registers, vec![1]);
    simulate(&mut s, &waves);
    assert_eq!(s.holding[1], 0);
    assert_eq!(s.holding[2], 99);
    assert!(s.holding[0] <= 57);
}

#[test]
fn commands_keep_their_place() {
    let mut s = device(2, 2, 0, 0);
    execute(&mut s, &RegCmd::WriteSingleHolding { addr: 1, value: 5 });
    assert_eq!(s.coils, vec![false, false]);
    assert_eq!(s.holding, vec![0, 5]);
}

/// Takes a write to its end: what was sent to which address, and the answer.
fn write(values: Vec<u16>, outcomes: &[Outcome]) -> (Vec<(u16, Vec<u16>)>, Option<Result<(), ExceptionCode>>) {
    let mut w = ChunkedWrite::new(7, values);
    let mut sent = Vec::new();
    for o in outcomes {
        let Some(run) = w.next_chunk() else { break };
        sent.push(run);
        let answer = w.advance(*o);
        if answer.is_some() {
            return (sent, answer);
        }
    }
    (sent, w.at_end())
}

#[test]
fn a_whole_write_sends_each_value_to_its_address() {
    let values: Vec<u16> = (0..301).collect();
    let (sent, answer) = write(values.clone(), &[Outcome::Done; 9]);
    assert_eq!(answer, Some(Ok(())));
    assert_eq!(sent.len(), 3);
    for (addr, run) in &sent {
        for (i, v) in run.iter().enumerate() {
            assert_eq!(*addr as usize + i, 7 + *v as usize);
        }
    }
    assert_eq!(sent.iter().flat_map(|(_, v)| v.clone()).collect::<Vec<u16>>(), values);
    let refused = Outcome::Refused(ExceptionCode::IllegalDataAddress);
    let (sent, answer) = write(values.clone(), &[Outcome::Done, refused, Outcome::Done]);
    assert_eq!(answer, Some(Err(ExceptionCode::IllegalDataAddress)));
    assert_eq!(sent.iter().flat_map(|(_, v)| v.clone()).collect::<Vec<u16>>(), values[..240]);
    assert_eq!(write(Vec::new(), &[Outcome::Done]), (Vec::new(), Some(Ok(()))));
    assert_eq!(write(values, &[Outcome::Done]).1, None);
}

#[test]
fn a_whole_round_copies_the_enabled_tables() {
    let counts = [250usize, 130, 5, 121];
    for bits in 0..16u32 {
        let enabled = [bits & 1 != 0, bits & 2 != 0, bits & 4 != 0, bits & 8 != 0];
        let mut s = device(255, 130, 3, 121);
        let mut poll = Poll::start();
        while let Some(q) = poll.next_read(&counts, &enabled) {
            let at = q.addr..q.addr + q.cnt;
            let outcome = match q.table {
                Table::Holding => ReadOutcome::Words(at.map(|i| i + 1).collect()),
                Table::Coils | Table::Discrete => ReadOutcome::Bits(at.map(|i| i % 3 == 0).collect()),
                Table::Input => ReadOutcome::Words(at.map(|i| 500 + i).collect()),
            };
            assert_eq!(poll.take(&mut s, &counts, &outcome, 1, read_key(q.table), None), Ok(()));
        }
        for i in 0..255usize {
            let v = if enabled[0] && i < 250 { i as u16 + 1 } else { 0 };
            assert_eq!(s.holding[i], v);
        }
        assert_eq!(s.coils, (0..130).map(|i| enabled[1] && i % 3 == 0).collect::<Vec<bool>>());
        assert_eq!(s.discrete, (0..3).map(|i| enabled[2] && i % 3 == 0).collect::<Vec<bool>>());
        assert_eq!(s.input_registers, (0..121).map(|i| if enabled[3] { 500 + i } else { 0 }).collect::<Vec<u16>>());
    }
    assert_eq!(read_key(Table::Holding), "func_code.read_holding");
    assert_eq!(read_key(Table::Coils), "func_code.read_coils");
    assert_eq!(read_key(Table::Discrete), "func_code.read_discrete");
    assert_eq!(read_key(Table::Input), "func_code.read_input");
}

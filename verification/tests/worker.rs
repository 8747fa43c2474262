use modbus_toolbox::clock::Moment;
use modbus_toolbox::state::{AppState, ChangeDirection, RegChangePattern, DOUBLE_ONE, DOUBLE_ZERO};
use modbus_toolbox::worker::{execute, execute_at, ExceptionCode, RegCmd, Reply};

fn test_state(holding: usize, coils: usize, discrete: usize, input: usize) -> AppState {
    AppState {
        holding: vec![0u16; holding],
        holding_label: vec!["".to_string(); holding],
        coils: vec![false; coils],
        discrete: vec![false; discrete],
        input_registers: vec![0u16; input],
        is_tcp: false,
        reg_just_changed: vec![false; holding],
        reg_change_direction: vec![ChangeDirection::Up; holding],
        holding_change_enabled: vec![false; holding],
        input_change_enabled: vec![false; input],
        holding_change_patterns: vec![RegChangePattern::Random; holding],
        input_change_patterns: vec![RegChangePattern::Random; input],
        holding_pattern_freqs: vec![DOUBLE_ONE; holding],
        input_pattern_freqs: vec![DOUBLE_ONE; input],
        holding_pattern_phases: vec![DOUBLE_ZERO; holding],
        input_pattern_phases: vec![DOUBLE_ZERO; input],
        read_enabled: [false, false, false, false],
        reg_bar_history: vec![Vec::new(); holding],
        ..AppState::default()
    }
}

fn words(reply: Reply) -> Result<Vec<u16>, ExceptionCode> {
    match reply {
        Reply::Words(r) => r,
        other => panic!("no registers: {:?}", other),
    }
}

fn bits(reply: Reply) -> Result<Vec<bool>, ExceptionCode> {
    match reply {
        Reply::Bits(r) => r,
        other => panic!("no bits: {:?}", other),
    }
}

fn done(reply: Reply) -> Result<(), ExceptionCode> {
    match reply {
        Reply::Done(r) => r,
        other => panic!("nothing done: {:?}", other),
    }
}

#[test]
fn test_read_holding_ok() {
    let mut state = test_state(10, 0, 0, 0);
    state.holding[3] = 42;
    let result = words(execute(&mut state, &RegCmd::ReadHolding { addr: 3, cnt: 2 })).unwrap();
    assert_eq!(result, vec![42u16, 0]);
}

#[test]
fn test_read_holding_oob() {
    let mut state = test_state(5, 0, 0, 0);
    let err = words(execute(&mut state, &RegCmd::ReadHolding { addr: 3, cnt: 5 })).unwrap_err();
    assert_eq!(err, ExceptionCode::IllegalDataAddress);
}

#[test]
fn test_write_single_holding() {
    let mut state = test_state(5, 0, 0, 0);
    done(execute(&mut state, &RegCmd::WriteSingleHolding { addr: 2, value: 1234 })).unwrap();
    assert_eq!(state.holding[2], 1234);
}

#[test]
fn test_write_multiple_holding() {
    let mut state = test_state(10, 0, 0, 0);
    let values = vec![10, 20, 30];
    done(execute(&mut state, &RegCmd::WriteMultipleHolding { addr: 1, values })).unwrap();
    assert_eq!(state.holding[1], 10);
    assert_eq!(state.holding[2], 20);
    assert_eq!(state.holding[3], 30);
}

#[test]
fn test_read_coils_ok() {
    let mut state = test_state(0, 8, 0, 0);
    state.coils[1] = true;
    state.coils[3] = true;
    let result = bits(execute(&mut state, &RegCmd::ReadCoils { addr: 0, cnt: 4 })).unwrap();
    assert_eq!(result, vec![false, true, false, true]);
}

#[test]
fn test_write_single_coil() {
    let mut state = test_state(0, 5, 0, 0);
    done(execute(&mut state, &RegCmd::WriteSingleCoil { addr: 2, value: true })).unwrap();
    assert!(state.coils[2]);
}

#[test]
fn test_write_multiple_coils() {
    let mut state = test_state(0, 6, 0, 0);
    let values = vec![true, false, true];
    done(execute(&mut state, &RegCmd::WriteMultipleCoils { addr: 1, values })).unwrap();
    assert!(!state.coils[0]);
    assert!(state.coils[1]);
    assert!(!state.coils[2]);
    assert!(state.coils[3]);
}

#[test]
fn test_coil_write_oob() {
    let mut state = test_state(0, 3, 0, 0);
    let err = done(execute(&mut state, &RegCmd::WriteSingleCoil { addr: 10, value: true })).unwrap_err();
    assert_eq!(err, ExceptionCode::IllegalDataAddress);
}

#[test]
fn test_read_discrete_inputs() {
    let mut state = test_state(0, 0, 4, 0);
    state.discrete[0] = true;
    state.discrete[2] = true;
    let result = bits(execute(&mut state, &RegCmd::ReadDiscreteInputs { addr: 0, cnt: 3 })).unwrap();
    assert_eq!(result, vec![true, false, true]);
}

#[test]
fn test_read_input_registers() {
    let mut state = test_state(0, 0, 0, 5);
    state.input_registers[1] = 77;
    state.input_registers[3] = 99;
    let result = words(execute(&mut state, &RegCmd::ReadInputRegisters { addr: 1, cnt: 3 })).unwrap();
    assert_eq!(result, vec![77, 0, 99]);
}

#[test]
fn test_all_oob() {
    let mut state = test_state(3, 3, 3, 3);
    assert_eq!(
        words(execute(&mut state, &RegCmd::ReadHolding { addr: 0, cnt: 5 })).unwrap_err(),
        ExceptionCode::IllegalDataAddress
    );
    assert_eq!(
        bits(execute(&mut state, &RegCmd::ReadCoils { addr: 0, cnt: 5 })).unwrap_err(),
        ExceptionCode::IllegalDataAddress
    );
    assert_eq!(
        done(execute(&mut state, &RegCmd::WriteMultipleCoils { addr: 1, values: vec![true; 5] })).unwrap_err(),
        ExceptionCode::IllegalDataAddress
    );
    assert_eq!(
        bits(execute(&mut state, &RegCmd::ReadDiscreteInputs { addr: 0, cnt: 5 })).unwrap_err(),
        ExceptionCode::IllegalDataAddress
    );
    assert_eq!(
        words(execute(&mut state, &RegCmd::ReadInputRegisters { addr: 0, cnt: 5 })).unwrap_err(),
        ExceptionCode::IllegalDataAddress
    );
}

#[test]
fn refused_write_changes_nothing() {
    let mut state = test_state(3, 3, 0, 0);
    state.holding[1] = 7;
    let cmd = RegCmd::WriteMultipleHolding { addr: 2, values: vec![1, 2] };
    assert_eq!(done(execute(&mut state, &cmd)).unwrap_err(), ExceptionCode::IllegalDataAddress);
    assert_eq!(state.holding, vec![0, 7, 0]);
    assert!(state.reg_change_history.is_empty());
    let far = RegCmd::ReadHolding { addr: usize::MAX, cnt: 2 };
    assert_eq!(words(execute(&mut state, &far)).unwrap_err(), ExceptionCode::IllegalDataAddress);
}

#[test]
fn written_registers_are_noted() {
    let mut state = test_state(4, 0, 0, 0);
    let at = Some(Moment { secs: 3661, millis: 42 });
    let cmd = RegCmd::WriteMultipleHolding { addr: 1, values: vec![5, 0] };
    done(execute_at(&mut state, &cmd, at)).unwrap();
    assert_eq!(state.reg_change_history.len(), 1);
    let change = &state.reg_change_history[0];
    assert_eq!((change.addr, change.old_value, change.new_value), (1, 0, 5));
    assert_eq!(change.direction, ChangeDirection::Up);
    assert_eq!(change.human_time, "01:01:01.042");
    assert_eq!(state.reg_just_changed, vec![false, true, false, false]);
    assert_eq!(state.reg_bar_history[1], vec![5]);
    done(execute_at(&mut state, &RegCmd::WriteSingleHolding { addr: 1, value: 3 }, at)).unwrap();
    assert_eq!(state.reg_change_direction[1], ChangeDirection::Down);
    assert_eq!(state.reg_bar_history[1], vec![5, 3]);
    let read = words(execute(&mut state, &RegCmd::ReadHolding { addr: 1, cnt: 1 })).unwrap();
    assert_eq!(read, vec![3]);
}

#[test]
fn scan_of_a_served_device_finds_nothing_by_itself() {
    let mut state = test_state(2, 0, 0, 0);
    match execute(&mut state, &RegCmd::SlaveScan) {
        Reply::Units(found) => assert!(found.is_empty()),
        other => panic!("{:?}", other),
    }
}

use modbus_toolbox::clock::{chrono_at, date_stamp, days_to_date, format_system_time, moment_after, moment_now, moment_of, Moment};
use modbus_toolbox::csv::{
    csv_log_append, csv_log_header, csv_log_path, csv_log_path_at, list_csv_logs, load_csv_into_monitor, parse_csv_log,
};
use modbus_toolbox::frame::FrameInfo;
use modbus_toolbox::monitor::{record_frame, record_frame_at, stats_from, MonitorStats, MAX_HISTORY};

fn frame(func_code: u8, addr: u16, values: Vec<u16>) -> FrameInfo {
    FrameInfo { is_tcp: true, unit: 7, func_code, func_name: "读保持寄存器".to_string(), addr, values, is_request: true }
}

#[test]
fn dates_follow_the_calendar() {
    assert_eq!(days_to_date(0), (1970, 1, 1));
    assert_eq!(days_to_date(58), (1970, 2, 28));
    assert_eq!(days_to_date(59), (1970, 3, 1));
    assert_eq!(days_to_date(19723), (2024, 1, 1));
    assert_eq!(days_to_date(19782), (2024, 2, 29));
    assert_eq!(days_to_date(19783), (2024, 3, 1));
    assert_eq!(days_to_date(47541), (2100, 3, 1));
    assert_eq!(days_to_date(47540), (2100, 2, 28));
}

#[test]
fn moments_as_texts() {
    let m = Some(Moment { secs: 19782 * 86400 + 86399, millis: 7 });
    assert_eq!(format_system_time(m), "23:59:59.007");
    assert_eq!(format_system_time(None), "??:??:??.???");
    assert_eq!(date_stamp(m), "20240229_235959");
    assert_eq!(date_stamp(None), "unknown");
    assert_eq!(chrono_at(Some(Moment { secs: 365 * 86400 + 3661, millis: 0 })), "1971-01-01_01-01-01");
}

#[test]
fn now_is_after_the_epoch() {
    let now = moment_now().unwrap();
    assert!(now.secs > 1_600_000_000);
    assert!(now.millis < 1000);
}

#[test]
fn log_lines() {
    let mut stats = MonitorStats::default();
    let at = Some(Moment { secs: 3661, millis: 42 });
    record_frame_at(&mut stats, &frame(3, 0x1F, vec![1, 65535]), at);
    assert_eq!(csv_log_header(), "time,direction,protocol,unit,func_code,func_name,addr,values\n");
    assert_eq!(
        csv_log_append(&stats.history[0]),
        "01:01:01.042,REQ,TCP,7,0x03,读保持寄存器,0x001F,\"[1;65535]\"\n"
    );
}

#[test]
fn a_log_is_read_back() {
    let mut stats = MonitorStats::default();
    record_frame(&mut stats, &frame(3, 5, vec![1, 2, 3]));
    record_frame(&mut stats, &frame(6, 9, vec![]));
    let mut log = csv_log_header();
    for r in &stats.history {
        log.push_str(&csv_log_append(r));
    }
    let back = parse_csv_log(&log);
    assert_eq!(back.len(), 2);
    for (a, b) in back.iter().zip(&stats.history) {
        assert_eq!(a.human_time, b.human_time);
        assert_eq!((a.func_code, a.addr, a.unit), (b.func_code, b.addr, b.unit));
        assert_eq!((a.is_tcp, a.is_request), (b.is_tcp, b.is_request));
        assert_eq!(a.func_name, b.func_name);
        assert_eq!(a.values, b.values);
    }
    let loaded = load_csv_into_monitor(&log);
    assert_eq!(loaded.total_frames, 2);
    assert_eq!(loaded.func_count.get(&6), Some(&1));
    assert_eq!(loaded.addr_count.get(&5), Some(&1));
}

#[test]
fn broken_log_lines_are_passed_over() {
    let log = "header\n\nt,REQ,TCP,1,0x03\nt,RSP,RTU,x,zz,name,0x0102,\"[1;x; 2 ]\"\n";
    let back = parse_csv_log(log);
    assert_eq!(back.len(), 1);
    assert_eq!((back[0].unit, back[0].func_code, back[0].addr), (1, 0, 0x0102));
    assert_eq!(back[0].values, vec![1, 2]);
    assert!(!back[0].is_tcp && !back[0].is_request);
    assert!(parse_csv_log("").is_empty());
}

#[test]
fn log_names_and_places() {
    let at = Some(Moment { secs: 0, millis: 0 });
    assert_eq!(csv_log_path_at("tcp-monitor", 502, "x", at), "./monitor/tcp-502-19700101_000000.csv");
    assert_eq!(
        csv_log_path_at("rtu-monitor", 502, "/dev/ttyUSB0", at),
        "./monitor/rtu-_dev_ttyUSB0-19700101_000000.csv"
    );
    assert!(csv_log_path("tcp-monitor", 1502, "").starts_with("./monitor/tcp-1502-20"));
    let names: Vec<String> = ["a.csv", "b.txt", ".csv", "c.csv", "b.csv"].iter().map(|s| s.to_string()).collect();
    assert_eq!(list_csv_logs(&names), vec!["c.csv", "b.csv", "a.csv"]);
}

#[test]
fn a_monitor_keeps_the_last_frames_and_counts_all() {
    let mut stats = MonitorStats::default();
    for i in 0..MAX_HISTORY + 20 {
        record_frame(&mut stats, &frame((i % 2) as u8 + 3, i as u16, vec![i as u16]));
    }
    assert_eq!(stats.history.len(), MAX_HISTORY);
    assert_eq!(stats.history[0].addr, 20);
    assert_eq!(stats.total_frames, MAX_HISTORY + 20);
    assert_eq!(stats.func_count.get(&3), Some(&260));
    let again = stats_from(stats.history);
    assert_eq!(again.total_frames, MAX_HISTORY);
    assert_eq!(again.func_count.get(&3), Some(&250));
}

#[test]
fn a_moment_lies_after_the_start_of_1970() {
    let epoch = std::time::UNIX_EPOCH;
    let later = epoch + std::time::Duration::new(5, 7_999_999);
    assert_eq!(moment_of(5, 7), Moment { secs: 5, millis: 7 });
    assert_eq!(moment_after(later.duration_since(epoch)), Some(Moment { secs: 5, millis: 7 }));
    let longer = std::time::Duration::new(u64::MAX / 4, 999_999_999);
    assert_eq!(moment_after(Ok(longer)), Some(Moment { secs: u64::MAX / 4, millis: 999 }));
    assert_eq!(moment_after(epoch.duration_since(later)), None);
}

#[test]
fn a_long_log_fills_a_monitor_with_its_last_records() {
    let mut log = csv_log_header();
    for i in 0..MAX_HISTORY + 1 {
        log.push_str(&format!("t{i},RSP,TCP,1,0x03,read,0x{:04X},\"[{i}]\"\n", i % 7));
    }
    let m = load_csv_into_monitor(&log);
    assert_eq!(m.total_frames, MAX_HISTORY + 1);
    assert_eq!(m.history.len(), MAX_HISTORY);
    assert_eq!(m.history[0].human_time, "t1");
    assert_eq!(m.history[MAX_HISTORY - 1].values, vec![500]);
    assert_eq!(m.func_count.get(&3), Some(&(MAX_HISTORY + 1)));
}

#[test]
fn the_counts_of_a_monitor_add_up() {
    let mut m = MonitorStats::default();
    for i in 0..MAX_HISTORY + 30 {
        record_frame(&mut m, &frame((i % 5) as u8, (i % 11) as u16, vec![]));
    }
    assert_eq!(m.func_count.values().sum::<usize>(), m.total_frames);
    assert_eq!(m.addr_count.values().sum::<usize>(), m.total_frames);
    let again = stats_from(m.history);
    assert_eq!(again.func_count.values().sum::<usize>(), MAX_HISTORY);
}

use modbus_toolbox::frame::{calc_crc16, frame_bytes_from_info, frame_fits, FrameInfo};

fn info(is_tcp: bool, unit: u8, func_code: u8, func_name: &str, addr: u16, values: Vec<u16>) -> FrameInfo {
    FrameInfo { is_tcp, unit, func_code, func_name: func_name.into(), addr, values, is_request: false }
}

#[test]
fn test_crc16() {
    let data = vec![0x01, 0x03, 0x00, 0x00, 0x00, 0x01];
    let crc = calc_crc16(&data);
    assert_eq!(crc, 0x0A84);
}

#[test]
fn test_frame_bytes_read_coils_rtu() {
    let fi = info(false, 1, 0x01, "读线圈", 0, vec![1, 0, 1, 0, 0, 0, 0, 0]);
    let bytes = frame_bytes_from_info(&fi);
    assert!(!bytes.is_empty());
    assert_eq!(bytes[0], 0x01);
    assert_eq!(bytes[1], 0x01);
    assert_eq!(bytes[2], 0x01);
    assert_eq!(bytes[3], 0x05);
    assert!(bytes.len() >= 5);
}

#[test]
fn test_frame_bytes_read_holding_rtu() {
    let fi = info(false, 1, 0x03, "读保持寄存器", 0, vec![0x1234, 0xABCD]);
    let bytes = frame_bytes_from_info(&fi);
    assert!(!bytes.is_empty());
    assert_eq!(bytes[0], 0x01);
    assert_eq!(bytes[1], 0x03);
    assert_eq!(bytes[2], 4);
    assert_eq!(bytes[3], 0x12);
    assert_eq!(bytes[4], 0x34);
    assert_eq!(bytes[5], 0xAB);
    assert_eq!(bytes[6], 0xCD);
    assert!(bytes.len() >= 8);
}

#[test]
fn test_frame_bytes_write_single_coil_rtu() {
    let fi = info(false, 1, 0x05, "写单线圈", 5, vec![0xFF00]);
    let bytes = frame_bytes_from_info(&fi);
    assert!(!bytes.is_empty());
    assert_eq!(bytes[0], 0x01);
    assert_eq!(bytes[1], 0x05);
    assert_eq!(bytes[2], 0x00);
    assert_eq!(bytes[3], 0x05);
    assert_eq!(bytes[4], 0xFF);
    assert_eq!(bytes[5], 0x00);
}

#[test]
fn test_frame_bytes_write_multiple_coils_rtu() {
    let fi = info(false, 1, 0x0F, "写多线圈", 10, vec![1, 0, 1]);
    let bytes = frame_bytes_from_info(&fi);
    assert!(!bytes.is_empty());
    assert_eq!(bytes[0], 0x01);
    assert_eq!(bytes[1], 0x0F);
    assert_eq!(bytes[2], 0x00);
    assert_eq!(bytes[3], 0x0A);
    assert_eq!(bytes[4], 0x00);
    assert_eq!(bytes[5], 0x03);
}

#[test]
fn test_frame_bytes_read_input_rtu() {
    let fi = info(false, 2, 0x04, "读输入寄存器", 0, vec![0xDEAD]);
    let bytes = frame_bytes_from_info(&fi);
    assert!(!bytes.is_empty());
    assert_eq!(bytes[0], 0x02);
    assert_eq!(bytes[1], 0x04);
    assert_eq!(bytes[2], 2);
    assert_eq!(bytes[3], 0xDE);
    assert_eq!(bytes[4], 0xAD);
}

#[test]
fn test_frame_bytes_read_discrete_rtu() {
    let fi = info(false, 3, 0x02, "读离散输入", 0, vec![0, 1, 0, 0, 0, 0, 0, 0]);
    let bytes = frame_bytes_from_info(&fi);
    assert!(!bytes.is_empty());
    assert_eq!(bytes[0], 0x03);
    assert_eq!(bytes[1], 0x02);
    assert_eq!(bytes[2], 1);
    assert_eq!(bytes[3], 0x02);
}

#[test]
fn test_frame_bytes_tcp_format() {
    let fi = info(true, 1, 0x03, "Read Holding Registers", 0, vec![0x0001]);
    let bytes = frame_bytes_from_info(&fi);
    assert!(!bytes.is_empty());
    assert_eq!(bytes[0], 0x00);
    assert_eq!(bytes[1], 0x01);
    assert_eq!(bytes[2], 0x00);
    assert_eq!(bytes[3], 0x00);
    assert_eq!(bytes[5], 0x05);
    assert_eq!(bytes[6], 0x01);
    assert_eq!(bytes[7], 0x03);
}

#[test]
fn test_frame_bytes_unknown() {
    let fi = info(false, 1, 0x99, "未知", 0, vec![]);
    let bytes = frame_bytes_from_info(&fi);
    assert!(bytes.is_empty());
}

#[test]
fn checksum_of_a_whole_frame_is_zero() {
    let fi = info(false, 1, 0x06, "写单寄存器", 0x0102, vec![0x0304]);
    let bytes = frame_bytes_from_info(&fi);
    assert_eq!(bytes[..6], [0x01, 0x06, 0x01, 0x02, 0x03, 0x04]);
    assert_eq!(bytes.len(), 8);
    assert_eq!(calc_crc16(&bytes), 0);
}

#[test]
fn a_frame_fits_where_its_length_has_room_for_the_unit() {
    assert!(frame_fits(&info(true, 1, 0x01, "read", 0, vec![1; 8])));
    assert!(!frame_fits(&info(true, 1, 0x01, "read", 0, vec![1; 2024])));
    assert!(frame_fits(&info(false, 1, 0x01, "read", 0, vec![1; 2024])));
    assert!(frame_fits(&info(true, 1, 0x55, "unknown", 0, vec![1; 2024])));
}

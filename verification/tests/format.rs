use modbus_toolbox::format::{RegDataFormat, RegDataType, RegDataWidth};
use modbus_toolbox::half::{f32_to_f16_bits, half_to_single_bits};
use modbus_toolbox::value::{
    format_register_value, format_u16, parse_register_value, parse_u16_str, FloatBits, ParseError, RegisterText,
};
use modbus_toolbox::words::{arrange, exchange, join_words, split_number, to_bits, to_signed};

fn f(data_type: RegDataType, width: RegDataWidth) -> RegDataFormat {
    RegDataFormat { data_type, width }
}

const TYPES: [RegDataType; 6] = [
    RegDataType::Uint,
    RegDataType::Int,
    RegDataType::Float,
    RegDataType::Hex,
    RegDataType::Binary,
    RegDataType::Ascii,
];
const WIDTHS: [RegDataWidth; 4] =
    [RegDataWidth::Bits16, RegDataWidth::Bits32, RegDataWidth::Bits64, RegDataWidth::Bits128];

fn shown(regs: &[u16], f: RegDataFormat, bytes: bool, words: bool) -> String {
    match format_register_value(&regs.to_vec(), 0, f, bytes, words) {
        RegisterText::Text(s) => s,
        RegisterText::Single(b) => format!("{:.6}", f32::from_bits(b)),
        RegisterText::Double(b) => format!("{:.10}", f64::from_bits(b)),
    }
}

fn entered(s: &str, f: RegDataFormat) -> Result<Vec<u16>, ParseError> {
    let floats = FloatBits {
        single: s.trim().parse::<f32>().ok().map(|x| x.to_bits()),
        double: s.trim().parse::<f64>().ok().map(|x| x.to_bits()),
    };
    parse_register_value(s, f, false, false, floats)
}

#[test]
fn all_types_are_offered() {
    assert_eq!(RegDataFormat::all_types(), &TYPES[..]);
    assert_eq!(RegDataFormat::default(), f(RegDataType::Uint, RegDataWidth::Bits16));
}

#[test]
fn registers_and_labels_of_formats() {
    let needed: Vec<usize> = WIDTHS.iter().map(|w| f(RegDataType::Int, *w).regs_needed()).collect();
    assert_eq!(needed, vec![1, 2, 4, 8]);
    assert_eq!(f(RegDataType::Uint, RegDataWidth::Bits16).short_label(), "u16");
    assert_eq!(f(RegDataType::Int, RegDataWidth::Bits128).short_label(), "i128");
    assert_eq!(f(RegDataType::Float, RegDataWidth::Bits32).short_label(), "f32");
    assert_eq!(f(RegDataType::Hex, RegDataWidth::Bits32).short_label(), "hex");
    assert_eq!(f(RegDataType::Binary, RegDataWidth::Bits16).short_label(), "bin");
    assert_eq!(f(RegDataType::Ascii, RegDataWidth::Bits16).short_label(), "ascii");
}

#[test]
fn types_and_widths_go_round() {
    for t in TYPES {
        for w in WIDTHS {
            if t == RegDataType::Float && w == RegDataWidth::Bits128 {
                continue;
            }
            let start = f(t, w);
            if w != RegDataWidth::Bits128 && t != RegDataType::Ascii {
                assert_eq!(start.next_type().prev_type(), start);
            }
            if t != RegDataType::Float {
                assert_eq!(start.next_width().prev_width(), start);
            }
        }
    }
    let wide = f(RegDataType::Int, RegDataWidth::Bits128);
    assert_eq!(wide.next_type(), f(RegDataType::Float, RegDataWidth::Bits64));
    assert_eq!(f(RegDataType::Float, RegDataWidth::Bits64).next_width(), f(RegDataType::Float, RegDataWidth::Bits64));
    assert_eq!(wide.to_float(), f(RegDataType::Float, RegDataWidth::Bits64));
    assert_eq!(wide.to_uint(), f(RegDataType::Uint, RegDataWidth::Bits128));
    assert_eq!(wide.to_int(), wide);
    assert_eq!(wide.to_hex().data_type, RegDataType::Hex);
    assert_eq!(wide.to_binary().data_type, RegDataType::Binary);
    assert_eq!(wide.to_ascii().data_type, RegDataType::Ascii);
}

#[test]
fn single_registers_go_through_four_formats() {
    let mut g = RegDataFormat::default();
    let mut labels = Vec::new();
    for _ in 0..4 {
        g = g.next_combination();
        labels.push(g.short_label());
    }
    assert_eq!(labels, vec!["i32", "u64", "i128", "u16"]);
    for _ in 0..4 {
        assert_eq!(g.next_combination().prev_combination(), g);
        g = g.next_combination();
    }
    assert_eq!(f(RegDataType::Float, RegDataWidth::Bits32).next_combination().short_label(), "i32");
    assert_eq!(f(RegDataType::Float, RegDataWidth::Bits32).prev_combination().short_label(), "i128");
}

#[test]
fn one_register_as_a_text() {
    assert_eq!(format_u16(10, RegDataFormat::default()), "10");
    assert_eq!(format_u16(10, f(RegDataType::Hex, RegDataWidth::Bits16)), "0x000A");
    assert_eq!(format_u16(5, f(RegDataType::Binary, RegDataWidth::Bits16)), "0b0000000000000101");
}

#[test]
fn values_of_several_registers_as_texts() {
    let regs = [0x1234, 0x5678, 0x9ABC, 0xDEF0, 0x1111, 0x2222, 0x3333, 0x4444];
    assert_eq!(shown(&regs, f(RegDataType::Uint, RegDataWidth::Bits32), false, false), 0x12345678u32.to_string());
    assert_eq!(shown(&regs, f(RegDataType::Uint, RegDataWidth::Bits32), true, false), 0x34127856u32.to_string());
    assert_eq!(shown(&regs, f(RegDataType::Uint, RegDataWidth::Bits32), false, true), 0x56781234u32.to_string());
    assert_eq!(
        shown(&regs, f(RegDataType::Uint, RegDataWidth::Bits128), false, false),
        0x123456789ABCDEF01111222233334444u128.to_string()
    );
    assert_eq!(shown(&[0xFFFF], f(RegDataType::Int, RegDataWidth::Bits16), false, false), "-1");
    assert_eq!(shown(&[0x8000, 0], f(RegDataType::Int, RegDataWidth::Bits32), false, false), i32::MIN.to_string());
    let pi = 3.5f32.to_bits();
    let words = [(pi >> 16) as u16, pi as u16];
    assert_eq!(shown(&words, f(RegDataType::Float, RegDataWidth::Bits32), false, false), "3.500000");
    let d = (-0.25f64).to_bits();
    let words = [(d >> 48) as u16, (d >> 32) as u16, (d >> 16) as u16, d as u16];
    assert_eq!(shown(&words, f(RegDataType::Float, RegDataWidth::Bits64), false, false), "-0.2500000000");
    assert_eq!(shown(&[0x3C00], f(RegDataType::Float, RegDataWidth::Bits16), false, false), "1.000000");
    assert_eq!(shown(&[1], f(RegDataType::Uint, RegDataWidth::Bits32), false, false), "-- (need 2)");
}

#[test]
fn entries_of_one_register() {
    let dec = RegDataFormat::default();
    let hex = f(RegDataType::Hex, RegDataWidth::Bits16);
    let bin = f(RegDataType::Binary, RegDataWidth::Bits16);
    assert_eq!(parse_u16_str(" 42 ", dec), Ok(42));
    assert_eq!(parse_u16_str("0xff", dec), Ok(255));
    assert_eq!(parse_u16_str("0B101", hex), Ok(5));
    assert_eq!(parse_u16_str("ff", hex), Ok(255));
    assert_eq!(parse_u16_str("11", bin), Ok(3));
    assert_eq!(parse_u16_str("  ", dec), Err(ParseError::Empty));
    assert_eq!(parse_u16_str("0x10000", dec), Err(ParseError::HexPrefix));
    assert_eq!(parse_u16_str("0b2", dec), Err(ParseError::BinPrefix));
    assert_eq!(parse_u16_str("xyz", hex), Err(ParseError::Hex));
    assert_eq!(parse_u16_str("2", bin), Err(ParseError::Bin));
    assert_eq!(parse_u16_str("65536", dec), Err(ParseError::Dec));
    assert_eq!(ParseError::Hex.key(), "main.parse_hex");
}

#[test]
fn entries_of_several_registers() {
    assert_eq!(entered("305419896", f(RegDataType::Uint, RegDataWidth::Bits32)), Ok(vec![0x1234, 0x5678]));
    assert_eq!(entered("-1", f(RegDataType::Int, RegDataWidth::Bits64)), Ok(vec![0xFFFF; 4]));
    assert_eq!(entered("1.0", f(RegDataType::Float, RegDataWidth::Bits16)), Ok(vec![0x3C00]));
    let half = 0.5f32.to_bits();
    assert_eq!(
        entered("0.5", f(RegDataType::Float, RegDataWidth::Bits32)),
        Ok(vec![(half >> 16) as u16, half as u16])
    );
    assert_eq!(entered("abc", f(RegDataType::Float, RegDataWidth::Bits32)), Err(ParseError::Dec));
    assert_eq!(entered("", f(RegDataType::Uint, RegDataWidth::Bits32)), Err(ParseError::Empty));
    assert_eq!(entered("99999999999", f(RegDataType::Uint, RegDataWidth::Bits32)), Err(ParseError::Dec));
}

#[test]
fn what_is_shown_can_be_entered_again() {
    let regs = [0xFFFE, 0x0001, 0x8000, 0x7FFF, 0x0102, 0x0304, 0x0506, 0x0708];
    for t in [RegDataType::Uint, RegDataType::Int] {
        for w in WIDTHS {
            let g = f(t, w);
            let n = g.regs_needed();
            for (bytes, words) in [(false, false), (true, false), (false, true), (true, true)] {
                let s = shown(&regs, g, bytes, words);
                let none = FloatBits { single: None, double: None };
                assert_eq!(parse_register_value(&s, g, bytes, words, none), Ok(regs[..n].to_vec()));
            }
        }
    }
}

#[test]
fn registers_and_numbers() {
    assert_eq!(exchange(0x1234), 0x3412);
    assert_eq!(arrange(&vec![1, 0x0200], true, true), vec![2, 0x0100]);
    assert_eq!(join_words(&vec![1, 2]), 0x10002);
    assert_eq!(split_number(0x10002, 2), vec![1, 2]);
    assert_eq!(to_signed(0xFFFF_FFFE, 2), -2);
    assert_eq!(to_bits(-2, 2), 0xFFFF_FFFE);
}

#[test]
fn half_precision() {
    for (x, h) in [(1.0f32, 0x3C00u16), (-2.0, 0xC000), (0.0, 0), (65504.0, 0x7BFF), (1e6, 0x7C00), (1e-8, 0)] {
        assert_eq!(f32_to_f16_bits(x.to_bits()), h, "{}", x);
    }
    assert_eq!(f32_to_f16_bits(f32::INFINITY.to_bits()), 0x7C00);
    assert_eq!(half_to_single_bits(0x3C00), 1.0f32.to_bits());
    assert_eq!(half_to_single_bits(0xC000), (-2.0f32).to_bits());
    assert_eq!(half_to_single_bits(0x0400), 2.0f32.powi(-14).to_bits());
    assert_eq!(half_to_single_bits(0x7C00), f32::INFINITY.to_bits());
    for h in 0..=u16::MAX {
        let exponent = (h >> 10) & 0x1F;
        if exponent > 0 && exponent < 31 {
            assert_eq!(f32_to_f16_bits(half_to_single_bits(h)), h);
        }
    }
}

#[test]
fn a_signed_register_is_entered_with_its_sign() {
    let int16 = f(RegDataType::Int, RegDataWidth::Bits16);
    let none = FloatBits { single: None, double: None };
    let read = |s: &str| parse_register_value(s, int16, false, false, none);
    assert_eq!(read("-1"), Ok(vec![0xFFFF]));
    assert_eq!(read("-32768"), Ok(vec![0x8000]));
    assert_eq!(read("-32769"), Err(ParseError::Dec));
    assert_eq!(read("32767"), Ok(vec![0x7FFF]));
    assert_eq!(read("65535"), Ok(vec![0xFFFF]));
    assert_eq!(read("65536"), Err(ParseError::Dec));
    assert_eq!(shown(&[0xFFFF], int16, false, false), "-1");
    assert_eq!(parse_u16_str("-1", int16), Err(ParseError::Dec));
    assert_eq!(parse_u16_str("65535", int16), Ok(65535));
}

#[test]
fn what_is_no_number_stays_none() {
    assert_eq!(f32_to_f16_bits(0x7F80_0001), 0x7E00);
    assert_eq!(f32_to_f16_bits(0xFF80_1FFF), 0xFE00);
    assert_eq!(f32_to_f16_bits(0x7F80_2000), 0x7C01);
    assert_eq!(f32_to_f16_bits(0xFFC0_0000), 0xFE00);
    assert_eq!(f32_to_f16_bits(0xFF80_0000), 0xFC00);
}

#[test]
fn a_value_is_shown_by_its_own_registers() {
    let regs: Vec<u16> = (0..12u16).map(|i| i.wrapping_mul(40503)).collect();
    for t in TYPES {
        for w in WIDTHS {
            let g = f(t, w);
            let n = g.regs_needed();
            for addr in 0..14 {
                let whole = format!("{:?}", format_register_value(&regs, addr, g, true, false));
                let told = format!("{:?}", RegisterText::Text(format!("-- (need {n})")));
                if addr + n > regs.len() {
                    assert_eq!(whole, told);
                } else {
                    let own = regs[addr..addr + n].to_vec();
                    assert_eq!(whole, format!("{:?}", format_register_value(&own, 0, g, true, false)));
                    assert_ne!(whole, told);
                }
            }
        }
    }
}

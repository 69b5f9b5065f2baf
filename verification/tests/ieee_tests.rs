//! Integer-only single-precision helpers, held against the machine's
//! own float casts.

use modbus_slave::ieee::{single_of_u32, single_to_i16, single_to_u16, single_to_u32};
use modbus_slave::types::ModbusNumber;

#[test]
fn test_single_of_u32_matches_float_cast() {
    let samples: [u32; 12] = [
        0,
        1,
        2,
        3,
        65535,
        65536,
        16777215,
        16777216,
        16777217,
        123456789,
        0xFFFFFFFF,
        0x80000001,
    ];
    for &v in samples.iter() {
        assert_eq!(single_of_u32(v), (v as f32).to_bits(), "encoding {}", v);
    }
}

#[test]
fn test_single_of_u32_rounds_to_nearest_even() {
    // 0x0100_0001 needs one dropped bit: ties and near-ties follow
    // the hardware rounding.
    for &v in [0x0100_0001u32, 0x0100_0002, 0x0100_0003, 0xFFFF_FF7F, 0xFFFF_FF80].iter() {
        assert_eq!(single_of_u32(v), (v as f32).to_bits(), "encoding {}", v);
    }
}

#[test]
fn test_single_to_u16_matches_float_cast() {
    let samples: [f32; 10] = [
        0.0, 0.9, 1.0, 123.7, 65535.0, 65536.0, 1.0e9, -1.0, -0.5, 32768.4,
    ];
    for &f in samples.iter() {
        assert_eq!(single_to_u16(f.to_bits()), f as u16, "casting {}", f);
    }
    assert_eq!(single_to_u16(f32::NAN.to_bits()), 0);
    assert_eq!(single_to_u16(f32::INFINITY.to_bits()), 65535);
    assert_eq!(single_to_u16(f32::NEG_INFINITY.to_bits()), 0);
}

#[test]
fn test_single_to_i16_matches_float_cast() {
    let samples: [f32; 10] = [
        0.0, 1.5, -1.5, 32767.0, 32768.0, -32768.0, -32769.0, 100.0, -0.4, 3.9e5,
    ];
    for &f in samples.iter() {
        assert_eq!(single_to_i16(f.to_bits()), f as i16, "casting {}", f);
    }
    assert_eq!(single_to_i16(f32::NAN.to_bits()), 0);
    assert_eq!(single_to_i16(f32::INFINITY.to_bits()), 32767);
    assert_eq!(single_to_i16(f32::NEG_INFINITY.to_bits()), -32768);
}

#[test]
fn test_single_to_u32_matches_float_cast() {
    let samples: [f32; 8] = [
        0.0,
        1.0,
        4294967040.0,
        5.0e9,
        -3.5,
        16777216.0,
        2147483648.0,
        0.99,
    ];
    for &f in samples.iter() {
        assert_eq!(single_to_u32(f.to_bits()), f as u32, "casting {}", f);
    }
    assert_eq!(single_to_u32(f32::NAN.to_bits()), 0);
    assert_eq!(single_to_u32(f32::INFINITY.to_bits()), u32::MAX);
}

#[test]
fn test_number_constructors_match_float_semantics() {
    // from_u16 models `cell as f64` and its onward coercions.
    for &v in [0u16, 1, 9, 32767, 32768, 65535].iter() {
        let n = ModbusNumber::from_u16(v);
        let f = v as f64;
        assert_eq!(n.to_u16, f as u16);
        assert_eq!(n.to_i16, f as i16);
        assert_eq!(n.to_u32, f as u32);
        assert_eq!(n.single_bits, (f as f32).to_bits());
        assert_eq!(n.nonzero, f != 0.0);
    }
    for &v in [0i16, 5, -5, 32767, -32768].iter() {
        let n = ModbusNumber::from_i16(v);
        let f = v as f64;
        assert_eq!(n.to_u16, f as u16);
        assert_eq!(n.to_i16, f as i16);
        assert_eq!(n.to_u32, f as u32);
        assert_eq!(n.single_bits, (f as f32).to_bits());
    }
    for &v in [0u32, 65536, 16777217, 0xFFFFFFFF].iter() {
        let n = ModbusNumber::from_u32(v);
        let f = v as f64;
        assert_eq!(n.to_u16, f as u16);
        assert_eq!(n.to_i16, f as i16);
        assert_eq!(n.to_u32, f as u32);
        assert_eq!(n.single_bits, (f as f32).to_bits());
    }
    for &f in [0.0f32, 1.0, -2.5, 70000.25, -70000.25].iter() {
        let n = ModbusNumber::from_single(f.to_bits());
        let d = f as f64;
        assert_eq!(n.to_u16, d as u16);
        assert_eq!(n.to_i16, d as i16);
        assert_eq!(n.to_u32, d as u32);
        assert_eq!(n.single_bits, (d as f32).to_bits());
        assert_eq!(n.nonzero, d != 0.0);
    }
}

//! End-to-end scenarios: literal request and response bytes through
//! the reassembly and dispatch path, as a master would see them.

use modbus_slave::session::ingest_chunk;
use modbus_slave::store::ModbusDataStore;
use modbus_slave::types::{
    ModbusArea, ModbusDataType, ModbusNumber, ModbusValue, ModbusVariable,
};

fn num(n: f64) -> ModbusValue {
    ModbusValue::Number(ModbusNumber {
        to_u16: n as u16,
        to_i16: n as i16,
        to_u32: n as u32,
        single_bits: (n as f32).to_bits(),
        nonzero: n != 0.0,
    })
}

fn var(
    id: &str,
    area: ModbusArea,
    address: u16,
    data_type: ModbusDataType,
    value: ModbusValue,
) -> ModbusVariable {
    ModbusVariable {
        id: id.to_string(),
        name: id.to_string(),
        area,
        address,
        data_type,
        value,
        bit: None,
        readonly: None,
        note: None,
    }
}

/// Send one chunk to a fresh session over the given store.
fn exchange(store: &mut ModbusDataStore, unit_id: u8, tx: &[u8]) -> Vec<Vec<u8>> {
    let mut buffer: Vec<u8> = Vec::new();
    ingest_chunk(&mut buffer, store, unit_id, tx)
}

#[test]
fn test_scenario_read_holding_register_happy_path() {
    let mut store = ModbusDataStore::new();
    store.load_variables(&[var(
        "v",
        ModbusArea::HoldingRegister,
        0,
        ModbusDataType::Uint16,
        num(0x1234 as f64),
    )]);

    let tx = [
        0x00, 0x01, 0x00, 0x00, 0x00, 0x06, 0x01, 0x03, 0x00, 0x00, 0x00, 0x01,
    ];
    let responses = exchange(&mut store, 1, &tx);
    assert_eq!(responses.len(), 1);
    assert_eq!(
        responses[0],
        vec![0x00, 0x01, 0x00, 0x00, 0x00, 0x05, 0x01, 0x03, 0x02, 0x12, 0x34]
    );
}

#[test]
fn test_scenario_read_undefined_address() {
    let mut store = ModbusDataStore::new();

    let tx = [
        0x00, 0x02, 0x00, 0x00, 0x00, 0x06, 0x01, 0x03, 0x00, 0x00, 0x00, 0x01,
    ];
    let responses = exchange(&mut store, 1, &tx);
    assert_eq!(responses.len(), 1);
    assert_eq!(
        responses[0],
        vec![0x00, 0x02, 0x00, 0x00, 0x00, 0x03, 0x01, 0x83, 0x02]
    );
}

#[test]
fn test_scenario_write_single_coil_echo() {
    let mut store = ModbusDataStore::new();
    store.load_variables(&[var(
        "coil",
        ModbusArea::Coil,
        5,
        ModbusDataType::Bool,
        ModbusValue::Bool(false),
    )]);

    let tx = [
        0x00, 0x03, 0x00, 0x00, 0x00, 0x06, 0x01, 0x05, 0x00, 0x05, 0xFF, 0x00,
    ];
    let responses = exchange(&mut store, 1, &tx);
    assert_eq!(responses.len(), 1);
    assert_eq!(responses[0], tx.to_vec());

    assert_eq!(store.read_coils(5, 1).unwrap(), vec![true]);
    assert_eq!(store.get_variables()[0].value, ModbusValue::Bool(true));
}

#[test]
fn test_scenario_illegal_quantity() {
    let mut store = ModbusDataStore::new();

    let tx = [
        0x00, 0x04, 0x00, 0x00, 0x00, 0x06, 0x01, 0x03, 0x00, 0x00, 0x00, 0xC8,
    ];
    let responses = exchange(&mut store, 1, &tx);
    assert_eq!(responses.len(), 1);
    assert_eq!(
        responses[0],
        vec![0x00, 0x04, 0x00, 0x00, 0x00, 0x03, 0x01, 0x83, 0x03]
    );
}

#[test]
fn test_scenario_unit_id_mismatch_is_silent() {
    let mut store = ModbusDataStore::new();
    store.load_variables(&[var(
        "v",
        ModbusArea::HoldingRegister,
        0,
        ModbusDataType::Uint16,
        num(0x1234 as f64),
    )]);

    // Configured unit is 1; the request carries unit 2.
    let tx = [
        0x00, 0x05, 0x00, 0x00, 0x00, 0x06, 0x02, 0x03, 0x00, 0x00, 0x00, 0x01,
    ];
    let responses = exchange(&mut store, 1, &tx);
    assert!(responses.is_empty());
    // The store is untouched.
    assert_eq!(store.read_holding_registers(0, 1).unwrap(), vec![0x1234]);
}

#[test]
fn test_scenario_unit_id_zero_is_answered() {
    let mut store = ModbusDataStore::new();
    store.load_variables(&[var(
        "v",
        ModbusArea::HoldingRegister,
        0,
        ModbusDataType::Uint16,
        num(7.0),
    )]);

    let tx = [
        0x00, 0x09, 0x00, 0x00, 0x00, 0x06, 0x00, 0x03, 0x00, 0x00, 0x00, 0x01,
    ];
    let responses = exchange(&mut store, 1, &tx);
    assert_eq!(responses.len(), 1);
    assert_eq!(
        responses[0],
        vec![0x00, 0x09, 0x00, 0x00, 0x00, 0x05, 0x00, 0x03, 0x02, 0x00, 0x07]
    );
}

#[test]
fn test_scenario_float32_big_endian_word_order() {
    let mut store = ModbusDataStore::new();
    store.load_variables(&[var(
        "f",
        ModbusArea::HoldingRegister,
        10,
        ModbusDataType::Float32,
        num(1.0),
    )]);

    let tx = [
        0x00, 0x06, 0x00, 0x00, 0x00, 0x06, 0x01, 0x03, 0x00, 0x0A, 0x00, 0x02,
    ];
    let responses = exchange(&mut store, 1, &tx);
    assert_eq!(responses.len(), 1);
    assert_eq!(
        responses[0],
        vec![0x00, 0x06, 0x00, 0x00, 0x00, 0x07, 0x01, 0x03, 0x04, 0x3F, 0x80, 0x00, 0x00]
    );
}

#[test]
fn test_scenario_unknown_function_code() {
    let mut store = ModbusDataStore::new();
    let tx = [
        0x00, 0x07, 0x00, 0x00, 0x00, 0x06, 0x01, 0x07, 0x00, 0x00, 0x00, 0x01,
    ];
    let responses = exchange(&mut store, 1, &tx);
    assert_eq!(responses.len(), 1);
    assert_eq!(
        responses[0],
        vec![0x00, 0x07, 0x00, 0x00, 0x00, 0x03, 0x01, 0x87, 0x01]
    );
}

#[test]
fn test_reassembly_two_frames_in_one_chunk() {
    let mut store = ModbusDataStore::new();
    store.load_variables(&[var(
        "v",
        ModbusArea::HoldingRegister,
        0,
        ModbusDataType::Uint16,
        num(7.0),
    )]);

    let mut tx: Vec<u8> = Vec::new();
    tx.extend_from_slice(&[
        0x00, 0x01, 0x00, 0x00, 0x00, 0x06, 0x01, 0x03, 0x00, 0x00, 0x00, 0x01,
    ]);
    tx.extend_from_slice(&[
        0x00, 0x02, 0x00, 0x00, 0x00, 0x06, 0x01, 0x06, 0x00, 0x00, 0x00, 0x09,
    ]);
    let responses = exchange(&mut store, 1, &tx);
    assert_eq!(responses.len(), 2);
    assert_eq!(responses[0][0..2], [0x00, 0x01]);
    assert_eq!(responses[1][0..2], [0x00, 0x02]);
    assert_eq!(store.read_holding_registers(0, 1).unwrap(), vec![9]);
}

#[test]
fn test_reassembly_frame_split_across_chunks() {
    let mut store = ModbusDataStore::new();
    store.load_variables(&[var(
        "v",
        ModbusArea::HoldingRegister,
        0,
        ModbusDataType::Uint16,
        num(0x1234 as f64),
    )]);

    let tx = [
        0x00, 0x01, 0x00, 0x00, 0x00, 0x06, 0x01, 0x03, 0x00, 0x00, 0x00, 0x01,
    ];
    let mut buffer: Vec<u8> = Vec::new();
    let first = ingest_chunk(&mut buffer, &mut store, 1, &tx[..7]);
    assert!(first.is_empty());
    let second = ingest_chunk(&mut buffer, &mut store, 1, &tx[7..]);
    assert_eq!(second.len(), 1);
    assert_eq!(
        second[0],
        vec![0x00, 0x01, 0x00, 0x00, 0x00, 0x05, 0x01, 0x03, 0x02, 0x12, 0x34]
    );
}

#[test]
fn test_parse_failure_clears_buffer() {
    let mut store = ModbusDataStore::new();
    store.load_variables(&[var(
        "v",
        ModbusArea::HoldingRegister,
        0,
        ModbusDataType::Uint16,
        num(7.0),
    )]);

    // A frame with a non-zero protocol id, then a valid frame in the
    // same chunk: the resync discards both.
    let mut tx: Vec<u8> = Vec::new();
    tx.extend_from_slice(&[
        0x00, 0x01, 0x00, 0x09, 0x00, 0x06, 0x01, 0x03, 0x00, 0x00, 0x00, 0x01,
    ]);
    tx.extend_from_slice(&[
        0x00, 0x02, 0x00, 0x00, 0x00, 0x06, 0x01, 0x03, 0x00, 0x00, 0x00, 0x01,
    ]);
    let mut buffer: Vec<u8> = Vec::new();
    let responses = ingest_chunk(&mut buffer, &mut store, 1, &tx);
    assert!(responses.is_empty());
    assert!(buffer.is_empty());

    // The session recovers: the next valid frame is answered.
    let responses = ingest_chunk(
        &mut buffer,
        &mut store,
        1,
        &[0x00, 0x03, 0x00, 0x00, 0x00, 0x06, 0x01, 0x03, 0x00, 0x00, 0x00, 0x01],
    );
    assert_eq!(responses.len(), 1);
}

#[test]
fn test_buffer_overflow_guard() {
    let mut store = ModbusDataStore::new();
    let mut buffer: Vec<u8> = Vec::new();
    // A giant announced length keeps the frame incomplete while the
    // buffer grows past twice the maximum frame size.
    let mut junk: Vec<u8> = vec![0x00, 0x01, 0x00, 0x00, 0xFF, 0xFF];
    junk.resize(521, 0xAA);
    let responses = ingest_chunk(&mut buffer, &mut store, 1, &junk);
    assert!(responses.is_empty());
    assert!(buffer.is_empty());
}

//! Data store tests: strict address validation, loading, writing,
//! variable synchronisation.

use modbus_slave::codec::ExceptionCode;
use modbus_slave::store::ModbusDataStore;
use modbus_slave::types::{
    ModbusArea, ModbusDataType, ModbusNumber, ModbusValue, ModbusVariable,
};

/// The library value a front-end number converts to.
fn num(n: f64) -> ModbusValue {
    ModbusValue::Number(ModbusNumber {
        to_u16: n as u16,
        to_i16: n as i16,
        to_u32: n as u32,
        single_bits: (n as f32).to_bits(),
        nonzero: n != 0.0,
    })
}

fn var(
    id: &str,
    name: &str,
    area: ModbusArea,
    address: u16,
    data_type: ModbusDataType,
    value: ModbusValue,
) -> ModbusVariable {
    ModbusVariable {
        id: id.to_string(),
        name: name.to_string(),
        area,
        address,
        data_type,
        value,
        bit: None,
        readonly: None,
        note: None,
    }
}

#[test]
fn test_strict_validation_undefined_address() {
    let store = ModbusDataStore::new();

    // With no variables loaded, a read must fail.
    let result = store.read_holding_registers(0, 1);
    assert!(result.is_err());
    assert_eq!(result.unwrap_err(), ExceptionCode::IllegalDataAddress);
}

#[test]
fn test_strict_validation_defined_address() {
    let mut store = ModbusDataStore::new();

    let vars = vec![var(
        "var1",
        "Test Register",
        ModbusArea::HoldingRegister,
        100,
        ModbusDataType::Uint16,
        num(12345.0),
    )];

    store.load_variables(&vars);

    // Reading the defined address works.
    let result = store.read_holding_registers(100, 1);
    assert!(result.is_ok());
    assert_eq!(result.unwrap()[0], 12345);

    // Reading an undefined address fails.
    let result = store.read_holding_registers(101, 1);
    assert!(result.is_err());
}

#[test]
fn test_strict_validation_uint32_occupies_two_registers() {
    let mut store = ModbusDataStore::new();

    let vars = vec![var(
        "var1",
        "Test Register",
        ModbusArea::HoldingRegister,
        50,
        ModbusDataType::Uint32,
        num(0x12345678 as f64),
    )];

    store.load_variables(&vars);

    // Both registers read fine.
    let result = store.read_holding_registers(50, 2);
    assert!(result.is_ok());

    // The first register alone reads fine.
    let result = store.read_holding_registers(50, 1);
    assert!(result.is_ok());

    // The second register alone reads fine.
    let result = store.read_holding_registers(51, 1);
    assert!(result.is_ok());

    // The third register is not defined.
    let result = store.read_holding_registers(52, 1);
    assert!(result.is_err());
}

#[test]
fn test_coils_strict_validation() {
    let mut store = ModbusDataStore::new();

    let vars = vec![var(
        "coil1",
        "Test Coil",
        ModbusArea::Coil,
        0,
        ModbusDataType::Bool,
        ModbusValue::Bool(true),
    )];

    store.load_variables(&vars);

    // Reading the defined coil works.
    let result = store.read_coils(0, 1);
    assert!(result.is_ok());
    assert!(result.unwrap()[0]);

    // Reading an undefined coil fails.
    let result = store.read_coils(1, 1);
    assert!(result.is_err());
}

#[test]
fn test_write_to_undefined_address_fails() {
    let mut store = ModbusDataStore::new();

    // With no variables loaded, a write must fail.
    let result = store.write_single_register(0, 100);
    assert!(result.is_err());
    assert_eq!(result.unwrap_err(), ExceptionCode::IllegalDataAddress);
}

#[test]
fn test_write_to_defined_address_works() {
    let mut store = ModbusDataStore::new();

    let vars = vec![var(
        "var1",
        "Test Register",
        ModbusArea::HoldingRegister,
        10,
        ModbusDataType::Uint16,
        num(0.0),
    )];

    store.load_variables(&vars);

    // Writing the defined address works.
    let result = store.write_single_register(10, 999);
    assert!(result.is_ok());

    // The value is visible.
    let result = store.read_holding_registers(10, 1);
    assert!(result.is_ok());
    assert_eq!(result.unwrap()[0], 999);
}

#[test]
fn test_address_out_of_bounds() {
    let store = ModbusDataStore::new();

    // Nothing near the end of the address space is defined.
    let result = store.read_coils(9999, 10);
    assert!(result.is_err());
}

#[test]
fn test_load_variables() {
    let mut store = ModbusDataStore::new();

    let vars = vec![
        var(
            "var1",
            "Test Coil",
            ModbusArea::Coil,
            0,
            ModbusDataType::Bool,
            ModbusValue::Bool(true),
        ),
        var(
            "var2",
            "Test Register",
            ModbusArea::HoldingRegister,
            100,
            ModbusDataType::Uint16,
            num(12345.0),
        ),
    ];

    store.load_variables(&vars);

    // Verify coil
    let coils = store.read_coils(0, 1).unwrap();
    assert!(coils[0]);

    // Verify register
    let regs = store.read_holding_registers(100, 1).unwrap();
    assert_eq!(regs[0], 12345);
}

#[test]
fn test_round_trip_every_data_type() {
    // P1 on concrete values: freshly loaded variables read back as
    // the words their values encode to.
    let mut store = ModbusDataStore::new();
    let vars = vec![
        var("b", "bool reg", ModbusArea::HoldingRegister, 0, ModbusDataType::Bool, ModbusValue::Bool(true)),
        var("u16", "u16", ModbusArea::HoldingRegister, 1, ModbusDataType::Uint16, num(54321.0)),
        var("i16", "i16", ModbusArea::HoldingRegister, 2, ModbusDataType::Int16, num(-2.0)),
        var("u32", "u32", ModbusArea::HoldingRegister, 3, ModbusDataType::Uint32, num(0x0102_0304 as f64)),
        var("f32", "f32", ModbusArea::HoldingRegister, 5, ModbusDataType::Float32, num(1.0)),
        var("di", "input", ModbusArea::DiscreteInput, 7, ModbusDataType::Bool, ModbusValue::Bool(true)),
        var("ir", "input reg", ModbusArea::InputRegister, 8, ModbusDataType::Uint16, num(7.0)),
        var("null", "null reg", ModbusArea::HoldingRegister, 9, ModbusDataType::Uint16, ModbusValue::Null),
    ];
    store.load_variables(&vars);

    assert_eq!(store.read_holding_registers(0, 1).unwrap(), vec![1]);
    assert_eq!(store.read_holding_registers(1, 1).unwrap(), vec![54321]);
    assert_eq!(store.read_holding_registers(2, 1).unwrap(), vec![0xFFFE]);
    assert_eq!(store.read_holding_registers(3, 2).unwrap(), vec![0x0102, 0x0304]);
    assert_eq!(store.read_holding_registers(5, 2).unwrap(), vec![0x3F80, 0x0000]);
    assert_eq!(store.read_discrete_inputs(7, 1).unwrap(), vec![true]);
    assert_eq!(store.read_input_registers(8, 1).unwrap(), vec![7]);
    assert_eq!(store.read_holding_registers(9, 1).unwrap(), vec![0]);
}

#[test]
fn test_write_multiple_registers_and_atomic_failure() {
    let mut store = ModbusDataStore::new();
    let vars = vec![
        var("a", "a", ModbusArea::HoldingRegister, 10, ModbusDataType::Uint16, num(1.0)),
        var("b", "b", ModbusArea::HoldingRegister, 11, ModbusDataType::Uint16, num(2.0)),
        var("c", "c", ModbusArea::HoldingRegister, 12, ModbusDataType::Uint16, num(3.0)),
    ];
    store.load_variables(&vars);

    store.write_multiple_registers(10, &[100, 200, 300]).unwrap();
    assert_eq!(store.read_holding_registers(10, 3).unwrap(), vec![100, 200, 300]);

    // One address of the span is undefined: nothing changes.
    let result = store.write_multiple_registers(11, &[7, 8, 9]);
    assert_eq!(result, Err(ExceptionCode::IllegalDataAddress));
    assert_eq!(store.read_holding_registers(10, 3).unwrap(), vec![100, 200, 300]);
}

#[test]
fn test_write_multiple_coils_and_sync() {
    let mut store = ModbusDataStore::new();
    let vars = vec![
        var("c0", "c0", ModbusArea::Coil, 0, ModbusDataType::Bool, ModbusValue::Bool(false)),
        var("c1", "c1", ModbusArea::Coil, 1, ModbusDataType::Bool, ModbusValue::Bool(false)),
    ];
    store.load_variables(&vars);

    store.write_multiple_coils(0, &[true, false]).unwrap();
    assert_eq!(store.read_coils(0, 2).unwrap(), vec![true, false]);

    let snapshot = store.get_variables();
    assert_eq!(snapshot[0].value, ModbusValue::Bool(true));
    assert_eq!(snapshot[1].value, ModbusValue::Bool(false));
}

#[test]
fn test_register_write_syncs_variable() {
    let mut store = ModbusDataStore::new();
    let vars = vec![var(
        "v",
        "v",
        ModbusArea::HoldingRegister,
        4,
        ModbusDataType::Uint16,
        num(0.0),
    )];
    store.load_variables(&vars);

    store.write_single_register(4, 4660).unwrap();
    let snapshot = store.get_variables();
    assert_eq!(snapshot[0].value, num(4660.0));
}

#[test]
fn test_partial_overwrite_of_wide_variable_does_not_resync() {
    // A write to the low word of a 32-bit variable does not re-sync
    // the catalog: the sync matches by the variable's own address.
    let mut store = ModbusDataStore::new();
    let vars = vec![var(
        "w",
        "w",
        ModbusArea::HoldingRegister,
        20,
        ModbusDataType::Uint32,
        num(65536.0),
    )];
    store.load_variables(&vars);
    assert_eq!(store.read_holding_registers(20, 2).unwrap(), vec![1, 0]);

    store.write_single_register(21, 5).unwrap();
    let snapshot = store.get_variables();
    // The bank changed, but the catalog still carries the old value.
    assert_eq!(store.read_holding_registers(20, 2).unwrap(), vec![1, 5]);
    assert_eq!(snapshot[0].value, num(65536.0));

    // A write to the variable's own address re-decodes the pair.
    store.write_single_register(20, 2).unwrap();
    let snapshot = store.get_variables();
    assert_eq!(snapshot[0].value, num(131077.0));
}

#[test]
fn test_update_variable_by_id() {
    let mut store = ModbusDataStore::new();
    let vars = vec![var(
        "v",
        "v",
        ModbusArea::HoldingRegister,
        30,
        ModbusDataType::Uint16,
        num(1.0),
    )];
    store.load_variables(&vars);

    assert!(store.update_variable("v", num(77.0)));
    assert_eq!(store.read_holding_registers(30, 1).unwrap(), vec![77]);
    assert_eq!(store.get_variables()[0].value, num(77.0));

    assert!(!store.update_variable("missing", num(1.0)));
}

#[test]
fn test_clear_resets_everything() {
    let mut store = ModbusDataStore::new();
    let vars = vec![var(
        "v",
        "v",
        ModbusArea::HoldingRegister,
        0,
        ModbusDataType::Uint16,
        num(9.0),
    )];
    store.load_variables(&vars);
    store.clear();

    assert!(store.get_variables().is_empty());
    assert!(store.read_holding_registers(0, 1).is_err());
}

#[test]
fn test_reload_keeps_old_bank_cells() {
    // load_variables clears the catalog and defined-sets but not the
    // bank cells of formerly defined addresses.
    let mut store = ModbusDataStore::new();
    store.load_variables(&[var(
        "v",
        "v",
        ModbusArea::HoldingRegister,
        0,
        ModbusDataType::Uint16,
        num(9.0),
    )]);
    store.load_variables(&[var(
        "w",
        "w",
        ModbusArea::HoldingRegister,
        1,
        ModbusDataType::Uint16,
        num(5.0),
    )]);

    // Address 0 is no longer defined.
    assert!(store.read_holding_registers(0, 1).is_err());
    // But loading did not zero it: defining it again shows the old cell.
    store.load_variables(&[
        var("v", "v", ModbusArea::HoldingRegister, 0, ModbusDataType::Uint16, ModbusValue::Null),
        var("w", "w", ModbusArea::HoldingRegister, 1, ModbusDataType::Uint16, num(5.0)),
    ]);
    // Null re-encodes address 0 to zero, so check address 1 instead.
    assert_eq!(store.read_holding_registers(1, 1).unwrap(), vec![5]);
}

#[test]
fn test_get_variables_snapshot_order() {
    let mut store = ModbusDataStore::new();
    let vars = vec![
        var("a", "a", ModbusArea::Coil, 0, ModbusDataType::Bool, ModbusValue::Bool(false)),
        var("b", "b", ModbusArea::Coil, 1, ModbusDataType::Bool, ModbusValue::Bool(true)),
    ];
    store.load_variables(&vars);
    let snapshot = store.get_variables();
    assert_eq!(snapshot.len(), 2);
    assert_eq!(snapshot[0].id, "a");
    assert_eq!(snapshot[1].id, "b");
}

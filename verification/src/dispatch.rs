//! Modbus PDU dispatcher.
//!
//! Routes a parsed request to the data store by function code and
//! builds the response frame: read responses carry a byte count and
//! the packed payload, successful single writes echo the request
//! body, successful multiple writes answer with start and quantity,
//! and every failure is an exception frame.
//!
//! `spec_process` states the whole exchange: the response bytes and
//! the store state that one request produces.

use vstd::prelude::*;

verus! {

use crate::codec::{
    ExceptionCode, FunctionCode, ModbusRequest, ModbusResponse, ReadRequest,
    WriteMultipleCoilsRequest, WriteMultipleRegistersRequest, WriteSingleCoilRequest,
    WriteSingleRegisterRequest, pack_bits, pack_registers, spec_be16, spec_body_registers,
    spec_exception_frame, spec_function_code_from_u8, spec_pack_bits, spec_pack_registers,
    spec_response_frame, spec_unpack_bits, spec_hi, spec_lo,
};
use crate::store::{
    ModbusDataStore, StoreModel, spec_sync_coil, spec_sync_coil_range, spec_sync_register,
    spec_sync_register_range,
};
use crate::types::ModbusArea;

/// What one request produces: the response bytes and the store state
/// afterwards.
pub ghost struct Outcome {
    pub response: Seq<u8>,
    pub store: StoreModel,
}

/// An exception outcome: an exception frame, the store unchanged.
pub open spec fn spec_exc(
    m: StoreModel,
    txn: u16,
    unit: u8,
    fc: u8,
    ec: ExceptionCode,
) -> Outcome {
    Outcome { response: spec_exception_frame(txn, unit, fc, ec), store: m }
}

/// The bit bank a bit-read function code serves.
pub open spec fn spec_bit_bank(m: StoreModel, area: ModbusArea) -> Seq<bool> {
    if area == ModbusArea::Coil {
        m.coils
    } else {
        m.discrete_inputs
    }
}

/// The word bank a register-read function code serves.
pub open spec fn spec_word_bank(m: StoreModel, area: ModbusArea) -> Seq<u16> {
    if area == ModbusArea::HoldingRegister {
        m.holding_registers
    } else {
        m.input_registers
    }
}

/// Outcome of a bit read (coils or discrete inputs): quantity 1..=2000,
/// every address defined, payload byte count then packed bits.
pub open spec fn spec_read_bits(
    m: StoreModel,
    txn: u16,
    unit: u8,
    fc: u8,
    body: Seq<u8>,
    area: ModbusArea,
) -> Outcome {
    if body.len() < 4 {
        spec_exc(m, txn, unit, fc, ExceptionCode::IllegalDataValue)
    } else {
        let start = spec_be16(body[0], body[1]);
        let qty = spec_be16(body[2], body[3]);
        if !(1 <= qty <= 2000) {
            spec_exc(m, txn, unit, fc, ExceptionCode::IllegalDataValue)
        } else if !m.range_defined(area, start as int, qty as int) {
            spec_exc(m, txn, unit, fc, ExceptionCode::IllegalDataAddress)
        } else {
            let packed = spec_pack_bits(
                spec_bit_bank(m, area).subrange(start as int, start + qty),
            );
            Outcome {
                response: spec_response_frame(
                    txn,
                    unit,
                    fc,
                    seq![packed.len() as u8] + packed,
                ),
                store: m,
            }
        }
    }
}

/// Outcome of a register read: quantity 1..=125, every address
/// defined, payload byte count then big-endian words.
pub open spec fn spec_read_registers(
    m: StoreModel,
    txn: u16,
    unit: u8,
    fc: u8,
    body: Seq<u8>,
    area: ModbusArea,
) -> Outcome {
    if body.len() < 4 {
        spec_exc(m, txn, unit, fc, ExceptionCode::IllegalDataValue)
    } else {
        let start = spec_be16(body[0], body[1]);
        let qty = spec_be16(body[2], body[3]);
        if !(1 <= qty <= 125) {
            spec_exc(m, txn, unit, fc, ExceptionCode::IllegalDataValue)
        } else if !m.range_defined(area, start as int, qty as int) {
            spec_exc(m, txn, unit, fc, ExceptionCode::IllegalDataAddress)
        } else {
            let packed = spec_pack_registers(
                spec_word_bank(m, area).subrange(start as int, start + qty),
            );
            Outcome {
                response: spec_response_frame(
                    txn,
                    unit,
                    fc,
                    seq![packed.len() as u8] + packed,
                ),
                store: m,
            }
        }
    }
}

/// Outcome of write-single-coil: the value must be 0x0000 or 0xFF00,
/// the address defined; the response echoes the request body.
pub open spec fn spec_write_single_coil(
    m: StoreModel,
    txn: u16,
    unit: u8,
    fc: u8,
    body: Seq<u8>,
) -> Outcome {
    if body.len() < 4 {
        spec_exc(m, txn, unit, fc, ExceptionCode::IllegalDataValue)
    } else {
        let addr = spec_be16(body[0], body[1]);
        let raw = spec_be16(body[2], body[3]);
        if raw != 0 && raw != 0xFF00 {
            spec_exc(m, txn, unit, fc, ExceptionCode::IllegalDataValue)
        } else if !m.defined(ModbusArea::Coil, addr as int) {
            spec_exc(m, txn, unit, fc, ExceptionCode::IllegalDataAddress)
        } else {
            let value = raw == 0xFF00;
            Outcome {
                response: spec_response_frame(txn, unit, fc, body),
                store: StoreModel {
                    coils: m.coils.update(addr as int, value),
                    variables: spec_sync_coil(m.variables, addr, value),
                    ..m
                },
            }
        }
    }
}

/// Outcome of write-single-register: the address must be defined;
/// the response echoes the request body.
pub open spec fn spec_write_single_register(
    m: StoreModel,
    txn: u16,
    unit: u8,
    fc: u8,
    body: Seq<u8>,
) -> Outcome {
    if body.len() < 4 {
        spec_exc(m, txn, unit, fc, ExceptionCode::IllegalDataValue)
    } else {
        let addr = spec_be16(body[0], body[1]);
        let value = spec_be16(body[2], body[3]);
        if !m.defined(ModbusArea::HoldingRegister, addr as int) {
            spec_exc(m, txn, unit, fc, ExceptionCode::IllegalDataAddress)
        } else {
            Outcome {
                response: spec_response_frame(txn, unit, fc, body),
                store: StoreModel {
                    holding_registers: m.holding_registers.update(addr as int, value),
                    variables: spec_sync_register(
                        m.variables,
                        ModbusArea::HoldingRegister,
                        addr,
                        m.holding_registers.update(addr as int, value),
                    ),
                    ..m
                },
            }
        }
    }
}

/// Outcome of write-multiple-coils: byte count must match the
/// quantity, quantity 1..=1968, every address defined; the response
/// carries start and quantity.
pub open spec fn spec_write_multiple_coils(
    m: StoreModel,
    txn: u16,
    unit: u8,
    fc: u8,
    body: Seq<u8>,
) -> Outcome {
    if body.len() < 5 {
        spec_exc(m, txn, unit, fc, ExceptionCode::IllegalDataValue)
    } else {
        let start = spec_be16(body[0], body[1]);
        let qty = spec_be16(body[2], body[3]);
        if !(body[4] == (qty + 7) / 8 && body.len() >= 5 + body[4]) {
            spec_exc(m, txn, unit, fc, ExceptionCode::IllegalDataValue)
        } else if !(1 <= qty <= 1968) {
            spec_exc(m, txn, unit, fc, ExceptionCode::IllegalDataValue)
        } else if !m.range_defined(ModbusArea::Coil, start as int, qty as int) {
            spec_exc(m, txn, unit, fc, ExceptionCode::IllegalDataAddress)
        } else {
            let values = spec_unpack_bits(body.subrange(5, body.len() as int), qty as int);
            Outcome {
                response: spec_response_frame(txn, unit, fc, body.subrange(0, 4)),
                store: StoreModel {
                    coils: Seq::new(
                        m.coils.len(),
                        |a: int|
                            if start <= a < start + qty {
                                values[a - start]
                            } else {
                                m.coils[a]
                            },
                    ),
                    variables: spec_sync_coil_range(m.variables, start, values),
                    ..m
                },
            }
        }
    }
}

/// Outcome of write-multiple-registers: byte count must be twice the
/// quantity, quantity 1..=123, every address defined; the response
/// carries start and quantity.
pub open spec fn spec_write_multiple_registers(
    m: StoreModel,
    txn: u16,
    unit: u8,
    fc: u8,
    body: Seq<u8>,
) -> Outcome {
    if body.len() < 5 {
        spec_exc(m, txn, unit, fc, ExceptionCode::IllegalDataValue)
    } else {
        let start = spec_be16(body[0], body[1]);
        let qty = spec_be16(body[2], body[3]);
        if !(body[4] == 2 * qty && body.len() >= 5 + body[4]) {
            spec_exc(m, txn, unit, fc, ExceptionCode::IllegalDataValue)
        } else if !(1 <= qty <= 123) {
            spec_exc(m, txn, unit, fc, ExceptionCode::IllegalDataValue)
        } else if !m.range_defined(ModbusArea::HoldingRegister, start as int, qty as int) {
            spec_exc(m, txn, unit, fc, ExceptionCode::IllegalDataAddress)
        } else {
            let values = spec_body_registers(body, qty as int);
            let new_regs = Seq::new(
                m.holding_registers.len(),
                |a: int|
                    if start <= a < start + qty {
                        values[a - start]
                    } else {
                        m.holding_registers[a]
                    },
            );
            Outcome {
                response: spec_response_frame(txn, unit, fc, body.subrange(0, 4)),
                store: StoreModel {
                    holding_registers: new_regs,
                    variables: spec_sync_register_range(
                        m.variables,
                        ModbusArea::HoldingRegister,
                        start,
                        qty as int,
                        new_regs,
                    ),
                    ..m
                },
            }
        }
    }
}

/// The outcome of one request: response bytes and store state after,
/// by function code.
pub open spec fn spec_process(
    m: StoreModel,
    txn: u16,
    unit: u8,
    fc: u8,
    body: Seq<u8>,
) -> Outcome {
    match spec_function_code_from_u8(fc) {
        None => spec_exc(m, txn, unit, fc, ExceptionCode::IllegalFunction),
        Some(FunctionCode::ReadCoils) => spec_read_bits(m, txn, unit, fc, body, ModbusArea::Coil),
        Some(FunctionCode::ReadDiscreteInputs) => spec_read_bits(
            m,
            txn,
            unit,
            fc,
            body,
            ModbusArea::DiscreteInput,
        ),
        Some(FunctionCode::ReadHoldingRegisters) => spec_read_registers(
            m,
            txn,
            unit,
            fc,
            body,
            ModbusArea::HoldingRegister,
        ),
        Some(FunctionCode::ReadInputRegisters) => spec_read_registers(
            m,
            txn,
            unit,
            fc,
            body,
            ModbusArea::InputRegister,
        ),
        Some(FunctionCode::WriteSingleCoil) => spec_write_single_coil(m, txn, unit, fc, body),
        Some(FunctionCode::WriteSingleRegister) => spec_write_single_register(
            m,
            txn,
            unit,
            fc,
            body,
        ),
        Some(FunctionCode::WriteMultipleCoils) => spec_write_multiple_coils(m, txn, unit, fc, body),
        Some(FunctionCode::WriteMultipleRegisters) => spec_write_multiple_registers(
            m,
            txn,
            unit,
            fc,
            body,
        ),
    }
}

/// Handle Read Coils (0x01).
fn handle_read_coils(request: &ModbusRequest, store: &ModbusDataStore) -> (r: Vec<u8>)
    requires
        store@.wf(),
    ensures
        r@ == spec_read_bits(
            store@,
            request.header.transaction_id,
            request.header.unit_id,
            request.function_code,
            request.data@,
            ModbusArea::Coil,
        ).response,
{
    let read_req = match ReadRequest::parse(request.data.as_slice()) {
        Ok(r) => r,
        Err(_) => {
            return ModbusResponse::build_exception(
                request,
                request.function_code,
                ExceptionCode::IllegalDataValue,
            );
        },
    };

    if let Err(e) = read_req.validate_bits() {
        return ModbusResponse::build_exception(request, request.function_code, e);
    }

    match store.read_coils(read_req.start_address, read_req.quantity) {
        Ok(coils) => {
            let packed = pack_bits(coils.as_slice());
            let mut data: Vec<u8> = Vec::new();
            data.push(packed.len() as u8);
            let mut i: usize = 0;
            while i < packed.len()
                invariant
                    i <= packed@.len(),
                    packed@.len() <= 250,
                    data@ == seq![packed@.len() as u8] + packed@.subrange(0, i as int),
                decreases packed@.len() - i,
            {
                data.push(packed[i]);
                proof {
                    assert(data@ =~= seq![packed@.len() as u8] + packed@.subrange(0, i + 1));
                }
                i = i + 1;
            }
            proof {
                assert(data@ =~= seq![packed@.len() as u8] + packed@);
            }
            ModbusResponse::build_response(request, request.function_code, data.as_slice())
        },
        Err(e) => ModbusResponse::build_exception(request, request.function_code, e),
    }
}

/// Handle Read Discrete Inputs (0x02).
fn handle_read_discrete_inputs(request: &ModbusRequest, store: &ModbusDataStore) -> (r: Vec<u8>)
    requires
        store@.wf(),
    ensures
        r@ == spec_read_bits(
            store@,
            request.header.transaction_id,
            request.header.unit_id,
            request.function_code,
            request.data@,
            ModbusArea::DiscreteInput,
        ).response,
{
    let read_req = match ReadRequest::parse(request.data.as_slice()) {
        Ok(r) => r,
        Err(_) => {
            return ModbusResponse::build_exception(
                request,
                request.function_code,
                ExceptionCode::IllegalDataValue,
            );
        },
    };

    if let Err(e) = read_req.validate_bits() {
        return ModbusResponse::build_exception(request, request.function_code, e);
    }

    match store.read_discrete_inputs(read_req.start_address, read_req.quantity) {
        Ok(inputs) => {
            let packed = pack_bits(inputs.as_slice());
            let mut data: Vec<u8> = Vec::new();
            data.push(packed.len() as u8);
            let mut i: usize = 0;
            while i < packed.len()
                invariant
                    i <= packed@.len(),
                    packed@.len() <= 250,
                    data@ == seq![packed@.len() as u8] + packed@.subrange(0, i as int),
                decreases packed@.len() - i,
            {
                data.push(packed[i]);
                proof {
                    assert(data@ =~= seq![packed@.len() as u8] + packed@.subrange(0, i + 1));
                }
                i = i + 1;
            }
            proof {
                assert(data@ =~= seq![packed@.len() as u8] + packed@);
            }
            ModbusResponse::build_response(request, request.function_code, data.as_slice())
        },
        Err(e) => ModbusResponse::build_exception(request, request.function_code, e),
    }
}

/// Handle Read Holding Registers (0x03).
fn handle_read_holding_registers(request: &ModbusRequest, store: &ModbusDataStore) -> (r: Vec<u8>)
    requires
        store@.wf(),
    ensures
        r@ == spec_read_registers(
            store@,
            request.header.transaction_id,
            request.header.unit_id,
            request.function_code,
            request.data@,
            ModbusArea::HoldingRegister,
        ).response,
{
    let read_req = match ReadRequest::parse(request.data.as_slice()) {
        Ok(r) => r,
        Err(_) => {
            return ModbusResponse::build_exception(
                request,
                request.function_code,
                ExceptionCode::IllegalDataValue,
            );
        },
    };

    if let Err(e) = read_req.validate_registers() {
        return ModbusResponse::build_exception(request, request.function_code, e);
    }

    match store.read_holding_registers(read_req.start_address, read_req.quantity) {
        Ok(regs) => {
            let packed = pack_registers(regs.as_slice());
            let mut data: Vec<u8> = Vec::new();
            data.push(packed.len() as u8);
            let mut i: usize = 0;
            while i < packed.len()
                invariant
                    i <= packed@.len(),
                    packed@.len() <= 250,
                    data@ == seq![packed@.len() as u8] + packed@.subrange(0, i as int),
                decreases packed@.len() - i,
            {
                data.push(packed[i]);
                proof {
                    assert(data@ =~= seq![packed@.len() as u8] + packed@.subrange(0, i + 1));
                }
                i = i + 1;
            }
            proof {
                assert(data@ =~= seq![packed@.len() as u8] + packed@);
            }
            ModbusResponse::build_response(request, request.function_code, data.as_slice())
        },
        Err(e) => ModbusResponse::build_exception(request, request.function_code, e),
    }
}

/// Handle Read Input Registers (0x04).
fn handle_read_input_registers(request: &ModbusRequest, store: &ModbusDataStore) -> (r: Vec<u8>)
    requires
        store@.wf(),
    ensures
        r@ == spec_read_registers(
            store@,
            request.header.transaction_id,
            request.header.unit_id,
            request.function_code,
            request.data@,
            ModbusArea::InputRegister,
        ).response,
{
    let read_req = match ReadRequest::parse(request.data.as_slice()) {
        Ok(r) => r,
        Err(_) => {
            return ModbusResponse::build_exception(
                request,
                request.function_code,
                ExceptionCode::IllegalDataValue,
            );
        },
    };

    if let Err(e) = read_req.validate_registers() {
        return ModbusResponse::build_exception(request, request.function_code, e);
    }

    match store.read_input_registers(read_req.start_address, read_req.quantity) {
        Ok(regs) => {
            let packed = pack_registers(regs.as_slice());
            let mut data: Vec<u8> = Vec::new();
            data.push(packed.len() as u8);
            let mut i: usize = 0;
            while i < packed.len()
                invariant
                    i <= packed@.len(),
                    packed@.len() <= 250,
                    data@ == seq![packed@.len() as u8] + packed@.subrange(0, i as int),
                decreases packed@.len() - i,
            {
                data.push(packed[i]);
                proof {
                    assert(data@ =~= seq![packed@.len() as u8] + packed@.subrange(0, i + 1));
                }
                i = i + 1;
            }
            proof {
                assert(data@ =~= seq![packed@.len() as u8] + packed@);
            }
            ModbusResponse::build_response(request, request.function_code, data.as_slice())
        },
        Err(e) => ModbusResponse::build_exception(request, request.function_code, e),
    }
}

/// Handle Write Single Coil (0x05).
fn handle_write_single_coil(request: &ModbusRequest, store: &mut ModbusDataStore) -> (r: Vec<u8>)
    requires
        old(store)@.wf(),
        request.data@.len() <= 65533,
    ensures
        final(store)@.wf(),
        r@ == spec_write_single_coil(
            old(store)@,
            request.header.transaction_id,
            request.header.unit_id,
            request.function_code,
            request.data@,
        ).response,
        final(store)@ == spec_write_single_coil(
            old(store)@,
            request.header.transaction_id,
            request.header.unit_id,
            request.function_code,
            request.data@,
        ).store,
{
    let write_req = match WriteSingleCoilRequest::parse(request.data.as_slice()) {
        Ok(r) => r,
        Err(_) => {
            return ModbusResponse::build_exception(
                request,
                request.function_code,
                ExceptionCode::IllegalDataValue,
            );
        },
    };

    match store.write_single_coil(write_req.address, write_req.value) {
        Ok(()) => {
            // Echo the request body back.
            ModbusResponse::build_response(
                request,
                request.function_code,
                request.data.as_slice(),
            )
        },
        Err(e) => ModbusResponse::build_exception(request, request.function_code, e),
    }
}

/// Handle Write Single Register (0x06).
fn handle_write_single_register(request: &ModbusRequest, store: &mut ModbusDataStore) -> (r: Vec<
    u8,
>)
    requires
        old(store)@.wf(),
        request.data@.len() <= 65533,
    ensures
        final(store)@.wf(),
        r@ == spec_write_single_register(
            old(store)@,
            request.header.transaction_id,
            request.header.unit_id,
            request.function_code,
            request.data@,
        ).response,
        final(store)@ == spec_write_single_register(
            old(store)@,
            request.header.transaction_id,
            request.header.unit_id,
            request.function_code,
            request.data@,
        ).store,
{
    let write_req = match WriteSingleRegisterRequest::parse(request.data.as_slice()) {
        Ok(r) => r,
        Err(_) => {
            return ModbusResponse::build_exception(
                request,
                request.function_code,
                ExceptionCode::IllegalDataValue,
            );
        },
    };

    match store.write_single_register(write_req.address, write_req.value) {
        Ok(()) => {
            // Echo the request body back.
            ModbusResponse::build_response(
                request,
                request.function_code,
                request.data.as_slice(),
            )
        },
        Err(e) => ModbusResponse::build_exception(request, request.function_code, e),
    }
}

/// Handle Write Multiple Coils (0x0F).
fn handle_write_multiple_coils(request: &ModbusRequest, store: &mut ModbusDataStore) -> (r: Vec<
    u8,
>)
    requires
        old(store)@.wf(),
    ensures
        final(store)@.wf(),
        r@ == spec_write_multiple_coils(
            old(store)@,
            request.header.transaction_id,
            request.header.unit_id,
            request.function_code,
            request.data@,
        ).response,
        final(store)@ == spec_write_multiple_coils(
            old(store)@,
            request.header.transaction_id,
            request.header.unit_id,
            request.function_code,
            request.data@,
        ).store,
{
    let write_req = match WriteMultipleCoilsRequest::parse(request.data.as_slice()) {
        Ok(r) => r,
        Err(_) => {
            return ModbusResponse::build_exception(
                request,
                request.function_code,
                ExceptionCode::IllegalDataValue,
            );
        },
    };

    if let Err(e) = write_req.validate() {
        return ModbusResponse::build_exception(request, request.function_code, e);
    }

    match store.write_multiple_coils(write_req.start_address, write_req.values.as_slice()) {
        Ok(()) => {
            let response_data = write_req.to_response_data();
            proof {
                assert(response_data@ =~= request.data@.subrange(0, 4));
            }
            ModbusResponse::build_response(request, request.function_code, &response_data)
        },
        Err(e) => ModbusResponse::build_exception(request, request.function_code, e),
    }
}

/// Handle Write Multiple Registers (0x10).
fn handle_write_multiple_registers(
    request: &ModbusRequest,
    store: &mut ModbusDataStore,
) -> (r: Vec<u8>)
    requires
        old(store)@.wf(),
    ensures
        final(store)@.wf(),
        r@ == spec_write_multiple_registers(
            old(store)@,
            request.header.transaction_id,
            request.header.unit_id,
            request.function_code,
            request.data@,
        ).response,
        final(store)@ == spec_write_multiple_registers(
            old(store)@,
            request.header.transaction_id,
            request.header.unit_id,
            request.function_code,
            request.data@,
        ).store,
{
    let write_req = match WriteMultipleRegistersRequest::parse(request.data.as_slice()) {
        Ok(r) => r,
        Err(_) => {
            return ModbusResponse::build_exception(
                request,
                request.function_code,
                ExceptionCode::IllegalDataValue,
            );
        },
    };

    if let Err(e) = write_req.validate() {
        return ModbusResponse::build_exception(request, request.function_code, e);
    }

    match store.write_multiple_registers(write_req.start_address, write_req.values.as_slice()) {
        Ok(()) => {
            let response_data = write_req.to_response_data();
            proof {
                assert(response_data@ =~= request.data@.subrange(0, 4));
            }
            ModbusResponse::build_response(request, request.function_code, &response_data)
        },
        Err(e) => ModbusResponse::build_exception(request, request.function_code, e),
    }
}

/// Process a Modbus request against the store and build the
/// response: dispatch by function code, unknown codes answer with
/// IllegalFunction.
pub fn process_request(request: &ModbusRequest, store: &mut ModbusDataStore) -> (r: Vec<u8>)
    requires
        old(store)@.wf(),
        request.data@.len() <= 65533,
    ensures
        final(store)@.wf(),
        r@ == spec_process(
            old(store)@,
            request.header.transaction_id,
            request.header.unit_id,
            request.function_code,
            request.data@,
        ).response,
        final(store)@ == spec_process(
            old(store)@,
            request.header.transaction_id,
            request.header.unit_id,
            request.function_code,
            request.data@,
        ).store,
{
    let function_code = request.function_code;

    match FunctionCode::from_u8(function_code) {
        Some(FunctionCode::ReadCoils) => handle_read_coils(request, store),
        Some(FunctionCode::ReadDiscreteInputs) => handle_read_discrete_inputs(request, store),
        Some(FunctionCode::ReadHoldingRegisters) => handle_read_holding_registers(request, store),
        Some(FunctionCode::ReadInputRegisters) => handle_read_input_registers(request, store),
        Some(FunctionCode::WriteSingleCoil) => handle_write_single_coil(request, store),
        Some(FunctionCode::WriteSingleRegister) => handle_write_single_register(request, store),
        Some(FunctionCode::WriteMultipleCoils) => handle_write_multiple_coils(request, store),
        Some(FunctionCode::WriteMultipleRegisters) => handle_write_multiple_registers(
            request,
            store,
        ),
        None => ModbusResponse::build_exception(
            request,
            function_code,
            ExceptionCode::IllegalFunction,
        ),
    }
}


/// Protocol echo: a well-formed write-single-coil or
/// write-single-register request whose address is defined is
/// answered by a frame that carries the same transaction id and unit
/// id and echoes the request body byte for byte.
pub proof fn lemma_write_single_echo(m: StoreModel, txn: u16, unit: u8, fc: u8, body: Seq<u8>)
    requires
        fc == 0x05 || fc == 0x06,
        body.len() >= 4,
        fc == 0x05 ==> spec_be16(body[2], body[3]) == 0 || spec_be16(body[2], body[3]) == 0xFF00,
        fc == 0x05 ==> m.defined(ModbusArea::Coil, spec_be16(body[0], body[1]) as int),
        fc == 0x06 ==> m.defined(ModbusArea::HoldingRegister, spec_be16(body[0], body[1]) as int),
    ensures
        spec_process(m, txn, unit, fc, body).response == spec_response_frame(txn, unit, fc, body),
{
}

/// The memory area a function code operates on.
pub open spec fn spec_area_of_fc(fc: u8) -> ModbusArea {
    if fc == 0x01 || fc == 0x05 || fc == 0x0F {
        ModbusArea::Coil
    } else if fc == 0x02 {
        ModbusArea::DiscreteInput
    } else if fc == 0x04 {
        ModbusArea::InputRegister
    } else {
        ModbusArea::HoldingRegister
    }
}

/// A minimal request body touching exactly one address: quantity one
/// for the range operations, the given value bytes for the writes.
pub open spec fn spec_single_access_body(fc: u8, a: u16, vh: u8, vl: u8) -> Seq<u8> {
    if fc == 0x05 || fc == 0x06 {
        seq![spec_hi(a), spec_lo(a), vh, vl]
    } else if fc == 0x0F {
        seq![spec_hi(a), spec_lo(a), 0u8, 1u8, 1u8, vl]
    } else if fc == 0x10 {
        seq![spec_hi(a), spec_lo(a), 0u8, 1u8, 2u8, vh, vl]
    } else {
        seq![spec_hi(a), spec_lo(a), 0u8, 1u8]
    }
}

/// Strict addressing: any read or write that touches an address not
/// in the defined-set of its area is answered with an
/// IllegalDataAddress exception and leaves the store unchanged.
pub proof fn lemma_strict_addressing(
    m: StoreModel,
    txn: u16,
    unit: u8,
    fc: u8,
    a: u16,
    vh: u8,
    vl: u8,
)
    requires
        m.wf(),
        fc == 0x01 || fc == 0x02 || fc == 0x03 || fc == 0x04 || fc == 0x05 || fc == 0x06 || fc
            == 0x0F || fc == 0x10,
        !m.defined(spec_area_of_fc(fc), a as int),
        fc == 0x05 ==> (vh == 0xFF && vl == 0) || (vh == 0 && vl == 0),
    ensures
        spec_process(m, txn, unit, fc, spec_single_access_body(fc, a, vh, vl)).response
            == spec_exception_frame(txn, unit, fc, ExceptionCode::IllegalDataAddress),
        spec_process(m, txn, unit, fc, spec_single_access_body(fc, a, vh, vl)).store == m,
{
    let body = spec_single_access_body(fc, a, vh, vl);
    assert(spec_be16(body[0], body[1]) == a);
    if fc == 0x05 || fc == 0x06 {
        assert(body.len() == 4);
    } else if fc == 0x0F {
        assert(body.len() == 6);
        assert(spec_be16(body[2], body[3]) == 1);
        assert(!m.range_defined(ModbusArea::Coil, a as int, 1));
    } else if fc == 0x10 {
        assert(body.len() == 7);
        assert(spec_be16(body[2], body[3]) == 1);
        assert(!m.range_defined(ModbusArea::HoldingRegister, a as int, 1));
    } else {
        assert(body.len() == 4);
        assert(spec_be16(body[2], body[3]) == 1);
        assert(!m.range_defined(spec_area_of_fc(fc), a as int, 1));
    }
}

} // verus!

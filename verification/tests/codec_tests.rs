//! Frame codec tests: header and request parsing, response building,
//! bit and register packing.

use modbus_slave::codec::{
    ExceptionCode, FrameError, FunctionCode, MbapHeader, ModbusRequest, ModbusResponse,
    ReadRequest, WriteMultipleCoilsRequest, WriteMultipleRegistersRequest, WriteSingleCoilRequest,
    WriteSingleRegisterRequest, pack_bits, pack_registers,
};

#[test]
fn test_mbap_header_parse() {
    let data = [0x00, 0x01, 0x00, 0x00, 0x00, 0x06, 0x01];
    let header = MbapHeader::parse(&data).unwrap();
    assert_eq!(header.transaction_id, 1);
    assert_eq!(header.protocol_id, 0);
    assert_eq!(header.length, 6);
    assert_eq!(header.unit_id, 1);
}

#[test]
fn test_read_request_parse() {
    let data = [0x00, 0x00, 0x00, 0x0A]; // start=0, quantity=10
    let req = ReadRequest::parse(&data).unwrap();
    assert_eq!(req.start_address, 0);
    assert_eq!(req.quantity, 10);
}

#[test]
fn test_pack_bits() {
    let bits = vec![true, false, true, true, false, false, false, false, true];
    let packed = pack_bits(&bits);
    assert_eq!(packed, vec![0b00001101, 0b00000001]);
}

#[test]
fn test_pack_registers() {
    let regs = vec![0x0102, 0x0304];
    let packed = pack_registers(&regs);
    assert_eq!(packed, vec![0x01, 0x02, 0x03, 0x04]);
}

#[test]
fn test_mbap_header_too_short() {
    let data = [0x00, 0x01, 0x00];
    assert_eq!(MbapHeader::parse(&data), Err(FrameError::TooShort));
}

#[test]
fn test_mbap_header_bad_protocol() {
    let data = [0x00, 0x01, 0x00, 0x07, 0x00, 0x06, 0x01];
    assert_eq!(MbapHeader::parse(&data), Err(FrameError::InvalidProtocolId));
}

#[test]
fn test_header_write_to_round_trips() {
    let header = MbapHeader { transaction_id: 0x1234, protocol_id: 0, length: 6, unit_id: 9 };
    let mut buf: Vec<u8> = Vec::new();
    header.write_to(&mut buf);
    assert_eq!(buf, vec![0x12, 0x34, 0x00, 0x00, 0x00, 0x06, 0x09]);
    let parsed = MbapHeader::parse(&buf).unwrap();
    assert_eq!(parsed, header);
}

#[test]
fn test_request_parse_complete_frame() {
    let data = [
        0x00, 0x01, 0x00, 0x00, 0x00, 0x06, 0x01, 0x03, 0x00, 0x00, 0x00, 0x01,
    ];
    let req = ModbusRequest::parse(&data).unwrap();
    assert_eq!(req.header.transaction_id, 1);
    assert_eq!(req.function_code, 0x03);
    assert_eq!(req.data, vec![0x00, 0x00, 0x00, 0x01]);
}

#[test]
fn test_request_parse_incomplete_frame() {
    // Length field announces 6 bytes after it, only 2 are present.
    let data = [0x00, 0x01, 0x00, 0x00, 0x00, 0x06, 0x01, 0x03];
    assert!(matches!(ModbusRequest::parse(&data), Err(FrameError::Incomplete)));
}

#[test]
fn test_request_parse_too_short() {
    let data = [0x00, 0x01, 0x00, 0x00, 0x00, 0x06, 0x01];
    assert!(matches!(ModbusRequest::parse(&data), Err(FrameError::TooShort)));
}

#[test]
fn test_expected_frame_length() {
    assert_eq!(ModbusRequest::expected_frame_length(&[0x00, 0x01, 0x00, 0x00, 0x00]), None);
    assert_eq!(
        ModbusRequest::expected_frame_length(&[0x00, 0x01, 0x00, 0x00, 0x00, 0x06]),
        Some(12)
    );
}

#[test]
fn test_function_code_from_u8() {
    assert_eq!(FunctionCode::from_u8(0x01), Some(FunctionCode::ReadCoils));
    assert_eq!(FunctionCode::from_u8(0x02), Some(FunctionCode::ReadDiscreteInputs));
    assert_eq!(FunctionCode::from_u8(0x03), Some(FunctionCode::ReadHoldingRegisters));
    assert_eq!(FunctionCode::from_u8(0x04), Some(FunctionCode::ReadInputRegisters));
    assert_eq!(FunctionCode::from_u8(0x05), Some(FunctionCode::WriteSingleCoil));
    assert_eq!(FunctionCode::from_u8(0x06), Some(FunctionCode::WriteSingleRegister));
    assert_eq!(FunctionCode::from_u8(0x0F), Some(FunctionCode::WriteMultipleCoils));
    assert_eq!(FunctionCode::from_u8(0x10), Some(FunctionCode::WriteMultipleRegisters));
    assert_eq!(FunctionCode::from_u8(0x07), None);
}

#[test]
fn test_build_response_bytes() {
    let request = ModbusRequest {
        header: MbapHeader { transaction_id: 7, protocol_id: 0, length: 6, unit_id: 1 },
        function_code: 0x03,
        data: vec![0x00, 0x00, 0x00, 0x01],
    };
    let r = ModbusResponse::build_response(&request, 0x03, &[0x02, 0x12, 0x34]);
    assert_eq!(r, vec![0x00, 0x07, 0x00, 0x00, 0x00, 0x05, 0x01, 0x03, 0x02, 0x12, 0x34]);
}

#[test]
fn test_build_exception_bytes() {
    let request = ModbusRequest {
        header: MbapHeader { transaction_id: 2, protocol_id: 0, length: 6, unit_id: 1 },
        function_code: 0x03,
        data: vec![0x00, 0x00, 0x00, 0x01],
    };
    let r = ModbusResponse::build_exception(&request, 0x03, ExceptionCode::IllegalDataAddress);
    assert_eq!(r, vec![0x00, 0x02, 0x00, 0x00, 0x00, 0x03, 0x01, 0x83, 0x02]);
}

#[test]
fn test_validate_bits_limits() {
    assert!(ReadRequest { start_address: 0, quantity: 1 }.validate_bits().is_ok());
    assert!(ReadRequest { start_address: 0, quantity: 2000 }.validate_bits().is_ok());
    assert_eq!(
        ReadRequest { start_address: 0, quantity: 0 }.validate_bits(),
        Err(ExceptionCode::IllegalDataValue)
    );
    assert_eq!(
        ReadRequest { start_address: 0, quantity: 2001 }.validate_bits(),
        Err(ExceptionCode::IllegalDataValue)
    );
}

#[test]
fn test_validate_registers_limits() {
    assert!(ReadRequest { start_address: 0, quantity: 125 }.validate_registers().is_ok());
    assert_eq!(
        ReadRequest { start_address: 0, quantity: 126 }.validate_registers(),
        Err(ExceptionCode::IllegalDataValue)
    );
    assert_eq!(
        ReadRequest { start_address: 0, quantity: 0 }.validate_registers(),
        Err(ExceptionCode::IllegalDataValue)
    );
}

#[test]
fn test_write_single_coil_parse_values() {
    let on = WriteSingleCoilRequest::parse(&[0x00, 0x05, 0xFF, 0x00]).unwrap();
    assert_eq!(on.address, 5);
    assert!(on.value);
    let off = WriteSingleCoilRequest::parse(&[0x00, 0x05, 0x00, 0x00]).unwrap();
    assert!(!off.value);
    assert!(matches!(
        WriteSingleCoilRequest::parse(&[0x00, 0x05, 0x12, 0x34]),
        Err(FrameError::InvalidCoilValue)
    ));
    assert_eq!(on.to_response_data(), [0x00, 0x05, 0xFF, 0x00]);
}

#[test]
fn test_write_single_register_parse() {
    let req = WriteSingleRegisterRequest::parse(&[0x00, 0x0A, 0x12, 0x34]).unwrap();
    assert_eq!(req.address, 10);
    assert_eq!(req.value, 0x1234);
    assert_eq!(req.to_response_data(), [0x00, 0x0A, 0x12, 0x34]);
}

#[test]
fn test_write_multiple_coils_parse_and_unpack() {
    // start=0, qty=9, byte count 2, bits 1,0,1,1,0,0,0,0 | 1
    let body = [0x00, 0x00, 0x00, 0x09, 0x02, 0b0000_1101, 0b0000_0001];
    let req = WriteMultipleCoilsRequest::parse(&body).unwrap();
    assert_eq!(req.start_address, 0);
    assert_eq!(req.quantity, 9);
    assert_eq!(
        req.values,
        vec![true, false, true, true, false, false, false, false, true]
    );
    assert_eq!(req.to_response_data(), [0x00, 0x00, 0x00, 0x09]);
}

#[test]
fn test_write_multiple_coils_byte_count_mismatch() {
    let body = [0x00, 0x00, 0x00, 0x09, 0x01, 0b0000_1101];
    assert!(matches!(
        WriteMultipleCoilsRequest::parse(&body),
        Err(FrameError::InvalidByteCount)
    ));
}

#[test]
fn test_write_multiple_registers_parse() {
    let body = [0x00, 0x0A, 0x00, 0x02, 0x04, 0x00, 0x64, 0x00, 0xC8];
    let req = WriteMultipleRegistersRequest::parse(&body).unwrap();
    assert_eq!(req.start_address, 10);
    assert_eq!(req.quantity, 2);
    assert_eq!(req.values, vec![100, 200]);
    assert!(req.validate().is_ok());
    assert_eq!(req.to_response_data(), [0x00, 0x0A, 0x00, 0x02]);
}

#[test]
fn test_write_multiple_registers_byte_count_mismatch() {
    let body = [0x00, 0x0A, 0x00, 0x02, 0x03, 0x00, 0x64, 0x00];
    assert!(matches!(
        WriteMultipleRegistersRequest::parse(&body),
        Err(FrameError::InvalidByteCount)
    ));
}

#[test]
fn test_write_multiple_validate_limits() {
    let coils = WriteMultipleCoilsRequest { start_address: 0, quantity: 1969, values: vec![] };
    assert_eq!(coils.validate(), Err(ExceptionCode::IllegalDataValue));
    let regs = WriteMultipleRegistersRequest { start_address: 0, quantity: 124, values: vec![] };
    assert_eq!(regs.validate(), Err(ExceptionCode::IllegalDataValue));
}

#[test]
fn test_bit_pack_unpack_round_trip() {
    // The bit-pack law on a concrete sequence: packing and unpacking
    // through the write-multiple-coils body gives the bits back.
    let bits = vec![
        true, true, false, true, false, true, false, false, true, false, true,
    ];
    let packed = pack_bits(&bits);
    let mut body = vec![0x00, 0x00, 0x00, bits.len() as u8, packed.len() as u8];
    body.extend_from_slice(&packed);
    let req = WriteMultipleCoilsRequest::parse(&body).unwrap();
    assert_eq!(req.values, bits);
}

#[test]
fn test_pack_bits_empty() {
    let packed = pack_bits(&[]);
    assert!(packed.is_empty());
}

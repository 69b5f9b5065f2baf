//! Modbus TCP frame codec.
//!
//! Handles parsing and building of Modbus TCP frames.  A frame is an
//! MBAP header (transaction id, protocol id, length, unit id) followed
//! by a PDU (function code and function data); all multi-byte fields
//! are big-endian.

use vstd::prelude::*;

verus! {

/// Modbus function codes supported by this slave simulator.
#[derive(Debug, Clone, Copy, PartialEq, Eq, Structural)]
pub enum FunctionCode {
    /// Read Coils (0x01)
    ReadCoils,
    /// Read Discrete Inputs (0x02)
    ReadDiscreteInputs,
    /// Read Holding Registers (0x03)
    ReadHoldingRegisters,
    /// Read Input Registers (0x04)
    ReadInputRegisters,
    /// Write Single Coil (0x05)
    WriteSingleCoil,
    /// Write Single Register (0x06)
    WriteSingleRegister,
    /// Write Multiple Coils (0x0F)
    WriteMultipleCoils,
    /// Write Multiple Registers (0x10)
    WriteMultipleRegisters,
}

/// The wire byte of each function code.
pub open spec fn spec_function_code_byte(fc: FunctionCode) -> u8 {
    match fc {
        FunctionCode::ReadCoils => 0x01,
        FunctionCode::ReadDiscreteInputs => 0x02,
        FunctionCode::ReadHoldingRegisters => 0x03,
        FunctionCode::ReadInputRegisters => 0x04,
        FunctionCode::WriteSingleCoil => 0x05,
        FunctionCode::WriteSingleRegister => 0x06,
        FunctionCode::WriteMultipleCoils => 0x0F,
        FunctionCode::WriteMultipleRegisters => 0x10,
    }
}

/// The function code a wire byte denotes, if any.
pub open spec fn spec_function_code_from_u8(code: u8) -> Option<FunctionCode> {
    match code {
        0x01 => Some(FunctionCode::ReadCoils),
        0x02 => Some(FunctionCode::ReadDiscreteInputs),
        0x03 => Some(FunctionCode::ReadHoldingRegisters),
        0x04 => Some(FunctionCode::ReadInputRegisters),
        0x05 => Some(FunctionCode::WriteSingleCoil),
        0x06 => Some(FunctionCode::WriteSingleRegister),
        0x0F => Some(FunctionCode::WriteMultipleCoils),
        0x10 => Some(FunctionCode::WriteMultipleRegisters),
        _ => None,
    }
}

impl FunctionCode {
    /// Decode a wire byte into a function code.
    pub fn from_u8(code: u8) -> (r: Option<Self>)
        ensures
            r == spec_function_code_from_u8(code),
    {
        match code {
            0x01 => Some(FunctionCode::ReadCoils),
            0x02 => Some(FunctionCode::ReadDiscreteInputs),
            0x03 => Some(FunctionCode::ReadHoldingRegisters),
            0x04 => Some(FunctionCode::ReadInputRegisters),
            0x05 => Some(FunctionCode::WriteSingleCoil),
            0x06 => Some(FunctionCode::WriteSingleRegister),
            0x0F => Some(FunctionCode::WriteMultipleCoils),
            0x10 => Some(FunctionCode::WriteMultipleRegisters),
            _ => None,
        }
    }
}

/// Modbus exception codes.
#[derive(Debug, Clone, Copy, PartialEq, Eq, Structural)]
pub enum ExceptionCode {
    /// Illegal Function (01)
    IllegalFunction,
    /// Illegal Data Address (02)
    IllegalDataAddress,
    /// Illegal Data Value (03)
    IllegalDataValue,
    /// Server Device Failure (04)
    ServerDeviceFailure,
}

/// The wire byte of each exception code.
pub open spec fn spec_exception_code_byte(ec: ExceptionCode) -> u8 {
    match ec {
        ExceptionCode::IllegalFunction => 0x01,
        ExceptionCode::IllegalDataAddress => 0x02,
        ExceptionCode::IllegalDataValue => 0x03,
        ExceptionCode::ServerDeviceFailure => 0x04,
    }
}

impl ExceptionCode {
    /// The byte this exception code puts on the wire.
    pub fn code(&self) -> (c: u8)
        ensures
            c == spec_exception_code_byte(*self),
    {
        match self {
            ExceptionCode::IllegalFunction => 0x01,
            ExceptionCode::IllegalDataAddress => 0x02,
            ExceptionCode::IllegalDataValue => 0x03,
            ExceptionCode::ServerDeviceFailure => 0x04,
        }
    }
}

/// Why a frame or a request body failed to parse.
#[derive(Debug, Clone, Copy, PartialEq, Eq, Structural)]
pub enum FrameError {
    /// Fewer bytes than the fixed part of the frame needs.
    TooShort,
    /// The protocol id field was not zero.
    InvalidProtocolId,
    /// Fewer bytes than the length field announces.
    Incomplete,
    /// A write-single-coil value other than 0x0000 or 0xFF00.
    InvalidCoilValue,
    /// The byte count disagrees with the quantity or the body size.
    InvalidByteCount,
}

/// Big-endian 16-bit value of two bytes.
pub open spec fn spec_be16(hi: u8, lo: u8) -> u16 {
    (hi * 256 + lo) as u16
}

/// High byte of a 16-bit value.
pub open spec fn spec_hi(v: u16) -> u8 {
    (v / 256) as u8
}

/// Low byte of a 16-bit value.
pub open spec fn spec_lo(v: u16) -> u8 {
    (v % 256) as u8
}

/// Read a big-endian 16-bit value from two bytes.
pub fn u16_from_be(hi: u8, lo: u8) -> (v: u16)
    ensures
        v == spec_be16(hi, lo),
{
    (hi as u16) * 256 + (lo as u16)
}

/// MBAP (Modbus Application Protocol) header.
#[derive(Debug, Clone, Copy, PartialEq, Eq, Structural)]
pub struct MbapHeader {
    pub transaction_id: u16,
    pub protocol_id: u16,
    pub length: u16,
    pub unit_id: u8,
}

/// Size of the MBAP header in bytes.
pub const MBAP_HEADER_SIZE: usize = 7;

/// The header the first seven bytes of a buffer denote.
pub open spec fn spec_parse_header(s: Seq<u8>) -> MbapHeader {
    MbapHeader {
        transaction_id: spec_be16(s[0], s[1]),
        protocol_id: spec_be16(s[2], s[3]),
        length: spec_be16(s[4], s[5]),
        unit_id: s[6],
    }
}

/// The seven wire bytes of a header.
pub open spec fn spec_header_bytes(h: MbapHeader) -> Seq<u8> {
    seq![
        spec_hi(h.transaction_id),
        spec_lo(h.transaction_id),
        spec_hi(h.protocol_id),
        spec_lo(h.protocol_id),
        spec_hi(h.length),
        spec_lo(h.length),
        h.unit_id,
    ]
}

impl MbapHeader {
    /// Parse an MBAP header; the protocol id must be zero.
    pub fn parse(data: &[u8]) -> (r: Result<Self, FrameError>)
        ensures
            r is Ok <==> data@.len() >= 7 && spec_be16(data@[2], data@[3]) == 0,
            data@.len() < 7 ==> r == Err::<MbapHeader, FrameError>(FrameError::TooShort),
            data@.len() >= 7 && spec_be16(data@[2], data@[3]) != 0 ==> r == Err::<
                MbapHeader,
                FrameError,
            >(FrameError::InvalidProtocolId),
            r is Ok ==> r->Ok_0 == spec_parse_header(data@),
    {
        if data.len() < MBAP_HEADER_SIZE {
            return Err(FrameError::TooShort);
        }
        let transaction_id = u16_from_be(data[0], data[1]);
        let protocol_id = u16_from_be(data[2], data[3]);
        let length = u16_from_be(data[4], data[5]);
        let unit_id = data[6];

        // Protocol ID must be 0 for Modbus TCP
        if protocol_id != 0 {
            return Err(FrameError::InvalidProtocolId);
        }

        Ok(Self { transaction_id, protocol_id, length, unit_id })
    }

    /// Append the seven wire bytes of this header to a buffer.
    pub fn write_to(&self, buf: &mut Vec<u8>)
        ensures
            final(buf)@ == old(buf)@ + spec_header_bytes(*self),
    {
        buf.push((self.transaction_id / 256) as u8);
        buf.push((self.transaction_id % 256) as u8);
        buf.push((self.protocol_id / 256) as u8);
        buf.push((self.protocol_id % 256) as u8);
        buf.push((self.length / 256) as u8);
        buf.push((self.length % 256) as u8);
        buf.push(self.unit_id);
        proof {
            assert(buf@ =~= old(buf)@ + spec_header_bytes(*self));
        }
    }
}

/// The complete-frame length announced by a buffer's first six bytes,
/// if the buffer reaches that far.
pub open spec fn spec_expected_frame_length(s: Seq<u8>) -> Option<usize> {
    if s.len() < 6 {
        None
    } else {
        Some((6 + spec_be16(s[4], s[5])) as usize)
    }
}

/// Parsed Modbus request.
#[derive(Debug)]
pub struct ModbusRequest {
    pub header: MbapHeader,
    pub function_code: u8,
    pub data: Vec<u8>,
}

/// The body bytes of a frame: everything after the function code, up
/// to the end the length field announces.
pub open spec fn spec_request_body(s: Seq<u8>) -> Seq<u8> {
    if 6 + spec_be16(s[4], s[5]) >= 8 {
        s.subrange(8, 6 + spec_be16(s[4], s[5]) as int)
    } else {
        Seq::empty()
    }
}

impl ModbusRequest {
    /// Parse a complete Modbus TCP frame from bytes.
    pub fn parse(data: &[u8]) -> (r: Result<Self, FrameError>)
        ensures
            r is Ok <==> data@.len() >= 8 && spec_be16(data@[2], data@[3]) == 0 && data@.len() >= 6
                + spec_be16(data@[4], data@[5]),
            data@.len() < 8 ==> r == Err::<ModbusRequest, FrameError>(FrameError::TooShort),
            data@.len() >= 8 && spec_be16(data@[2], data@[3]) != 0 ==> r == Err::<
                ModbusRequest,
                FrameError,
            >(FrameError::InvalidProtocolId),
            data@.len() >= 8 && spec_be16(data@[2], data@[3]) == 0 && data@.len() < 6 + spec_be16(
                data@[4],
                data@[5],
            ) ==> r == Err::<ModbusRequest, FrameError>(FrameError::Incomplete),
            r is Ok ==> r->Ok_0.header == spec_parse_header(data@) && r->Ok_0.function_code
                == data@[7] && r->Ok_0.data@ == spec_request_body(data@),
    {
        if data.len() < MBAP_HEADER_SIZE + 1 {
            return Err(FrameError::TooShort);
        }

        let header = match MbapHeader::parse(data) {
            Ok(h) => h,
            Err(e) => {
                return Err(e);
            },
        };

        // Check that the whole frame, as announced by the length
        // field, is present.
        let expected_len: usize = MBAP_HEADER_SIZE - 1 + header.length as usize;
        if data.len() < expected_len {
            return Err(FrameError::Incomplete);
        }

        let function_code = data[MBAP_HEADER_SIZE];
        let mut request_data: Vec<u8> = Vec::new();
        let pdu_data_start: usize = MBAP_HEADER_SIZE + 1;
        if expected_len > pdu_data_start {
            let mut i: usize = pdu_data_start;
            while i < expected_len
                invariant
                    pdu_data_start <= i <= expected_len,
                    expected_len <= data@.len(),
                    request_data@ == data@.subrange(pdu_data_start as int, i as int),
                decreases expected_len - i,
            {
                request_data.push(data[i]);
                proof {
                    assert(request_data@ =~= data@.subrange(pdu_data_start as int, i + 1));
                }
                i = i + 1;
            }
        }
        proof {
            if expected_len <= pdu_data_start {
                assert(request_data@ =~= spec_request_body(data@));
            }
        }

        Ok(Self { header, function_code, data: request_data })
    }

    /// Get the expected frame length from the MBAP header, or `None`
    /// if the buffer is too short to read the length field.
    pub fn expected_frame_length(data: &[u8]) -> (r: Option<usize>)
        ensures
            r == spec_expected_frame_length(data@),
    {
        if data.len() < 6 {
            return None;
        }
        let length = u16_from_be(data[4], data[5]);
        Some(MBAP_HEADER_SIZE - 1 + length as usize)
    }
}

/// The wire bytes of a success response: an MBAP header echoing
/// transaction and unit id, then the function code and the body.
pub open spec fn spec_response_frame(txn: u16, unit: u8, fc: u8, body: Seq<u8>) -> Seq<u8> {
    seq![
        spec_hi(txn),
        spec_lo(txn),
        0u8,
        0u8,
        spec_hi((body.len() + 2) as u16),
        spec_lo((body.len() + 2) as u16),
        unit,
        fc,
    ] + body
}

/// The wire bytes of an exception response: the function code with
/// its high bit set, then the exception code, with length 3.
pub open spec fn spec_exception_frame(txn: u16, unit: u8, fc: u8, ec: ExceptionCode) -> Seq<u8> {
    spec_response_frame(txn, unit, (fc | 0x80) as u8, seq![spec_exception_code_byte(ec)])
}

/// Modbus response builder.
pub struct ModbusResponse;

impl ModbusResponse {
    /// Build a successful response with the given body.
    pub fn build_response(request: &ModbusRequest, function_code: u8, data: &[u8]) -> (r: Vec<u8>)
        requires
            data@.len() + 2 <= 65535,
        ensures
            r@ == spec_response_frame(
                request.header.transaction_id,
                request.header.unit_id,
                function_code,
                data@,
            ),
    {
        let mut response: Vec<u8> = Vec::new();

        // MBAP header: length counts unit id, function code and body.
        let length: u16 = 2 + data.len() as u16;
        let header = MbapHeader {
            transaction_id: request.header.transaction_id,
            protocol_id: 0,
            length,
            unit_id: request.header.unit_id,
        };
        header.write_to(&mut response);

        // PDU
        response.push(function_code);
        let mut i: usize = 0;
        while i < data.len()
            invariant
                i <= data@.len(),
                data@.len() + 2 <= 65535,
                response@ == spec_header_bytes(header) + seq![function_code] + data@.subrange(
                    0,
                    i as int,
                ),
            decreases data@.len() - i,
        {
            response.push(data[i]);
            proof {
                assert(response@ =~= spec_header_bytes(header) + seq![function_code]
                    + data@.subrange(0, i + 1));
            }
            i = i + 1;
        }
        proof {
            assert(response@ =~= spec_response_frame(
                request.header.transaction_id,
                request.header.unit_id,
                function_code,
                data@,
            ));
        }
        response
    }

    /// Build an exception response.
    pub fn build_exception(
        request: &ModbusRequest,
        function_code: u8,
        exception_code: ExceptionCode,
    ) -> (r: Vec<u8>)
        ensures
            r@ == spec_exception_frame(
                request.header.transaction_id,
                request.header.unit_id,
                function_code,
                exception_code,
            ),
    {
        let mut response: Vec<u8> = Vec::new();

        // MBAP header: length covers unit id, error code, exception code.
        let header = MbapHeader {
            transaction_id: request.header.transaction_id,
            protocol_id: 0,
            length: 3,
            unit_id: request.header.unit_id,
        };
        header.write_to(&mut response);

        // PDU with the error flag set on the function code.
        response.push(function_code | 0x80);
        response.push(exception_code.code());

        proof {
            assert(response@ =~= spec_exception_frame(
                request.header.transaction_id,
                request.header.unit_id,
                function_code,
                exception_code,
            ));
        }
        response
    }
}

/// Read request parameters (for functions 0x01-0x04).
#[derive(Debug, Clone, Copy, PartialEq, Eq, Structural)]
pub struct ReadRequest {
    pub start_address: u16,
    pub quantity: u16,
}

impl ReadRequest {
    /// Parse a start address and quantity from a request body.
    pub fn parse(data: &[u8]) -> (r: Result<Self, FrameError>)
        ensures
            r is Ok <==> data@.len() >= 4,
            data@.len() < 4 ==> r == Err::<ReadRequest, FrameError>(FrameError::TooShort),
            r is Ok ==> r->Ok_0 == (ReadRequest {
                start_address: spec_be16(data@[0], data@[1]),
                quantity: spec_be16(data@[2], data@[3]),
            }),
    {
        if data.len() < 4 {
            return Err(FrameError::TooShort);
        }

        let start_address = u16_from_be(data[0], data[1]);
        let quantity = u16_from_be(data[2], data[3]);

        Ok(Self { start_address, quantity })
    }

    /// Validate a read coils/discrete inputs request (max 2000 bits).
    pub fn validate_bits(&self) -> (r: Result<(), ExceptionCode>)
        ensures
            r is Ok <==> 1 <= self.quantity <= 2000,
            r is Err ==> r == Err::<(), ExceptionCode>(ExceptionCode::IllegalDataValue),
    {
        if self.quantity == 0 || self.quantity > 2000 {
            return Err(ExceptionCode::IllegalDataValue);
        }
        Ok(())
    }

    /// Validate a read registers request (max 125 registers).
    pub fn validate_registers(&self) -> (r: Result<(), ExceptionCode>)
        ensures
            r is Ok <==> 1 <= self.quantity <= 125,
            r is Err ==> r == Err::<(), ExceptionCode>(ExceptionCode::IllegalDataValue),
    {
        if self.quantity == 0 || self.quantity > 125 {
            return Err(ExceptionCode::IllegalDataValue);
        }
        Ok(())
    }
}

/// Write single coil request (function 0x05).
#[derive(Debug, Clone, Copy, PartialEq, Eq, Structural)]
pub struct WriteSingleCoilRequest {
    pub address: u16,
    pub value: bool,
}

impl WriteSingleCoilRequest {
    /// Parse an address and an ON/OFF value from a request body.
    pub fn parse(data: &[u8]) -> (r: Result<Self, FrameError>)
        ensures
            r is Ok <==> data@.len() >= 4 && (spec_be16(data@[2], data@[3]) == 0 || spec_be16(
                data@[2],
                data@[3],
            ) == 0xFF00),
            data@.len() < 4 ==> r == Err::<WriteSingleCoilRequest, FrameError>(
                FrameError::TooShort,
            ),
            data@.len() >= 4 && spec_be16(data@[2], data@[3]) != 0 && spec_be16(data@[2], data@[3])
                != 0xFF00 ==> r == Err::<WriteSingleCoilRequest, FrameError>(
                FrameError::InvalidCoilValue,
            ),
            r is Ok ==> r->Ok_0 == (WriteSingleCoilRequest {
                address: spec_be16(data@[0], data@[1]),
                value: spec_be16(data@[2], data@[3]) == 0xFF00,
            }),
    {
        if data.len() < 4 {
            return Err(FrameError::TooShort);
        }

        let address = u16_from_be(data[0], data[1]);
        let value_raw = u16_from_be(data[2], data[3]);

        // Value must be 0x0000 (OFF) or 0xFF00 (ON)
        let value = match value_raw {
            0x0000 => false,
            0xFF00 => true,
            _ => {
                return Err(FrameError::InvalidCoilValue);
            },
        };

        Ok(Self { address, value })
    }

    /// The four echo bytes of the request body.
    pub fn to_response_data(&self) -> (r: [u8; 4])
        ensures
            r@ == seq![
                spec_hi(self.address),
                spec_lo(self.address),
                if self.value {
                    0xFFu8
                } else {
                    0u8
                },
                0u8,
            ],
    {
        let r = [
            (self.address / 256) as u8,
            (self.address % 256) as u8,
            if self.value {
                0xFFu8
            } else {
                0u8
            },
            0u8,
        ];
        proof {
            assert(r@ =~= seq![
                spec_hi(self.address),
                spec_lo(self.address),
                if self.value {
                    0xFFu8
                } else {
                    0u8
                },
                0u8,
            ]);
        }
        r
    }
}

/// Write single register request (function 0x06).
#[derive(Debug, Clone, Copy, PartialEq, Eq, Structural)]
pub struct WriteSingleRegisterRequest {
    pub address: u16,
    pub value: u16,
}

impl WriteSingleRegisterRequest {
    /// Parse an address and a register value from a request body.
    pub fn parse(data: &[u8]) -> (r: Result<Self, FrameError>)
        ensures
            r is Ok <==> data@.len() >= 4,
            data@.len() < 4 ==> r == Err::<WriteSingleRegisterRequest, FrameError>(
                FrameError::TooShort,
            ),
            r is Ok ==> r->Ok_0 == (WriteSingleRegisterRequest {
                address: spec_be16(data@[0], data@[1]),
                value: spec_be16(data@[2], data@[3]),
            }),
    {
        if data.len() < 4 {
            return Err(FrameError::TooShort);
        }

        let address = u16_from_be(data[0], data[1]);
        let value = u16_from_be(data[2], data[3]);

        Ok(Self { address, value })
    }

    /// The four echo bytes of the request body.
    pub fn to_response_data(&self) -> (r: [u8; 4])
        ensures
            r@ == seq![
                spec_hi(self.address),
                spec_lo(self.address),
                spec_hi(self.value),
                spec_lo(self.value),
            ],
    {
        let r = [
            (self.address / 256) as u8,
            (self.address % 256) as u8,
            (self.value / 256) as u8,
            (self.value % 256) as u8,
        ];
        proof {
            assert(r@ =~= seq![
                spec_hi(self.address),
                spec_lo(self.address),
                spec_hi(self.value),
                spec_lo(self.value),
            ]);
        }
        r
    }
}

/// The bit at logical position `i`, as a 0/1 byte.
pub open spec fn spec_bit_at(bits: Seq<bool>, i: int) -> u8 {
    if 0 <= i < bits.len() && bits[i] {
        1u8
    } else {
        0u8
    }
}

/// The first `j` bits of packed byte `k`, LSB first.
pub open spec fn spec_pack_byte_upto(bits: Seq<bool>, k: int, j: int) -> u8
    decreases j,
{
    if j <= 0 {
        0u8
    } else {
        spec_pack_byte_upto(bits, k, j - 1) | (spec_bit_at(bits, 8 * k + (j - 1)) << (
        (j - 1) as u8))
    }
}

/// Packed byte `k` of a bit sequence: bit `i` of the sequence occupies
/// bit `i % 8` of byte `i / 8`.
pub open spec fn spec_pack_byte(bits: Seq<bool>, k: int) -> u8 {
    spec_pack_byte_upto(bits, k, 8)
}

/// All packed bytes of a bit sequence.
pub open spec fn spec_pack_bits(bits: Seq<bool>) -> Seq<u8> {
    Seq::new(((bits.len() + 7) / 8) as nat, |k: int| spec_pack_byte(bits, k))
}

/// The `n` bits denoted by packed bytes, LSB first within each byte.
pub open spec fn spec_unpack_bits(bytes: Seq<u8>, n: int) -> Seq<bool> {
    Seq::new(n as nat, |i: int| (bytes[i / 8] >> ((i % 8) as u8)) & 1 == 1)
}

/// Pack boolean values into bytes (LSB first within each byte).
pub fn pack_bits(bits: &[bool]) -> (r: Vec<u8>)
    requires
        bits@.len() + 7 <= usize::MAX,
    ensures
        r@ == spec_pack_bits(bits@),
{
    let byte_count: usize = (bits.len() + 7) / 8;
    let mut bytes: Vec<u8> = Vec::new();
    let mut k: usize = 0;
    while k < byte_count
        invariant
            k <= byte_count,
            byte_count == (bits@.len() + 7) / 8,
            bits@.len() + 7 <= usize::MAX,
            bytes@.len() == k,
            forall|b: int| 0 <= b < k ==> bytes@[b] == spec_pack_byte(bits@, b),
        decreases byte_count - k,
    {
        let mut val: u8 = 0;
        let mut j: usize = 0;
        while j < 8
            invariant
                j <= 8,
                k < byte_count,
                byte_count == (bits@.len() + 7) / 8,
                bits@.len() + 7 <= usize::MAX,
                val == spec_pack_byte_upto(bits@, k as int, j as int),
            decreases 8 - j,
        {
            let i: usize = 8 * k + j;
            if i < bits.len() && bits[i] {
                val = val | (1u8 << (j as u8));
                proof {
                    assert(spec_bit_at(bits@, 8 * (k as int) + j as int) == 1u8);
                    assert((1u8 << (j as u8)) == (spec_bit_at(bits@, 8 * (k as int) + j as int)
                        << (j as u8)));
                }
            } else {
                proof {
                    assert(spec_bit_at(bits@, 8 * (k as int) + j as int) == 0u8);
                    assert((0u8 << (j as u8)) == 0u8) by (bit_vector);
                    assert(val | 0u8 == val) by (bit_vector);
                }
            }
            j = j + 1;
        }
        bytes.push(val);
        k = k + 1;
    }
    proof {
        assert(bytes@ =~= spec_pack_bits(bits@));
    }
    bytes
}

/// Each bit of a byte assembled from eight 0/1 values reads back as
/// the value it was given.
proof fn lemma_byte_bits(b0: u8, b1: u8, b2: u8, b3: u8, b4: u8, b5: u8, b6: u8, b7: u8)
    by (bit_vector)
    requires
        b0 <= 1,
        b1 <= 1,
        b2 <= 1,
        b3 <= 1,
        b4 <= 1,
        b5 <= 1,
        b6 <= 1,
        b7 <= 1,
    ensures
        ((((((((((0u8 | (b0 << 0u8)) | (b1 << 1u8)) | (b2 << 2u8)) | (b3 << 3u8)) | (b4 << 4u8))
            | (b5 << 5u8)) | (b6 << 6u8)) | (b7 << 7u8)) >> 0u8) & 1) == b0,
        ((((((((((0u8 | (b0 << 0u8)) | (b1 << 1u8)) | (b2 << 2u8)) | (b3 << 3u8)) | (b4 << 4u8))
            | (b5 << 5u8)) | (b6 << 6u8)) | (b7 << 7u8)) >> 1u8) & 1) == b1,
        ((((((((((0u8 | (b0 << 0u8)) | (b1 << 1u8)) | (b2 << 2u8)) | (b3 << 3u8)) | (b4 << 4u8))
            | (b5 << 5u8)) | (b6 << 6u8)) | (b7 << 7u8)) >> 2u8) & 1) == b2,
        ((((((((((0u8 | (b0 << 0u8)) | (b1 << 1u8)) | (b2 << 2u8)) | (b3 << 3u8)) | (b4 << 4u8))
            | (b5 << 5u8)) | (b6 << 6u8)) | (b7 << 7u8)) >> 3u8) & 1) == b3,
        ((((((((((0u8 | (b0 << 0u8)) | (b1 << 1u8)) | (b2 << 2u8)) | (b3 << 3u8)) | (b4 << 4u8))
            | (b5 << 5u8)) | (b6 << 6u8)) | (b7 << 7u8)) >> 4u8) & 1) == b4,
        ((((((((((0u8 | (b0 << 0u8)) | (b1 << 1u8)) | (b2 << 2u8)) | (b3 << 3u8)) | (b4 << 4u8))
            | (b5 << 5u8)) | (b6 << 6u8)) | (b7 << 7u8)) >> 5u8) & 1) == b5,
        ((((((((((0u8 | (b0 << 0u8)) | (b1 << 1u8)) | (b2 << 2u8)) | (b3 << 3u8)) | (b4 << 4u8))
            | (b5 << 5u8)) | (b6 << 6u8)) | (b7 << 7u8)) >> 6u8) & 1) == b6,
        ((((((((((0u8 | (b0 << 0u8)) | (b1 << 1u8)) | (b2 << 2u8)) | (b3 << 3u8)) | (b4 << 4u8))
            | (b5 << 5u8)) | (b6 << 6u8)) | (b7 << 7u8)) >> 7u8) & 1) == b7,
{
}

/// Bit-pack law: unpacking the packed form of any bit sequence, at
/// its own length, gives the sequence back (LSB-first packing).
pub proof fn lemma_bit_pack_roundtrip(bits: Seq<bool>)
    ensures
        spec_unpack_bits(spec_pack_bits(bits), bits.len() as int) == bits,
{
    let packed = spec_pack_bits(bits);
    let unpacked = spec_unpack_bits(packed, bits.len() as int);
    assert forall|i: int| 0 <= i < bits.len() implies unpacked[i] == bits[i] by {
        let k = i / 8;
        let b0 = spec_bit_at(bits, 8 * k);
        let b1 = spec_bit_at(bits, 8 * k + 1);
        let b2 = spec_bit_at(bits, 8 * k + 2);
        let b3 = spec_bit_at(bits, 8 * k + 3);
        let b4 = spec_bit_at(bits, 8 * k + 4);
        let b5 = spec_bit_at(bits, 8 * k + 5);
        let b6 = spec_bit_at(bits, 8 * k + 6);
        let b7 = spec_bit_at(bits, 8 * k + 7);
        assert(spec_pack_byte_upto(bits, k, 0) == 0u8);
        assert(spec_pack_byte_upto(bits, k, 1) == spec_pack_byte_upto(bits, k, 0) | (b0 << 0u8));
        assert(spec_pack_byte_upto(bits, k, 2) == spec_pack_byte_upto(bits, k, 1) | (b1 << 1u8));
        assert(spec_pack_byte_upto(bits, k, 3) == spec_pack_byte_upto(bits, k, 2) | (b2 << 2u8));
        assert(spec_pack_byte_upto(bits, k, 4) == spec_pack_byte_upto(bits, k, 3) | (b3 << 3u8));
        assert(spec_pack_byte_upto(bits, k, 5) == spec_pack_byte_upto(bits, k, 4) | (b4 << 4u8));
        assert(spec_pack_byte_upto(bits, k, 6) == spec_pack_byte_upto(bits, k, 5) | (b5 << 5u8));
        assert(spec_pack_byte_upto(bits, k, 7) == spec_pack_byte_upto(bits, k, 6) | (b6 << 6u8));
        assert(spec_pack_byte_upto(bits, k, 8) == spec_pack_byte_upto(bits, k, 7) | (b7 << 7u8));
        lemma_byte_bits(b0, b1, b2, b3, b4, b5, b6, b7);
        assert(packed[k] == spec_pack_byte_upto(bits, k, 8));
        let r = i % 8;
        if r == 0 {
            assert(unpacked[i] == (b0 == 1));
        } else if r == 1 {
            assert(unpacked[i] == (b1 == 1));
        } else if r == 2 {
            assert(unpacked[i] == (b2 == 1));
        } else if r == 3 {
            assert(unpacked[i] == (b3 == 1));
        } else if r == 4 {
            assert(unpacked[i] == (b4 == 1));
        } else if r == 5 {
            assert(unpacked[i] == (b5 == 1));
        } else if r == 6 {
            assert(unpacked[i] == (b6 == 1));
        } else {
            assert(r == 7);
            assert(unpacked[i] == (b7 == 1));
        }
    };
    assert(unpacked =~= bits);
}

/// The big-endian byte stream of a register sequence.
pub open spec fn spec_pack_registers(regs: Seq<u16>) -> Seq<u8> {
    Seq::new(
        (regs.len() * 2) as nat,
        |i: int|
            if i % 2 == 0 {
                spec_hi(regs[i / 2])
            } else {
                spec_lo(regs[i / 2])
            },
    )
}

/// Pack register values into bytes (big-endian).
pub fn pack_registers(registers: &[u16]) -> (r: Vec<u8>)
    ensures
        r@ == spec_pack_registers(registers@),
{
    let mut bytes: Vec<u8> = Vec::new();
    let mut i: usize = 0;
    while i < registers.len()
        invariant
            i <= registers@.len(),
            bytes@ == spec_pack_registers(registers@.subrange(0, i as int)),
        decreases registers@.len() - i,
    {
        let reg = registers[i];
        bytes.push((reg / 256) as u8);
        bytes.push((reg % 256) as u8);
        proof {
            assert(bytes@ =~= spec_pack_registers(registers@.subrange(0, i + 1)));
        }
        i = i + 1;
    }
    proof {
        assert(registers@.subrange(0, registers@.len() as int) =~= registers@);
    }
    bytes
}

/// Write multiple coils request (function 0x0F).
#[derive(Debug)]
pub struct WriteMultipleCoilsRequest {
    pub start_address: u16,
    pub quantity: u16,
    pub values: Vec<bool>,
}

impl WriteMultipleCoilsRequest {
    /// Parse a coil range and its packed bit payload.
    pub fn parse(data: &[u8]) -> (r: Result<Self, FrameError>)
        ensures
            r is Ok <==> data@.len() >= 5 && data@[4] == (spec_be16(data@[2], data@[3]) + 7) / 8
                && data@.len() >= 5 + data@[4],
            data@.len() < 5 ==> r == Err::<WriteMultipleCoilsRequest, FrameError>(
                FrameError::TooShort,
            ),
            data@.len() >= 5 && !(data@[4] == (spec_be16(data@[2], data@[3]) + 7) / 8
                && data@.len() >= 5 + data@[4]) ==> r == Err::<
                WriteMultipleCoilsRequest,
                FrameError,
            >(FrameError::InvalidByteCount),
            r is Ok ==> r->Ok_0.start_address == spec_be16(data@[0], data@[1])
                && r->Ok_0.quantity == spec_be16(data@[2], data@[3]) && r->Ok_0.values@
                == spec_unpack_bits(
                data@.subrange(5, data@.len() as int),
                spec_be16(data@[2], data@[3]) as int,
            ),
    {
        if data.len() < 5 {
            return Err(FrameError::TooShort);
        }

        let start_address = u16_from_be(data[0], data[1]);
        let quantity = u16_from_be(data[2], data[3]);
        let byte_count: usize = data[4] as usize;

        let expected_bytes: usize = (quantity as usize + 7) / 8;
        if byte_count != expected_bytes || data.len() < 5 + byte_count {
            return Err(FrameError::InvalidByteCount);
        }

        // Unpack bits
        let mut values: Vec<bool> = Vec::new();
        let mut i: usize = 0;
        while i < quantity as usize
            invariant
                i <= quantity,
                data@.len() >= 5 + (quantity + 7) / 8,
                values@.len() == i,
                forall|b: int| 0 <= b < i ==> values@[b] == ((data@[5 + b / 8] >> ((b % 8) as u8))
                    & 1 == 1),
            decreases quantity - i,
        {
            let byte_index: usize = 5 + i / 8;
            let bit_index: usize = i % 8;
            let bit_value = (data[byte_index] >> (bit_index as u8)) & 1;
            values.push(bit_value == 1);
            i = i + 1;
        }
        proof {
            assert(values@ =~= spec_unpack_bits(
                data@.subrange(5, data@.len() as int),
                spec_be16(data@[2], data@[3]) as int,
            ));
        }

        Ok(Self { start_address, quantity, values })
    }

    /// Validate the coil quantity (max 1968).
    pub fn validate(&self) -> (r: Result<(), ExceptionCode>)
        ensures
            r is Ok <==> 1 <= self.quantity <= 1968,
            r is Err ==> r == Err::<(), ExceptionCode>(ExceptionCode::IllegalDataValue),
    {
        if self.quantity == 0 || self.quantity > 1968 {
            return Err(ExceptionCode::IllegalDataValue);
        }
        Ok(())
    }

    /// The four response bytes: start address and quantity.
    pub fn to_response_data(&self) -> (r: [u8; 4])
        ensures
            r@ == seq![
                spec_hi(self.start_address),
                spec_lo(self.start_address),
                spec_hi(self.quantity),
                spec_lo(self.quantity),
            ],
    {
        let r = [
            (self.start_address / 256) as u8,
            (self.start_address % 256) as u8,
            (self.quantity / 256) as u8,
            (self.quantity % 256) as u8,
        ];
        proof {
            assert(r@ =~= seq![
                spec_hi(self.start_address),
                spec_lo(self.start_address),
                spec_hi(self.quantity),
                spec_lo(self.quantity),
            ]);
        }
        r
    }
}

/// The register values carried by a write-multiple-registers body.
pub open spec fn spec_body_registers(s: Seq<u8>, n: int) -> Seq<u16> {
    Seq::new(n as nat, |i: int| spec_be16(s[5 + 2 * i], s[6 + 2 * i]))
}

/// Write multiple registers request (function 0x10).
#[derive(Debug)]
pub struct WriteMultipleRegistersRequest {
    pub start_address: u16,
    pub quantity: u16,
    pub values: Vec<u16>,
}

impl WriteMultipleRegistersRequest {
    /// Parse a register range and its big-endian payload.
    pub fn parse(data: &[u8]) -> (r: Result<Self, FrameError>)
        ensures
            r is Ok <==> data@.len() >= 5 && data@[4] == 2 * spec_be16(data@[2], data@[3])
                && data@.len() >= 5 + data@[4],
            data@.len() < 5 ==> r == Err::<WriteMultipleRegistersRequest, FrameError>(
                FrameError::TooShort,
            ),
            data@.len() >= 5 && !(data@[4] == 2 * spec_be16(data@[2], data@[3]) && data@.len() >= 5
                + data@[4]) ==> r == Err::<WriteMultipleRegistersRequest, FrameError>(
                FrameError::InvalidByteCount,
            ),
            r is Ok ==> r->Ok_0.start_address == spec_be16(data@[0], data@[1])
                && r->Ok_0.quantity == spec_be16(data@[2], data@[3]) && r->Ok_0.values@
                == spec_body_registers(data@, spec_be16(data@[2], data@[3]) as int),
    {
        if data.len() < 5 {
            return Err(FrameError::TooShort);
        }

        let start_address = u16_from_be(data[0], data[1]);
        let quantity = u16_from_be(data[2], data[3]);
        let byte_count: usize = data[4] as usize;

        let expected_bytes: usize = quantity as usize * 2;
        if byte_count != expected_bytes || data.len() < 5 + byte_count {
            return Err(FrameError::InvalidByteCount);
        }

        // Read register values
        let mut values: Vec<u16> = Vec::new();
        let mut i: usize = 0;
        while i < quantity as usize
            invariant
                i <= quantity,
                data@.len() >= 5 + 2 * quantity,
                values@.len() == i,
                forall|b: int| 0 <= b < i ==> values@[b] == spec_be16(
                    data@[5 + 2 * b],
                    data@[6 + 2 * b],
                ),
            decreases quantity - i,
        {
            let offset: usize = 5 + i * 2;
            let value = u16_from_be(data[offset], data[offset + 1]);
            values.push(value);
            i = i + 1;
        }
        proof {
            assert(values@ =~= spec_body_registers(data@, spec_be16(data@[2], data@[3]) as int));
        }

        Ok(Self { start_address, quantity, values })
    }

    /// Validate the register quantity (max 123).
    pub fn validate(&self) -> (r: Result<(), ExceptionCode>)
        ensures
            r is Ok <==> 1 <= self.quantity <= 123,
            r is Err ==> r == Err::<(), ExceptionCode>(ExceptionCode::IllegalDataValue),
    {
        if self.quantity == 0 || self.quantity > 123 {
            return Err(ExceptionCode::IllegalDataValue);
        }
        Ok(())
    }

    /// The four response bytes: start address and quantity.
    pub fn to_response_data(&self) -> (r: [u8; 4])
        ensures
            r@ == seq![
                spec_hi(self.start_address),
                spec_lo(self.start_address),
                spec_hi(self.quantity),
                spec_lo(self.quantity),
            ],
    {
        let r = [
            (self.start_address / 256) as u8,
            (self.start_address % 256) as u8,
            (self.quantity / 256) as u8,
            (self.quantity % 256) as u8,
        ];
        proof {
            assert(r@ =~= seq![
                spec_hi(self.start_address),
                spec_lo(self.start_address),
                spec_hi(self.quantity),
                spec_lo(self.quantity),
            ]);
        }
        r
    }
}

} // verus!

//! Telemetry records.
//!
//! Every notable event (request, response, error, connection info)
//! becomes a `LogEntry` that the controlling process displays.  The
//! helpers here render the decimal, hexadecimal and summary strings
//! the entries carry.

use vstd::prelude::*;

verus! {

use crate::codec::{
    FunctionCode, ModbusRequest, spec_be16, spec_function_code_from_u8,
};

/// Kind of a log entry.
#[derive(Debug, Clone, Copy, PartialEq, Eq, Structural)]
pub enum LogEntryType {
    /// Incoming request from a master
    Request,
    /// Outgoing slave response
    Response,
    /// Processing error
    Error,
    /// Informational message (connect/disconnect)
    Info,
}

/// The decimal digit character of `d`.
pub open spec fn spec_digit_str(d: int) -> Seq<char> {
    if d == 0 {
        "0"@
    } else if d == 1 {
        "1"@
    } else if d == 2 {
        "2"@
    } else if d == 3 {
        "3"@
    } else if d == 4 {
        "4"@
    } else if d == 5 {
        "5"@
    } else if d == 6 {
        "6"@
    } else if d == 7 {
        "7"@
    } else if d == 8 {
        "8"@
    } else {
        "9"@
    }
}

/// The decimal rendering of a number, most significant digit first.
pub open spec fn spec_dec(n: nat) -> Seq<char>
    decreases n,
{
    if n < 10 {
        spec_digit_str(n as int)
    } else {
        spec_dec(n / 10) + spec_digit_str((n % 10) as int)
    }
}

/// The hexadecimal digit character of `d` (upper case).
pub open spec fn spec_hex_digit_str(d: int) -> Seq<char> {
    if d < 10 {
        spec_digit_str(d)
    } else if d == 10 {
        "A"@
    } else if d == 11 {
        "B"@
    } else if d == 12 {
        "C"@
    } else if d == 13 {
        "D"@
    } else if d == 14 {
        "E"@
    } else {
        "F"@
    }
}

/// Two upper-case hex digits of a byte.
pub open spec fn spec_hex_byte(b: u8) -> Seq<char> {
    spec_hex_digit_str(b as int / 16) + spec_hex_digit_str(b as int % 16)
}

/// The hex dump of a byte string: two digits per byte, separated by
/// single spaces.
pub open spec fn spec_hex_of(bytes: Seq<u8>) -> Seq<char>
    decreases bytes.len(),
{
    if bytes.len() == 0 {
        Seq::empty()
    } else if bytes.len() == 1 {
        spec_hex_byte(bytes[0])
    } else {
        spec_hex_byte(bytes[0]) + " "@ + spec_hex_of(bytes.drop_first())
    }
}

/// The decimal digit character of `d`.
fn digit_str(d: u64) -> (r: &'static str)
    requires
        d < 10,
    ensures
        r@ == spec_digit_str(d as int),
{
    match d {
        0 => "0",
        1 => "1",
        2 => "2",
        3 => "3",
        4 => "4",
        5 => "5",
        6 => "6",
        7 => "7",
        8 => "8",
        _ => "9",
    }
}

/// Render a number in decimal.
pub fn dec_u64(n: u64) -> (s: String)
    ensures
        s@ == spec_dec(n as nat),
    decreases n,
{
    if n < 10 {
        let mut s = String::new();
        s.append(digit_str(n));
        proof {
            assert(s@ =~= spec_dec(n as nat));
        }
        s
    } else {
        let mut s = dec_u64(n / 10);
        s.append(digit_str(n % 10));
        s
    }
}

/// The hexadecimal digit character of `d` (upper case).
fn hex_digit_str(d: u8) -> (r: &'static str)
    requires
        d < 16,
    ensures
        r@ == spec_hex_digit_str(d as int),
{
    match d {
        0 => "0",
        1 => "1",
        2 => "2",
        3 => "3",
        4 => "4",
        5 => "5",
        6 => "6",
        7 => "7",
        8 => "8",
        9 => "9",
        10 => "A",
        11 => "B",
        12 => "C",
        13 => "D",
        14 => "E",
        _ => "F",
    }
}

/// Render a byte as two upper-case hex digits.
pub fn hex_byte(b: u8) -> (s: String)
    ensures
        s@ == spec_hex_byte(b),
{
    let mut s = String::new();
    s.append(hex_digit_str(b / 16));
    s.append(hex_digit_str(b % 16));
    proof {
        assert(s@ =~= spec_hex_byte(b));
    }
    s
}

/// The hex dump of the bytes from index `i` on.
fn hex_from(data: &[u8], i: usize) -> (s: String)
    requires
        i <= data@.len(),
    ensures
        s@ == spec_hex_of(data@.skip(i as int)),
    decreases data@.len() - i,
{
    if i == data.len() {
        let s = String::new();
        proof {
            assert(data@.skip(i as int) =~= Seq::<u8>::empty());
        }
        s
    } else {
        let b = data[i];
        let mut s = hex_byte(b);
        if i + 1 < data.len() {
            s.append(" ");
            let rest = hex_from(data, i + 1);
            s.append(rest.as_str());
        }
        proof {
            assert(data@.skip(i as int).drop_first() =~= data@.skip(i + 1));
            assert(data@.skip(i as int)[0] == data@[i as int]);
            assert(s@ =~= spec_hex_of(data@.skip(i as int)));
        }
        s
    }
}

/// Render bytes as a spaced upper-case hex string.
pub fn bytes_to_hex(data: &[u8]) -> (s: String)
    ensures
        s@ == spec_hex_of(data@),
{
    let s = hex_from(data, 0);
    proof {
        assert(data@.skip(0) =~= data@);
    }
    s
}

/// The human-readable name of a Modbus function code.
pub open spec fn spec_function_code_name(code: u8) -> Seq<char> {
    match spec_function_code_from_u8(code) {
        Some(FunctionCode::ReadCoils) => "Read Coils"@,
        Some(FunctionCode::ReadDiscreteInputs) => "Read Discrete Inputs"@,
        Some(FunctionCode::ReadHoldingRegisters) => "Read Holding Registers"@,
        Some(FunctionCode::ReadInputRegisters) => "Read Input Registers"@,
        Some(FunctionCode::WriteSingleCoil) => "Write Single Coil"@,
        Some(FunctionCode::WriteSingleRegister) => "Write Single Register"@,
        Some(FunctionCode::WriteMultipleCoils) => "Write Multiple Coils"@,
        Some(FunctionCode::WriteMultipleRegisters) => "Write Multiple Registers"@,
        None => "Unknown Function"@,
    }
}

/// The human-readable name of a Modbus function code.
pub fn function_code_name(code: u8) -> (r: &'static str)
    ensures
        r@ == spec_function_code_name(code),
{
    match code {
        0x01 => "Read Coils",
        0x02 => "Read Discrete Inputs",
        0x03 => "Read Holding Registers",
        0x04 => "Read Input Registers",
        0x05 => "Write Single Coil",
        0x06 => "Write Single Register",
        0x0F => "Write Multiple Coils",
        0x10 => "Write Multiple Registers",
        _ => "Unknown Function",
    }
}

/// The human-readable name of an exception code byte.
pub open spec fn spec_exception_name(code: u8) -> Seq<char> {
    if code == 0x01 {
        "Illegal Function"@
    } else if code == 0x02 {
        "Illegal Data Address"@
    } else if code == 0x03 {
        "Illegal Data Value"@
    } else if code == 0x04 {
        "Server Device Failure"@
    } else {
        "Unknown Exception"@
    }
}

/// The human-readable name of an exception code byte.
pub fn exception_name(code: u8) -> (r: &'static str)
    ensures
        r@ == spec_exception_name(code),
{
    match code {
        0x01 => "Illegal Function",
        0x02 => "Illegal Data Address",
        0x03 => "Illegal Data Value",
        0x04 => "Server Device Failure",
        _ => "Unknown Exception",
    }
}

/// The one-line description of a request, by function code and body.
pub open spec fn spec_request_summary(fc: u8, body: Seq<u8>) -> Seq<char> {
    match spec_function_code_from_u8(fc) {
        Some(FunctionCode::ReadCoils) | Some(FunctionCode::ReadDiscreteInputs) => if body.len()
            >= 4 {
            "Read from address "@ + spec_dec(spec_be16(body[0], body[1]) as nat) + " count "@
                + spec_dec(spec_be16(body[2], body[3]) as nat)
        } else {
            "Read (parse error)"@
        },
        Some(FunctionCode::ReadHoldingRegisters) | Some(FunctionCode::ReadInputRegisters) => if body.len()
            >= 4 {
            "Read registers from address "@ + spec_dec(spec_be16(body[0], body[1]) as nat)
                + " count "@ + spec_dec(spec_be16(body[2], body[3]) as nat)
        } else {
            "Read registers (parse error)"@
        },
        Some(FunctionCode::WriteSingleCoil) => if body.len() >= 4 && (spec_be16(body[2], body[3])
            == 0 || spec_be16(body[2], body[3]) == 0xFF00) {
            "Write coil at address "@ + spec_dec(spec_be16(body[0], body[1]) as nat) + " = "@ + (
            if spec_be16(body[2], body[3]) == 0xFF00 {
                "true"@
            } else {
                "false"@
            })
        } else {
            "Write coil (parse error)"@
        },
        Some(FunctionCode::WriteSingleRegister) => if body.len() >= 4 {
            "Write register at address "@ + spec_dec(spec_be16(body[0], body[1]) as nat) + " = "@
                + spec_dec(spec_be16(body[2], body[3]) as nat)
        } else {
            "Write register (parse error)"@
        },
        Some(FunctionCode::WriteMultipleCoils) => if body.len() >= 5 && body[4] == (spec_be16(
            body[2],
            body[3],
        ) + 7) / 8 && body.len() >= 5 + body[4] {
            "Write "@ + spec_dec(spec_be16(body[2], body[3]) as nat) + " coils from address "@
                + spec_dec(spec_be16(body[0], body[1]) as nat)
        } else {
            "Write coils (parse error)"@
        },
        Some(FunctionCode::WriteMultipleRegisters) => if body.len() >= 5 && body[4] == 2
            * spec_be16(body[2], body[3]) && body.len() >= 5 + body[4] {
            "Write "@ + spec_dec(spec_be16(body[2], body[3]) as nat) + " registers from address "@
                + spec_dec(spec_be16(body[0], body[1]) as nat)
        } else {
            "Write registers (parse error)"@
        },
        None => "Unknown function 0x"@ + spec_hex_byte(fc),
    }
}

/// The one-line description of a response: an exception frame names
/// its exception, a success frame its payload size or action.
pub open spec fn spec_response_summary(fc: u8, response: Seq<u8>) -> Seq<char> {
    if response.len() > 8 && (response[7] & 0x80) != 0 {
        "Error: "@ + spec_exception_name(response[8]) + " (0x"@ + spec_hex_byte(response[8])
            + ")"@
    } else {
        match spec_function_code_from_u8(fc) {
            Some(FunctionCode::ReadCoils) | Some(FunctionCode::ReadDiscreteInputs) => if response.len()
                > 8 {
                "OK: "@ + spec_dec(response[8] as nat) + " bytes of data"@
            } else {
                "OK"@
            },
            Some(FunctionCode::ReadHoldingRegisters) | Some(
                FunctionCode::ReadInputRegisters,
            ) => if response.len() > 8 {
                "OK: "@ + spec_dec((response[8] / 2) as nat) + " registers"@
            } else {
                "OK"@
            },
            Some(FunctionCode::WriteSingleCoil) => "OK: Coil written"@,
            Some(FunctionCode::WriteSingleRegister) => "OK: Register written"@,
            Some(FunctionCode::WriteMultipleCoils) => "OK: Coils written"@,
            Some(FunctionCode::WriteMultipleRegisters) => "OK: Registers written"@,
            None => "Response sent"@,
        }
    }
}

/// Describe a request in one line.
pub fn format_request_summary(request: &ModbusRequest) -> (s: String)
    ensures
        s@ == spec_request_summary(request.function_code, request.data@),
{
    let body = request.data.as_slice();
    match FunctionCode::from_u8(request.function_code) {
        Some(FunctionCode::ReadCoils) | Some(FunctionCode::ReadDiscreteInputs) => {
            match crate::codec::ReadRequest::parse(body) {
                Ok(req) => {
                    let mut s = String::new();
                    s.append("Read from address ");
                    s.append(dec_u64(req.start_address as u64).as_str());
                    s.append(" count ");
                    s.append(dec_u64(req.quantity as u64).as_str());
                    proof {
                        assert(s@ =~= spec_request_summary(request.function_code, request.data@));
                    }
                    s
                },
                Err(_) => {
                    let mut s = String::new();
                    s.append("Read (parse error)");
                    proof {
                        assert(s@ =~= spec_request_summary(request.function_code, request.data@));
                    }
                    s
                },
            }
        },
        Some(FunctionCode::ReadHoldingRegisters) | Some(FunctionCode::ReadInputRegisters) => {
            match crate::codec::ReadRequest::parse(body) {
                Ok(req) => {
                    let mut s = String::new();
                    s.append("Read registers from address ");
                    s.append(dec_u64(req.start_address as u64).as_str());
                    s.append(" count ");
                    s.append(dec_u64(req.quantity as u64).as_str());
                    proof {
                        assert(s@ =~= spec_request_summary(request.function_code, request.data@));
                    }
                    s
                },
                Err(_) => {
                    let mut s = String::new();
                    s.append("Read registers (parse error)");
                    proof {
                        assert(s@ =~= spec_request_summary(request.function_code, request.data@));
                    }
                    s
                },
            }
        },
        Some(FunctionCode::WriteSingleCoil) => {
            match crate::codec::WriteSingleCoilRequest::parse(body) {
                Ok(req) => {
                    let mut s = String::new();
                    s.append("Write coil at address ");
                    s.append(dec_u64(req.address as u64).as_str());
                    s.append(" = ");
                    s.append(
                        if req.value {
                            "true"
                        } else {
                            "false"
                        },
                    );
                    proof {
                        assert(s@ =~= spec_request_summary(request.function_code, request.data@));
                    }
                    s
                },
                Err(_) => {
                    let mut s = String::new();
                    s.append("Write coil (parse error)");
                    proof {
                        assert(s@ =~= spec_request_summary(request.function_code, request.data@));
                    }
                    s
                },
            }
        },
        Some(FunctionCode::WriteSingleRegister) => {
            match crate::codec::WriteSingleRegisterRequest::parse(body) {
                Ok(req) => {
                    let mut s = String::new();
                    s.append("Write register at address ");
                    s.append(dec_u64(req.address as u64).as_str());
                    s.append(" = ");
                    s.append(dec_u64(req.value as u64).as_str());
                    proof {
                        assert(s@ =~= spec_request_summary(request.function_code, request.data@));
                    }
                    s
                },
                Err(_) => {
                    let mut s = String::new();
                    s.append("Write register (parse error)");
                    proof {
                        assert(s@ =~= spec_request_summary(request.function_code, request.data@));
                    }
                    s
                },
            }
        },
        Some(FunctionCode::WriteMultipleCoils) => {
            match crate::codec::WriteMultipleCoilsRequest::parse(body) {
                Ok(req) => {
                    let mut s = String::new();
                    s.append("Write ");
                    s.append(dec_u64(req.quantity as u64).as_str());
                    s.append(" coils from address ");
                    s.append(dec_u64(req.start_address as u64).as_str());
                    proof {
                        assert(s@ =~= spec_request_summary(request.function_code, request.data@));
                    }
                    s
                },
                Err(_) => {
                    let mut s = String::new();
                    s.append("Write coils (parse error)");
                    proof {
                        assert(s@ =~= spec_request_summary(request.function_code, request.data@));
                    }
                    s
                },
            }
        },
        Some(FunctionCode::WriteMultipleRegisters) => {
            match crate::codec::WriteMultipleRegistersRequest::parse(body) {
                Ok(req) => {
                    let mut s = String::new();
                    s.append("Write ");
                    s.append(dec_u64(req.quantity as u64).as_str());
                    s.append(" registers from address ");
                    s.append(dec_u64(req.start_address as u64).as_str());
                    proof {
                        assert(s@ =~= spec_request_summary(request.function_code, request.data@));
                    }
                    s
                },
                Err(_) => {
                    let mut s = String::new();
                    s.append("Write registers (parse error)");
                    proof {
                        assert(s@ =~= spec_request_summary(request.function_code, request.data@));
                    }
                    s
                },
            }
        },
        None => {
            let mut s = String::new();
            s.append("Unknown function 0x");
            s.append(hex_byte(request.function_code).as_str());
            proof {
                assert(s@ =~= spec_request_summary(request.function_code, request.data@));
            }
            s
        },
    }
}

/// Describe a response in one line.
pub fn format_response_summary(request: &ModbusRequest, response: &[u8]) -> (s: String)
    ensures
        s@ == spec_response_summary(request.function_code, response@),
{
    // An exception response sets the high bit of the function code.
    if response.len() > 8 && (response[7] & 0x80) != 0 {
        let exception_code = response[8];
        let mut s = String::new();
        s.append("Error: ");
        s.append(exception_name(exception_code));
        s.append(" (0x");
        s.append(hex_byte(exception_code).as_str());
        s.append(")");
        proof {
            assert(s@ =~= spec_response_summary(request.function_code, response@));
        }
        return s;
    }

    let mut s = String::new();
    match FunctionCode::from_u8(request.function_code) {
        Some(FunctionCode::ReadCoils) | Some(FunctionCode::ReadDiscreteInputs) => {
            if response.len() > 8 {
                s.append("OK: ");
                s.append(dec_u64(response[8] as u64).as_str());
                s.append(" bytes of data");
            } else {
                s.append("OK");
            }
        },
        Some(FunctionCode::ReadHoldingRegisters) | Some(FunctionCode::ReadInputRegisters) => {
            if response.len() > 8 {
                s.append("OK: ");
                s.append(dec_u64((response[8] / 2) as u64).as_str());
                s.append(" registers");
            } else {
                s.append("OK");
            }
        },
        Some(FunctionCode::WriteSingleCoil) => {
            s.append("OK: Coil written");
        },
        Some(FunctionCode::WriteSingleRegister) => {
            s.append("OK: Register written");
        },
        Some(FunctionCode::WriteMultipleCoils) => {
            s.append("OK: Coils written");
        },
        Some(FunctionCode::WriteMultipleRegisters) => {
            s.append("OK: Registers written");
        },
        None => {
            s.append("Response sent");
        },
    }
    proof {
        assert(s@ =~= spec_response_summary(request.function_code, response@));
    }
    s
}

/// Relies on `std::time::SystemTime::now` and the duration since the
/// Unix epoch: a plain `secs.millis` timestamp string; nothing is
/// assumed of its value.
#[verifier::external_body]
fn chrono_now_iso() -> String {
    let now = std::time::SystemTime::now()
        .duration_since(std::time::UNIX_EPOCH)
        .unwrap_or_default();
    format!("{}.{:03}", now.as_secs(), now.subsec_millis())
}

/// A log entry shown by the controlling process.
#[derive(Debug)]
pub struct LogEntry {
    /// Unique entry id
    pub id: u64,
    /// Timestamp (seconds.milliseconds since the epoch)
    pub timestamp: String,
    /// Kind of entry (request/response/error/info)
    pub entry_type: LogEntryType,
    /// Client address
    pub client_addr: String,
    /// Modbus function code, where one applies
    pub function_code: Option<u8>,
    /// Human-readable function name
    pub function_name: Option<String>,
    /// One-line description of the event
    pub summary: String,
    /// Raw bytes as a hex string
    pub raw_data: Option<String>,
    /// Processing time in microseconds (for responses)
    pub duration_us: Option<u64>,
}

impl LogEntry {
    /// Create a new log entry, stamped with the current time.
    pub fn new(id: u64, entry_type: LogEntryType, client_addr: String, summary: String) -> (r:
        Self)
        ensures
            r.id == id,
            r.entry_type == entry_type,
            r.client_addr == client_addr,
            r.summary == summary,
            r.function_code is None,
            r.function_name is None,
            r.raw_data is None,
            r.duration_us is None,
    {
        Self {
            id,
            timestamp: chrono_now_iso(),
            entry_type,
            client_addr,
            function_code: None,
            function_name: None,
            summary,
            raw_data: None,
            duration_us: None,
        }
    }

    /// Set the function code and its name.
    pub fn with_function(self, code: u8, name: &str) -> (r: Self)
        ensures
            r.id == self.id,
            r.timestamp == self.timestamp,
            r.entry_type == self.entry_type,
            r.client_addr == self.client_addr,
            r.summary == self.summary,
            r.raw_data == self.raw_data,
            r.duration_us == self.duration_us,
            r.function_code == Some(code),
            r.function_name is Some && r.function_name->0@ == name@,
    {
        Self { function_code: Some(code), function_name: Some(name.to_owned()), ..self }
    }

    /// Attach the raw frame bytes as hex.
    pub fn with_raw_data(self, data: &[u8]) -> (r: Self)
        ensures
            r.id == self.id,
            r.timestamp == self.timestamp,
            r.entry_type == self.entry_type,
            r.client_addr == self.client_addr,
            r.summary == self.summary,
            r.function_code == self.function_code,
            r.function_name == self.function_name,
            r.duration_us == self.duration_us,
            r.raw_data is Some && r.raw_data->0@ == spec_hex_of(data@),
    {
        Self { raw_data: Some(bytes_to_hex(data)), ..self }
    }

    /// Attach the processing time.
    pub fn with_duration(self, duration_us: u64) -> (r: Self)
        ensures
            r.id == self.id,
            r.timestamp == self.timestamp,
            r.entry_type == self.entry_type,
            r.client_addr == self.client_addr,
            r.summary == self.summary,
            r.function_code == self.function_code,
            r.function_name == self.function_name,
            r.raw_data == self.raw_data,
            r.duration_us == Some(duration_us),
    {
        Self { duration_us: Some(duration_us), ..self }
    }
}

} // verus!

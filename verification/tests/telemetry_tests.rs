//! Telemetry rendering and log entry tests.

use modbus_slave::codec::{MbapHeader, ModbusRequest};
use modbus_slave::telemetry::{
    LogEntry, LogEntryType, bytes_to_hex, dec_u64, exception_name, format_request_summary,
    format_response_summary, function_code_name, hex_byte,
};

fn request(fc: u8, body: &[u8]) -> ModbusRequest {
    ModbusRequest {
        header: MbapHeader {
            transaction_id: 1,
            protocol_id: 0,
            length: (2 + body.len()) as u16,
            unit_id: 1,
        },
        function_code: fc,
        data: body.to_vec(),
    }
}

#[test]
fn test_dec_u64_rendering() {
    assert_eq!(dec_u64(0), "0");
    assert_eq!(dec_u64(7), "7");
    assert_eq!(dec_u64(10), "10");
    assert_eq!(dec_u64(65535), "65535");
    assert_eq!(dec_u64(1002003), "1002003");
}

#[test]
fn test_hex_rendering() {
    assert_eq!(hex_byte(0x00), "00");
    assert_eq!(hex_byte(0x7F), "7F");
    assert_eq!(hex_byte(0xA5), "A5");
    assert_eq!(bytes_to_hex(&[]), "");
    assert_eq!(bytes_to_hex(&[0x01]), "01");
    assert_eq!(bytes_to_hex(&[0x00, 0x01, 0xFF]), "00 01 FF");
}

#[test]
fn test_function_code_name() {
    assert_eq!(function_code_name(0x01), "Read Coils");
    assert_eq!(function_code_name(0x02), "Read Discrete Inputs");
    assert_eq!(function_code_name(0x03), "Read Holding Registers");
    assert_eq!(function_code_name(0x04), "Read Input Registers");
    assert_eq!(function_code_name(0x05), "Write Single Coil");
    assert_eq!(function_code_name(0x06), "Write Single Register");
    assert_eq!(function_code_name(0x0F), "Write Multiple Coils");
    assert_eq!(function_code_name(0x10), "Write Multiple Registers");
    assert_eq!(function_code_name(0x42), "Unknown Function");
}

#[test]
fn test_exception_name() {
    assert_eq!(exception_name(0x01), "Illegal Function");
    assert_eq!(exception_name(0x02), "Illegal Data Address");
    assert_eq!(exception_name(0x03), "Illegal Data Value");
    assert_eq!(exception_name(0x04), "Server Device Failure");
    assert_eq!(exception_name(0x09), "Unknown Exception");
}

#[test]
fn test_request_summaries() {
    assert_eq!(
        format_request_summary(&request(0x01, &[0x00, 0x05, 0x00, 0x0A])),
        "Read from address 5 count 10"
    );
    assert_eq!(
        format_request_summary(&request(0x03, &[0x00, 0x64, 0x00, 0x02])),
        "Read registers from address 100 count 2"
    );
    assert_eq!(
        format_request_summary(&request(0x05, &[0x00, 0x05, 0xFF, 0x00])),
        "Write coil at address 5 = true"
    );
    assert_eq!(
        format_request_summary(&request(0x06, &[0x00, 0x0A, 0x12, 0x34])),
        "Write register at address 10 = 4660"
    );
    assert_eq!(
        format_request_summary(&request(0x0F, &[0x00, 0x00, 0x00, 0x02, 0x01, 0x03])),
        "Write 2 coils from address 0"
    );
    assert_eq!(
        format_request_summary(&request(0x10, &[0x00, 0x01, 0x00, 0x01, 0x02, 0x00, 0x09])),
        "Write 1 registers from address 1"
    );
    assert_eq!(format_request_summary(&request(0x03, &[0x00])), "Read registers (parse error)");
    assert_eq!(format_request_summary(&request(0x42, &[])), "Unknown function 0x42");
}

#[test]
fn test_response_summaries() {
    let read = request(0x03, &[0x00, 0x00, 0x00, 0x01]);
    assert_eq!(
        format_response_summary(
            &read,
            &[0x00, 0x01, 0x00, 0x00, 0x00, 0x05, 0x01, 0x03, 0x02, 0x12, 0x34]
        ),
        "OK: 1 registers"
    );
    assert_eq!(
        format_response_summary(
            &read,
            &[0x00, 0x01, 0x00, 0x00, 0x00, 0x03, 0x01, 0x83, 0x02]
        ),
        "Error: Illegal Data Address (0x02)"
    );
    let bits = request(0x01, &[0x00, 0x00, 0x00, 0x09]);
    assert_eq!(
        format_response_summary(
            &bits,
            &[0x00, 0x01, 0x00, 0x00, 0x00, 0x05, 0x01, 0x01, 0x02, 0x0D, 0x01]
        ),
        "OK: 2 bytes of data"
    );
    let wsc = request(0x05, &[0x00, 0x05, 0xFF, 0x00]);
    assert_eq!(
        format_response_summary(
            &wsc,
            &[0x00, 0x01, 0x00, 0x00, 0x00, 0x06, 0x01, 0x05, 0x00, 0x05, 0xFF, 0x00]
        ),
        "OK: Coil written"
    );
}

#[test]
fn test_log_entry_builders() {
    let entry = LogEntry::new(7, LogEntryType::Request, "127.0.0.1:1502".to_string(), "hi".to_string())
        .with_function(0x03, function_code_name(0x03))
        .with_raw_data(&[0x01, 0x02])
        .with_duration(42);
    assert_eq!(entry.id, 7);
    assert!(matches!(entry.entry_type, LogEntryType::Request));
    assert_eq!(entry.client_addr, "127.0.0.1:1502");
    assert_eq!(entry.summary, "hi");
    assert_eq!(entry.function_code, Some(0x03));
    assert_eq!(entry.function_name.as_deref(), Some("Read Holding Registers"));
    assert_eq!(entry.raw_data.as_deref(), Some("01 02"));
    assert_eq!(entry.duration_us, Some(42));
    // The timestamp is seconds.milliseconds since the epoch.
    assert!(entry.timestamp.contains('.'));
}

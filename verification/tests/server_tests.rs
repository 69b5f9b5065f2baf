//! Server lifecycle state machine tests.

use modbus_slave::server::{ServerConfig, ServerCore};
use modbus_slave::types::{ModbusConnectionProfile, ModbusProject, ServerStatus, ModbusValue};

#[test]
fn test_lifecycle_start_stop() {
    let mut server = ServerCore::new();
    assert!(!server.is_running());

    // A stopped server may start.
    assert!(server.check_can_start().is_ok());
    server.mark_started();
    assert!(server.is_running());

    // A running server rejects another start.
    let err = server.check_can_start().unwrap_err();
    assert_eq!(err, "Server is already running");

    // Stop succeeds once, then rejects.
    assert!(server.stop().is_ok());
    assert!(!server.is_running());
    let err = server.stop().unwrap_err();
    assert_eq!(err, "Server is not running");
}

#[test]
fn test_bind_failure_records_error() {
    let mut server = ServerCore::new();
    server.mark_bind_failed("Failed to bind to 0.0.0.0:502".to_string());
    assert!(!server.is_running());
    let status = server.get_status();
    assert_eq!(status.error.as_deref(), Some("Failed to bind to 0.0.0.0:502"));

    // A successful start clears the error.
    server.mark_started();
    assert_eq!(server.get_status().error, None);
}

#[test]
fn test_status_reports_config_and_connections() {
    let mut server = ServerCore::new();
    server.set_config("127.0.0.1".to_string(), 1502, 7);
    server.mark_started();
    server.connection_opened();
    server.connection_opened();
    server.connection_closed();

    let status = server.get_status();
    assert!(status.running);
    assert_eq!(status.host, "127.0.0.1");
    assert_eq!(status.port, 1502);
    assert_eq!(status.unit_id, 7);
    assert_eq!(status.connections_count, 1);

    // Stop resets the counter.
    server.stop().unwrap();
    assert_eq!(server.get_status().connections_count, 0);
}

#[test]
fn test_connection_counter_never_underflows() {
    let mut server = ServerCore::new();
    server.connection_closed();
    assert_eq!(server.get_status().connections_count, 0);
}

#[test]
fn test_defaults() {
    let config = ServerConfig::default();
    assert_eq!(config.host, "0.0.0.0");
    assert_eq!(config.port, 502);
    assert_eq!(config.unit_id, 1);

    let status = ServerStatus::default();
    assert!(!status.running);
    assert_eq!(status.host, "0.0.0.0");
    assert_eq!(status.port, 502);
    assert_eq!(status.unit_id, 1);
    assert_eq!(status.connections_count, 0);
    assert_eq!(status.error, None);

    let profile = ModbusConnectionProfile::default();
    assert_eq!(profile.id, "default");
    assert_eq!(profile.host, "127.0.0.1");
    assert_eq!(profile.port, 502);
    assert_eq!(profile.unit_id, 1);

    let project = ModbusProject::default();
    assert_eq!(project.profiles.len(), 1);
    assert!(project.variables.is_empty());
    assert_eq!(project.current_profile_id.as_deref(), Some("default"));

    assert!(matches!(ModbusValue::default(), ModbusValue::Number(_)));
}

use site_crawler::client::commands::{ApiResponse, CommandError};
use site_crawler::client::crypto::CryptoError;
use site_crawler::client::scanner::{
    ScanResult, ScannerConfig, ScannerError, ScannerManager, ScannerStatus,
};
use site_crawler::client::sync::{SyncError, SyncErrorItem, SyncStatus};

#[test]
fn test_scanner_status() {
    let manager = ScannerManager::new();
    let status = manager.get_status();
    assert!(!status.connected);
}

#[test]
fn a_new_scanner_has_no_port() {
    let manager = ScannerManager::new();
    let status = manager.get_status();
    assert!(!status.connected);
    assert_eq!(status.port, None);
    assert!(!manager.is_connected());
    let manager = ScannerManager::default();
    assert!(!manager.is_connected());
}

#[test]
fn the_default_configuration_is_that_of_no_scanner() {
    let config = ScannerConfig::default();
    assert!(!config.enabled);
    assert_eq!(config.port, "");
    assert_eq!(config.baud_rate, 9600);
    assert_eq!(config.data_bits, 8);
    assert_eq!(config.stop_bits, 1);
    assert_eq!(config.parity, "none");
    let copy = config.clone();
    assert_eq!(copy.parity, "none");
    assert_eq!(copy.baud_rate, 9600);
}

fn config_on(port: &str) -> ScannerConfig {
    let mut config = ScannerConfig::default();
    config.enabled = true;
    config.port = port.to_string();
    config
}

#[test]
fn a_connected_scanner_reports_its_port() {
    let mut manager = ScannerManager::new();
    assert!(manager.connect(config_on("COM3"), Ok(())).is_ok());
    assert!(manager.is_connected());
    let status = manager.get_status();
    assert!(status.connected);
    assert_eq!(status.port, Some("COM3".to_string()));
    assert!(manager.disconnect().is_ok());
    assert!(!manager.is_connected());
    let status = manager.get_status();
    assert!(!status.connected);
    assert_eq!(status.port, None);
}

#[test]
fn a_port_that_does_not_open_leaves_the_scanner_disconnected() {
    let mut manager = ScannerManager::new();
    assert!(manager.connect(config_on("COM3"), Ok(())).is_ok());
    match manager.connect(config_on("COM4"), Err("busy".to_string())) {
        Err(ScannerError::SerialError(text)) => assert_eq!(text, "打开串口失败: busy"),
        other => panic!("unexpected {:?}", other),
    }
    assert!(!manager.is_connected());
    assert_eq!(manager.get_status().port, None);
}

#[test]
fn a_reader_that_ends_disconnects_the_scanner() {
    let mut manager = ScannerManager::new();
    assert!(manager.connect(config_on("/dev/ttyUSB0"), Ok(())).is_ok());
    manager.reader_stopped();
    assert!(!manager.is_connected());
    assert!(manager.disconnect().is_ok());
}

#[test]
fn errors_have_their_texts() {
    assert_eq!(ScannerError::SerialError("x".to_string()).message(), "串口错误: x");
    assert_eq!(ScannerError::NotConnected.message(), "扫码枪未连接");
    assert_eq!(ScannerError::ConfigError("y".to_string()).message(), "配置错误: y");
    assert_eq!(SyncError::NetworkError("a".to_string()).message(), "网络错误: a");
    assert_eq!(SyncError::ServerError("b".to_string()).message(), "服务器错误: b");
    assert_eq!(SyncError::DataError("c".to_string()).message(), "数据错误: c");
    assert_eq!(SyncError::AlreadySyncing.message(), "同步已在进行中");
    assert_eq!(CryptoError::EncryptionError.message(), "加密失败");
    assert_eq!(CryptoError::DecryptionError.message(), "解密失败");
    assert_eq!(CryptoError::InvalidKeyLength.message(), "密钥长度错误");
    assert_eq!(CryptoError::Base64Error.message(), "Base64 解码错误");
}

#[test]
fn a_response_is_a_success_or_an_error() {
    let ok = ApiResponse::success(7u32);
    assert!(ok.success);
    assert_eq!(ok.data, Some(7));
    assert_eq!(ok.error, None);
    assert_eq!(ok.message, None);
    let failed: ApiResponse<u32> = ApiResponse::error("客户不存在");
    assert!(!failed.success);
    assert_eq!(failed.data, None);
    assert_eq!(failed.error, Some("客户不存在".to_string()));
    assert_eq!(failed.message, None);
}

#[test]
fn a_command_error_is_made_from_its_reason() {
    assert_eq!(CommandError::from("bad").message(), "bad");
    assert_eq!(CommandError::from("worse".to_string()).message(), "worse");
    let error: CommandError = "获取客户列表失败".into();
    assert_eq!(error.message(), "获取客户列表失败");
}

#[test]
fn records_are_copied_field_by_field() {
    let scan = ScanResult { barcode: "690123".to_string(), timestamp: "t".to_string() };
    let copy = scan.clone();
    assert_eq!(copy.barcode, "690123");
    assert_eq!(copy.timestamp, "t");
    let status = ScannerStatus { connected: true, port: Some("COM3".to_string()) };
    let copy = status.clone();
    assert!(copy.connected);
    assert_eq!(copy.port, Some("COM3".to_string()));
    let status = ScannerStatus { connected: false, port: None };
    assert_eq!(status.clone().port, None);
    let item = SyncErrorItem {
        id: "1".to_string(),
        entity: "order".to_string(),
        entity_id: "o-1".to_string(),
        operation: "update".to_string(),
        error: "conflict".to_string(),
        timestamp: "2024-01-01T00:00:00Z".to_string(),
        retry_count: 2,
    };
    let copy = item.clone();
    assert_eq!(copy.id, "1");
    assert_eq!(copy.entity, "order");
    assert_eq!(copy.entity_id, "o-1");
    assert_eq!(copy.operation, "update");
    assert_eq!(copy.error, "conflict");
    assert_eq!(copy.timestamp, "2024-01-01T00:00:00Z");
    assert_eq!(copy.retry_count, 2);
    let mut status = SyncStatus::new(false, 3, vec![item, copy]);
    status.last_sync_at = Some("yesterday".to_string());
    let copy = status.clone();
    assert!(!copy.is_syncing);
    assert_eq!(copy.last_sync_at, Some("yesterday".to_string()));
    assert_eq!(copy.pending_changes, 3);
    assert_eq!(copy.sync_errors.len(), 2);
    assert_eq!(copy.sync_errors[1].entity_id, "o-1");
}

#[test]
fn a_status_carries_the_pending_changes_and_the_errors() {
    let item = SyncErrorItem {
        id: "1".to_string(),
        entity: "order".to_string(),
        entity_id: "o-1".to_string(),
        operation: "update".to_string(),
        error: "conflict".to_string(),
        timestamp: "2024-01-01T00:00:00Z".to_string(),
        retry_count: 2,
    };
    let status = SyncStatus::new(true, 5, vec![item]);
    assert!(status.is_syncing);
    assert_eq!(status.last_sync_at, None);
    assert_eq!(status.pending_changes, 5);
    assert_eq!(status.sync_errors.len(), 1);
    assert_eq!(status.sync_errors[0].retry_count, 2);
}

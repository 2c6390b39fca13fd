use telemed_core::errors::AppError;
use telemed_core::files::FileService;
use telemed_core::models::{parse_message_type, MessageType, OrderStatus};

fn message_of(r: Result<(), AppError>) -> String {
    match r {
        Ok(_) => panic!("expected a validation error"),
        Err(AppError::ValidationError { message }) => message,
        Err(_) => panic!("expected a validation error"),
    }
}

#[test]
fn file_service_accepts_ordinary_uploads() {
    let service = FileService::new();
    assert!(service.validate_file(b"data", "scan.jpg").is_ok());
    assert!(service.validate_file(b"data", "REPORT.PDF").is_ok());
    assert!(service.validate_file(b"", "notes.txt").is_ok());
}

#[test]
fn file_service_rejects_bad_uploads() {
    let service = FileService::new();
    let big = vec![0u8; 50 * 1024 * 1024 + 1];
    assert_eq!(message_of(FileService::new().validate_file(&big, "a.jpg")), "File size exceeds 50MB limit");
    assert_eq!(
        message_of(service.validate_file(b"x", "malware.exe")),
        "File type not allowed: exe"
    );
    assert_eq!(
        message_of(service.validate_file(b"x", "noextension")),
        "File type not allowed: noextension"
    );
    let long = format!("{}.txt", "a".repeat(300));
    assert_eq!(message_of(service.validate_file(b"x", &long)), "File name too long");
    assert_eq!(
        message_of(service.validate_file(b"x", "bad|name.txt")),
        "File name contains invalid characters"
    );
}

#[test]
fn app_error_codes_and_retry() {
    let net = AppError::network_error("offline".to_string());
    assert!(net.is_retryable());
    assert_eq!(net.error_code(), "NETWORK_ERROR");
    let auth = AppError::auth_error("denied".to_string());
    assert!(!auth.is_retryable());
    assert_eq!(auth.error_code(), "AUTH_ERROR");
    assert_eq!(AppError::database_error(String::new()).error_code(), "DATABASE_ERROR");
    assert_eq!(AppError::file_error(String::new()).error_code(), "FILE_ERROR");
    assert_eq!(AppError::permission_error(String::new()).error_code(), "PERMISSION_ERROR");
    assert_eq!(AppError::validation_error(String::new()).error_code(), "VALIDATION_ERROR");
    assert_eq!(AppError::unknown_error(String::new()).error_code(), "UNKNOWN_ERROR");
}

#[test]
fn model_tags_round_trip() {
    assert_eq!(MessageType::Voice.as_str(), "voice");
    assert_eq!(parse_message_type("voice"), Some(MessageType::Voice));
    assert_eq!(parse_message_type("template"), Some(MessageType::Template));
    assert_eq!(parse_message_type("telegram"), None);
    assert_eq!(OrderStatus::InProgress.as_str(), "in_progress");
}

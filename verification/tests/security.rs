use telemed_core::security::{
    matches_action, parse_audit_action, AuditAction, SecurityService,
};

#[test]
fn security_audit_log_append_and_query() {
    let mut service = SecurityService::new(300);
    service
        .log_audit_at(
            "doctor_001".to_string(),
            AuditAction::Login,
            None,
            None,
            "success".to_string(),
            None,
            Vec::new(),
            1_000,
        )
        .unwrap();
    service
        .log_audit_at(
            "doctor_002".to_string(),
            AuditAction::ViewPatient,
            Some("patient".to_string()),
            Some("patient_123".to_string()),
            "success".to_string(),
            None,
            Vec::new(),
            3_000,
        )
        .unwrap();
    service
        .log_audit_at(
            "doctor_001".to_string(),
            AuditAction::SendMessage,
            None,
            None,
            "success".to_string(),
            None,
            Vec::new(),
            2_000,
        )
        .unwrap();

    let all = service.get_audit_logs_at(None, None, None, None, 10).unwrap();
    assert_eq!(all.len(), 3);
    // newest first
    assert_eq!(all[0].timestamp, 3_000);
    assert_eq!(all[1].timestamp, 2_000);
    assert_eq!(all[2].timestamp, 1_000);

    let one_user = service
        .get_audit_logs_at(Some("doctor_001"), None, None, None, 10)
        .unwrap();
    assert_eq!(one_user.len(), 2);
    assert!(one_user.iter().all(|l| l.user_id == "doctor_001"));

    let logins = service
        .get_audit_logs_at(None, Some(AuditAction::Login), None, None, 10)
        .unwrap();
    assert_eq!(logins.len(), 1);

    let limited = service.get_audit_logs_at(None, None, None, None, 2).unwrap();
    assert_eq!(limited.len(), 2);
    assert_eq!(limited[0].timestamp, 3_000);
}

#[test]
fn security_failed_logins_raise_an_anomaly() {
    let mut service = SecurityService::new(300);
    for _ in 0..3 {
        service.record_failed_login_at("doctor_001", 1_000);
    }
    assert_eq!(service.failed_login_count("doctor_001"), 3);

    let found = service.detect_anomalies_at("doctor_001", 2_000).unwrap();
    assert_eq!(found.len(), 1);
    assert_eq!(found[0].user_id, "doctor_001");
    assert_eq!(found[0].severity, "medium");
    assert!(!found[0].resolved);
    assert_eq!(found[0].description, "检测到 3 次连续登录失败");

    for _ in 0..2 {
        service.record_failed_login_at("doctor_001", 1_500);
    }
    let found = service.detect_anomalies_at("doctor_001", 2_500).unwrap();
    assert_eq!(found.len(), 1);
    assert_eq!(found[0].severity, "high");

    service.reset_failed_login("doctor_001");
    assert_eq!(service.failed_login_count("doctor_001"), 0);
    let found = service.detect_anomalies_at("doctor_001", 3_000).unwrap();
    assert_eq!(found.len(), 0);

    // an unknown user never has anomalies
    let found = service.detect_anomalies_at("doctor_404", 3_000).unwrap();
    assert_eq!(found.len(), 0);
}

#[test]
fn security_rapid_access_raises_an_anomaly() {
    let mut service = SecurityService::new(300);
    for i in 0..60 {
        service
            .log_audit_at(
                "doctor_001".to_string(),
                AuditAction::ViewPatient,
                Some("patient".to_string()),
                None,
                "success".to_string(),
                None,
                Vec::new(),
                10_000 + i,
            )
            .unwrap();
    }
    let found = service.detect_anomalies_at("doctor_001", 20_000).unwrap();
    assert_eq!(found.len(), 1);
    assert_eq!(found[0].severity, "high");
    let records = service.get_anomaly_records(Some("doctor_001"), Some(false)).unwrap();
    assert_eq!(records.len(), 1);

    // resolving it empties the unresolved view
    let id = records[0].id.clone();
    service.resolve_anomaly(&id).unwrap();
    let unresolved = service.get_anomaly_records(Some("doctor_001"), Some(false)).unwrap();
    assert_eq!(unresolved.len(), 0);
    let resolved = service.get_anomaly_records(Some("doctor_001"), Some(true)).unwrap();
    assert_eq!(resolved.len(), 1);
}

#[test]
fn security_auto_lock_after_idle_timeout() {
    let mut service = SecurityService::new(300);
    service
        .log_audit_at(
            "doctor_001".to_string(),
            AuditAction::Login,
            None,
            None,
            "success".to_string(),
            None,
            Vec::new(),
            1_000_000,
        )
        .unwrap();
    assert_eq!(service.get_last_activity("doctor_001"), Some(1_000_000));
    assert!(!service.should_auto_lock_at("doctor_001", 1_000_000 + 299_999));
    assert!(service.should_auto_lock_at("doctor_001", 1_000_000 + 300_000));
    // a user never seen is never locked
    assert!(!service.should_auto_lock_at("doctor_404", 9_999_999));
}

#[test]
fn security_cleanup_drops_only_old_records() {
    let mut service = SecurityService::new(300);
    let day_ms: i64 = 86_400_000;
    let now = 100 * day_ms;
    service
        .log_audit_at(
            "doctor_001".to_string(),
            AuditAction::Login,
            None,
            None,
            "success".to_string(),
            None,
            Vec::new(),
            now - 20 * day_ms,
        )
        .unwrap();
    service
        .log_audit_at(
            "doctor_001".to_string(),
            AuditAction::Logout,
            None,
            None,
            "success".to_string(),
            None,
            Vec::new(),
            now - 2 * day_ms,
        )
        .unwrap();
    service.cleanup_old_records_at(10, now).unwrap();
    let left = service.get_audit_logs_at(None, None, None, None, 10).unwrap();
    assert_eq!(left.len(), 1);
    assert_eq!(left[0].timestamp, now - 2 * day_ms);
}

#[test]
fn security_action_names_round_trip() {
    assert_eq!(parse_audit_action("login").unwrap(), AuditAction::Login);
    assert_eq!(parse_audit_action("LOGIN").unwrap(), AuditAction::Login);
    assert_eq!(
        parse_audit_action("Access_Sensitive_Data").unwrap(),
        AuditAction::AccessSensitiveData
    );
    let err = parse_audit_action("fly_to_moon").unwrap_err();
    assert_eq!(err, "Unknown audit action: fly_to_moon");

    assert!(matches_action(&AuditAction::Login, &AuditAction::Login));
    assert!(!matches_action(&AuditAction::Login, &AuditAction::Logout));
    assert_eq!(AuditAction::DownloadFile.as_str(), "download_file");
}

#[test]
fn security_sensitive_data_round_trip() {
    let service = SecurityService::new(300);
    let secret = "既往史：无";
    let sealed = service.encrypt_sensitive_data(secret).unwrap();
    assert_ne!(sealed, secret);
    assert_eq!(service.decrypt_sensitive_data(&sealed).unwrap(), secret);
}

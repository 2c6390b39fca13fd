use telemed_core::auth::{token_is_fresh, token_wants_refresh, AuthService};

#[test]
fn auth_password_login_success() {
    let service = AuthService::new();
    let now: u64 = 1_700_000_000;
    let result = service
        .authenticate_password_at("doctor", "123456", now)
        .unwrap();
    assert!(result.token.starts_with("jwt."));
    assert_eq!(result.expires_at_s, now + 8 * 3600);
    assert!(result.user_json.contains("\"name\":\"张医生\""));
    assert!(result.user_json.contains("\"username\":\"doctor\""));

    // the token reads back to the claims it was built from
    let claims = service.decode_jwt_token(&result.token).unwrap();
    assert_eq!(claims.sub, "1");
    assert_eq!(claims.username, "doctor");
    assert_eq!(claims.role, "doctor");
    assert_eq!(claims.iat, now);
    assert_eq!(claims.exp, now + 8 * 3600);
}

#[test]
fn auth_password_login_failure() {
    let service = AuthService::new();
    let err = service
        .authenticate_password_at("doctor", "wrong_password", 1_700_000_000)
        .unwrap_err();
    match err {
        telemed_core::errors::AppError::AuthError { message } => {
            assert_eq!(message, "用户名或密码错误");
        },
        _ => panic!("expected an authentication error"),
    }
}

#[test]
fn auth_sms_login_paths() {
    let service = AuthService::new();
    let now: u64 = 1_700_000_000;
    let ok = service
        .authenticate_sms_at("13800138000", "123456", now)
        .unwrap();
    assert!(ok.user_json.contains("\"name\":\"李医生\""));
    let claims = service.decode_jwt_token(&ok.token).unwrap();
    assert_eq!(claims.username, "user_8000");

    let err = service
        .authenticate_sms_at("13800138000", "wrong_code", now)
        .unwrap_err();
    match err {
        telemed_core::errors::AppError::AuthError { message } => {
            assert_eq!(message, "手机号或验证码错误");
        },
        _ => panic!("expected an authentication error"),
    }
}

#[test]
fn auth_realname_login_paths() {
    let service = AuthService::new();
    let now: u64 = 1_700_000_000;
    let ok = service
        .authenticate_realname_at("110101199001011234", now)
        .unwrap();
    assert!(ok.user_json.contains("\"name\":\"王医生\""));
    let claims = service.decode_jwt_token(&ok.token).unwrap();
    assert_eq!(claims.username, "realname_1234");

    let err = service.authenticate_realname_at("invalid_id", now).unwrap_err();
    match err {
        telemed_core::errors::AppError::AuthError { message } => {
            assert_eq!(message, "身份证号格式错误");
        },
        _ => panic!("expected an authentication error"),
    }
}

#[test]
fn auth_token_validation_and_refresh() {
    let service = AuthService::new();
    let now: u64 = 1_700_000_000;
    let result = service
        .authenticate_password_at("doctor", "123456", now)
        .unwrap();

    assert!(service.validate_token_at(&result.token, now + 100));
    // once the session is over the token no longer validates
    assert!(!service.validate_token_at(&result.token, now + 8 * 3600));
    assert!(!service.validate_token_at("invalid_token", now));

    // refresh is refused while plenty of life remains
    assert!(service.refresh_token_at(&result.token, now + 100).is_err());
    // close to expiry a fresh token comes back, valid from then on
    let refreshed = service
        .refresh_token_at(&result.token, now + 8 * 3600 - 100)
        .unwrap();
    let claims = service.decode_jwt_token(&refreshed).unwrap();
    assert_eq!(claims.iat, now + 8 * 3600 - 100);
    assert!(token_is_fresh(&claims, now + 8 * 3600));
    assert!(!token_wants_refresh(&claims, now + 8 * 3600));

    assert!(service.logout(&result.token).is_ok());
}

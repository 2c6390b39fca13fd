use telemed_core::crypto::{hash_password, verify_password, CryptoService};

#[test]
fn test_encrypt_decrypt_string() {
    let crypto = CryptoService::new();
    let original = "Hello, World!";

    let encrypted = crypto.encrypt_string(original).unwrap();
    let decrypted = crypto.decrypt_string(&encrypted).unwrap();

    assert_eq!(original, decrypted);
}

#[test]
fn test_password_hash_verify() {
    let crypto = CryptoService::new();
    let password = "test_password_123";

    let hash = crypto.hash_password(password).unwrap();
    assert!(crypto.verify_password(password, &hash).unwrap());
    assert!(!crypto.verify_password("wrong_password", &hash).unwrap());
}

#[test]
fn test_generate_random_token() {
    let crypto = CryptoService::new();
    let token1 = crypto.generate_random_token(32);
    let token2 = crypto.generate_random_token(32);

    assert_ne!(token1, token2);
    assert!(!token1.is_empty());
    assert!(!token2.is_empty());
    // 32 random bytes wrap to 44 base64 characters
    assert_eq!(token1.len(), 44);
}

#[test]
fn crypto_encrypt_changes_and_pads_the_data() {
    let crypto = CryptoService::new();
    let encrypted = crypto.encrypt_data(b"abc").unwrap();
    // nonce, message and tag
    assert_eq!(encrypted.len(), 3 + 28);
    assert_ne!(&encrypted[12..15], b"abc");

    // too short to even hold a nonce
    assert!(crypto.decrypt_data(b"short").is_err());
    // tampering is caught
    let mut broken = encrypted.clone();
    let last = broken.len() - 1;
    broken[last] ^= 0xFF;
    assert!(crypto.decrypt_data(&broken).is_err());

    let plain = crypto.decrypt_data(&encrypted).unwrap();
    assert_eq!(plain, b"abc");
}

#[test]
fn crypto_free_functions_agree_with_the_service() {
    let hash = hash_password("s3cret-Pw").unwrap();
    assert!(verify_password("s3cret-Pw", &hash).unwrap());
    assert!(!verify_password("other", &hash).unwrap());
    assert!(verify_password("s3cret-Pw", "not a phc hash").is_err());
}

#[test]
fn crypto_sensitive_text_round_trip_with_cjk() {
    let crypto = CryptoService::new();
    let original = "患者姓名：张三，身份证号：123456789012345678";
    let encrypted = crypto.encrypt_string(original).unwrap();
    assert_ne!(encrypted, original);
    assert_eq!(crypto.decrypt_string(&encrypted).unwrap(), original);
    // corrupting the base64 text is reported, not ignored
    assert!(crypto.decrypt_string("@@@not-base64@@@").is_err());
}

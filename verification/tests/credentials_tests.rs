use alpaca_trading3web::credentials::{
    check_master_key, decrypt, derive_credential_cipher, encrypt, open_credential_pair, resolve_credential_salt,
    seal_credential_pair,
};
use alpaca_trading3web::routes::AppError;

fn cipher_for(master: &str) -> alpaca_trading3web::credentials::CredentialCipher {
    let (salt, stored) = resolve_credential_salt(Some("AAAAAAAAAAAAAAAAAAAAAA==")).unwrap();
    assert!(stored.is_none());
    derive_credential_cipher(master, &salt).unwrap()
}

#[test]
fn master_key_rules() {
    assert!(matches!(check_master_key("   "), Err(AppError::Internal(m)) if m.starts_with("AUTO_STONKS_MASTER_KEY is required")));
    assert!(matches!(check_master_key("change-me-before-production"), Err(AppError::Internal(m)) if m.contains("placeholder")));
    assert!(check_master_key("a strong secret").is_ok());
}

#[test]
fn salt_is_read_or_created() {
    let (salt, stored) = resolve_credential_salt(None).unwrap();
    assert_eq!(salt.len(), 16);
    let text = stored.expect("a new salt is to be stored");
    let (again, none) = resolve_credential_salt(Some(&format!("  {text}\n"))).unwrap();
    assert_eq!(again, salt);
    assert!(none.is_none());
    assert!(matches!(resolve_credential_salt(Some("AAAA")), Err(AppError::Internal(m)) if m == "stored credential salt is too short"));
    assert!(matches!(resolve_credential_salt(Some("***")), Err(AppError::Internal(m)) if m.starts_with("decode credential salt: ")));
}

#[test]
fn encrypt_then_decrypt_gives_the_credential_back() {
    let cipher = cipher_for("master one");
    let stored = encrypt(&cipher, "PKSECRET123").unwrap();
    assert_ne!(stored, "PKSECRET123");
    assert_eq!(decrypt(&cipher, &stored).unwrap(), "PKSECRET123");
    let again = encrypt(&cipher, "PKSECRET123").unwrap();
    assert_ne!(stored, again);
    assert_eq!(decrypt(&cipher, &again).unwrap(), "PKSECRET123");
}

#[test]
fn decrypt_failures() {
    let cipher = cipher_for("master one");
    let other = cipher_for("master two");
    let stored = encrypt(&cipher, "secret").unwrap();
    assert!(matches!(decrypt(&other, &stored), Err(AppError::Unauthorized(m)) if m == "failed to decrypt credential; the master key may have changed"));
    assert!(matches!(decrypt(&cipher, "AAAA"), Err(AppError::Internal(m)) if m == "credential payload too short"));
    assert!(matches!(decrypt(&cipher, "not base64!"), Err(AppError::Internal(_))));
}

#[test]
fn credential_pairs_are_trimmed_sealed_and_opened() {
    let cipher = cipher_for("pair master");
    assert!(matches!(
        seal_credential_pair(&cipher, "  ", "secret"),
        Err(AppError::ValidationError(m)) if m == "Alpaca API key and secret are required"
    ));
    assert!(matches!(seal_credential_pair(&cipher, "key", ""), Err(AppError::ValidationError(_))));
    let (k, s) = seal_credential_pair(&cipher, " PKKEY ", "\tSECRET\n").unwrap();
    assert_eq!(open_credential_pair(&cipher, &k, &s).unwrap(), ("PKKEY".to_string(), "SECRET".to_string()));
    assert!(open_credential_pair(&cipher, &k, "AAAA").is_err());
}

use sid::password_prompt::validate_password;
use sid::secret_unlock::{mode_texts, validate_create, validate_submit, validate_unlock, SecretUnlockMode};

#[test]
fn validate_password_rejects_empty() {
    assert!(validate_password("").is_err());
    assert_eq!(validate_password("").unwrap_err(), "enter the password");
}

#[test]
fn validate_password_accepts_nonempty() {
    assert_eq!(validate_password("hunter2").unwrap(), "hunter2");
    // spaces are part of a password
    assert_eq!(validate_password(" pw ").unwrap(), " pw ");
}

#[test]
fn validate_unlock_rejects_empty() {
    assert!(validate_unlock("").is_err());
}

#[test]
fn validate_unlock_accepts_nonempty() {
    assert_eq!(validate_unlock("hunter2").unwrap(), "hunter2");
}

#[test]
fn validate_create_rejects_empty_passphrase() {
    let err = validate_create("", "").unwrap_err();
    assert!(err.contains("choose"), "{err}");
}

#[test]
fn validate_create_rejects_mismatch() {
    let err = validate_create("hunter2", "hunter3").unwrap_err();
    assert!(err.contains("match"), "{err}");
}

#[test]
fn validate_create_accepts_matching_nonempty() {
    assert_eq!(validate_create("hunter2", "hunter2").unwrap(), "hunter2");
}

#[test]
fn submit_dispatches_on_the_mode() {
    assert_eq!(validate_submit(SecretUnlockMode::Unlock, "", "x").unwrap_err(), "enter the vault passphrase");
    assert_eq!(validate_submit(SecretUnlockMode::Unlock, "a", "b").unwrap(), "a");
    assert_eq!(validate_submit(SecretUnlockMode::Create, "a", "b").unwrap_err(), "passphrases do not match");
    assert_eq!(mode_texts(SecretUnlockMode::Create).2, "Create");
    assert_eq!(mode_texts(SecretUnlockMode::Unlock).0, "Unlock secret vault");
}

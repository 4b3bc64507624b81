use argon2::{PasswordHash, PasswordVerifier};
use backend::error::Error;
use backend::objects::password_reset_token::{hash_password, hash_with_salt};
use backend::utils::Patterns;

#[test]
fn invalid_passwords_are_refused() {
    let p = Patterns::new().unwrap();
    match hash_password(&p, "hunter2") {
        Err(Error::BadRequest(m)) => assert_eq!(m, "Please provide a valid password"),
        other => panic!("unexpected {other:?}"),
    }
}

#[test]
fn valid_passwords_are_hashed_with_argon2() {
    let p = Patterns::new().unwrap();
    let password = "0123456789abcdef".repeat(6);
    let h1 = hash_password(&p, &password).unwrap();
    let h2 = hash_password(&p, &password).unwrap();
    assert!(h1.starts_with("$argon2id$"));
    assert!(!h1.contains(&password));
    assert_ne!(h1, h2);
}

#[test]
fn hashing_with_a_given_salt_is_repeatable_and_verifies() {
    let password = "0123456789abcdef".repeat(6);
    let h1 = hash_with_salt(&password, &[0u8; 16]).unwrap();
    let h2 = hash_with_salt(&password, &[0u8; 16]).unwrap();
    assert_eq!(h1, h2);
    assert!(h1.starts_with("$argon2id$v=19$"));
    assert!(h1.contains("$AAAAAAAAAAAAAAAAAAAAAA$"));
    let parsed = PasswordHash::new(&h1).unwrap();
    assert!(argon2::Argon2::default().verify_password(password.as_bytes(), &parsed).is_ok());
    assert!(argon2::Argon2::default().verify_password(b"other", &parsed).is_err());
    assert_ne!(h1, hash_with_salt(&password, &[1u8; 16]).unwrap());
}

#[test]
fn too_short_salt_is_a_hash_error() {
    let password = "0123456789abcdef".repeat(6);
    assert!(matches!(hash_with_salt(&password, &[0u8; 2]), Err(Error::PasswordHashError(_))));
}

use arse::auth::{generate_argon2_phc, generate_secret};
use arse::errors::Error;

#[test]
fn check_secret_len() {
    const SECLEN: usize = 32;
    let secret = generate_secret(SECLEN).unwrap();
    assert_eq!(SECLEN, secret.len())
}

#[test]
fn check_short_secret() {
    const SECLEN: usize = 12;
    let secret = generate_secret(SECLEN);
    assert!(secret.is_err())
}

#[test]
fn check_argon2_hasher() {
    const SECLEN: usize = 32;
    let secret = generate_secret(SECLEN).unwrap();
    let phc = generate_argon2_phc(&secret);
    assert!(phc.is_ok())
}

#[test]
fn secret_is_alphanumeric() {
    let secret = generate_secret(40).unwrap();
    assert_eq!(secret.chars().count(), 40);
    assert!(secret.chars().all(|c| c.is_ascii_alphanumeric()));
}

#[test]
fn short_secret_names_minimum() {
    let secret = generate_secret(0);
    assert!(matches!(secret, Err(Error::WeakSecret { min: 32 })));
}

#[test]
fn argon2_phc_has_algorithm_tag() {
    let phc = generate_argon2_phc("a-long-enough-secret-for-hashing").unwrap();
    assert!(phc.starts_with("$argon2"));
}

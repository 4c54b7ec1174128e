use file_vault::encryption::{decrypt_bytes, encrypt_bytes};
use file_vault::file_utilities::{_get_file_type, get_file_type_from_mime};
use file_vault::jwt_token::{check_claims, Claims, JwtError};
use file_vault::strings::split_string;
use file_vault::utility::{genarate_salt, hash_password, verify_password};
use sha2::Digest;

#[test]
fn hashed_password_verifies() {
    let stored = hash_password("secret123");
    assert!(verify_password("secret123", &stored));
    assert!(!verify_password("secret124", &stored));
    assert!(!verify_password("", &stored));
}

#[test]
fn hash_is_a_real_digest_with_salt() {
    let stored = hash_password("abc");
    let parts: Vec<&str> = stored.split(':').collect();
    assert_eq!(parts.len(), 2);
    // 32 digest bytes, two hex digits each
    assert_eq!(parts[0].len(), 64);
    assert!(parts[0].chars().all(|c| c.is_ascii_hexdigit()));
    assert_eq!(parts[1].len(), 64);
    assert!(parts[1].chars().all(|c| c.is_ascii_alphanumeric()));
}

#[test]
fn verify_password_matches_reference_digest() {
    // Build a stored credential by hand around a fixed salt.
    let digest = sha2::Sha256::digest("passwordsalt".as_bytes());
    let mut hex = String::new();
    for b in digest.iter() {
        hex.push_str(&format!("{:02X}", b));
    }
    let stored = format!("{}:salt", hex);
    assert!(verify_password("password", &stored));
    assert!(!verify_password("passwore", &stored));
}

#[test]
fn verify_password_rejects_malformed_credential() {
    assert!(!verify_password("anything", "no delimiter here"));
    assert!(!verify_password("anything", ""));
}

#[test]
fn salt_has_requested_length_and_alphabet() {
    let salt = genarate_salt(7);
    assert_eq!(salt.chars().count(), 7);
    assert!(salt.chars().all(|c| c.is_ascii_alphanumeric()));
    let long = genarate_salt(64);
    assert_eq!(long.chars().count(), 64);
}

#[test]
fn encrypt_then_decrypt_round_trips() {
    let data = vec![0xDE, 0xAD, 0xBE, 0xEF];
    let ct = encrypt_bytes(data.clone(), "somekey");
    assert_eq!(decrypt_bytes(&ct, "somekey"), Some(data));
}

#[test]
fn encrypt_empty_round_trips() {
    let ct = encrypt_bytes(Vec::new(), "k");
    assert_eq!(decrypt_bytes(&ct, "k"), Some(Vec::new()));
}

#[test]
fn decrypt_rejects_wrong_key_and_tampering() {
    let data = vec![1u8, 2, 3, 4, 5, 6, 7, 8, 9];
    let mut ct = encrypt_bytes(data.clone(), "right key");
    assert_eq!(decrypt_bytes(&ct, "wrong key"), None);
    let last = ct.len() - 1;
    ct[last] ^= 0x01;
    assert_eq!(decrypt_bytes(&ct, "right key"), None);
    assert_eq!(decrypt_bytes(&[0u8; 10], "right key"), None);
}

#[test]
fn encryption_embeds_a_fresh_nonce() {
    let data = vec![42u8; 40];
    let a = encrypt_bytes(data.clone(), "k");
    let b = encrypt_bytes(data.clone(), "k");
    assert_ne!(a, b);
    assert_eq!(decrypt_bytes(&a, "k"), Some(data.clone()));
    assert_eq!(decrypt_bytes(&b, "k"), Some(data));
}

#[test]
fn ciphertext_differs_from_plaintext_body() {
    let data = vec![0u8; 64];
    let ct = encrypt_bytes(data.clone(), "k");
    assert_eq!(ct.len(), 16 + 64 + 32);
    assert_ne!(&ct[16..80], &data[..]);
}

#[test]
fn claim_window_accepts_and_expires() {
    let t: u64 = 1_000_000;
    let claims = Claims {
        nbf: t,
        iat: t,
        exp: t + 10800,
        iss: "vault".to_owned(),
        aud: "clients".to_owned(),
        project_id: "p1".to_owned(),
    };
    assert!(check_claims(&claims, "vault", "clients", t).is_ok());
    assert!(check_claims(&claims, "vault", "clients", t + 10799).is_ok());
    assert!(matches!(
        check_claims(&claims, "vault", "clients", t + 10800),
        Err(JwtError::ExpiredToken)
    ));
    assert!(matches!(
        check_claims(&claims, "vault", "clients", t + 20000),
        Err(JwtError::ExpiredToken)
    ));
    assert!(matches!(
        check_claims(&claims, "vault", "clients", t - 1),
        Err(JwtError::InvalidToken)
    ));
    assert!(matches!(
        check_claims(&claims, "vault", "others", t + 1),
        Err(JwtError::InvalidToken)
    ));
    assert!(matches!(
        check_claims(&claims, "other issuer", "clients", t + 1),
        Err(JwtError::InvalidToken)
    ));
}

#[test]
fn split_keeps_empty_segments() {
    let parts = split_string("x;;y", ';');
    assert_eq!(parts, vec!["x".to_owned(), "".to_owned(), "y".to_owned()]);
    let parts = split_string("", ';');
    assert_eq!(parts, vec!["".to_owned()]);
    let parts = split_string(";", ';');
    assert_eq!(parts, vec!["".to_owned(), "".to_owned()]);
}

#[test]
fn file_type_helpers() {
    assert_eq!(get_file_type_from_mime("image/png"), "png");
    assert_eq!(_get_file_type("dir/archive.tar.gz"), "gz");
    assert_eq!(_get_file_type("dir\\photo.jpeg"), "jpeg");
    assert_eq!(_get_file_type("noextension"), "");
}

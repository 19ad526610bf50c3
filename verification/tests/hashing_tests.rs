use health_services::hashing::{fresh_salt, hash_password, verify_password};

const SALT: [u8; 16] = *b"0123456789abcdef";

#[test]
fn hash_password_yields_an_encoded_argon2id_hash() {
    let hash = hash_password("password", &SALT).unwrap();
    assert!(hash.starts_with("$argon2id$v=19$m=19456,t=2,p=1$MDEyMzQ1Njc4OWFiY2RlZg$"), "{}", hash);
    assert_ne!(hash, "password");
}

#[test]
fn hash_password_depends_on_the_password_and_on_the_salt() {
    let hash = hash_password("password", &SALT).unwrap();
    assert_eq!(hash_password("password", &SALT).unwrap(), hash);
    assert_ne!(hash_password("passwore", &SALT).unwrap(), hash);
    assert_ne!(hash_password("password", b"fedcba9876543210").unwrap(), hash);
}

#[test]
fn hash_password_takes_the_empty_password() {
    let hash = hash_password("", &SALT).unwrap();
    assert!(verify_password(&hash, ""));
    assert!(!verify_password(&hash, " "));
}

#[test]
fn verify_password_accepts_the_password_that_was_hashed() {
    let hash = hash_password("pässwörd", &SALT).unwrap();
    assert!(verify_password(&hash, "pässwörd"));
    assert!(!verify_password(&hash, "passwörd"));
    assert!(!verify_password(&hash, "pässwörd "));
}

#[test]
fn verify_password_knows_a_hash_made_elsewhere() {
    let encoded = "$argon2i$v=19$m=4096,t=3,p=1$c29tZXNhbHQ$iWh06vD8Fy27wf9npn6FXWiCX4K6pW6Ue1Bnzz07Z8A";
    assert!(verify_password(encoded, "password"));
    assert!(!verify_password(encoded, "passwore"));
}

#[test]
fn verify_password_rejects_what_is_no_hash() {
    assert!(!verify_password("", "password"));
    assert!(!verify_password("password", "password"));
    assert!(!verify_password("$argon2i$v=19$m=4096,t=3,p=1$c29tZXNhbHQ", "password"));
}

#[test]
fn fresh_salts_differ() {
    assert_ne!(fresh_salt(), fresh_salt());
}

#[test]
fn a_fresh_salt_is_laid_out_as_a_random_uuid() {
    for _ in 0..200 {
        let salt = fresh_salt();
        assert_eq!(salt.len(), 16);
        assert_eq!(salt[6] / 16, 4, "{:?}", salt);
        assert_eq!(salt[8] / 64, 2, "{:?}", salt);
    }
}

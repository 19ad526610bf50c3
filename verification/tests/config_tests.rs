use health_services::config::{get_config, Config};
use health_services::errors::{AppError, Endpoint};
use health_services::validation::{email_verdict, validate_email, validate_password};

#[test]
fn get_config_takes_the_values_that_are_set() {
    let config = get_config(
        Some("sqlite:health_services.db".to_string()),
        Some("0.0.0.0:9000".to_string()),
        Some("KEY".to_string()),
    );
    assert_eq!(
        config,
        Ok(Config {
            database_url: "sqlite:health_services.db".to_string(),
            server_addr: "0.0.0.0:9000".to_string(),
            api_key: "KEY".to_string(),
        })
    );
}

#[test]
fn get_config_has_a_default_bind_address() {
    let config = get_config(Some("db".to_string()), None, Some("KEY".to_string())).unwrap();
    assert_eq!(config.server_addr, "127.0.0.1:8080");
}

#[test]
fn get_config_fails_without_a_required_value() {
    assert_eq!(
        get_config(None, Some("a".to_string()), Some("KEY".to_string())),
        Err(AppError::ConfigMissing)
    );
    assert_eq!(
        get_config(Some("db".to_string()), Some("a".to_string()), None),
        Err(AppError::ConfigMissing)
    );
    assert_eq!(get_config(None, None, None), Err(AppError::ConfigMissing));
}

#[test]
fn each_error_has_one_status() {
    assert_eq!(AppError::ConfigMissing.status(Endpoint::Services), 500);
    assert_eq!(AppError::Upstream.status(Endpoint::Services), 500);
    assert_eq!(AppError::NotFound.status(Endpoint::Services), 400);
    assert_eq!(AppError::NotFound.status(Endpoint::Login), 401);
    assert_eq!(AppError::Validation.status(Endpoint::Register), 400);
    assert_eq!(AppError::Conflict.status(Endpoint::Register), 409);
    assert_eq!(AppError::Auth.status(Endpoint::Favorites), 401);
    assert_eq!(AppError::Store.status(Endpoint::Profile), 500);
}

#[test]
fn each_error_has_a_generic_message() {
    assert_eq!(AppError::Upstream.message(), "Internal Server Error");
    assert_eq!(AppError::Store.message(), "Internal Server Error");
    assert_eq!(AppError::ConfigMissing.message(), "Internal Server Error");
    assert_eq!(AppError::Validation.message(), "Bad Request");
    assert_eq!(AppError::Auth.message(), "Unauthorized");
    assert_eq!(AppError::Conflict.message(), "Conflict");
    assert_eq!(AppError::NotFound.message(), "Not Found");
}

#[test]
fn validate_password_counts_bytes() {
    assert!(!validate_password(""));
    assert!(!validate_password("1234567"));
    assert!(validate_password("12345678"));
    assert!(validate_password("123456789"));
    assert!(validate_password("pässwör"));
    assert!(!validate_password("passwor"));
}

#[test]
fn validate_email_matches_the_pattern() {
    assert!(validate_email("ann@example.com"));
    assert!(validate_email("ann.lee-smith@mail.example.org"));
    assert!(validate_email("a_b@c.d"));
    assert!(validate_email("jörg@müller.de"));
    assert!(!validate_email(""));
    assert!(!validate_email("ann"));
    assert!(!validate_email("ann@example"));
    assert!(!validate_email("@example.com"));
    assert!(!validate_email("ann@.c om"));
    assert!(!validate_email("ann example@x.com"));
    assert!(!validate_email("ann@example.com "));
    assert!(!validate_email("ann@example.c-m"));
}

#[test]
fn email_verdict_accepts_a_match_only() {
    assert!(email_verdict(Some(true)));
    assert!(!email_verdict(Some(false)));
    assert!(!email_verdict(None));
}

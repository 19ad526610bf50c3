use health_services::accounts::AccountStore;
use health_services::auth::{login_user, register_user};
use health_services::errors::AppError;
use health_services::http::{LoginFailure, Page};

const SALT: [u8; 16] = [42; 16];

#[test]
fn register_user_refuses_an_empty_username_or_secret() {
    let mut store = AccountStore::new();
    assert_eq!(register_user(&mut store, "", "secret", &SALT), Err(AppError::Validation));
    assert_eq!(register_user(&mut store, "ann", "", &SALT), Err(AppError::Validation));
    assert_eq!(store.find_by_username("ann"), Err(AppError::NotFound));
}

#[test]
fn register_user_makes_the_account() {
    let mut store = AccountStore::new();
    let ann = register_user(&mut store, "ann", "secret", &SALT).unwrap();
    assert_eq!(ann.id, 1);
    assert_eq!(ann.username, "ann");
    assert_eq!(store.find_by_username("ann"), Ok(&ann));
    assert_eq!(register_user(&mut store, "ann", "secret", &SALT), Err(AppError::Conflict));
}

#[test]
fn login_user_admits_the_account_with_the_right_secret() {
    let mut store = AccountStore::new();
    let ann = register_user(&mut store, "ann", "secret", &SALT).unwrap();
    assert_eq!(login_user(&store, "ann", "secret"), Ok(&ann));
}

#[test]
fn login_user_tells_a_wrong_secret_from_an_unknown_username() {
    let mut store = AccountStore::new();
    register_user(&mut store, "ann", "secret", &SALT).unwrap();
    assert_eq!(login_user(&store, "ann", "secre"), Err(AppError::Auth));
    assert_eq!(login_user(&store, "ann", ""), Err(AppError::Auth));
    assert_eq!(login_user(&store, "bob", "secret"), Err(AppError::NotFound));
}

#[test]
fn a_login_failure_has_its_key_its_message_and_its_error() {
    let wrong = LoginFailure::InvalidCredentials;
    assert_eq!(wrong.key(), "error_invalid_credentials");
    assert_eq!(wrong.message(), "Invalid credentials. Please try again.");
    assert_eq!(wrong.error(), AppError::Auth);
    let unknown = LoginFailure::UnknownUser;
    assert_eq!(unknown.key(), "error_not_found");
    assert_eq!(unknown.message(), "User not found. Please register for an account.");
    assert_eq!(unknown.error(), AppError::NotFound);
    assert_eq!(LoginFailure::of(AppError::Auth), wrong);
    assert_eq!(LoginFailure::of(AppError::NotFound), unknown);
}

#[test]
fn each_page_has_its_template() {
    let index = Page::Index { username: None, logged_in: false, logout_message: None };
    assert_eq!(index.template(), "index");
    assert_eq!(Page::Login { failure: None }.template(), "login");
    assert_eq!(Page::Register { success: None }.template(), "register");
    assert_eq!(Page::Profile { username: None, favorites: None }.template(), "profile");
}

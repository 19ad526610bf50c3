use health_services::accounts::{AccountStore, ProviderSnapshot};
use health_services::handlers::{
    account_of, api_key_handler, index, login, login_handler, logout, profile, register,
    register_handler, register_with_salt, save_favorites,
};
use health_services::http::{Body, Cookie, LoginFailure, Page, Reply};

const SALT: [u8; 16] = [7; 16];

fn cookie(name: &str, value: &str) -> Cookie {
    Cookie { name: name.to_string(), value: value.to_string(), path: "/".to_string() }
}

fn text(status: u16, body: &str) -> Reply {
    Reply { status, location: None, cookies: vec![], body: Body::Text(body.to_string()) }
}

fn envelope(status: u16, word: &str, message: &str) -> Reply {
    Reply {
        status,
        location: None,
        cookies: vec![],
        body: Body::Envelope { status: word.to_string(), message: message.to_string() },
    }
}

fn snapshot() -> ProviderSnapshot {
    ProviderSnapshot {
        photo: "https://photos/1".to_string(),
        name: "General Hospital".to_string(),
        address: "1001 Potrero Ave".to_string(),
        rating: "3.9".to_string(),
    }
}

#[test]
fn register_with_an_empty_field_is_a_bad_request() {
    let mut store = AccountStore::new();
    let expected = text(400, "Username and password are required");
    assert_eq!(register_with_salt(&mut store, "", "secret", &SALT), expected);
    assert_eq!(register_with_salt(&mut store, "ann", "", &SALT), expected);
    assert_eq!(register_with_salt(&mut store, "", "", &SALT), expected);
    assert!(store.find_by_username("ann").is_err());
    assert!(store.find_by_username("").is_err());
}

#[test]
fn register_redirects_to_the_form_with_a_note_of_success() {
    let mut store = AccountStore::new();
    let reply = register_with_salt(&mut store, "ann", "secret", &SALT);
    assert_eq!(
        reply,
        Reply {
            status: 302,
            location: Some("/register?success=Success!".to_string()),
            cookies: vec![],
            body: Body::Empty,
        }
    );
    assert_eq!(store.find_by_username("ann").unwrap().id, 1);
    assert!(store.verify_credential("ann", "secret"));
}

#[test]
fn register_with_a_taken_username_is_a_conflict() {
    let mut store = AccountStore::new();
    register_with_salt(&mut store, "ann", "secret", &SALT);
    let reply = register_with_salt(&mut store, "ann", "other", &SALT);
    assert_eq!(reply, text(409, "Username already exists"));
    assert!(store.verify_credential("ann", "secret"));
    assert!(!store.verify_credential("ann", "other"));
}

#[test]
fn register_handler_draws_its_own_salt() {
    let mut store = AccountStore::new();
    assert_eq!(register_handler(&mut store, "ann", "secret").status, 302);
    assert_eq!(register_handler(&mut store, "bob", "secret").status, 302);
    assert_eq!(register_handler(&mut store, "ann", "secret").status, 409);
    assert_eq!(register_handler(&mut store, "", "secret").status, 400);
    let ann = store.find_by_username("ann").unwrap().password_hash.clone();
    let bob = store.find_by_username("bob").unwrap().password_hash.clone();
    assert_ne!(ann, bob);
    assert!(store.verify_credential("ann", "secret"));
    assert!(store.verify_credential("bob", "secret"));
}

#[test]
fn login_with_the_right_secret_sets_the_two_cookies_and_redirects() {
    let mut store = AccountStore::new();
    register_with_salt(&mut store, "zed", "first", &SALT);
    register_with_salt(&mut store, "ann", "secret", &SALT);
    assert_eq!(
        login_handler(&store, "ann", "secret"),
        Reply {
            status: 302,
            location: Some("/".to_string()),
            cookies: vec![cookie("username", "ann"), cookie("user_id", "2")],
            body: Body::Empty,
        }
    );
}

#[test]
fn login_with_a_wrong_secret_is_unauthorized() {
    let mut store = AccountStore::new();
    register_with_salt(&mut store, "ann", "secret", &SALT);
    assert_eq!(
        login_handler(&store, "ann", "Secret"),
        Reply {
            status: 401,
            location: None,
            cookies: vec![],
            body: Body::Page(Page::Login { failure: Some(LoginFailure::InvalidCredentials) }),
        }
    );
}

#[test]
fn login_with_an_unknown_username_is_unauthorized() {
    let store = AccountStore::new();
    assert_eq!(
        login_handler(&store, "ann", "secret"),
        Reply {
            status: 401,
            location: None,
            cookies: vec![],
            body: Body::Page(Page::Login { failure: Some(LoginFailure::UnknownUser) }),
        }
    );
}

#[test]
fn save_favorites_without_the_account_cookie_is_unauthorized_and_writes_nothing() {
    let mut store = AccountStore::new();
    let reply = save_favorites(&mut store, None, &snapshot());
    assert_eq!(reply, envelope(401, "error", "User not logged in. Please log in and try again."));
    for account_id in [0, 1, 2, -1] {
        assert!(store.list_favorites(account_id).is_empty());
    }
    let next = store.add_favorite(1, &snapshot()).unwrap();
    assert_eq!(next.id, 1);
}

#[test]
fn save_favorites_with_an_unreadable_account_cookie_is_unauthorized() {
    let mut store = AccountStore::new();
    for value in ["", "abc", "1.5", " 1", "99999999999999999999"] {
        let reply = save_favorites(&mut store, Some(value), &snapshot());
        assert_eq!(reply, envelope(401, "error", "Invalid user ID."));
    }
    assert_eq!(store.add_favorite(1, &snapshot()).unwrap().id, 1);
}

#[test]
fn save_favorites_inserts_for_the_account_of_the_cookie() {
    let mut store = AccountStore::new();
    let reply = save_favorites(&mut store, Some("12"), &snapshot());
    assert_eq!(reply, envelope(200, "success", "Favorite saved successfully."));
    let listed = store.list_favorites(12);
    assert_eq!(listed.len(), 1);
    assert_eq!(listed[0].user_id, 12);
    assert_eq!(listed[0].title, "General Hospital");
    assert_eq!(listed[0].photo, "https://photos/1");
    assert_eq!(listed[0].address, "1001 Potrero Ave");
    assert_eq!(listed[0].rating, "3.9");
    assert!(store.list_favorites(1).is_empty());
}

#[test]
fn the_account_cookie_that_login_sets_is_read_back_by_save_favorites() {
    let mut store = AccountStore::new();
    register_with_salt(&mut store, "ann", "secret", &SALT);
    let reply = login_handler(&store, "ann", "secret");
    let account_cookie = reply.cookies[1].value.clone();
    assert_eq!(account_of(Some(&account_cookie)), Some(1));
    save_favorites(&mut store, Some(&account_cookie), &snapshot());
    assert_eq!(store.list_favorites(1).len(), 1);
}

#[test]
fn profile_lists_the_favorites_of_the_account() {
    let mut store = AccountStore::new();
    save_favorites(&mut store, Some("1"), &snapshot());
    save_favorites(&mut store, Some("2"), &snapshot());
    let reply = profile(&store, Some("1"), Some("ann"));
    assert_eq!(
        reply,
        Reply {
            status: 200,
            location: None,
            cookies: vec![],
            body: Body::Page(Page::Profile {
                username: Some("ann".to_string()),
                favorites: Some(store.list_favorites(1)),
            }),
        }
    );
    assert_eq!(store.list_favorites(1).len(), 1);
}

#[test]
fn profile_without_an_account_shows_no_list() {
    let mut store = AccountStore::new();
    save_favorites(&mut store, Some("1"), &snapshot());
    for account_cookie in [None, Some("x"), Some("")] {
        let reply = profile(&store, account_cookie, None);
        assert_eq!(
            reply.body,
            Body::Page(Page::Profile { username: None, favorites: None })
        );
        assert_eq!(reply.status, 200);
    }
    let reply = profile(&store, Some("5"), None);
    assert_eq!(reply.body, Body::Page(Page::Profile { username: None, favorites: Some(vec![]) }));
}

#[test]
fn index_reflects_the_logged_in_state() {
    assert_eq!(
        index(Some("ann"), None).body,
        Body::Page(Page::Index {
            username: Some("ann".to_string()),
            logged_in: true,
            logout_message: None,
        })
    );
    for username in [None, Some("")] {
        let reply = index(username, None);
        assert_eq!(reply.status, 200);
        assert!(reply.cookies.is_empty());
        assert_eq!(
            reply.body,
            Body::Page(Page::Index { username: None, logged_in: false, logout_message: None })
        );
    }
}

#[test]
fn index_shows_the_logout_message_once() {
    let reply = index(None, Some("1"));
    assert_eq!(
        reply.body,
        Body::Page(Page::Index {
            username: None,
            logged_in: false,
            logout_message: Some("You have successfully logged out.".to_string()),
        })
    );
    assert_eq!(reply.cookies, vec![cookie("logout_notice", "")]);
    let again = index(None, Some(&reply.cookies[0].value));
    assert_eq!(
        again.body,
        Body::Page(Page::Index { username: None, logged_in: false, logout_message: None })
    );
    assert!(again.cookies.is_empty());
}

#[test]
fn logout_clears_the_identity_and_leaves_a_notice() {
    assert_eq!(
        logout(),
        Reply {
            status: 302,
            location: Some("/".to_string()),
            cookies: vec![
                cookie("username", ""),
                cookie("user_id", ""),
                cookie("logout_notice", "1"),
            ],
            body: Body::Empty,
        }
    );
}

#[test]
fn the_forms_are_pages() {
    assert_eq!(login().body, Body::Page(Page::Login { failure: None }));
    assert_eq!(login().status, 200);
    assert_eq!(register("").body, Body::Page(Page::Register { success: None }));
    assert_eq!(
        register("success=Success!").body,
        Body::Page(Page::Register { success: Some("success=Success!".to_string()) })
    );
}

#[test]
fn the_credential_goes_out_as_plain_text() {
    assert_eq!(api_key_handler("KEY"), text(200, "KEY"));
}

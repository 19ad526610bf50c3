use vstd::prelude::*;
use vstd::string::*;
use crate::accounts::{AccountStore, ProviderSnapshot, ProviderSnapshotView, StoreModel};
use crate::auth::{login_user, register_user, spec_login_user, spec_register_user};
use crate::decimal::{format_i64, i64_of_text, int_text, lemma_i64_text_round_trip, parse_i64};
use crate::errors::{AppError, Endpoint};
use crate::hashing::fresh_salt;
use crate::text::str_view;
use crate::http::{
    cookie_views, envelope_reply, page_reply, redirect, site_cookie, spec_envelope_reply,
    spec_page_reply, spec_redirect, spec_site_cookie, spec_text_reply, text_reply, Cookie,
    CookieView, LoginFailure, Page, PageView, Reply, ReplyView,
};

verus! {

/// The name of the cookie that carries the display name.
pub open spec fn username_cookie() -> Seq<char> {
    "username"@
}

/// The name of the cookie that carries the account identifier.
pub open spec fn account_cookie() -> Seq<char> {
    "user_id"@
}

/// The name of the cookie that carries the one-time notice of a logout.
pub open spec fn notice_cookie() -> Seq<char> {
    "logout_notice"@
}

/// The account that a request acts for: the number that its account cookie
/// spells; none without the cookie, and none where it spells no number.
pub open spec fn spec_account_of(cookie: Option<Seq<char>>) -> Option<i64> {
    match cookie {
        Some(text) => i64_of_text(text),
        None => None,
    }
}

/// Reads the account that a request acts for from its account cookie.
pub fn account_of(cookie: Option<&str>) -> (account_id: Option<i64>)
    ensures
        account_id == spec_account_of(str_view(cookie)),
{
    match cookie {
        Some(text) => parse_i64(text),
        None => None,
    }
}

/// The reply to a login that was turned down: the status of the error that
/// the failure stands for, which is 401 for both, and the login page with
/// the failure.
pub open spec fn spec_login_failure(failure: LoginFailure) -> ReplyView {
    spec_page_reply(
        failure.spec_error().spec_status(Endpoint::Login),
        PageView::Login { failure: Some(failure) },
    )
}

/// What a login answers. With the right secret: a redirect to `/` that sets
/// the display name and the account identifier as cookies. Else status 401
/// and the login page with the reason.
pub open spec fn spec_login(store: StoreModel, username: Seq<char>, password: Seq<u8>) -> ReplyView {
    match spec_login_user(store, username, password) {
        Ok(account) => spec_redirect(
            "/"@,
            seq![
                spec_site_cookie(username_cookie(), username),
                spec_site_cookie(account_cookie(), int_text(account.id as int)),
            ],
        ),
        Err(e) => spec_login_failure(LoginFailure::spec_of(e)),
    }
}

fn login_failure(failure: LoginFailure) -> (reply: Reply)
    ensures
        reply@ == spec_login_failure(failure),
        reply@.status == 401,
{
    page_reply(failure.error().status(Endpoint::Login), Page::Login { failure: Some(failure) })
}

/// Handles the login form.
pub fn login_handler(store: &AccountStore, username: &str, password: &str) -> (reply: Reply)
    ensures
        reply@ == spec_login(store@, username@, password.spec_bytes()),
        reply@.status == 302 <==> store@.verify(username@, password.spec_bytes()),
        reply@.status == 302 || reply@.status == 401,
{
    match login_user(store, username, password) {
        Ok(account) => {
            let id_text = format_i64(account.id);
            let mut cookies: Vec<Cookie> = Vec::new();
            cookies.push(site_cookie("username", username));
            cookies.push(site_cookie("user_id", id_text.as_str()));
            assert(cookie_views(cookies@) =~= seq![
                spec_site_cookie(username_cookie(), username@),
                spec_site_cookie(account_cookie(), int_text(account.id as int)),
            ]);
            redirect("/", cookies)
        },
        Err(e) => login_failure(LoginFailure::of(e)),
    }
}

/// The text that tells why a registration failed.
pub open spec fn spec_register_error_text(error: AppError) -> Seq<char> {
    match error {
        AppError::Validation => "Username and password are required"@,
        AppError::Conflict => "Username already exists"@,
        _ => "Failed to register user"@,
    }
}

/// The text that tells why a registration failed.
pub fn register_error_text(error: AppError) -> (text: &'static str)
    ensures
        text@ == spec_register_error_text(error),
{
    match error {
        AppError::Validation => "Username and password are required",
        AppError::Conflict => "Username already exists",
        _ => "Failed to register user",
    }
}

/// What a registration answers: a redirect to the registration page with a
/// note of success, or the status of the error with its text.
pub open spec fn spec_register_reply(outcome: Result<StoreModel, AppError>) -> ReplyView {
    match outcome {
        Ok(_) => spec_redirect("/register?success=Success!"@, Seq::<CookieView>::empty()),
        Err(e) => spec_text_reply(e.spec_status(Endpoint::Register), spec_register_error_text(e)),
    }
}

/// Handles the registration form with a salt that the caller has drawn.
pub fn register_with_salt(
    store: &mut AccountStore,
    username: &str,
    password: &str,
    salt: &[u8; 16],
) -> (reply: Reply)
    ensures
        final(store)@.valid(),
        reply@ == spec_register_reply(
            spec_register_user(old(store)@, username@, password.spec_bytes(), salt@),
        ),
        final(store)@ == match spec_register_user(
            old(store)@,
            username@,
            password.spec_bytes(),
            salt@,
        ) {
            Ok(next) => next,
            Err(_) => old(store)@,
        },
        reply@.status == 302 ==> final(store)@.verify(username@, password.spec_bytes()),
{
    match register_user(store, username, password, salt) {
        Ok(_) => {
            let cookies: Vec<Cookie> = Vec::new();
            assert(cookie_views(cookies@) =~= Seq::<CookieView>::empty());
            redirect("/register?success=Success!", cookies)
        },
        Err(e) => text_reply(e.status(Endpoint::Register), register_error_text(e)),
    }
}

/// Handles the registration form: draws a fresh salt and registers with it.
/// Whatever the salt, the outcome is that of `register_with_salt`.
pub fn register_handler(store: &mut AccountStore, username: &str, password: &str) -> (reply: Reply)
    ensures
        final(store)@.valid(),
        exists|salt: Seq<u8>|
            {
                &&& salt.len() == 16
                &&& reply@ == spec_register_reply(
                    #[trigger] spec_register_user(old(store)@, username@, password.spec_bytes(), salt),
                )
                &&& final(store)@ == match spec_register_user(
                    old(store)@,
                    username@,
                    password.spec_bytes(),
                    salt,
                ) {
                    Ok(next) => next,
                    Err(_) => old(store)@,
                }
            },
        reply@.status == 302 ==> final(store)@.verify(username@, password.spec_bytes()),
{
    let salt = fresh_salt();
    let reply = register_with_salt(store, username, password, &salt);
    proof {
        let outcome = spec_register_user(old(store)@, username@, password.spec_bytes(), salt@);
        assert(salt@.len() == 16);
        assert(reply@ == spec_register_reply(outcome));
    }
    reply
}

/// What saving a favorite does to the store: nothing without an account, and
/// nothing where the store fails; else the favorite goes in.
pub open spec fn spec_save_favorite(
    store: StoreModel,
    account_cookie: Option<Seq<char>>,
    snapshot: ProviderSnapshotView,
) -> StoreModel {
    match spec_account_of(account_cookie) {
        Some(account_id) => match store.add_favorite(account_id, snapshot) {
            Ok(next) => next,
            Err(_) => store,
        },
        None => store,
    }
}

/// What saving a favorite answers: 401 without the account cookie and where
/// the cookie spells no number, 500 where the store fails, else 200; each
/// with the status envelope.
pub open spec fn spec_save_favorite_reply(
    store: StoreModel,
    account_cookie: Option<Seq<char>>,
    snapshot: ProviderSnapshotView,
) -> ReplyView {
    match account_cookie {
        None => spec_envelope_reply(
            AppError::Auth.spec_status(Endpoint::Favorites),
            "error"@,
            "User not logged in. Please log in and try again."@,
        ),
        Some(text) => match i64_of_text(text) {
            None => spec_envelope_reply(
                AppError::Auth.spec_status(Endpoint::Favorites),
                "error"@,
                "Invalid user ID."@,
            ),
            Some(account_id) => match store.add_favorite(account_id, snapshot) {
                Ok(_) => spec_envelope_reply(200, "success"@, "Favorite saved successfully."@),
                Err(e) => spec_envelope_reply(
                    e.spec_status(Endpoint::Favorites),
                    "error"@,
                    "Failed to save favorite. Please try again later."@,
                ),
            },
        },
    }
}

/// Handles a request to save a favorite. Without the account cookie the
/// answer is 401 and the store stays as it is.
pub fn save_favorites(
    store: &mut AccountStore,
    account_cookie: Option<&str>,
    snapshot: &ProviderSnapshot,
) -> (reply: Reply)
    ensures
        final(store)@.valid(),
        reply@ == spec_save_favorite_reply(old(store)@, str_view(account_cookie), snapshot@),
        final(store)@ == spec_save_favorite(old(store)@, str_view(account_cookie), snapshot@),
        account_cookie is None ==> reply@.status == 401 && final(store)@ == old(store)@,
{
    proof {
        use_type_invariant(&*store);
    }
    let text = match account_cookie {
        Some(text) => text,
        None => {
            return envelope_reply(
                AppError::Auth.status(Endpoint::Favorites),
                "error",
                "User not logged in. Please log in and try again.",
            );
        },
    };
    let account_id = match parse_i64(text) {
        Some(id) => id,
        None => {
            return envelope_reply(
                AppError::Auth.status(Endpoint::Favorites),
                "error",
                "Invalid user ID.",
            );
        },
    };
    match store.add_favorite(account_id, snapshot) {
        Ok(_) => envelope_reply(200, "success", "Favorite saved successfully."),
        Err(e) => envelope_reply(
            e.status(Endpoint::Favorites),
            "error",
            "Failed to save favorite. Please try again later.",
        ),
    }
}

/// What the profile page shows: the display name as the cookie gives it, and
/// the favorites of the account that the account cookie spells; no list
/// where it spells none.
pub open spec fn spec_profile(
    store: StoreModel,
    account_cookie: Option<Seq<char>>,
    username_cookie: Option<Seq<char>>,
) -> ReplyView {
    spec_page_reply(
        200,
        PageView::Profile {
            username: username_cookie,
            favorites: match spec_account_of(account_cookie) {
                Some(account_id) => Some(store.list_favorites(account_id)),
                None => None,
            },
        },
    )
}

/// Handles a request for the profile page.
pub fn profile(store: &AccountStore, account_cookie: Option<&str>, username_cookie: Option<&str>)
    -> (reply: Reply)
    ensures
        reply@ == spec_profile(store@, str_view(account_cookie), str_view(username_cookie)),
{
    let username = match username_cookie {
        Some(name) => Some(String::from_str(name)),
        None => None,
    };
    let favorites = match account_of(account_cookie) {
        Some(account_id) => Some(store.list_favorites(account_id)),
        None => None,
    };
    page_reply(200, Page::Profile { username, favorites })
}

/// Whether a request comes from a logged-in client: it carries a display
/// name, and the name is not empty.
pub open spec fn spec_logged_in(username_cookie: Option<Seq<char>>) -> bool {
    match username_cookie {
        Some(name) => name.len() > 0,
        None => false,
    }
}

/// Whether a request comes from a logged-in client.
pub fn logged_in(username_cookie: Option<&str>) -> (yes: bool)
    ensures
        yes == spec_logged_in(str_view(username_cookie)),
{
    match username_cookie {
        Some(name) => !name.is_empty(),
        None => false,
    }
}

/// Whether a request carries the notice of a logout.
pub open spec fn spec_has_notice(notice: Option<Seq<char>>) -> bool {
    notice == Some("1"@)
}

/// What the index page shows: the display name of a logged-in client, and,
/// for a request with the logout notice, the message of the logout. Such a
/// reply clears the notice, so that the message shows once.
pub open spec fn spec_index(username_cookie: Option<Seq<char>>, notice: Option<Seq<char>>)
    -> ReplyView {
    ReplyView {
        status: 200,
        location: None,
        cookies: if spec_has_notice(notice) {
            seq![spec_site_cookie(notice_cookie(), ""@)]
        } else {
            Seq::<CookieView>::empty()
        },
        body: crate::http::BodyView::Page(
            PageView::Index {
                username: if spec_logged_in(username_cookie) {
                    username_cookie
                } else {
                    None
                },
                logged_in: spec_logged_in(username_cookie),
                logout_message: if spec_has_notice(notice) {
                    Some("You have successfully logged out."@)
                } else {
                    None
                },
            },
        ),
    }
}

/// Handles a request for the index page.
pub fn index(username_cookie: Option<&str>, notice: Option<&str>) -> (reply: Reply)
    ensures
        reply@ == spec_index(str_view(username_cookie), str_view(notice)),
{
    let is_logged_in = logged_in(username_cookie);
    let username = match username_cookie {
        Some(name) => if is_logged_in {
            Some(String::from_str(name))
        } else {
            None
        },
        None => None,
    };
    let noticed = match notice {
        Some(text) => crate::text::same_text(text, "1"),
        None => false,
    };
    let mut cookies: Vec<Cookie> = Vec::new();
    let logout_message = if noticed {
        cookies.push(site_cookie("logout_notice", ""));
        Some(String::from_str("You have successfully logged out."))
    } else {
        None
    };
    proof {
        if noticed {
            assert(cookie_views(cookies@) =~= seq![spec_site_cookie(notice_cookie(), ""@)]);
        } else {
            assert(cookie_views(cookies@) =~= Seq::<CookieView>::empty());
        }
    }
    Reply {
        status: 200,
        location: None,
        cookies,
        body: crate::http::Body::Page(
            Page::Index { username, logged_in: is_logged_in, logout_message },
        ),
    }
}

/// What a logout answers: a redirect to `/` that empties the two identity
/// cookies and leaves the notice of the logout for the next index page.
pub open spec fn spec_logout() -> ReplyView {
    spec_redirect(
        "/"@,
        seq![
            spec_site_cookie(username_cookie(), ""@),
            spec_site_cookie(account_cookie(), ""@),
            spec_site_cookie(notice_cookie(), "1"@),
        ],
    )
}

/// Handles a logout.
pub fn logout() -> (reply: Reply)
    ensures
        reply@ == spec_logout(),
{
    let mut cookies: Vec<Cookie> = Vec::new();
    cookies.push(site_cookie("username", ""));
    cookies.push(site_cookie("user_id", ""));
    cookies.push(site_cookie("logout_notice", "1"));
    assert(cookie_views(cookies@) =~= seq![
        spec_site_cookie(username_cookie(), ""@),
        spec_site_cookie(account_cookie(), ""@),
        spec_site_cookie(notice_cookie(), "1"@),
    ]);
    redirect("/", cookies)
}

/// Handles a request for the login form.
pub fn login() -> (reply: Reply)
    ensures
        reply@ == spec_page_reply(200, PageView::Login { failure: None }),
{
    page_reply(200, Page::Login { failure: None })
}

/// What the registration form shows: the query string of the request as the
/// note of success, where the request has one.
pub open spec fn spec_register_page(query: Seq<char>) -> ReplyView {
    spec_page_reply(
        200,
        PageView::Register {
            success: if query.len() > 0 {
                Some(query)
            } else {
                None
            },
        },
    )
}

/// Handles a request for the registration form.
pub fn register(query: &str) -> (reply: Reply)
    ensures
        reply@ == spec_register_page(query@),
{
    let success = if query.is_empty() {
        None
    } else {
        Some(String::from_str(query))
    };
    page_reply(200, Page::Register { success })
}

/// Hands the map credential to the client as plain text.
pub fn api_key_handler(api_key: &str) -> (reply: Reply)
    ensures
        reply@ == spec_text_reply(200, api_key@),
{
    text_reply(200, api_key)
}

/// The account cookie that a login sets spells the identifier of the
/// account that logged in: a later request that carries it acts for that
/// account.
pub proof fn law_login_cookie_names_the_account(
    store: StoreModel,
    username: Seq<char>,
    password: Seq<u8>,
)
    requires
        store.verify(username, password),
    ensures
        spec_login(store, username, password).status == 302,
        spec_login(store, username, password).cookies.len() == 2,
        spec_login(store, username, password).cookies[0] == spec_site_cookie(
            username_cookie(),
            username,
        ),
        spec_login(store, username, password).cookies[1].name == account_cookie(),
        spec_account_of(Some(spec_login(store, username, password).cookies[1].value)) == Some(
            store.find(username).unwrap().id,
        ),
{
    lemma_i64_text_round_trip(store.find(username).unwrap().id);
}

/// A logout leaves no account behind: the account cookie that it sets
/// spells no identifier.
pub proof fn law_logout_clears_the_account()
    ensures
        spec_logout().cookies[1].name == account_cookie(),
        spec_account_of(Some(spec_logout().cookies[1].value)) is None,
        !spec_logged_in(Some(spec_logout().cookies[0].value)),
{
    reveal_strlit("");
    assert(spec_logout().cookies[1].value =~= Seq::<char>::empty());
}

} // verus!

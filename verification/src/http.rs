use vstd::prelude::*;
use vstd::string::*;
use crate::accounts::{favorite_views, Favorite, FavoriteView};
use crate::errors::AppError;
use crate::geo::Coordinates;
use crate::text::text_view;
use crate::providers::{provider_views, HealthProvider, HealthProviderView};

verus! {

/// A cookie that a reply sets.
#[derive(Debug, PartialEq, Eq)]
pub struct Cookie {
    pub name: String,
    pub value: String,
    pub path: String,
}

/// A cookie as its contract sees it.
pub struct CookieView {
    pub name: Seq<char>,
    pub value: Seq<char>,
    pub path: Seq<char>,
}

impl View for Cookie {
    type V = CookieView;

    open spec fn view(&self) -> CookieView {
        CookieView { name: self.name@, value: self.value@, path: self.path@ }
    }
}

/// The cookies of a list as their contracts see them.
pub open spec fn cookie_views(cookies: Seq<Cookie>) -> Seq<CookieView> {
    cookies.map_values(|c: Cookie| c@)
}

/// Why a login was turned down.
#[derive(Clone, Copy, Debug, PartialEq, Eq, Structural)]
pub enum LoginFailure {
    InvalidCredentials,
    UnknownUser,
}

impl LoginFailure {
    /// The name under which the login template finds the message.
    pub open spec fn spec_key(self) -> Seq<char> {
        match self {
            LoginFailure::InvalidCredentials => "error_invalid_credentials"@,
            LoginFailure::UnknownUser => "error_not_found"@,
        }
    }

    /// The name under which the login template finds the message.
    pub fn key(&self) -> (name: &'static str)
        ensures
            name@ == self.spec_key(),
    {
        match self {
            LoginFailure::InvalidCredentials => "error_invalid_credentials",
            LoginFailure::UnknownUser => "error_not_found",
        }
    }

    /// The message that the login page shows.
    pub open spec fn spec_message(self) -> Seq<char> {
        match self {
            LoginFailure::InvalidCredentials => "Invalid credentials. Please try again."@,
            LoginFailure::UnknownUser => "User not found. Please register for an account."@,
        }
    }

    /// The message that the login page shows.
    pub fn message(&self) -> (text: &'static str)
        ensures
            text@ == self.spec_message(),
    {
        match self {
            LoginFailure::InvalidCredentials => "Invalid credentials. Please try again.",
            LoginFailure::UnknownUser => "User not found. Please register for an account.",
        }
    }

    /// The failure that an error of a login shows as: `NotFound` as an unknown
    /// user, any other as invalid credentials.
    pub open spec fn spec_of(error: AppError) -> LoginFailure {
        match error {
            AppError::NotFound => LoginFailure::UnknownUser,
            _ => LoginFailure::InvalidCredentials,
        }
    }

    /// The failure that an error of a login shows as.
    pub fn of(error: AppError) -> (failure: LoginFailure)
        ensures
            failure == LoginFailure::spec_of(error),
    {
        match error {
            AppError::NotFound => LoginFailure::UnknownUser,
            _ => LoginFailure::InvalidCredentials,
        }
    }

    /// The error that the failure stands for: a wrong secret is `Auth`, an
    /// unknown username is `NotFound`.
    pub open spec fn spec_error(self) -> AppError {
        match self {
            LoginFailure::InvalidCredentials => AppError::Auth,
            LoginFailure::UnknownUser => AppError::NotFound,
        }
    }

    /// The error that the failure stands for.
    pub fn error(&self) -> (e: AppError)
        ensures
            e == self.spec_error(),
    {
        match self {
            LoginFailure::InvalidCredentials => AppError::Auth,
            LoginFailure::UnknownUser => AppError::NotFound,
        }
    }
}

/// A page for the template engine: which template, and what it is given.
#[derive(Debug, PartialEq, Eq)]
pub enum Page {
    Index { username: Option<String>, logged_in: bool, logout_message: Option<String> },
    Login { failure: Option<LoginFailure> },
    Register { success: Option<String> },
    Profile { username: Option<String>, favorites: Option<Vec<Favorite>> },
}

/// A page as its contract sees it.
pub enum PageView {
    Index { username: Option<Seq<char>>, logged_in: bool, logout_message: Option<Seq<char>> },
    Login { failure: Option<LoginFailure> },
    Register { success: Option<Seq<char>> },
    Profile { username: Option<Seq<char>>, favorites: Option<Seq<FavoriteView>> },
}

/// The favorites of a list that may be absent.
pub open spec fn optional_favorites(favorites: Option<Vec<Favorite>>) -> Option<Seq<FavoriteView>> {
    match favorites {
        Some(list) => Some(favorite_views(list@)),
        None => None,
    }
}

impl Page {
    /// The name of the template that renders the page.
    pub open spec fn spec_template(self) -> Seq<char> {
        match self {
            Page::Index { .. } => "index"@,
            Page::Login { .. } => "login"@,
            Page::Register { .. } => "register"@,
            Page::Profile { .. } => "profile"@,
        }
    }

    /// The name of the template that renders the page.
    pub fn template(&self) -> (name: &'static str)
        ensures
            name@ == self.spec_template(),
    {
        match self {
            Page::Index { .. } => "index",
            Page::Login { .. } => "login",
            Page::Register { .. } => "register",
            Page::Profile { .. } => "profile",
        }
    }
}

impl View for Page {
    type V = PageView;

    open spec fn view(&self) -> PageView {
        match *self {
            Page::Index { username, logged_in, logout_message } => PageView::Index {
                username: text_view(username),
                logged_in,
                logout_message: text_view(logout_message),
            },
            Page::Login { failure } => PageView::Login { failure },
            Page::Register { success } => PageView::Register { success: text_view(success) },
            Page::Profile { username, favorites } => PageView::Profile {
                username: text_view(username),
                favorites: optional_favorites(favorites),
            },
        }
    }
}

/// What a reply carries.
#[derive(Debug, PartialEq, Eq)]
pub enum Body {
    Empty,
    /// Plain text.
    Text(String),
    /// The JSON status envelope: a status word and a message.
    Envelope { status: String, message: String },
    /// A page to render.
    Page(Page),
    /// The JSON payload of a provider search.
    Search { coordinates: Coordinates, providers: Vec<HealthProvider>, is_logged_in: bool },
}

/// A body as its contract sees it.
pub enum BodyView {
    Empty,
    Text(Seq<char>),
    Envelope { status: Seq<char>, message: Seq<char> },
    Page(PageView),
    Search { coordinates: Coordinates, providers: Seq<HealthProviderView>, is_logged_in: bool },
}

impl View for Body {
    type V = BodyView;

    open spec fn view(&self) -> BodyView {
        match *self {
            Body::Empty => BodyView::Empty,
            Body::Text(text) => BodyView::Text(text@),
            Body::Envelope { status, message } => BodyView::Envelope {
                status: status@,
                message: message@,
            },
            Body::Page(page) => BodyView::Page(page@),
            Body::Search { coordinates, providers, is_logged_in } => BodyView::Search {
                coordinates,
                providers: provider_views(providers@),
                is_logged_in,
            },
        }
    }
}

/// The answer to a request: the status, where to go for a redirect, the
/// cookies to set, and the body.
#[derive(Debug, PartialEq, Eq)]
pub struct Reply {
    pub status: u16,
    pub location: Option<String>,
    pub cookies: Vec<Cookie>,
    pub body: Body,
}

/// A reply as its contract sees it.
pub struct ReplyView {
    pub status: u16,
    pub location: Option<Seq<char>>,
    pub cookies: Seq<CookieView>,
    pub body: BodyView,
}

impl View for Reply {
    type V = ReplyView;

    open spec fn view(&self) -> ReplyView {
        ReplyView {
            status: self.status,
            location: text_view(self.location),
            cookies: cookie_views(self.cookies@),
            body: self.body@,
        }
    }
}

/// The cookie `name` with the value `value`, for the whole site.
pub open spec fn spec_site_cookie(name: Seq<char>, value: Seq<char>) -> CookieView {
    CookieView { name, value, path: "/"@ }
}

/// Makes the cookie `name` with the value `value`, for the whole site.
pub fn site_cookie(name: &str, value: &str) -> (cookie: Cookie)
    ensures
        cookie@ == spec_site_cookie(name@, value@),
{
    Cookie {
        name: String::from_str(name),
        value: String::from_str(value),
        path: String::from_str("/"),
    }
}

/// A reply with plain text and no cookies.
pub open spec fn spec_text_reply(status: u16, text: Seq<char>) -> ReplyView {
    ReplyView {
        status,
        location: None,
        cookies: Seq::<CookieView>::empty(),
        body: BodyView::Text(text),
    }
}

/// Makes a reply with plain text and no cookies.
pub fn text_reply(status: u16, text: &str) -> (reply: Reply)
    ensures
        reply@ == spec_text_reply(status, text@),
{
    let reply = Reply {
        status,
        location: None,
        cookies: Vec::new(),
        body: Body::Text(String::from_str(text)),
    };
    assert(reply@.cookies =~= Seq::<CookieView>::empty());
    reply
}

/// A reply with the JSON status envelope and no cookies.
pub open spec fn spec_envelope_reply(status: u16, word: Seq<char>, message: Seq<char>) -> ReplyView {
    ReplyView {
        status,
        location: None,
        cookies: Seq::<CookieView>::empty(),
        body: BodyView::Envelope { status: word, message },
    }
}

/// Makes a reply with the JSON status envelope and no cookies.
pub fn envelope_reply(status: u16, word: &str, message: &str) -> (reply: Reply)
    ensures
        reply@ == spec_envelope_reply(status, word@, message@),
{
    let reply = Reply {
        status,
        location: None,
        cookies: Vec::new(),
        body: Body::Envelope { status: String::from_str(word), message: String::from_str(message) },
    };
    assert(reply@.cookies =~= Seq::<CookieView>::empty());
    reply
}

/// A reply that renders a page, with no cookies.
pub open spec fn spec_page_reply(status: u16, page: PageView) -> ReplyView {
    ReplyView {
        status,
        location: None,
        cookies: Seq::<CookieView>::empty(),
        body: BodyView::Page(page),
    }
}

/// Makes a reply that renders a page, with no cookies.
pub fn page_reply(status: u16, page: Page) -> (reply: Reply)
    ensures
        reply@ == spec_page_reply(status, page@),
{
    let reply = Reply { status, location: None, cookies: Vec::new(), body: Body::Page(page) };
    assert(reply@.cookies =~= Seq::<CookieView>::empty());
    reply
}

/// A redirect to `location` that sets `cookies`.
pub open spec fn spec_redirect(location: Seq<char>, cookies: Seq<CookieView>) -> ReplyView {
    ReplyView { status: 302, location: Some(location), cookies, body: BodyView::Empty }
}

/// Makes a redirect to `location` that sets `cookies`.
pub fn redirect(location: &str, cookies: Vec<Cookie>) -> (reply: Reply)
    ensures
        reply@ == spec_redirect(location@, cookie_views(cookies@)),
{
    Reply { status: 302, location: Some(String::from_str(location)), cookies, body: Body::Empty }
}

} // verus!

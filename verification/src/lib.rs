//! The verified core of a small web service that finds healthcare providers
//! near a place, keeps user accounts and lets a user save favorite
//! providers.
//!
//! The library decides; its caller does the input and output. It builds the
//! addresses to fetch from the geocoder, the places directory and the
//! registry, reads their answers, keeps the account store, and says what
//! each request is answered with. Its functions are verified against their
//! contracts with Verus. The few calls into other crates stand behind
//! functions whose contracts are believed; the doc comment of each says what
//! it claims.
//!
//! Numbers with a fraction are fixed-point integers throughout: a
//! coordinate of `377_946_000` is 37.7946 degrees.
//!
//! - [`decimal`], [`fixed`], [`text`], [`encoding`]: numbers as text, and
//!   text in web addresses.
//! - [`json`]: the tree of a JSON document.
//! - [`geo`], [`geocode`], [`providers`]: the geocoder and the provider
//!   search.
//! - [`hashing`], [`validation`], [`accounts`], [`auth`]: secrets, accounts
//!   and favorites.
//! - [`errors`], [`http`], [`handlers`], [`services`], [`config`]: the
//!   requests and their replies.

pub mod accounts;
pub mod auth;
pub mod config;
pub mod decimal;
pub mod encoding;
pub mod errors;
pub mod fixed;
pub mod geo;
pub mod geocode;
pub mod handlers;
pub mod hashing;
pub mod http;
pub mod json;
pub mod providers;
pub mod services;
pub mod text;
pub mod validation;

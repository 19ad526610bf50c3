use vstd::prelude::*;
use vstd::string::*;

verus! {

/// Shortest password, in bytes, that `validate_password` accepts.
pub const MIN_PASSWORD_BYTES: usize = 8;

/// A password is acceptable when its UTF-8 encoding holds at least
/// `MIN_PASSWORD_BYTES` bytes.
pub fn validate_password(password: &str) -> (ok: bool)
    ensures
        ok == (password.spec_bytes().len() >= MIN_PASSWORD_BYTES),
{
    password.as_bytes().len() >= MIN_PASSWORD_BYTES
}

/// The pattern of an email address: one or more word characters, points or
/// hyphens; an `@`; the same again; a point; one or more word characters.
pub const EMAIL_PATTERN: &'static str = "^[\\w\\.-]+@[\\w\\.-]+\\.\\w+$";

/// Whether a text matches a pattern, as the `regex` crate decides it; `None`
/// where the crate does not accept the pattern.
pub uninterp spec fn regex_matches(pattern: Seq<char>, text: Seq<char>) -> Option<bool>;

/// Calls `regex::Regex::new` and then `Regex::is_match`. The result is a
/// function of the pattern and the text, named `regex_matches`; a pattern
/// that the crate refuses gives `None`.
#[verifier::external_body]
fn regex_is_match(pattern: &str, text: &str) -> (found: Option<bool>)
    ensures
        found == regex_matches(pattern@, text@),
{
    regex::Regex::new(pattern).ok().map(|compiled| compiled.is_match(text))
}

/// What `regex_matches` says of a text that `validate_email` accepts.
pub open spec fn spec_valid_email(verdict: Option<bool>) -> bool {
    verdict == Some(true)
}

/// Whether a verdict of the pattern matcher accepts.
pub fn email_verdict(verdict: Option<bool>) -> (ok: bool)
    ensures
        ok == spec_valid_email(verdict),
{
    match verdict {
        Some(matched) => matched,
        None => false,
    }
}

/// Whether a text has the form of an email address: whether it matches
/// `EMAIL_PATTERN`.
pub fn validate_email(email: &str) -> (ok: bool)
    ensures
        ok == spec_valid_email(regex_matches(EMAIL_PATTERN@, email@)),
{
    email_verdict(regex_is_match(EMAIL_PATTERN, email))
}

} // verus!

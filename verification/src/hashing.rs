use vstd::prelude::*;
use vstd::string::*;
use crate::errors::AppError;
use crate::text::text_view;

verus! {

/// The longest password, in bytes, that can be hashed.
pub const MAX_PASSWORD_BYTES: usize = 0xFFFF_FFFF;

/// The encoded Argon2 hash of a password under a salt, with the default
/// settings of the `argon2` crate; `None` where the crate refuses the two.
pub uninterp spec fn argon2_encoded(password: Seq<u8>, salt: Seq<u8>) -> Option<Seq<char>>;

/// Whether an encoded Argon2 hash accepts a password; `None` where the crate
/// cannot decode the hash or refuses what it decoded.
pub uninterp spec fn argon2_verified(encoded: Seq<char>, password: Seq<u8>) -> Option<bool>;

/// Calls `argon2::hash_encoded` with `argon2::Config::default()`. The result
/// is a function of the password and the salt, named `argon2_encoded`. Two
/// things are taken from the crate beyond the name. It refuses exactly a salt
/// of fewer than 8 or more than 2^32 - 1 bytes and a password of more than
/// 2^32 - 1 bytes: those are the checks of its `Context::new` that the
/// default settings leave open. And the hash it yields accepts the password
/// it was made from, which its own documentation shows as its first example.
#[verifier::external_body]
fn argon2_hash(password: &[u8], salt: &[u8]) -> (encoded: Option<String>)
    ensures
        text_view(encoded) == argon2_encoded(password@, salt@),
        encoded is Some <==> (8 <= salt@.len() && salt@.len() <= 0xFFFF_FFFF && password@.len()
            <= 0xFFFF_FFFF),
        encoded matches Some(hash) ==> argon2_verified(hash@, password@) == Some(true),
{
    argon2::hash_encoded(password, salt, &argon2::Config::default()).ok()
}

/// Calls `argon2::verify_encoded`. The result is a function of the encoded
/// hash and the password, named `argon2_verified`; an error of the crate is
/// `None`. The crate allocates the memory that the encoded hash asks for,
/// so a hash from an untrusted hand can ask for more than the machine has.
#[verifier::external_body]
fn argon2_verify(encoded: &str, password: &[u8]) -> (verdict: Option<bool>)
    ensures
        verdict == argon2_verified(encoded@, password@),
{
    argon2::verify_encoded(encoded, password).ok()
}

/// Whether sixteen bytes are those of a random UUID, as version 4 of the
/// UUID standard lays them out: the upper half of byte 6 holds the version,
/// 4, and the two top bits of byte 8 hold the variant, 1 and 0. The other
/// 122 bits are free.
pub open spec fn is_random_uuid(bytes: Seq<u8>) -> bool {
    &&& bytes.len() == 16
    &&& bytes[6] / 16 == 4
    &&& bytes[8] / 64 == 2
}

/// Calls `uuid::Uuid::new_v4` and hands out its sixteen bytes. The crate
/// draws 128 bits from the system's random source, sets the version and the
/// variant in them and lays them out with the highest byte first; so every
/// outcome is a random UUID in the sense of `is_random_uuid`, and nothing
/// is claimed of the 122 bits that are drawn. The crate panics where the
/// system has no randomness to give.
#[verifier::external_body]
pub(crate) fn random_salt() -> (salt: [u8; 16])
    ensures
        is_random_uuid(salt@),
{
    uuid::Uuid::new_v4().into_bytes()
}

/// A fresh salt for one account: the bytes of a random UUID. Which bytes,
/// chance decides; the layout is what holds of every salt.
pub fn fresh_salt() -> (salt: [u8; 16])
    ensures
        is_random_uuid(salt@),
{
    random_salt()
}

/// The encoded hash that `hash_password` yields: `Validation` where the
/// password cannot be hashed.
pub open spec fn spec_hash_password(password: Seq<u8>, salt: Seq<u8>) -> Result<
    Seq<char>,
    AppError,
> {
    match argon2_encoded(password, salt) {
        Some(hash) => Ok(hash),
        None => Err(AppError::Validation),
    }
}

/// The characters of a hash, or the error in its place.
pub open spec fn text_result_view(hashed: Result<String, AppError>) -> Result<Seq<char>, AppError> {
    match hashed {
        Ok(hash) => Ok(hash@),
        Err(e) => Err(e),
    }
}

/// Hashes a password under a salt of its own. Fails with `Validation` for a
/// password of more than `MAX_PASSWORD_BYTES` bytes, and for no other. The
/// hash accepts the password it was made from.
pub fn hash_password(password: &str, salt: &[u8; 16]) -> (hashed: Result<String, AppError>)
    ensures
        text_result_view(hashed) == spec_hash_password(password.spec_bytes(), salt@),
        hashed is Ok <==> password.spec_bytes().len() <= MAX_PASSWORD_BYTES,
        hashed matches Ok(hash) ==> spec_verify_password(hash@, password.spec_bytes()),
{
    match argon2_hash(password.as_bytes(), salt.as_slice()) {
        Some(hash) => Ok(hash),
        None => Err(AppError::Validation),
    }
}

/// Whether a verdict on a password accepts it: the hash decoded, and it
/// accepted.
pub open spec fn spec_password_verdict(verdict: Option<bool>) -> bool {
    verdict == Some(true)
}

/// Whether a verdict on a password accepts it.
pub fn password_verdict(verdict: Option<bool>) -> (accepted: bool)
    ensures
        accepted == spec_password_verdict(verdict),
{
    match verdict {
        Some(accepted) => accepted,
        None => false,
    }
}

/// Whether `verify_password` accepts: the hash decodes and accepts the
/// password.
pub open spec fn spec_verify_password(hashed: Seq<char>, password: Seq<u8>) -> bool {
    spec_password_verdict(argon2_verified(hashed, password))
}

/// Whether an encoded hash accepts a password. A hash that does not decode
/// accepts nothing.
pub fn verify_password(hashed: &str, password: &str) -> (accepted: bool)
    ensures
        accepted == spec_verify_password(hashed@, password.spec_bytes()),
{
    password_verdict(argon2_verify(hashed, password.as_bytes()))
}

} // verus!

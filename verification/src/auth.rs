use vstd::prelude::*;
use vstd::string::*;
use crate::accounts::{Account, AccountStore, AccountView, StoreModel};
use crate::errors::AppError;
use crate::hashing::{spec_verify_password, verify_password};

verus! {

/// A text is empty exactly when its UTF-8 form holds no byte.
pub proof fn lemma_empty_text_has_no_bytes(text: Seq<char>)
    ensures
        vstd::utf8::encode_utf8(text).len() == 0 <==> text.len() == 0,
{
    if text.len() > 0 {
        let first = vstd::utf8::encode_scalar(text[0] as u32);
        assert(first.len() >= 1);
    }
}

/// What registering a user with a given salt does to the store. An empty
/// username or secret is a `Validation` error; the rest is
/// `StoreModel::register`.
pub open spec fn spec_register_user(
    store: StoreModel,
    username: Seq<char>,
    password: Seq<u8>,
    salt: Seq<u8>,
) -> Result<StoreModel, AppError> {
    if username.len() == 0 || password.len() == 0 {
        Err(AppError::Validation)
    } else {
        store.register(username, password, salt)
    }
}

/// Registers a user: checks that neither the username nor the secret is
/// empty, then makes the account with the hash of the secret under the
/// salt. A success leaves the store so that `login_user` accepts the pair.
pub fn register_user(store: &mut AccountStore, username: &str, password: &str, salt: &[u8; 16]) -> (
    registered: Result<Account, AppError>)
    ensures
        final(store)@.valid(),
        match spec_register_user(old(store)@, username@, password.spec_bytes(), salt@) {
            Ok(next) => {
                &&& final(store)@ == next
                &&& registered matches Ok(account)
                &&& final(store)@.find(username@) == Some(account@)
                &&& spec_login_user(final(store)@, username@, password.spec_bytes()) == Ok::<
                    AccountView,
                    AppError,
                >(account@)
            },
            Err(e) => registered == Err::<Account, AppError>(e) && final(store)@ == old(store)@,
        },
{
    proof {
        lemma_empty_text_has_no_bytes(password@);
        use_type_invariant(&*store);
    }
    if username.is_empty() || password.as_bytes().len() == 0 {
        return Err(AppError::Validation);
    }
    store.create_account(username, password, salt)
}

/// Whom a login lets in: the account with the username, where its hash
/// accepts the secret. `NotFound` where no account carries the username,
/// `Auth` where the secret is wrong.
pub open spec fn spec_login_user(store: StoreModel, username: Seq<char>, password: Seq<u8>) -> Result<
    AccountView,
    AppError,
> {
    match store.find(username) {
        Some(account) => if spec_verify_password(account.password_hash, password) {
            Ok(account)
        } else {
            Err(AppError::Auth)
        },
        None => Err(AppError::NotFound),
    }
}

/// Checks a username and a secret against the store.
pub fn login_user<'a>(store: &'a AccountStore, username: &str, password: &str) -> (admitted: Result<
    &'a Account,
    AppError,
>)
    ensures
        match admitted {
            Ok(account) => spec_login_user(store@, username@, password.spec_bytes()) == Ok::<
                AccountView,
                AppError,
            >(account@),
            Err(e) => spec_login_user(store@, username@, password.spec_bytes()) == Err::<
                AccountView,
                AppError,
            >(e),
        },
        admitted is Ok <==> store@.verify(username@, password.spec_bytes()),
{
    match store.find_by_username(username) {
        Ok(account) => {
            if verify_password(account.password_hash.as_str(), password) {
                Ok(account)
            } else {
                Err(AppError::Auth)
            }
        },
        Err(_) => Err(AppError::NotFound),
    }
}

} // verus!

use vstd::prelude::*;
use vstd::string::*;

verus! {

/// Why a request, or the start of the service, failed.
#[derive(Clone, Copy, Debug, PartialEq, Eq, Structural)]
pub enum AppError {
    /// A required setting is absent; the service does not start.
    ConfigMissing,
    /// A call to the geocoder, the places directory or the registry failed,
    /// or its answer does not have the expected shape.
    Upstream,
    /// The geocoder knows no match, or no account carries the username.
    NotFound,
    /// The username or the secret is empty.
    Validation,
    /// The username is taken.
    Conflict,
    /// The secret is wrong, or the request carries no usable account marker.
    Auth,
    /// The account store failed.
    Store,
}

/// The endpoint that surfaces an error; `NotFound` is a different status on
/// the search endpoint than on the others.
#[derive(Clone, Copy, Debug, PartialEq, Eq, Structural)]
pub enum Endpoint {
    Services,
    Register,
    Login,
    Favorites,
    Profile,
}

impl AppError {
    /// The one HTTP status under which `endpoint` reports the error.
    pub open spec fn spec_status(self, endpoint: Endpoint) -> u16 {
        match self {
            AppError::ConfigMissing => 500,
            AppError::Upstream => 500,
            AppError::NotFound => if endpoint == Endpoint::Services {
                400
            } else {
                401
            },
            AppError::Validation => 400,
            AppError::Conflict => 409,
            AppError::Auth => 401,
            AppError::Store => 500,
        }
    }

    /// The HTTP status under which `endpoint` reports the error.
    pub fn status(&self, endpoint: Endpoint) -> (code: u16)
        ensures
            code == self.spec_status(endpoint),
    {
        match self {
            AppError::ConfigMissing => 500,
            AppError::Upstream => 500,
            AppError::NotFound => if endpoint == Endpoint::Services {
                400
            } else {
                401
            },
            AppError::Validation => 400,
            AppError::Conflict => 409,
            AppError::Auth => 401,
            AppError::Store => 500,
        }
    }

    /// The generic text that goes to the client; it carries no detail of the
    /// failure.
    pub open spec fn spec_message(self) -> Seq<char> {
        match self {
            AppError::ConfigMissing => "Internal Server Error"@,
            AppError::Upstream => "Internal Server Error"@,
            AppError::NotFound => "Not Found"@,
            AppError::Validation => "Bad Request"@,
            AppError::Conflict => "Conflict"@,
            AppError::Auth => "Unauthorized"@,
            AppError::Store => "Internal Server Error"@,
        }
    }

    /// The generic text of the error.
    pub fn message(&self) -> (text: String)
        ensures
            text@ == self.spec_message(),
    {
        match self {
            AppError::ConfigMissing => String::from_str("Internal Server Error"),
            AppError::Upstream => String::from_str("Internal Server Error"),
            AppError::NotFound => String::from_str("Not Found"),
            AppError::Validation => String::from_str("Bad Request"),
            AppError::Conflict => String::from_str("Conflict"),
            AppError::Auth => String::from_str("Unauthorized"),
            AppError::Store => String::from_str("Internal Server Error"),
        }
    }
}

} // verus!

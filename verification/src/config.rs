use vstd::prelude::*;
use vstd::string::*;
use crate::errors::AppError;
use crate::text::text_view;

verus! {

/// The settings of the service, read once when it starts.
#[derive(Debug, PartialEq, Eq)]
pub struct Config {
    /// The connection string of the account store.
    pub database_url: String,
    /// The address that the server binds.
    pub server_addr: String,
    /// The credential for the map provider.
    pub api_key: String,
}

/// The settings as their contract sees them.
pub struct ConfigView {
    pub database_url: Seq<char>,
    pub server_addr: Seq<char>,
    pub api_key: Seq<char>,
}

impl View for Config {
    type V = ConfigView;

    open spec fn view(&self) -> ConfigView {
        ConfigView {
            database_url: self.database_url@,
            server_addr: self.server_addr@,
            api_key: self.api_key@,
        }
    }
}

/// The address that the server binds where none is set.
pub open spec fn default_server_addr() -> Seq<char> {
    "127.0.0.1:8080"@
}

/// The settings that the given values make. The connection string and the
/// credential are required: without either the result is `ConfigMissing`.
/// The bind address has a default.
pub open spec fn spec_config(
    database_url: Option<Seq<char>>,
    server_addr: Option<Seq<char>>,
    api_key: Option<Seq<char>>,
) -> Result<ConfigView, AppError> {
    match (database_url, api_key) {
        (Some(database_url), Some(api_key)) => Ok(
            ConfigView {
                database_url,
                server_addr: match server_addr {
                    Some(addr) => addr,
                    None => default_server_addr(),
                },
                api_key,
            },
        ),
        _ => Err(AppError::ConfigMissing),
    }
}

/// Makes the settings from the values of their variables; `None` stands for
/// a variable that is not set.
pub fn get_config(
    database_url: Option<String>,
    server_addr: Option<String>,
    api_key: Option<String>,
) -> (config: Result<Config, AppError>)
    ensures
        match spec_config(
            text_view(database_url),
            text_view(server_addr),
            text_view(api_key),
        ) {
            Ok(settings) => config matches Ok(c) && c@ == settings,
            Err(e) => config matches Err(f) && f == e,
        },
{
    let database_url = match database_url {
        Some(url) => url,
        None => {
            return Err(AppError::ConfigMissing);
        },
    };
    let api_key = match api_key {
        Some(key) => key,
        None => {
            return Err(AppError::ConfigMissing);
        },
    };
    let server_addr = match server_addr {
        Some(addr) => addr,
        None => String::from_str("127.0.0.1:8080"),
    };
    Ok(Config { database_url, server_addr, api_key })
}

} // verus!

use crate::text::{parse_number, parsed_number};
use vstd::prelude::*;

verus! {

/// The port that is listened on where none is configured.
pub const DEFAULT_PORT: u16 = 8080;

/// The version of this library.
pub const VERSION: &'static str = "1.0.0";

/// The fewest characters a token secret may have.
pub const MIN_SECRET_LENGTH: usize = 32;

/// The number of connections allowed where none is configured.
pub fn default_max_connections() -> (limit: u32)
    ensures
        limit == 100,
{
    100
}

/// What the system is started with.
#[derive(Debug)]
pub struct Config {
    pub port: u16,
    pub database_url: String,
    pub jwt_secret: String,
    pub max_connections: u32,
}

/// A `Config` as plain values.
pub struct ConfigView {
    pub port: u16,
    pub database_url: Seq<char>,
    pub jwt_secret: Seq<char>,
    pub max_connections: u32,
}

impl View for Config {
    type V = ConfigView;

    open spec fn view(&self) -> ConfigView {
        ConfigView {
            port: self.port,
            database_url: self.database_url@,
            jwt_secret: self.jwt_secret@,
            max_connections: self.max_connections,
        }
    }
}

/// Why a configuration cannot be assembled or used.
#[derive(Debug, Clone, Copy, PartialEq, Eq, Structural)]
pub enum ConfigError {
    /// The port given is not a number that fits a port.
    InvalidPort,
    /// No database URL was given.
    MissingDatabaseUrl,
    /// No token secret was given.
    MissingJwtSecret,
    /// The connection limit given is not a number that fits.
    InvalidMaxConnections,
    /// The port is zero.
    PortZero,
    /// The database URL is empty.
    EmptyDatabaseUrl,
    /// The token secret has fewer than `MIN_SECRET_LENGTH` characters.
    ShortJwtSecret,
}

impl ConfigError {
    /// The text an error is reported with.
    pub open spec fn text(self) -> Seq<char> {
        match self {
            ConfigError::InvalidPort => "PORT is not a valid port number"@,
            ConfigError::MissingDatabaseUrl => "DATABASE_URL environment variable is required"@,
            ConfigError::MissingJwtSecret => "JWT_SECRET environment variable is required"@,
            ConfigError::InvalidMaxConnections => "MAX_CONNECTIONS is not a valid number"@,
            ConfigError::PortZero => "Port must be greater than 0"@,
            ConfigError::EmptyDatabaseUrl => "Database URL cannot be empty"@,
            ConfigError::ShortJwtSecret => "JWT secret must be at least 32 characters"@,
        }
    }

    /// The text this error is reported with.
    pub fn message(&self) -> (text: &'static str)
        ensures
            text@ == self.text(),
    {
        match self {
            ConfigError::InvalidPort => "PORT is not a valid port number",
            ConfigError::MissingDatabaseUrl => "DATABASE_URL environment variable is required",
            ConfigError::MissingJwtSecret => "JWT_SECRET environment variable is required",
            ConfigError::InvalidMaxConnections => "MAX_CONNECTIONS is not a valid number",
            ConfigError::PortZero => "Port must be greater than 0",
            ConfigError::EmptyDatabaseUrl => "Database URL cannot be empty",
            ConfigError::ShortJwtSecret => "JWT secret must be at least 32 characters",
        }
    }
}

impl ConfigView {
    /// The first rule that a configuration breaks, if any: the port is not
    /// zero, the database URL is not empty, and the token secret has at least
    /// `MIN_SECRET_LENGTH` characters.
    pub open spec fn flaw(self) -> Option<ConfigError> {
        if self.port == 0 {
            Some(ConfigError::PortZero)
        } else if self.database_url.len() == 0 {
            Some(ConfigError::EmptyDatabaseUrl)
        } else if self.jwt_secret.len() < MIN_SECRET_LENGTH {
            Some(ConfigError::ShortJwtSecret)
        } else {
            None
        }
    }
}

/// The configuration that the four settings give, each `None` where it is
/// not set, or the first of them that is missing or malformed, in the order
/// port, database URL, token secret, connection limit. A port that is not set
/// is `DEFAULT_PORT`, a connection limit that is not set is 100; the other
/// two must be set.
pub open spec fn assembled(
    port: Option<Seq<char>>,
    database_url: Option<Seq<char>>,
    jwt_secret: Option<Seq<char>>,
    max_connections: Option<Seq<char>>,
) -> Result<ConfigView, ConfigError> {
    let port_number = match port {
        Some(text) => parsed_number(text, u16::MAX as nat),
        None => Some(DEFAULT_PORT as nat),
    };
    let limit = match max_connections {
        Some(text) => parsed_number(text, u32::MAX as nat),
        None => Some(100nat),
    };
    if port_number is None {
        Err(ConfigError::InvalidPort)
    } else if database_url is None {
        Err(ConfigError::MissingDatabaseUrl)
    } else if jwt_secret is None {
        Err(ConfigError::MissingJwtSecret)
    } else if limit is None {
        Err(ConfigError::InvalidMaxConnections)
    } else {
        Ok(
            ConfigView {
                port: port_number->Some_0 as u16,
                database_url: database_url->Some_0,
                jwt_secret: jwt_secret->Some_0,
                max_connections: limit->Some_0 as u32,
            },
        )
    }
}

/// An optional text as a sequence of characters.
pub open spec fn text_view(text: Option<&str>) -> Option<Seq<char>> {
    match text {
        Some(text) => Some(text@),
        None => None,
    }
}

/// An optional owned text as a sequence of characters.
pub open spec fn string_view(text: Option<String>) -> Option<Seq<char>> {
    match text {
        Some(text) => Some(text@),
        None => None,
    }
}

impl Config {
    /// Assembles a configuration from the four settings as they were found,
    /// each `None` where it is not set.
    pub fn from_vars(
        port: Option<&str>,
        database_url: Option<String>,
        jwt_secret: Option<String>,
        max_connections: Option<&str>,
    ) -> (outcome: Result<Config, ConfigError>)
        ensures
            match outcome {
                Ok(config) => Ok::<ConfigView, ConfigError>(config@),
                Err(error) => Err::<ConfigView, ConfigError>(error),
            } == assembled(
                text_view(port),
                string_view(database_url),
                string_view(jwt_secret),
                text_view(max_connections),
            ),
    {
        let port: u16 = match port {
            Some(text) => match parse_number(text, 0xffff) {
                Some(number) => number as u16,
                None => {
                    return Err(ConfigError::InvalidPort);
                },
            },
            None => DEFAULT_PORT,
        };
        let database_url = match database_url {
            Some(url) => url,
            None => {
                return Err(ConfigError::MissingDatabaseUrl);
            },
        };
        let jwt_secret = match jwt_secret {
            Some(secret) => secret,
            None => {
                return Err(ConfigError::MissingJwtSecret);
            },
        };
        let max_connections: u32 = match max_connections {
            Some(text) => match parse_number(text, 0xffff_ffff) {
                Some(number) => number,
                None => {
                    return Err(ConfigError::InvalidMaxConnections);
                },
            },
            None => default_max_connections(),
        };
        Ok(Config { port, database_url, jwt_secret, max_connections })
    }

    /// Checks the configuration against its rules, in their order, and
    /// reports the first one broken.
    pub fn validate(&self) -> (outcome: Result<(), ConfigError>)
        ensures
            match outcome {
                Ok(()) => self@.flaw() is None,
                Err(error) => self@.flaw() == Some(error),
            },
    {
        if self.port == 0 {
            return Err(ConfigError::PortZero);
        }
        if self.database_url.as_str().is_empty() {
            return Err(ConfigError::EmptyDatabaseUrl);
        }
        if self.jwt_secret.as_str().unicode_len() < MIN_SECRET_LENGTH {
            return Err(ConfigError::ShortJwtSecret);
        }
        Ok(())
    }
}

} // verus!

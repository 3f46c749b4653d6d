//! The configuration of the service: what the environment is asked for, and
//! how what it held becomes settings.
//!
//! Nothing here reads the environment. The caller reads each variable and
//! hands in what it held; what a missing or unreadable value means is
//! decided here.

pub mod database;
pub mod server;
pub mod text;

use vstd::prelude::*;

verus! {

/// The variables that the service reads from its environment.
#[derive(Clone, Copy, Debug, PartialEq, Eq, Structural)]
pub enum Variable {
    DatabaseUsername,
    DatabasePassword,
    DatabasePort,
    DatabaseHost,
    DatabaseName,
    DatabaseSslMode,
    ServerHost,
    ServerPort,
    CookieSecret,
    Origins,
    Timeout,
    RateLimitBurst,
    RateLimitPeriod,
}

impl Variable {
    /// The name of the variable in the environment.
    pub open spec fn name_text(self) -> Seq<char> {
        match self {
            Variable::DatabaseUsername => "DATABASE_USERNAME"@,
            Variable::DatabasePassword => "DATABASE_PASSWORD"@,
            Variable::DatabasePort => "DATABASE_PORT"@,
            Variable::DatabaseHost => "DATABASE_HOST"@,
            Variable::DatabaseName => "DATABASE_NAME"@,
            Variable::DatabaseSslMode => "DATABASE_SSL_MODE"@,
            Variable::ServerHost => "SERVER_HOST"@,
            Variable::ServerPort => "SERVER_PORT"@,
            Variable::CookieSecret => "SERVER_COOKIE_SECRET"@,
            Variable::Origins => "SERVER_ORIGINS"@,
            Variable::Timeout => "SERVER_TIMEOUT_IN_SECS"@,
            Variable::RateLimitBurst => "SERVER_RATE_LIMIT_BURST"@,
            Variable::RateLimitPeriod => "SERVER_RATE_LIMIT_PER_SECS"@,
        }
    }

    /// The name under which the caller finds the variable.
    pub fn name(&self) -> (name: &'static str)
        ensures
            name@ == self.name_text(),
    {
        match self {
            Variable::DatabaseUsername => "DATABASE_USERNAME",
            Variable::DatabasePassword => "DATABASE_PASSWORD",
            Variable::DatabasePort => "DATABASE_PORT",
            Variable::DatabaseHost => "DATABASE_HOST",
            Variable::DatabaseName => "DATABASE_NAME",
            Variable::DatabaseSslMode => "DATABASE_SSL_MODE",
            Variable::ServerHost => "SERVER_HOST",
            Variable::ServerPort => "SERVER_PORT",
            Variable::CookieSecret => "SERVER_COOKIE_SECRET",
            Variable::Origins => "SERVER_ORIGINS",
            Variable::Timeout => "SERVER_TIMEOUT_IN_SECS",
            Variable::RateLimitBurst => "SERVER_RATE_LIMIT_BURST",
            Variable::RateLimitPeriod => "SERVER_RATE_LIMIT_PER_SECS",
        }
    }
}

/// Why the settings could not be made.
#[derive(Clone, Copy, Debug, PartialEq, Eq, Structural)]
pub enum ConfigError {
    /// A variable without a default was neither set by the caller nor held
    /// by the environment.
    Missing(Variable),
    /// A variable holds a value that the service cannot start with.
    Invalid(Variable),
}

} // verus!

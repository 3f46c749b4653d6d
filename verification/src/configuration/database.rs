//! The settings of the database connection and the builder that resolves
//! them from what the caller chose and what the environment held.

use crate::configuration::text::{parse_port, port_value};
use crate::configuration::{ConfigError, Variable};
use sqlx::postgres::PgSslMode;
use std::str::FromStr;
use vstd::prelude::*;
use vstd::string::*;

verus! {

/// The port that a database listens on where none is configured.
pub const DEFAULT_PORT: u16 = 5432;

/// The host of the database where none is configured.
pub open spec fn default_host() -> Seq<char> {
    "127.0.0.1"@
}

/// How far a connection to the database insists on SSL.
#[derive(Clone, Copy, Debug, PartialEq, Eq, Structural)]
pub enum SslMode {
    /// Only try a connection without SSL.
    Disable,
    /// Try without SSL first, then with.
    Allow,
    /// Try with SSL first, then without.
    Prefer,
    /// Only try a connection with SSL.
    Require,
    /// Only with SSL, and verify that a trusted authority issued the
    /// server's certificate.
    VerifyCa,
    /// Only with SSL, and verify the certificate's issuer and that it names
    /// the host.
    VerifyFull,
}

/// The name of an SSL mode in a connection setting.
pub trait PgSslModeExt {
    fn as_str(&self) -> &'static str;
}

impl SslMode {
    /// The name of the mode.
    pub open spec fn name(self) -> Seq<char> {
        match self {
            SslMode::Disable => "disable"@,
            SslMode::Allow => "allow"@,
            SslMode::Prefer => "prefer"@,
            SslMode::Require => "require"@,
            SslMode::VerifyCa => "verify-ca"@,
            SslMode::VerifyFull => "verify-full"@,
        }
    }

    /// Reads the name of a mode, in upper or lower case.
    pub fn parse(text: &str) -> (mode: Option<SslMode>)
        ensures
            mode == mode_named(ascii_lowercase(text@)),
    {
        parse_pg_ssl_mode(text)
    }
}

impl PgSslModeExt for SslMode {
    fn as_str(&self) -> (name: &'static str)
        ensures
            name@ == self.name(),
    {
        match self {
            SslMode::Disable => "disable",
            SslMode::Allow => "allow",
            SslMode::Prefer => "prefer",
            SslMode::Require => "require",
            SslMode::VerifyCa => "verify-ca",
            SslMode::VerifyFull => "verify-full",
        }
    }
}

/// `c`, in lower case if it is an ASCII letter.
pub open spec fn ascii_lower(c: char) -> char {
    if 65 <= c as int <= 90 {
        (c as int + 32) as char
    } else {
        c
    }
}

/// `s` with its ASCII letters in lower case.
pub open spec fn ascii_lowercase(s: Seq<char>) -> Seq<char> {
    Seq::new(s.len(), |i: int| ascii_lower(s[i]))
}

/// The mode that goes by the name `s`.
pub open spec fn mode_named(s: Seq<char>) -> Option<SslMode> {
    if s == SslMode::Disable.name() {
        Some(SslMode::Disable)
    } else if s == SslMode::Allow.name() {
        Some(SslMode::Allow)
    } else if s == SslMode::Prefer.name() {
        Some(SslMode::Prefer)
    } else if s == SslMode::Require.name() {
        Some(SslMode::Require)
    } else if s == SslMode::VerifyCa.name() {
        Some(SslMode::VerifyCa)
    } else if s == SslMode::VerifyFull.name() {
        Some(SslMode::VerifyFull)
    } else {
        None
    }
}

/// The name of each mode names that mode and no other, in lower case as it
/// is written and in any other case too.
pub proof fn law_mode_name_reads_back(mode: SslMode)
    ensures
        ascii_lowercase(mode.name()) == mode.name(),
        mode_named(mode.name()) == Some(mode),
        mode_named(ascii_lowercase(mode.name())) == Some(mode),
{
    reveal_strlit("disable");
    reveal_strlit("allow");
    reveal_strlit("prefer");
    reveal_strlit("require");
    reveal_strlit("verify-ca");
    reveal_strlit("verify-full");
    assert(ascii_lowercase(mode.name()) =~= mode.name());
    assert("disable"@.len() == 7 && "allow"@.len() == 5 && "prefer"@.len() == 6);
    assert("require"@.len() == 7 && "verify-ca"@.len() == 9 && "verify-full"@.len() == 11);
    assert("disable"@[0] == 'd' && "require"@[0] == 'r' && "prefer"@[0] == 'p');
}

/// Reads the name of an SSL mode. The call is `PgSslMode::from_str` of
/// sqlx, which puts the ASCII letters of the text in lower case and accepts
/// the six names `disable`, `allow`, `prefer`, `require`, `verify-ca` and
/// `verify-full`, and nothing else.
#[verifier::external_body]
fn parse_pg_ssl_mode(text: &str) -> (mode: Option<SslMode>)
    ensures
        mode == mode_named(ascii_lowercase(text@)),
{
    match PgSslMode::from_str(text) {
        Ok(PgSslMode::Disable) => Some(SslMode::Disable),
        Ok(PgSslMode::Allow) => Some(SslMode::Allow),
        Ok(PgSslMode::Prefer) => Some(SslMode::Prefer),
        Ok(PgSslMode::Require) => Some(SslMode::Require),
        Ok(PgSslMode::VerifyCa) => Some(SslMode::VerifyCa),
        Ok(PgSslMode::VerifyFull) => Some(SslMode::VerifyFull),
        Err(_) => None,
    }
}

/// The SSL mode of a connection that names none. The call is
/// `PgSslMode::default` of sqlx, which is `Prefer`.
#[verifier::external_body]
fn default_pg_ssl_mode() -> (mode: SslMode)
    ensures
        mode == SslMode::Prefer,
{
    match PgSslMode::default() {
        PgSslMode::Disable => SslMode::Disable,
        PgSslMode::Allow => SslMode::Allow,
        PgSslMode::Prefer => SslMode::Prefer,
        PgSslMode::Require => SslMode::Require,
        PgSslMode::VerifyCa => SslMode::VerifyCa,
        PgSslMode::VerifyFull => SslMode::VerifyFull,
    }
}

/// What the settings of a database connection hold.
pub struct DatabaseSettings {
    pub username: Seq<char>,
    pub password: Seq<char>,
    pub port: u16,
    pub host: Seq<char>,
    pub name: Seq<char>,
    pub ssl_mode: SslMode,
}

/// What a builder holds: for each setting, the value that the caller chose.
pub struct BuilderSettings {
    pub username: Option<Seq<char>>,
    pub password: Option<Seq<char>>,
    pub port: Option<u16>,
    pub host: Option<Seq<char>>,
    pub name: Option<Seq<char>>,
    pub ssl_mode: Option<SslMode>,
}

/// What the environment held: for each variable its text, or nothing where
/// it was not set or could not be read.
pub struct EnvironmentSettings {
    pub username: Option<Seq<char>>,
    pub password: Option<Seq<char>>,
    pub port: Option<Seq<char>>,
    pub host: Option<Seq<char>>,
    pub name: Option<Seq<char>>,
    pub ssl_mode: Option<Seq<char>>,
}

/// The text of a value that may be absent.
pub open spec fn text_of(value: Option<String>) -> Option<Seq<char>> {
    match value {
        Some(text) => Some(text@),
        None => None,
    }
}

/// The settings of a database connection.
#[derive(Debug)]
pub struct DatabaseConfig {
    username: String,
    password: String,
    port: u16,
    host: String,
    name: String,
    ssl_mode: SslMode,
}

impl View for DatabaseConfig {
    type V = DatabaseSettings;

    closed spec fn view(&self) -> DatabaseSettings {
        DatabaseSettings {
            username: self.username@,
            password: self.password@,
            port: self.port,
            host: self.host@,
            name: self.name@,
            ssl_mode: self.ssl_mode,
        }
    }
}

impl Default for DatabaseConfig {
    /// Settings without a user, a password or a database name, for the
    /// local host, the default port and the default SSL mode.
    fn default() -> (config: DatabaseConfig)
        ensures
            config@ == (DatabaseSettings {
                username: Seq::<char>::empty(),
                password: Seq::<char>::empty(),
                port: 5432,
                host: default_host(),
                name: Seq::<char>::empty(),
                ssl_mode: SslMode::Prefer,
            }),
    {
        DatabaseConfig {
            username: String::new(),
            password: String::new(),
            port: DEFAULT_PORT,
            host: "127.0.0.1".to_owned(),
            name: String::new(),
            ssl_mode: default_pg_ssl_mode(),
        }
    }
}

impl Clone for DatabaseConfig {
    fn clone(&self) -> (copy: DatabaseConfig)
        ensures
            copy@ == self@,
    {
        DatabaseConfig {
            username: self.username.clone(),
            password: self.password.clone(),
            port: self.port,
            host: self.host.clone(),
            name: self.name.clone(),
            ssl_mode: self.ssl_mode,
        }
    }
}

impl DatabaseConfig {
    /// The user to connect as.
    pub fn get_username(&self) -> (username: &str)
        ensures
            username@ == self@.username,
    {
        self.username.as_str()
    }

    /// The password to connect with.
    pub fn get_password(&self) -> (password: &str)
        ensures
            password@ == self@.password,
    {
        self.password.as_str()
    }

    /// The port to connect to.
    pub fn get_port(&self) -> (port: u16)
        ensures
            port == self@.port,
    {
        self.port
    }

    /// The host to connect to.
    pub fn get_host(&self) -> (host: &str)
        ensures
            host@ == self@.host,
    {
        self.host.as_str()
    }

    /// The name of the database.
    pub fn get_name(&self) -> (name: &str)
        ensures
            name@ == self@.name,
    {
        self.name.as_str()
    }

    /// The SSL mode of the connection.
    pub fn get_ssl_mode(&self) -> (mode: &SslMode)
        ensures
            *mode == self@.ssl_mode,
    {
        &self.ssl_mode
    }
}

/// What the environment held for the variables of the database connection.
/// A variable that was not set, or whose value could not be read, is `None`.
pub struct DatabaseEnvironment {
    pub username: Option<String>,
    pub password: Option<String>,
    pub port: Option<String>,
    pub host: Option<String>,
    pub name: Option<String>,
    pub ssl_mode: Option<String>,
}

impl View for DatabaseEnvironment {
    type V = EnvironmentSettings;

    open spec fn view(&self) -> EnvironmentSettings {
        EnvironmentSettings {
            username: text_of(self.username),
            password: text_of(self.password),
            port: text_of(self.port),
            host: text_of(self.host),
            name: text_of(self.name),
            ssl_mode: text_of(self.ssl_mode),
        }
    }
}

/// The first of the two values that is there: what the caller chose comes
/// before what the environment held.
pub open spec fn chosen_or_found(chosen: Option<Seq<char>>, found: Option<Seq<char>>) -> Option<
    Seq<char>,
> {
    if chosen is Some {
        chosen
    } else {
        found
    }
}

/// The port of the connection: the one that the caller chose; else the one
/// that the environment spells; else, where it holds none or no port
/// number, the default.
pub open spec fn resolved_port(chosen: Option<u16>, found: Option<Seq<char>>) -> u16 {
    if chosen is Some {
        chosen->0
    } else if found is Some && port_value(found->0) is Some {
        port_value(found->0)->0
    } else {
        5432
    }
}

/// The host of the connection: the one that the caller chose; else the one
/// that the environment held; else the default.
pub open spec fn resolved_host(chosen: Option<Seq<char>>, found: Option<Seq<char>>) -> Seq<char> {
    if chosen_or_found(chosen, found) is Some {
        chosen_or_found(chosen, found)->0
    } else {
        default_host()
    }
}

/// The SSL mode of the connection: the one that the caller chose; else the
/// one that the environment names; else, where it holds none or no name of
/// a mode, the default.
pub open spec fn resolved_ssl_mode(chosen: Option<SslMode>, found: Option<Seq<char>>) -> SslMode {
    if chosen is Some {
        chosen->0
    } else if found is Some && mode_named(ascii_lowercase(found->0)) is Some {
        mode_named(ascii_lowercase(found->0))->0
    } else {
        SslMode::Prefer
    }
}

/// The settings that a builder and an environment resolve to. The user, the
/// password and the name of the database have no default: the first of them
/// that is missing, in this order, is the error.
pub open spec fn resolution(builder: BuilderSettings, environment: EnvironmentSettings) -> Result<
    DatabaseSettings,
    ConfigError,
> {
    let username = chosen_or_found(builder.username, environment.username);
    let password = chosen_or_found(builder.password, environment.password);
    let name = chosen_or_found(builder.name, environment.name);
    if username is None {
        Err(ConfigError::Missing(Variable::DatabaseUsername))
    } else if password is None {
        Err(ConfigError::Missing(Variable::DatabasePassword))
    } else if name is None {
        Err(ConfigError::Missing(Variable::DatabaseName))
    } else {
        Ok(
            DatabaseSettings {
                username: username->0,
                password: password->0,
                port: resolved_port(builder.port, environment.port),
                host: resolved_host(builder.host, environment.host),
                name: name->0,
                ssl_mode: resolved_ssl_mode(builder.ssl_mode, environment.ssl_mode),
            },
        )
    }
}

/// What building gave, as settings.
pub open spec fn settings_of(built: Result<DatabaseConfig, ConfigError>) -> Result<
    DatabaseSettings,
    ConfigError,
> {
    match built {
        Ok(config) => Ok(config@),
        Err(error) => Err(error),
    }
}

/// A builder for `DatabaseConfig`.
#[derive(Debug)]
pub struct DatabaseConfigBuilder {
    username: Option<String>,
    password: Option<String>,
    port: Option<u16>,
    host: Option<String>,
    name: Option<String>,
    ssl_mode: Option<SslMode>,
}

impl View for DatabaseConfigBuilder {
    type V = BuilderSettings;

    closed spec fn view(&self) -> BuilderSettings {
        BuilderSettings {
            username: text_of(self.username),
            password: text_of(self.password),
            port: self.port,
            host: text_of(self.host),
            name: text_of(self.name),
            ssl_mode: self.ssl_mode,
        }
    }
}

/// The text that the caller chose, or else the text that the environment
/// held.
fn pick(chosen: &Option<String>, found: &Option<String>) -> (picked: Option<String>)
    ensures
        text_of(picked) == chosen_or_found(text_of(*chosen), text_of(*found)),
{
    match chosen {
        Some(text) => Some(text.clone()),
        None => match found {
            Some(text) => Some(text.clone()),
            None => None,
        },
    }
}

impl DatabaseConfigBuilder {
    /// A builder in which nothing is chosen.
    pub fn new() -> (builder: DatabaseConfigBuilder)
        ensures
            builder@ == (BuilderSettings {
                username: None,
                password: None,
                port: None,
                host: None,
                name: None,
                ssl_mode: None,
            }),
    {
        DatabaseConfigBuilder {
            username: None,
            password: None,
            port: None,
            host: None,
            name: None,
            ssl_mode: None,
        }
    }

    /// Chooses the user.
    pub fn with_username(self, username: &str) -> (builder: DatabaseConfigBuilder)
        ensures
            builder@ == (BuilderSettings { username: Some(username@), ..self@ }),
    {
        let mut builder = self;
        builder.username = Some(username.to_owned());
        builder
    }

    /// Chooses the password.
    pub fn with_password(self, password: &str) -> (builder: DatabaseConfigBuilder)
        ensures
            builder@ == (BuilderSettings { password: Some(password@), ..self@ }),
    {
        let mut builder = self;
        builder.password = Some(password.to_owned());
        builder
    }

    /// Chooses the port.
    pub fn with_port(self, port: u16) -> (builder: DatabaseConfigBuilder)
        ensures
            builder@ == (BuilderSettings { port: Some(port), ..self@ }),
    {
        let mut builder = self;
        builder.port = Some(port);
        builder
    }

    /// Chooses the host.
    pub fn with_host(self, host: &str) -> (builder: DatabaseConfigBuilder)
        ensures
            builder@ == (BuilderSettings { host: Some(host@), ..self@ }),
    {
        let mut builder = self;
        builder.host = Some(host.to_owned());
        builder
    }

    /// Chooses the name of the database.
    pub fn with_name(self, name: &str) -> (builder: DatabaseConfigBuilder)
        ensures
            builder@ == (BuilderSettings { name: Some(name@), ..self@ }),
    {
        let mut builder = self;
        builder.name = Some(name.to_owned());
        builder
    }

    /// Chooses the SSL mode.
    pub fn with_ssl_mode(self, ssl_mode: SslMode) -> (builder: DatabaseConfigBuilder)
        ensures
            builder@ == (BuilderSettings { ssl_mode: Some(ssl_mode), ..self@ }),
    {
        let mut builder = self;
        builder.ssl_mode = Some(ssl_mode);
        builder
    }

    /// Resolves the settings: for each one, what the caller chose, else what
    /// the environment held, else the default, or an error where there is
    /// none.
    pub fn build(&self, environment: &DatabaseEnvironment) -> (built: Result<
        DatabaseConfig,
        ConfigError,
    >)
        ensures
            settings_of(built) == resolution(self@, environment@),
    {
        let username = match pick(&self.username, &environment.username) {
            Some(username) => username,
            None => {
                return Err(ConfigError::Missing(Variable::DatabaseUsername));
            },
        };
        let password = match pick(&self.password, &environment.password) {
            Some(password) => password,
            None => {
                return Err(ConfigError::Missing(Variable::DatabasePassword));
            },
        };
        let port = match self.port {
            Some(port) => port,
            None => match &environment.port {
                Some(text) => match parse_port(text.as_str()) {
                    Some(port) => port,
                    None => DatabaseConfig::default().port,
                },
                None => DatabaseConfig::default().port,
            },
        };
        let host = match pick(&self.host, &environment.host) {
            Some(host) => host,
            None => DatabaseConfig::default().host,
        };
        let name = match pick(&self.name, &environment.name) {
            Some(name) => name,
            None => {
                return Err(ConfigError::Missing(Variable::DatabaseName));
            },
        };
        let ssl_mode = match self.ssl_mode {
            Some(mode) => mode,
            None => match &environment.ssl_mode {
                Some(text) => match SslMode::parse(text.as_str()) {
                    Some(mode) => mode,
                    None => DatabaseConfig::default().ssl_mode,
                },
                None => DatabaseConfig::default().ssl_mode,
            },
        };
        Ok(DatabaseConfig { username, password, port, host, name, ssl_mode })
    }
}

} // verus!

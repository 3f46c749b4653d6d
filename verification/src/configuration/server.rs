//! The settings of the server, and what they must hold for the service to
//! start.

use crate::configuration::database::{default_host, text_of};
use crate::configuration::text::{
    number_value, parse_number, parse_port, pieces, port_value, split_trimmed, texts, trimmed_all,
};
use crate::configuration::{ConfigError, Variable};
use crate::token::TokenCodec;
use axum::http::HeaderValue;
use vstd::prelude::*;
use vstd::slice::slice_to_vec;
use vstd::string::*;
use vstd::utf8::encode_utf8;

verus! {

/// Whether a byte may stand in the value of a header: a tab, or anything
/// from the space up but the delete character.
pub open spec fn header_byte_ok(byte: u8) -> bool {
    byte >= 32 && byte != 127 || byte == 9
}

/// Whether `text` may be the value of a header: each byte of its UTF-8
/// form may stand in one.
pub open spec fn header_text_ok(text: Seq<char>) -> bool {
    forall|i: int|
        0 <= i < encode_utf8(text).len() ==> header_byte_ok(#[trigger] encode_utf8(text)[i])
}

/// Whether `text` is accepted as the value of a header. The call is
/// `HeaderValue::from_str` of the http crate, as axum hands it on, which
/// accepts a text if and only if each of its bytes is a tab or is at least
/// 32 and not 127.
#[verifier::external_body]
fn header_value_accepted(text: &str) -> (accepted: bool)
    ensures
        accepted == header_text_ok(text@),
{
    HeaderValue::from_str(text).is_ok()
}

/// Those texts of `list` that may be the value of a header, in order.
pub open spec fn accepted(list: Seq<Seq<char>>) -> Seq<Seq<char>>
    decreases list.len(),
{
    if list.len() == 0 {
        Seq::empty()
    } else if header_text_ok(list.last()) {
        accepted(list.drop_last()).push(list.last())
    } else {
        accepted(list.drop_last())
    }
}

/// The origins that a setting allows: the pieces between its commas, each
/// without the white space around it, as far as they may be the value of a
/// header.
pub open spec fn origins_of(setting: Seq<char>) -> Seq<Seq<char>> {
    accepted(trimmed_all(pieces(setting, ',')))
}

/// Whether the origin that stands for every origin is among `list`.
pub open spec fn has_wildcard(list: Seq<Seq<char>>) -> bool {
    exists|i: int| 0 <= i < list.len() && #[trigger] list[i] == seq!['*']
}

/// The settings of the server.
#[derive(Debug)]
pub struct ServerConfig {
    /// The address to listen on.
    pub host: String,
    /// The port to listen on.
    pub port: u16,
    /// The secret that signs tokens and cookies.
    pub cookie_secret: String,
    /// The origins that may call the service, separated by commas.
    pub origins: String,
    /// The number of seconds after which a request is given up.
    pub timeout_in_secs: u64,
    /// The number of requests that are let through in one period.
    pub rate_limit_burst: u64,
    /// The length of a period, in seconds.
    pub rate_limit_per_secs: u64,
}

/// What is wrong with the settings of a server, if anything: the first of a
/// secret under 64 bytes, an allowed origin `*`, a burst of zero, a period
/// of zero.
pub open spec fn server_fault(
    secret: Seq<char>,
    origins: Seq<char>,
    burst: u64,
    period: u64,
) -> Option<ConfigError> {
    if encode_utf8(secret).len() < 64 {
        Some(ConfigError::Invalid(Variable::CookieSecret))
    } else if has_wildcard(origins_of(origins)) {
        Some(ConfigError::Invalid(Variable::Origins))
    } else if burst == 0 {
        Some(ConfigError::Invalid(Variable::RateLimitBurst))
    } else if period == 0 {
        Some(ConfigError::Invalid(Variable::RateLimitPeriod))
    } else {
        None
    }
}

/// The port that the server listens on where none is configured.
pub const DEFAULT_SERVER_PORT: u16 = 8080;

/// The number of seconds after which a request is given up where none is
/// configured.
pub const DEFAULT_TIMEOUT_IN_SECS: u64 = 30;

/// The number of requests let through in one period where none is
/// configured.
pub const DEFAULT_RATE_LIMIT_BURST: u64 = 100;

/// The length of a period in seconds where none is configured.
pub const DEFAULT_RATE_LIMIT_PER_SECS: u64 = 1;

/// What the settings of a server hold.
pub struct ServerSettings {
    pub host: Seq<char>,
    pub port: u16,
    pub cookie_secret: Seq<char>,
    pub origins: Seq<char>,
    pub timeout_in_secs: u64,
    pub rate_limit_burst: u64,
    pub rate_limit_per_secs: u64,
}

impl View for ServerConfig {
    type V = ServerSettings;

    open spec fn view(&self) -> ServerSettings {
        ServerSettings {
            host: self.host@,
            port: self.port,
            cookie_secret: self.cookie_secret@,
            origins: self.origins@,
            timeout_in_secs: self.timeout_in_secs,
            rate_limit_burst: self.rate_limit_burst,
            rate_limit_per_secs: self.rate_limit_per_secs,
        }
    }
}

impl Clone for ServerConfig {
    fn clone(&self) -> (copy: ServerConfig)
        ensures
            copy@ == self@,
    {
        ServerConfig {
            host: self.host.clone(),
            port: self.port,
            cookie_secret: self.cookie_secret.clone(),
            origins: self.origins.clone(),
            timeout_in_secs: self.timeout_in_secs,
            rate_limit_burst: self.rate_limit_burst,
            rate_limit_per_secs: self.rate_limit_per_secs,
        }
    }
}

/// What the environment held for the variables of the server. A variable
/// that was not set, or whose value could not be read, is `None`.
pub struct ServerEnvironment {
    pub host: Option<String>,
    pub port: Option<String>,
    pub cookie_secret: Option<String>,
    pub origins: Option<String>,
    pub timeout_in_secs: Option<String>,
    pub rate_limit_burst: Option<String>,
    pub rate_limit_per_secs: Option<String>,
}

/// The number that a variable spells, or `default` where it was not set or
/// spells none.
pub open spec fn number_or(found: Option<Seq<char>>, default: u64) -> u64 {
    if found is Some && number_value(found->0) is Some {
        number_value(found->0)->0
    } else {
        default
    }
}

/// The port that a variable spells, or the default where it was not set or
/// spells none.
pub open spec fn server_port(found: Option<Seq<char>>) -> u16 {
    if found is Some && port_value(found->0) is Some {
        port_value(found->0)->0
    } else {
        8080
    }
}

/// The text of a variable, or `default` where it was not set.
pub open spec fn text_or(found: Option<Seq<char>>, default: Seq<char>) -> Seq<char> {
    if found is Some {
        found->0
    } else {
        default
    }
}

/// The settings that the environment of a server stands for, before they
/// are checked. Only the secret has no default.
pub open spec fn server_settings(
    environment: ServerEnvironment,
    secret: Seq<char>,
) -> ServerSettings {
    ServerSettings {
        host: text_or(text_of(environment.host), default_host()),
        port: server_port(text_of(environment.port)),
        cookie_secret: secret,
        origins: text_or(text_of(environment.origins), Seq::<char>::empty()),
        timeout_in_secs: number_or(text_of(environment.timeout_in_secs), 30),
        rate_limit_burst: number_or(text_of(environment.rate_limit_burst), 100),
        rate_limit_per_secs: number_or(text_of(environment.rate_limit_per_secs), 1),
    }
}

/// The settings that the environment of a server resolves to: an error
/// without a secret, or with settings that the service cannot start with.
pub open spec fn server_resolution(environment: ServerEnvironment) -> Result<
    ServerSettings,
    ConfigError,
> {
    if environment.cookie_secret is None {
        Err(ConfigError::Missing(Variable::CookieSecret))
    } else {
        let settings = server_settings(environment, environment.cookie_secret->0@);
        match server_fault(
            settings.cookie_secret,
            settings.origins,
            settings.rate_limit_burst,
            settings.rate_limit_per_secs,
        ) {
            Some(fault) => Err(fault),
            None => Ok(settings),
        }
    }
}

/// The number that `found` spells, or `default`.
fn read_number(found: &Option<String>, default: u64) -> (number: u64)
    ensures
        number == number_or(text_of(*found), default),
{
    match found {
        Some(text) => match parse_number(text.as_str()) {
            Some(number) => number,
            None => default,
        },
        None => default,
    }
}

/// The text that `found` holds, or `default`.
fn read_text(found: &Option<String>, default: &str) -> (text: String)
    ensures
        text@ == text_or(text_of(*found), default@),
{
    match found {
        Some(text) => text.clone(),
        None => default.to_owned(),
    }
}

impl ServerConfig {
    /// Resolves and checks the settings of the server from what the
    /// environment held.
    pub fn resolve(environment: &ServerEnvironment) -> (resolved: Result<ServerConfig, ConfigError>)
        ensures
            resolved matches Ok(config) ==> server_resolution(*environment) == Ok::<
                ServerSettings,
                ConfigError,
            >(config@),
            resolved matches Err(error) ==> server_resolution(*environment) == Err::<
                ServerSettings,
                ConfigError,
            >(error),
    {
        let cookie_secret = match &environment.cookie_secret {
            Some(secret) => secret.clone(),
            None => {
                return Err(ConfigError::Missing(Variable::CookieSecret));
            },
        };
        let port = match &environment.port {
            Some(text) => match parse_port(text.as_str()) {
                Some(port) => port,
                None => DEFAULT_SERVER_PORT,
            },
            None => DEFAULT_SERVER_PORT,
        };
        proof {
            reveal_strlit("");
            assert(""@ =~= Seq::<char>::empty());
        }
        let config = ServerConfig {
            host: read_text(&environment.host, "127.0.0.1"),
            port,
            cookie_secret,
            origins: read_text(&environment.origins, ""),
            timeout_in_secs: read_number(&environment.timeout_in_secs, DEFAULT_TIMEOUT_IN_SECS),
            rate_limit_burst: read_number(&environment.rate_limit_burst, DEFAULT_RATE_LIMIT_BURST),
            rate_limit_per_secs: read_number(
                &environment.rate_limit_per_secs,
                DEFAULT_RATE_LIMIT_PER_SECS,
            ),
        };
        match config.check() {
            Ok(_) => Ok(config),
            Err(fault) => Err(fault),
        }
    }

    /// The origins that may call the service.
    pub fn allowed_origins(&self) -> (list: Vec<String>)
        ensures
            texts(list@) == origins_of(self.origins@),
    {
        let candidates = split_trimmed(self.origins.as_str(), ',');
        let mut list: Vec<String> = Vec::new();
        let mut i: usize = 0;
        while i < candidates.len()
            invariant
                i <= candidates@.len(),
                texts(list@) == accepted(texts(candidates@).subrange(0, i as int)),
            decreases candidates@.len() - i,
        {
            let ghost before = texts(candidates@).subrange(0, i as int);
            let ghost next = texts(candidates@).subrange(0, i + 1);
            assert(next.drop_last() =~= before);
            if header_value_accepted(candidates[i].as_str()) {
                let origin = candidates[i].clone();
                list.push(origin);
            }
            i = i + 1;
        }
        assert(texts(candidates@).subrange(0, i as int) =~= texts(candidates@));
        list
    }

    /// The codec that signs with the server's secret, if the secret is long
    /// enough for one.
    pub fn codec(&self) -> (codec: Option<TokenCodec>)
        ensures
            codec is Some <==> encode_utf8(self.cookie_secret@).len() >= 64,
            codec matches Some(c) ==> c.key() == encode_utf8(self.cookie_secret@),
    {
        TokenCodec::new(slice_to_vec(self.cookie_secret.as_str().as_bytes()))
    }

    /// Whether the service can start with these settings. The router cannot
    /// be made from a secret under 64 bytes, from an allowed origin `*`
    /// beside credentials, or from a rate limit of zero requests or zero
    /// seconds.
    pub fn check(&self) -> (checked: Result<(), ConfigError>)
        ensures
            checked == (match server_fault(
                self.cookie_secret@,
                self.origins@,
                self.rate_limit_burst,
                self.rate_limit_per_secs,
            ) {
                Some(fault) => Err::<(), ConfigError>(fault),
                None => Ok::<(), ConfigError>(()),
            }),
    {
        if self.cookie_secret.as_str().as_bytes().len() < 64 {
            return Err(ConfigError::Invalid(Variable::CookieSecret));
        }
        let origins = self.allowed_origins();
        let wildcard = "*".to_owned();
        proof {
            reveal_strlit("*");
        }
        let mut i: usize = 0;
        while i < origins.len()
            invariant
                i <= origins@.len(),
                wildcard@ == seq!['*'],
                texts(origins@) == origins_of(self.origins@),
                encode_utf8(self.cookie_secret@).len() >= 64,
                forall|k: int| 0 <= k < i ==> #[trigger] texts(origins@)[k] != seq!['*'],
            decreases origins@.len() - i,
        {
            if origins[i] == wildcard {
                assert(texts(origins@)[i as int] == seq!['*']);
                return Err(ConfigError::Invalid(Variable::Origins));
            }
            i = i + 1;
        }
        if self.rate_limit_burst == 0 {
            return Err(ConfigError::Invalid(Variable::RateLimitBurst));
        }
        if self.rate_limit_per_secs == 0 {
            return Err(ConfigError::Invalid(Variable::RateLimitPeriod));
        }
        Ok(())
    }
}

} // verus!

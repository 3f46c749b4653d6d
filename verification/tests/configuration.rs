use user_sessions::configuration::database::{
    DatabaseConfig, DatabaseConfigBuilder, DatabaseEnvironment, PgSslModeExt, SslMode,
};
use user_sessions::configuration::server::{ServerConfig, ServerEnvironment};
use user_sessions::configuration::text::{
    parse_number, parse_port, split_trimmed, trim, trim_by,
};
use user_sessions::configuration::{ConfigError, Variable};
use user_sessions::token::TokenCodec;

fn nothing() -> DatabaseEnvironment {
    DatabaseEnvironment {
        username: None,
        password: None,
        port: None,
        host: None,
        name: None,
        ssl_mode: None,
    }
}

fn text(value: &str) -> Option<String> {
    Some(value.to_string())
}

fn full() -> DatabaseEnvironment {
    DatabaseEnvironment {
        username: text("env-user"),
        password: text("env-pass"),
        port: text("6543"),
        host: text("db.internal"),
        name: text("env-db"),
        ssl_mode: text("require"),
    }
}

fn server(secret: &str, origins: &str, burst: u64, period: u64) -> ServerConfig {
    ServerConfig {
        host: "0.0.0.0".to_string(),
        port: 8080,
        cookie_secret: secret.to_string(),
        origins: origins.to_string(),
        timeout_in_secs: 30,
        rate_limit_burst: burst,
        rate_limit_per_secs: period,
    }
}

fn long_secret() -> String {
    "s".repeat(64)
}

#[test]
fn variables_have_their_names() {
    assert_eq!(Variable::DatabaseUsername.name(), "DATABASE_USERNAME");
    assert_eq!(Variable::DatabasePassword.name(), "DATABASE_PASSWORD");
    assert_eq!(Variable::DatabasePort.name(), "DATABASE_PORT");
    assert_eq!(Variable::DatabaseHost.name(), "DATABASE_HOST");
    assert_eq!(Variable::DatabaseName.name(), "DATABASE_NAME");
    assert_eq!(Variable::DatabaseSslMode.name(), "DATABASE_SSL_MODE");
    assert_eq!(Variable::ServerHost.name(), "SERVER_HOST");
    assert_eq!(Variable::ServerPort.name(), "SERVER_PORT");
    assert_eq!(Variable::CookieSecret.name(), "SERVER_COOKIE_SECRET");
    assert_eq!(Variable::Origins.name(), "SERVER_ORIGINS");
    assert_eq!(Variable::Timeout.name(), "SERVER_TIMEOUT_IN_SECS");
    assert_eq!(Variable::RateLimitBurst.name(), "SERVER_RATE_LIMIT_BURST");
    assert_eq!(Variable::RateLimitPeriod.name(), "SERVER_RATE_LIMIT_PER_SECS");
}

#[test]
fn ssl_modes_have_their_names() {
    assert_eq!(SslMode::Disable.as_str(), "disable");
    assert_eq!(SslMode::Allow.as_str(), "allow");
    assert_eq!(SslMode::Prefer.as_str(), "prefer");
    assert_eq!(SslMode::Require.as_str(), "require");
    assert_eq!(SslMode::VerifyCa.as_str(), "verify-ca");
    assert_eq!(SslMode::VerifyFull.as_str(), "verify-full");
}

#[test]
fn ssl_mode_is_read_in_any_case() {
    assert_eq!(SslMode::parse("disable"), Some(SslMode::Disable));
    assert_eq!(SslMode::parse("allow"), Some(SslMode::Allow));
    assert_eq!(SslMode::parse("prefer"), Some(SslMode::Prefer));
    assert_eq!(SslMode::parse("require"), Some(SslMode::Require));
    assert_eq!(SslMode::parse("verify-ca"), Some(SslMode::VerifyCa));
    assert_eq!(SslMode::parse("verify-full"), Some(SslMode::VerifyFull));
    assert_eq!(SslMode::parse("VERIFY-CA"), Some(SslMode::VerifyCa));
    assert_eq!(SslMode::parse("Require"), Some(SslMode::Require));
    for mode in [
        SslMode::Disable,
        SslMode::Allow,
        SslMode::Prefer,
        SslMode::Require,
        SslMode::VerifyCa,
        SslMode::VerifyFull,
    ] {
        assert_eq!(SslMode::parse(mode.as_str()), Some(mode));
    }
}

#[test]
fn other_text_is_no_ssl_mode() {
    assert_eq!(SslMode::parse(""), None);
    assert_eq!(SslMode::parse("on"), None);
    assert_eq!(SslMode::parse(" require"), None);
    assert_eq!(SslMode::parse("require "), None);
    assert_eq!(SslMode::parse("verify_ca"), None);
    assert_eq!(SslMode::parse("verifyfull"), None);
}

#[test]
fn default_settings() {
    let config = DatabaseConfig::default();
    assert_eq!(config.get_username(), "");
    assert_eq!(config.get_password(), "");
    assert_eq!(config.get_port(), 5432);
    assert_eq!(config.get_host(), "127.0.0.1");
    assert_eq!(config.get_name(), "");
    assert_eq!(*config.get_ssl_mode(), SslMode::Prefer);
}

#[test]
fn port_is_read_as_a_decimal_number() {
    assert_eq!(parse_port("0"), Some(0));
    assert_eq!(parse_port("5432"), Some(5432));
    assert_eq!(parse_port("65535"), Some(65535));
    assert_eq!(parse_port("+80"), Some(80));
    assert_eq!(parse_port("0080"), Some(80));
    assert_eq!(parse_port("000000000000000000000000080"), Some(80));
}

#[test]
fn other_text_is_no_port() {
    assert_eq!(parse_port(""), None);
    assert_eq!(parse_port("+"), None);
    assert_eq!(parse_port("-"), None);
    assert_eq!(parse_port("-1"), None);
    assert_eq!(parse_port("-0"), None);
    assert_eq!(parse_port("++1"), None);
    assert_eq!(parse_port("65536"), None);
    assert_eq!(parse_port("99999999999999999999999"), None);
    assert_eq!(parse_port(" 80"), None);
    assert_eq!(parse_port("80 "), None);
    assert_eq!(parse_port("8_0"), None);
    assert_eq!(parse_port("8080a"), None);
    assert_eq!(parse_port("0x50"), None);
    assert_eq!(parse_port("٨٠"), None);
}

#[test]
fn port_is_read_as_std_reads_it() {
    for case in ["0", "1", "+1", "-1", "65535", "65536", "", "+", "00", "12 ", "１２", "4294967376"] {
        assert_eq!(parse_port(case), case.parse::<u16>().ok());
    }
}

#[test]
fn trim_removes_white_space_at_both_ends() {
    assert_eq!(trim("  a b  "), "a b");
    assert_eq!(trim("a"), "a");
    assert_eq!(trim(""), "");
    assert_eq!(trim("   "), "");
    assert_eq!(trim("\t\n x \r\n"), "x");
    assert_eq!(trim("\u{a0}x\u{3000}"), "x");
    assert_eq!(trim("\u{200b}x"), "\u{200b}x");
}

#[test]
fn split_gives_the_trimmed_pieces() {
    assert_eq!(split_trimmed("a,b", ','), vec!["a", "b"]);
    assert_eq!(split_trimmed(" a , b ,c ", ','), vec!["a", "b", "c"]);
    assert_eq!(split_trimmed("", ','), vec![""]);
    assert_eq!(split_trimmed("a", ','), vec!["a"]);
    assert_eq!(split_trimmed(",", ','), vec!["", ""]);
    assert_eq!(split_trimmed("a,,b,", ','), vec!["a", "", "b", ""]);
    assert_eq!(split_trimmed(" , ", ','), vec!["", ""]);
    assert_eq!(split_trimmed("a;b", ','), vec!["a;b"]);
}

#[test]
fn builder_without_environment_needs_user_password_and_name() {
    let env = nothing();
    assert_eq!(
        DatabaseConfigBuilder::new().build(&env).err(),
        Some(ConfigError::Missing(Variable::DatabaseUsername))
    );
    assert_eq!(
        DatabaseConfigBuilder::new().with_username("u").build(&env).err(),
        Some(ConfigError::Missing(Variable::DatabasePassword))
    );
    assert_eq!(
        DatabaseConfigBuilder::new().with_username("u").with_password("p").build(&env).err(),
        Some(ConfigError::Missing(Variable::DatabaseName))
    );
    assert_eq!(
        DatabaseConfigBuilder::new().with_password("p").with_name("n").build(&env).err(),
        Some(ConfigError::Missing(Variable::DatabaseUsername))
    );
    assert_eq!(
        DatabaseConfigBuilder::new().with_username("u").with_name("n").build(&env).err(),
        Some(ConfigError::Missing(Variable::DatabasePassword))
    );
}

#[test]
fn builder_falls_back_on_defaults() {
    let config = DatabaseConfigBuilder::new()
        .with_username("u")
        .with_password("p")
        .with_name("n")
        .build(&nothing())
        .unwrap();
    assert_eq!(config.get_username(), "u");
    assert_eq!(config.get_password(), "p");
    assert_eq!(config.get_name(), "n");
    assert_eq!(config.get_port(), 5432);
    assert_eq!(config.get_host(), "127.0.0.1");
    assert_eq!(*config.get_ssl_mode(), SslMode::Prefer);
}

#[test]
fn builder_takes_what_the_environment_holds() {
    let config = DatabaseConfigBuilder::new().build(&full()).unwrap();
    assert_eq!(config.get_username(), "env-user");
    assert_eq!(config.get_password(), "env-pass");
    assert_eq!(config.get_port(), 6543);
    assert_eq!(config.get_host(), "db.internal");
    assert_eq!(config.get_name(), "env-db");
    assert_eq!(*config.get_ssl_mode(), SslMode::Require);
}

#[test]
fn what_the_caller_chose_comes_first() {
    let config = DatabaseConfigBuilder::new()
        .with_username("u")
        .with_password("p")
        .with_port(1)
        .with_host("h")
        .with_name("n")
        .with_ssl_mode(SslMode::Disable)
        .build(&full())
        .unwrap();
    assert_eq!(config.get_username(), "u");
    assert_eq!(config.get_password(), "p");
    assert_eq!(config.get_port(), 1);
    assert_eq!(config.get_host(), "h");
    assert_eq!(config.get_name(), "n");
    assert_eq!(*config.get_ssl_mode(), SslMode::Disable);
    let copy = config.clone();
    assert_eq!(copy.get_host(), "h");
    assert_eq!(copy.get_port(), 1);
}

#[test]
fn later_choice_replaces_the_earlier() {
    let config = DatabaseConfigBuilder::new()
        .with_username("first")
        .with_username("second")
        .with_password("p")
        .with_name("n")
        .with_port(1)
        .with_port(2)
        .build(&nothing())
        .unwrap();
    assert_eq!(config.get_username(), "second");
    assert_eq!(config.get_port(), 2);
}

#[test]
fn unreadable_port_and_ssl_mode_fall_back_on_defaults() {
    let env = DatabaseEnvironment { port: text("70000"), ssl_mode: text("maybe"), ..full() };
    let config = DatabaseConfigBuilder::new().build(&env).unwrap();
    assert_eq!(config.get_port(), 5432);
    assert_eq!(*config.get_ssl_mode(), SslMode::Prefer);
    let env = DatabaseEnvironment { port: text("port"), ssl_mode: text("VERIFY-FULL"), ..full() };
    let config = DatabaseConfigBuilder::new().build(&env).unwrap();
    assert_eq!(config.get_port(), 5432);
    assert_eq!(*config.get_ssl_mode(), SslMode::VerifyFull);
}

#[test]
fn empty_values_are_values() {
    let env = DatabaseEnvironment { username: text(""), host: text(""), ..full() };
    let config = DatabaseConfigBuilder::new().build(&env).unwrap();
    assert_eq!(config.get_username(), "");
    assert_eq!(config.get_host(), "");
}

#[test]
fn origins_are_the_trimmed_pieces_that_a_header_can_hold() {
    let config = server(&long_secret(), " https://a.example , https://b.example,http://localhost:3000", 1, 1);
    assert_eq!(
        config.allowed_origins(),
        vec!["https://a.example", "https://b.example", "http://localhost:3000"]
    );
    assert_eq!(server(&long_secret(), "", 1, 1).allowed_origins(), vec![""]);
    assert_eq!(server(&long_secret(), "a,,b", 1, 1).allowed_origins(), vec!["a", "", "b"]);
}

#[test]
fn origins_that_no_header_can_hold_are_left_out() {
    let config = server(&long_secret(), "a,b\u{7f}c,d\u{1}e,f\tg,h\u{e9}i", 1, 1);
    assert_eq!(config.allowed_origins(), vec!["a", "f\tg", "h\u{e9}i"]);
    let config = server(&long_secret(), "x\ny", 1, 1);
    assert_eq!(config.allowed_origins(), Vec::<String>::new());
}

#[test]
fn codec_comes_from_a_secret_of_sixty_four_bytes() {
    assert!(server(&"s".repeat(63), "", 1, 1).codec().is_none());
    assert!(server("", "", 1, 1).codec().is_none());
    let codec = server(&long_secret(), "", 1, 1).codec().unwrap();
    let same = TokenCodec::new(vec![b's'; 64]).unwrap();
    assert_eq!(codec.issue(1, 2), same.issue(1, 2));
    assert!(server(&"é".repeat(32), "", 1, 1).codec().is_some());
    assert!(server(&"é".repeat(31), "", 1, 1).codec().is_none());
}

#[test]
fn settings_that_the_service_can_start_with() {
    assert_eq!(server(&long_secret(), "https://a.example", 5, 1).check(), Ok(()));
    assert_eq!(server(&long_secret(), "", 1, 1).check(), Ok(()));
    assert_eq!(server(&long_secret(), "*.example, a*", u64::MAX, u64::MAX).check(), Ok(()));
}

#[test]
fn settings_that_the_service_cannot_start_with() {
    assert_eq!(
        server(&"s".repeat(63), "https://a.example", 5, 1).check(),
        Err(ConfigError::Invalid(Variable::CookieSecret))
    );
    assert_eq!(
        server(&long_secret(), "https://a.example, * ", 5, 1).check(),
        Err(ConfigError::Invalid(Variable::Origins))
    );
    assert_eq!(
        server(&long_secret(), "https://a.example", 0, 1).check(),
        Err(ConfigError::Invalid(Variable::RateLimitBurst))
    );
    assert_eq!(
        server(&long_secret(), "https://a.example", 5, 0).check(),
        Err(ConfigError::Invalid(Variable::RateLimitPeriod))
    );
}

#[test]
fn first_fault_is_named() {
    assert_eq!(server("", "*", 0, 0).check(), Err(ConfigError::Invalid(Variable::CookieSecret)));
    assert_eq!(
        server(&long_secret(), "*", 0, 0).check(),
        Err(ConfigError::Invalid(Variable::Origins))
    );
    assert_eq!(
        server(&long_secret(), "a", 0, 0).check(),
        Err(ConfigError::Invalid(Variable::RateLimitBurst))
    );
}

fn server_environment(secret: Option<&str>) -> ServerEnvironment {
    ServerEnvironment {
        host: None,
        port: None,
        cookie_secret: secret.map(|s| s.to_string()),
        origins: None,
        timeout_in_secs: None,
        rate_limit_burst: None,
        rate_limit_per_secs: None,
    }
}

#[test]
fn number_is_read_as_std_reads_it() {
    assert_eq!(parse_number("0"), Some(0));
    assert_eq!(parse_number("+30"), Some(30));
    assert_eq!(parse_number("18446744073709551615"), Some(u64::MAX));
    assert_eq!(parse_number("18446744073709551616"), None);
    assert_eq!(parse_number("99999999999999999999"), None);
    assert_eq!(parse_number("184467440737095516150"), None);
    for case in ["", "+", "-", "-5", "007", "1e3", "1.0", " 1", "18446744073709551615", "18446744073709551616"] {
        assert_eq!(parse_number(case), case.parse::<u64>().ok());
    }
}

#[test]
fn server_without_a_secret_is_missing_it() {
    let resolved = ServerConfig::resolve(&server_environment(None));
    assert_eq!(resolved.err(), Some(ConfigError::Missing(Variable::CookieSecret)));
}

#[test]
fn server_falls_back_on_defaults() {
    let secret = long_secret();
    let config = ServerConfig::resolve(&server_environment(Some(&secret))).unwrap();
    assert_eq!(config.host, "127.0.0.1");
    assert_eq!(config.port, 8080);
    assert_eq!(config.cookie_secret, secret);
    assert_eq!(config.origins, "");
    assert_eq!(config.timeout_in_secs, 30);
    assert_eq!(config.rate_limit_burst, 100);
    assert_eq!(config.rate_limit_per_secs, 1);
}

#[test]
fn server_takes_what_the_environment_holds() {
    let secret = long_secret();
    let mut env = server_environment(Some(&secret));
    env.host = text("0.0.0.0");
    env.port = text("3000");
    env.origins = text("https://a.example,https://b.example");
    env.timeout_in_secs = text("5");
    env.rate_limit_burst = text("7");
    env.rate_limit_per_secs = text("9");
    let config = ServerConfig::resolve(&env).unwrap();
    assert_eq!(config.host, "0.0.0.0");
    assert_eq!(config.port, 3000);
    assert_eq!(config.origins, "https://a.example,https://b.example");
    assert_eq!(config.timeout_in_secs, 5);
    assert_eq!(config.rate_limit_burst, 7);
    assert_eq!(config.rate_limit_per_secs, 9);
    assert_eq!(config.check(), Ok(()));
}

#[test]
fn unreadable_server_numbers_fall_back_on_defaults() {
    let secret = long_secret();
    let mut env = server_environment(Some(&secret));
    env.port = text("http");
    env.timeout_in_secs = text("soon");
    env.rate_limit_burst = text("-1");
    env.rate_limit_per_secs = text("");
    let config = ServerConfig::resolve(&env).unwrap();
    assert_eq!(config.port, 8080);
    assert_eq!(config.timeout_in_secs, 30);
    assert_eq!(config.rate_limit_burst, 100);
    assert_eq!(config.rate_limit_per_secs, 1);
}

#[test]
fn server_that_cannot_start_does_not_resolve() {
    let short = "s".repeat(10);
    assert_eq!(
        ServerConfig::resolve(&server_environment(Some(&short))).err(),
        Some(ConfigError::Invalid(Variable::CookieSecret))
    );
    let secret = long_secret();
    let mut env = server_environment(Some(&secret));
    env.origins = text("https://a.example,*");
    assert_eq!(ServerConfig::resolve(&env).err(), Some(ConfigError::Invalid(Variable::Origins)));
    let mut env = server_environment(Some(&secret));
    env.rate_limit_burst = text("0");
    assert_eq!(
        ServerConfig::resolve(&env).err(),
        Some(ConfigError::Invalid(Variable::RateLimitBurst))
    );
    let mut env = server_environment(Some(&secret));
    env.rate_limit_per_secs = text("0");
    assert_eq!(
        ServerConfig::resolve(&env).err(),
        Some(ConfigError::Invalid(Variable::RateLimitPeriod))
    );
}

#[test]
fn trim_by_goes_by_the_marks_it_is_given() {
    assert_eq!(trim_by("abcd", &[true, false, false, true]), Some("bc"));
    assert_eq!(trim_by("abcd", &[false, true, true, false]), Some("abcd"));
    assert_eq!(trim_by("abcd", &[true, true, true, true]), Some(""));
    assert_eq!(trim_by("abcd", &[false, false, false, false]), Some("abcd"));
    assert_eq!(trim_by("abcd", &[true, true, false, false]), Some("cd"));
    assert_eq!(trim_by("abcd", &[false, false, true, true]), Some("ab"));
    assert_eq!(trim_by("a", &[true]), Some(""));
    assert_eq!(trim_by("", &[]), Some(""));
    assert_eq!(trim_by("héllo", &[true, false, false, false, true]), Some("éll"));
}

#[test]
fn trim_by_needs_one_mark_for_each_character() {
    assert_eq!(trim_by("abcd", &[true, false]), None);
    assert_eq!(trim_by("", &[true]), None);
    assert_eq!(trim_by("é", &[false, false]), None);
}

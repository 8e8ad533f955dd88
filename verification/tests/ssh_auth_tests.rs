use rust_expect::backend::ssh::auth::{AuthMethod, SshCredentials};
use rust_expect::backend::ssh::builder::{parse_ssh_target, SshSessionBuilder};
use rust_expect::config::env::{subprocess_env, EnvConfig};
use rust_expect::env_map::EnvMap;

#[test]
fn auth_method_password() {
    let auth = AuthMethod::password("secret".to_string());
    assert!(auth.is_password());
    assert!(!auth.is_public_key());
    assert!(!auth.is_keyboard_interactive());
}

#[test]
fn auth_method_keyboard_interactive() {
    let auth = AuthMethod::keyboard_interactive_password("secret".to_string());
    assert!(auth.is_keyboard_interactive());
    assert!(!auth.is_password());
    assert!(!auth.is_public_key());

    if let AuthMethod::KeyboardInteractive { responses } = auth {
        assert_eq!(responses.len(), 1);
        assert_eq!(responses[0], "secret");
    } else {
        panic!("Expected KeyboardInteractive variant");
    }
}

#[test]
fn auth_method_keyboard_interactive_multi_response() {
    let auth = AuthMethod::keyboard_interactive(vec!["password".to_string(), "123456".to_string()]);
    assert!(auth.is_keyboard_interactive());

    if let AuthMethod::KeyboardInteractive { responses } = auth {
        assert_eq!(responses.len(), 2);
        assert_eq!(responses[0], "password");
        assert_eq!(responses[1], "123456");
    } else {
        panic!("Expected KeyboardInteractive variant");
    }
}

#[test]
fn credentials_builder() {
    let creds = SshCredentials::new("user".to_string())
        .with_password("pass".to_string())
        .with_agent();

    assert_eq!(creds.username, "user");
    assert_eq!(creds.auth_methods.len(), 2);
}

#[test]
fn credentials_keyboard_interactive() {
    let creds = SshCredentials::new("user".to_string()).with_keyboard_interactive("password".to_string());

    assert_eq!(creds.username, "user");
    assert_eq!(creds.auth_methods.len(), 1);
    assert!(creds.auth_methods[0].is_keyboard_interactive());
}

#[test]
fn credentials_keyboard_interactive_multi_response() {
    let creds = SshCredentials::new("user".to_string())
        .with_keyboard_interactive_responses(vec!["password".to_string(), "otp_code".to_string()]);

    assert_eq!(creds.username, "user");
    assert_eq!(creds.auth_methods.len(), 1);

    if let AuthMethod::KeyboardInteractive { responses } = &creds.auth_methods[0] {
        assert_eq!(responses.len(), 2);
    } else {
        panic!("Expected KeyboardInteractive variant");
    }
}

#[test]
fn credentials_multiple_auth_methods() {
    let creds = SshCredentials::new("user".to_string())
        .with_agent()
        .with_keyboard_interactive("password".to_string())
        .with_password("fallback".to_string());

    assert_eq!(creds.auth_methods.len(), 3);
    assert!(matches!(creds.auth_methods[0], AuthMethod::Agent));
    assert!(creds.auth_methods[1].is_keyboard_interactive());
    assert!(creds.auth_methods[2].is_password());
}

#[test]
fn builder_basic() {
    let session = SshSessionBuilder::new()
        .host("example.com".to_string())
        .username("user".to_string())
        .password("pass".to_string())
        .build("nobody".to_string(), "/home/nobody")
        .unwrap();

    assert_eq!(session.config().host, "example.com");
    assert_eq!(session.config().credentials.username, "user");
}

#[test]
fn builder_without_host_fails() {
    let result = SshSessionBuilder::new().username("user".to_string()).build("nobody".to_string(), "/home/nobody");
    assert!(result.is_err());
}

#[test]
fn parse_target_full() {
    let (user, host, port) = parse_ssh_target("admin@server.com:2222");
    assert_eq!(user, Some("admin".to_string()));
    assert_eq!(host, "server.com");
    assert_eq!(port, 2222);
}

#[test]
fn parse_target_simple() {
    let (user, host, port) = parse_ssh_target("server.com");
    assert_eq!(user, None);
    assert_eq!(host, "server.com");
    assert_eq!(port, 22);
}

#[test]
fn parse_target_bad_port_defaults() {
    let (user, host, port) = parse_ssh_target("root@box:notaport");
    assert_eq!(user, Some("root".to_string()));
    assert_eq!(host, "box:notaport");
    assert_eq!(port, 22);
}

#[test]
fn env_config_prefix() {
    let config = EnvConfig::new("TEST");
    assert_eq!(config.var_name("foo"), "TEST_FOO");
    assert_eq!(config.var_name("bar_baz"), "TEST_BAR_BAZ");
}

#[test]
fn env_config_no_prefix() {
    let config = EnvConfig::no_prefix();
    assert_eq!(config.var_name("foo"), "FOO");
}

#[test]
fn env_bool_parsing() {
    let mut config = EnvConfig::new("TEST");
    let mut env = EnvMap::new();
    config.set(&mut env, "ENABLED", "true");
    config.set(&mut env, "DISABLED", "false");

    assert_eq!(config.bool(&env, "ENABLED"), Some(true));
    assert_eq!(config.bool(&env, "DISABLED"), Some(false));

    config.unset(&mut env, "ENABLED");
    config.unset(&mut env, "DISABLED");
    assert_eq!(config.bool(&env, "ENABLED"), None);
}

#[test]
fn subprocess_env_has_path() {
    let mut parent = EnvMap::new();
    parent.insert("PATH".to_string(), "/usr/bin:/bin".to_string());
    parent.insert("SECRET_THING".to_string(), "x".to_string());
    let env = subprocess_env(&parent);
    assert!(env.contains_key("PATH"));
}

#[test]
fn env_config_numbers_and_durations() {
    let config = EnvConfig::new("APP");
    let mut env = EnvMap::new();
    env.insert("APP_TIMEOUT".to_string(), "30".to_string());
    env.insert("APP_BAD".to_string(), "x1".to_string());
    assert_eq!(config.parse_u64(&env, "timeout"), Some(30));
    assert_eq!(config.parse_u64(&env, "bad"), None);
    assert_eq!(config.parse_or(&env, "bad", 7), 7);
    assert_eq!(config.duration_secs(&env, "timeout"), Some(30_000));
    assert_eq!(config.duration_millis(&env, "timeout"), Some(30));
    assert_eq!(config.get_or(&env, "missing", "dflt"), "dflt");
}

#[test]
fn accept_all_keys_skips_verification() {
    let session = SshSessionBuilder::new().host("h".to_string()).accept_all_keys().build("me".to_string(), "/home/me").unwrap();
    assert_eq!(
        session.config().host_key_verification,
        rust_expect::backend::ssh::auth::HostKeyVerification::AcceptAll
    );
    assert!(rust_expect::backend::ssh::known_hosts::server_key_accepted(
        rust_expect::backend::ssh::auth::HostKeyVerification::AcceptAll,
        false
    ));
}

#[test]
fn build_adds_default_methods_in_order() {
    let session = SshSessionBuilder::new().host("h".to_string()).build("me".to_string(), "/home/me").unwrap();
    let methods = &session.config().credentials.auth_methods;
    assert_eq!(methods.len(), 3);
    assert!(matches!(methods[0], AuthMethod::Agent));
    assert!(matches!(&methods[1], AuthMethod::PublicKey { private_key, passphrase: None } if private_key == "/home/me/.ssh/id_ed25519"));
    assert!(matches!(&methods[2], AuthMethod::PublicKey { private_key, passphrase: None } if private_key == "/home/me/.ssh/id_rsa"));
}

#[test]
fn env_config_signed_numbers() {
    let config = EnvConfig::new("APP");
    let mut env = EnvMap::new();
    env.insert("APP_OFFSET".to_string(), "-12".to_string());
    env.insert("APP_BAD".to_string(), "12x".to_string());
    assert_eq!(config.parse_i64(&env, "offset"), Some(-12));
    assert_eq!(config.parse_i64(&env, "bad"), None);
    assert_eq!(config.parse_i64(&env, "missing"), None);
}

use rust_expect::auto_config::shell::{default_shell_from, detect_from_path, detect_shell_from, ShellConfig, ShellType};
use rust_expect::backend::pty::{EnvMode, PtyConfig, PtySpawner};
use rust_expect::env_map::EnvMap;
use rust_expect::config::{LineEnding, SessionConfig};

#[test]
fn detect_bash() {
    assert_eq!(detect_from_path("/bin/bash"), ShellType::Bash);
    assert_eq!(detect_from_path("/usr/bin/bash"), ShellType::Bash);
}

#[test]
fn detect_zsh() {
    assert_eq!(detect_from_path("/bin/zsh"), ShellType::Zsh);
}

#[test]
fn shell_type_name() {
    assert_eq!(ShellType::Bash.name(), "bash");
    assert_eq!(ShellType::Zsh.name(), "zsh");
}

#[test]
fn shell_config_default() {
    let config = ShellConfig::new(default_shell_from(None));
    assert!(!config.path.is_empty());
}

#[test]
fn shell_detection_edges() {
    assert_eq!(detect_shell_from(None), ShellType::Unknown);
    assert_eq!(detect_shell_from(Some("/usr/local/bin/fish")), ShellType::Fish);
    assert_eq!(default_shell_from(Some("/bin/zsh".to_string())), "/bin/zsh");
    let config = ShellConfig::new("/bin/bash".to_string()).arg("-l".to_string());
    let (path, args) = config.command();
    assert_eq!(path, "/bin/bash");
    assert_eq!(args, &["-l".to_string()][..]);
    assert_eq!(config.shell_type, ShellType::Bash);
}

#[test]
fn pty_config_default() {
    let config = PtyConfig::default();
    assert_eq!(config.dimensions.0, 80);
    assert_eq!(config.dimensions.1, 24);
    assert_eq!(config.env_mode, EnvMode::Inherit);
}

#[test]
fn pty_config_from_session() {
    let mut session_config = SessionConfig::default();
    session_config.dimensions = (120, 40);
    let pty_config = PtyConfig::from_session(&session_config);
    assert_eq!(pty_config.dimensions.0, 120);
    assert_eq!(pty_config.dimensions.1, 40);
}

#[test]
fn session_config_builder() {
    let config = SessionConfig::new("bash".to_string())
        .args(vec!["-l".to_string(), "-i".to_string()])
        .env("MY_VAR".to_string(), "value".to_string())
        .dimensions(120, 40)
        .timeout(10_000);

    assert_eq!(config.command, "bash");
    assert_eq!(config.args, vec!["-l", "-i"]);
    assert_eq!(config.env.get("MY_VAR"), Some(&"value".to_string()));
    assert_eq!(config.dimensions, (120, 40));
    assert_eq!(config.timeout.default, 10_000);
}

#[test]
fn line_ending_as_str() {
    assert_eq!(LineEnding::Lf.as_str(), "\n");
    assert_eq!(LineEnding::CrLf.as_str(), "\r\n");
    assert_eq!(LineEnding::Cr.as_str(), "\r");
}

#[test]
fn default_config_has_term() {
    let config = SessionConfig::default();
    assert_eq!(config.env.get("TERM"), Some(&"xterm-256color".to_string()));
}

#[test]
fn spawn_rejects_null_byte_in_command() {
    let spawner = PtySpawner::new();
    let result = spawner.prepare_spawn("test\0command", &[], &EnvMap::new(), true);
    assert!(result.is_err());
    let err_str = result.unwrap_err().to_string();
    assert!(err_str.contains("nul byte"), "Expected error about a nul byte, got: {err_str}");
}

#[test]
fn spawn_rejects_null_byte_in_args() {
    let spawner = PtySpawner::new();
    let result = spawner.prepare_spawn("/bin/echo", &["hello\0world".to_string()], &EnvMap::new(), true);
    assert!(result.is_err());
    let err_str = result.unwrap_err().to_string();
    assert!(err_str.contains("nul byte"), "Expected error about a nul byte, got: {err_str}");
}

#[test]
fn prepare_spawn_passes_plain_arguments() {
    let spawner = PtySpawner::new();
    let request = spawner.prepare_spawn("/bin/echo", &["hello".to_string()], &EnvMap::new(), true).unwrap();
    assert_eq!(request.command, "/bin/echo");
    assert_eq!(request.args, vec!["hello".to_string()]);
    assert!(request.env.is_none());
}

use rust_expect::auto_config::prompt::{
    detect_prompt, ends_with_prompt, generate_prompt_marker, prompt_marker_at, set_prompt_command, PromptConfig,
};
use rust_expect::config::file::{
    parse_config, parse_simple_json, parse_simple_toml, parse_simple_yaml, parse_value, ConfigFormat, ConfigLoader,
    ConfigValue,
};

#[test]
fn parse_toml_basic() {
    let content = r#"
            name = "test"
            value = 42
            enabled = true
        "#;

    let config = parse_simple_toml(content).unwrap();
    assert_eq!(config.get("name").unwrap().as_str(), Some("test"));
    assert_eq!(config.get("value").unwrap().as_int(), Some(42));
    assert_eq!(config.get("enabled").unwrap().as_bool(), Some(true));
}

#[test]
fn parse_yaml_basic() {
    let content = r#"
            name: test
            value: 42
        "#;

    let config = parse_simple_yaml(content).unwrap();
    assert_eq!(config.get("name").unwrap().as_str(), Some("test"));
    assert_eq!(config.get("value").unwrap().as_int(), Some(42));
}

#[test]
fn config_format_detection() {
    assert_eq!(ConfigFormat::from_extension("toml"), Some(ConfigFormat::Toml));
    assert_eq!(ConfigFormat::from_extension("json"), Some(ConfigFormat::Json));
    assert_eq!(ConfigFormat::from_extension("yaml"), Some(ConfigFormat::Yaml));
}

#[test]
fn config_format_from_path_and_case() {
    assert_eq!(ConfigFormat::from_extension("YML"), Some(ConfigFormat::Yaml));
    assert_eq!(ConfigFormat::from_extension("conf"), Some(ConfigFormat::Ini));
    assert_eq!(ConfigFormat::from_extension("txt"), None);
    assert_eq!(ConfigFormat::from_path("/etc/app/config.TOML"), Some(ConfigFormat::Toml));
    assert_eq!(ConfigFormat::from_path("/home/user/.bashrc"), None);
    assert_eq!(ConfigFormat::from_path("noext"), None);
}

#[test]
fn toml_sections_and_overrides() {
    let config = parse_simple_toml("a = 1\n[server]\nport = 8080\n# comment\na = 2\na = \"x\"\n").unwrap();
    assert_eq!(config.get("a").unwrap().as_int(), Some(1));
    assert_eq!(config.get("server.port").unwrap().as_int(), Some(8080));
    assert_eq!(config.get("server.a").unwrap().as_str(), Some("x"));
    assert!(config.get("port").is_none());
}

#[test]
fn json_and_values() {
    let config = parse_simple_json("{ \"host\": \"example.com\", \"port\": 22, \"debug\": false }").unwrap();
    assert_eq!(config.get("host").unwrap().as_str(), Some("example.com"));
    assert_eq!(config.get("port").unwrap().as_int(), Some(22));
    assert_eq!(config.get("debug").unwrap().as_bool(), Some(false));
    assert_eq!(parse_value(" -17 ").as_int(), Some(-17));
    assert!(matches!(parse_value("~"), ConfigValue::Null));
    assert_eq!(parse_value("'quoted'").as_str(), Some("quoted"));
    assert_eq!(parse_value("9223372036854775808").as_str(), Some("9223372036854775808"));
    assert_eq!(parse_value("-9223372036854775808").as_int(), Some(i64::MIN));
    assert!(parse_config("x: 1", ConfigFormat::Yaml).is_ok());
}

#[test]
fn nested_path_lookup() {
    let inner = ConfigValue::Table(vec![("k".to_string(), ConfigValue::Integer(5))]);
    let outer = ConfigValue::Table(vec![("section".to_string(), inner)]);
    assert_eq!(outer.get_path("section.k").unwrap().as_int(), Some(5));
    assert!(outer.get_path("section.missing").is_none());
}

#[test]
fn loader_candidates() {
    let loader = ConfigLoader::new().add_path("/etc/app").with_format(ConfigFormat::Json);
    assert_eq!(loader.default_format, Some(ConfigFormat::Json));
    let c = loader.candidates("cfg");
    assert_eq!(c.len(), 7);
    assert_eq!(c[0], "/etc/app/cfg");
    assert_eq!(c[1], "/etc/app/cfg.toml");
    assert_eq!(c[6], "/etc/app/cfg.cfg");
}

#[test]
fn detect_bash_prompt() {
    let text = "user@host:~$ ";
    let info = detect_prompt(text);
    assert!(info.is_some());
}

#[test]
fn detect_root_prompt() {
    let text = "root@host:/# ";
    let info = detect_prompt(text);
    assert!(info.is_some());
    assert_eq!(info.unwrap().prompt_type, "root");
}

#[test]
fn detect_python_prompt() {
    let text = ">>> ";
    let info = detect_prompt(text);
    assert!(info.is_some());
    assert_eq!(info.unwrap().prompt_type, "python");
}

#[test]
fn prompt_config_custom() {
    let config = PromptConfig::new().with_pattern(r"myhost>\s*$");
    assert!(config.matches("myhost> "));
    assert!(!config.matches("other> "));
}

#[test]
fn prompt_marker() {
    let marker = generate_prompt_marker();
    assert!(marker.starts_with("__EXPECT_PROMPT_"));
    assert!(marker.ends_with("__"));
}

#[test]
fn prompt_marker_and_command() {
    assert_eq!(prompt_marker_at(42), "__EXPECT_PROMPT_42__");
    assert_eq!(set_prompt_command("M"), "PS1='M '");
    assert!(ends_with_prompt("line one\nuser@host:~$ "));
    assert!(!ends_with_prompt("plain words"));
    let info = detect_prompt("first\nsecond\nthird\n>>> ").unwrap();
    assert_eq!(info.position, 19);
    assert_eq!(info.matched, ">>> ");
}

#[test]
fn prompt_position_is_where_the_match_starts() {
    let info = detect_prompt("$\n").unwrap();
    assert_eq!(info.prompt_type, "bash");
    assert_eq!(info.matched, "$");
    assert_eq!(info.position, 0);
    let text = "a\r\nb\r\nuser$ ";
    let info = detect_prompt(text).unwrap();
    assert_eq!(info.position, 10);
    assert!(text[info.position..].starts_with(&info.matched));
}

use rust_expect::auto_config::line_ending::{detect_line_ending, normalize_line_endings, to_crlf, to_lf, LineEnding, LineEndingConfig};
use rust_expect::auto_config::locale::{force_utf8_env, is_utf8_environment, utf8_environment, LocaleInfo};
use rust_expect::env_map::EnvMap;

#[test]
fn detect_lf() {
    let data = b"line1\nline2\nline3\n";
    assert_eq!(detect_line_ending(data), LineEnding::Lf);
}

#[test]
fn detect_crlf() {
    let data = b"line1\r\nline2\r\nline3\r\n";
    assert_eq!(detect_line_ending(data), LineEnding::CrLf);
}

#[test]
fn normalize_to_lf() {
    let data = b"line1\r\nline2\r\n";
    let result = to_lf(data);
    assert_eq!(result, b"line1\nline2\n");
}

#[test]
fn normalize_to_crlf() {
    let data = b"line1\nline2\n";
    let result = to_crlf(data);
    assert_eq!(result, b"line1\r\nline2\r\n");
}

#[test]
fn line_ending_bytes() {
    assert_eq!(LineEnding::Lf.as_bytes(), b"\n");
    assert_eq!(LineEnding::CrLf.as_bytes(), b"\r\n");
}

#[test]
fn detect_cr_mixed_and_empty() {
    assert_eq!(detect_line_ending(b"a\rb\rc"), LineEnding::Cr);
    assert_eq!(detect_line_ending(b"abc"), LineEnding::Unknown);
    assert_eq!(detect_line_ending(b""), LineEnding::Unknown);
    // one of each: mixed, platform default
    assert_eq!(detect_line_ending(b"a\nb\r\nc\rd"), LineEnding::Lf);
}

#[test]
fn normalize_lone_cr_and_names() {
    assert_eq!(normalize_line_endings(b"a\rb\r\nc\n", LineEnding::Cr), b"a\rb\rc\r".to_vec());
    assert_eq!(LineEnding::CrLf.name(), "CRLF");
    assert_eq!(LineEnding::Unknown.as_str(), "\n");
}

#[test]
fn line_ending_config_process() {
    let config = LineEndingConfig::new().with_input(LineEnding::CrLf);
    assert_eq!(config.process_input("ls"), b"ls\r\n".to_vec());
    assert_eq!(config.process_input("ls\n"), b"ls\n".to_vec());
    let config = config.with_output(LineEnding::Lf).with_auto_detect(false);
    assert!(!config.auto_detect);
    assert_eq!(config.process_output(b"a\r\nb"), b"a\nb".to_vec());
    assert_eq!(LineEndingConfig::new().process_output(b"a\r\nb"), b"a\r\nb".to_vec());
}

#[test]
fn parse_full_locale() {
    let info = LocaleInfo::parse("en_US.UTF-8");
    assert_eq!(info.language, Some("en".to_string()));
    assert_eq!(info.territory, Some("US".to_string()));
    assert_eq!(info.codeset, Some("UTF-8".to_string()));
    assert!(info.is_utf8());
}

#[test]
fn parse_locale_with_modifier() {
    let info = LocaleInfo::parse("de_DE.UTF-8@euro");
    assert_eq!(info.language, Some("de".to_string()));
    assert_eq!(info.territory, Some("DE".to_string()));
    assert_eq!(info.modifier, Some("euro".to_string()));
}

#[test]
fn parse_c_locale() {
    let info = LocaleInfo::parse("C");
    assert_eq!(info.language, Some("C".to_string()));
    assert!(!info.is_utf8());
}

#[test]
fn locale_to_string() {
    let info = LocaleInfo {
        language: Some("en".to_string()),
        territory: Some("US".to_string()),
        codeset: Some("UTF-8".to_string()),
        modifier: None,
    };
    assert_eq!(info.to_string(), "en_US.UTF-8");
}

#[test]
fn locale_round_trip_and_env() {
    let info = LocaleInfo::parse("de_DE.utf8@euro");
    assert_eq!(info.to_string(), "de_DE.utf8@euro");
    assert!(info.is_utf8());
    assert!(LocaleInfo::parse("").language == Some("C".to_string()));
    assert!(is_utf8_environment(None, Some("en_US.UTF-8")));
    assert!(!is_utf8_environment(Some("C"), Some("en_US.UTF-8")));
    let env = utf8_environment();
    assert_eq!(env.get("LANG"), Some(&"en_US.UTF-8".to_string()));
    let mut base = EnvMap::new();
    base.insert("LANG".to_string(), "C".to_string());
    let forced = force_utf8_env(base);
    assert_eq!(forced.get("LC_ALL"), Some(&"en_US.UTF-8".to_string()));
    assert_eq!(forced.get("LANG"), Some(&"C".to_string()));
}

#[test]
fn locale_parse_then_format_gives_the_text_back() {
    for text in ["de_DE.UTF-8@euro", "en_US.UTF-8", "C", "fr", "_US", "x.y"] {
        assert_eq!(LocaleInfo::parse(text).to_string(), text);
    }
}

#[test]
fn line_ending_normalization_twice() {
    use_normalize();
}

fn use_normalize() {
    let d = b"a\r\nb\nc\rd\r";
    let crlf = rust_expect::auto_config::line_ending::normalize_line_endings(d, rust_expect::auto_config::line_ending::LineEnding::CrLf);
    let cr = rust_expect::auto_config::line_ending::normalize_line_endings(d, rust_expect::auto_config::line_ending::LineEnding::Cr);
    let lf = rust_expect::auto_config::line_ending::normalize_line_endings(d, rust_expect::auto_config::line_ending::LineEnding::Lf);
    assert_eq!(rust_expect::auto_config::line_ending::normalize_line_endings(&crlf, rust_expect::auto_config::line_ending::LineEnding::Lf), lf);
    assert_eq!(rust_expect::auto_config::line_ending::normalize_line_endings(&cr, rust_expect::auto_config::line_ending::LineEnding::Lf), lf);
    assert_eq!(rust_expect::auto_config::line_ending::normalize_line_endings(&crlf, rust_expect::auto_config::line_ending::LineEnding::CrLf), crlf);
    assert_eq!(lf, b"a\nb\nc\nd\n".to_vec());
}

use rust_expect::expect::glob::glob_match;
use rust_expect::expect::matcher::{ExpectState, Matcher};
use rust_expect::expect::pattern::{Pattern, PatternSet};

#[test]
fn literal_pattern_matches() {
    let pattern = Pattern::literal("hello");
    let result = pattern.matches("say hello world");
    assert!(result.is_some());
    let m = result.unwrap();
    assert_eq!(m.start, 4);
    assert_eq!(m.end, 9);
}

#[test]
fn regex_pattern_matches() {
    let pattern = Pattern::regex(r"\d+").unwrap();
    let result = pattern.matches("test 123 value");
    assert!(result.is_some());
    let m = result.unwrap();
    assert_eq!(m.as_str("test 123 value"), "123");
}

#[test]
fn regex_pattern_captures() {
    let pattern = Pattern::regex(r"(\w+)@(\w+)").unwrap();
    let result = pattern.matches("email: user@domain here");
    assert!(result.is_some());
    let m = result.unwrap();
    assert_eq!(m.captures, vec!["user", "domain"]);
}

#[test]
fn invalid_regex_is_an_error() {
    assert!(Pattern::regex("(unclosed").is_err());
}

#[test]
fn glob_pattern_matches() {
    let pattern = Pattern::glob("hello*world");
    let result = pattern.matches("say hello beautiful world!");
    assert!(result.is_some());
    assert_eq!(result.unwrap().start, 4);
}

#[test]
fn glob_edge_cases() {
    assert_eq!(glob_match("a?c", "xxabcxx"), Some(2));
    assert_eq!(glob_match("*", ""), Some(0));
    assert_eq!(glob_match("abc", "ab"), None);
    assert_eq!(glob_match("a*", "bba"), Some(2));
}

#[test]
fn pattern_set_finds_first() {
    let mut set = PatternSet::new();
    set.add(Pattern::literal("world")).add(Pattern::literal("hello"));

    let result = set.find_match("hello world");
    assert!(result.is_some());
    let (idx, _) = result.unwrap();
    assert_eq!(idx, 1);
}

#[test]
fn pattern_set_min_timeout() {
    let mut set = PatternSet::new();
    set.add(Pattern::timeout(10_000)).add(Pattern::timeout(5_000));

    assert_eq!(set.min_timeout(), Some(5_000));
}

#[test]
fn convenience_patterns() {
    assert!(Pattern::shell_prompt().matches("user@host:~$ ").is_some());
    assert!(Pattern::shell_prompt().matches("root@host:~# ").is_some());
    assert!(Pattern::ipv4().unwrap().matches("Server IP: 192.168.1.1").is_some());
    assert!(Pattern::email().unwrap().matches("Contact: user@example.com").is_some());
    assert!(Pattern::error_indicator().matches("Command FAILED").is_some());
    assert!(Pattern::password_prompt().matches("Enter passphrase: ").is_some());
    assert!(Pattern::eof().is_eof());
    assert!(Pattern::timeout(5_000).is_timeout());
    assert_eq!(Pattern::eof().as_str(), "<EOF>");
}

#[test]
fn matcher_literal() {
    let mut matcher = Matcher::new(1024);
    matcher.append(b"hello world");

    let pattern = Pattern::literal("world");
    let result = matcher.try_match(&pattern);
    assert!(result.is_some());

    let m = result.unwrap();
    assert_eq!(m.start, 6);
    assert_eq!(m.end, 11);
}

#[test]
fn matcher_regex() {
    let mut matcher = Matcher::new(1024);
    matcher.append(b"value: 42");

    let pattern = Pattern::regex(r"\d+").unwrap();
    let result = matcher.try_match(&pattern);
    assert!(result.is_some());

    let m = result.unwrap();
    assert_eq!(m.start, 7);
    assert_eq!(m.end, 9);
}

#[test]
fn matcher_consume() {
    let mut matcher = Matcher::new(1024);
    matcher.append(b"prefix|match|suffix");

    let pattern = Pattern::literal("match");
    let result = matcher.try_match(&pattern).unwrap();
    let m = matcher.consume_match(&result);

    assert_eq!(m.before, "prefix|");
    assert_eq!(m.matched, "match");
    assert_eq!(m.after, "|suffix");
}

#[test]
fn matcher_pattern_set() {
    let mut matcher = Matcher::new(1024);
    matcher.append(b"error: something went wrong");

    let mut patterns = PatternSet::new();
    patterns.add(Pattern::literal("success")).add(Pattern::literal("error"));

    let result = matcher.try_match_any(&patterns);
    assert!(result.is_some());
    assert_eq!(result.unwrap().pattern_index, 1);
}

#[test]
fn matcher_bytes_waits_then_matches() {
    let mut matcher = Matcher::new(1024);
    let pattern = Pattern::bytes(5);

    matcher.append(b"abc");
    assert!(matcher.try_match(&pattern).is_none());

    matcher.append(b"defgh");
    let result = matcher.try_match(&pattern).expect("Bytes(5) should match");
    assert_eq!(result.start, 0);
    assert_eq!(result.end, 5);

    let m = matcher.consume_match(&result);
    assert_eq!(m.matched, "abcde");
}

#[test]
fn matcher_bytes_in_pattern_set() {
    let mut matcher = Matcher::new(1024);
    matcher.append(b"abcdef");

    let mut patterns = PatternSet::new();
    patterns.add(Pattern::literal("zzz")).add(Pattern::bytes(4));

    let result = matcher.try_match_any(&patterns).expect("Bytes(4) should match in the set");
    assert_eq!(result.pattern_index, 1);
    assert_eq!(result.end - result.start, 4);
}

#[test]
fn matcher_offsets_survive_invalid_utf8() {
    let mut matcher = Matcher::new(1024);
    matcher.append(&[0xFF, 0xFF, b'A', b'B']);

    let pattern = Pattern::literal("AB");
    let result = matcher.try_match(&pattern).expect("AB should match");
    assert_eq!(result.start, 2);
    assert_eq!(result.end, 4);

    let m = matcher.consume_match(&result);
    assert_eq!(m.matched, "AB");
    assert_eq!(m.before, "\u{FFFD}\u{FFFD}");
}

#[test]
fn matcher_offsets_survive_truncated_sequence() {
    let mut matcher = Matcher::new(1024);
    matcher.append(&[0xE2, 0x82, b'x', b'y', b'z']);

    let pattern = Pattern::literal("yz");
    let result = matcher.try_match(&pattern).expect("yz should match");
    let m = matcher.consume_match(&result);
    assert_eq!(m.matched, "yz");
}

#[test]
fn matcher_offsets_with_valid_multibyte() {
    let mut matcher = Matcher::new(1024);
    matcher.append("héllo wörld".as_bytes());

    let pattern = Pattern::literal("wörld");
    let result = matcher.try_match(&pattern).expect("wörld should match");
    let m = matcher.consume_match(&result);
    assert_eq!(m.matched, "wörld");
    assert_eq!(m.before, "héllo ");
}

#[test]
fn matcher_offsets_with_search_window_and_invalid_utf8() {
    let mut matcher = Matcher::new(1024);
    matcher.set_search_window(Some(6));
    matcher.append(b"prefix");
    matcher.append(&[0xFF, b'f', b'i', b'n', b'd', b'!']);

    let pattern = Pattern::literal("find");
    let result = matcher.try_match(&pattern).expect("find should match");
    assert_eq!(result.start, 7);

    let m = matcher.consume_match(&result);
    assert_eq!(m.matched, "find");
    assert_eq!(m.after, "!");
}

#[test]
fn matcher_simple_glob_and_timeout() {
    let mut matcher = Matcher::new(64);
    matcher.append(b"abc>");
    let r = matcher.try_match(&Pattern::glob("*>")).unwrap();
    assert_eq!((r.start, r.end), (3, 4));
    assert!(matcher.try_match(&Pattern::eof()).is_none());
    let mut set = PatternSet::new();
    set.add(Pattern::timeout(7));
    assert_eq!(matcher.get_timeout(&set), 7);
    assert_eq!(matcher.get_timeout(&PatternSet::new()), 30_000);
}

#[test]
fn expect_state_timeout() {
    let patterns = PatternSet::from_patterns(vec![Pattern::literal("test")]);
    let state = ExpectState::new_at(patterns, 10, 1_000);

    assert!(!state.is_timed_out_at(1_005));
    assert!(state.is_timed_out_at(1_020));
    assert_eq!(state.remaining_time_at(1_004), 6);
    assert!(!state.expects_eof());
}

#[test]
fn ring_buffer_search_sees_the_contents() {
    let mut buf = rust_expect::expect::buffer::RingBuffer::new(8);
    buf.append(b"hello world");
    let found = buf.search(|s| s.find("world"));
    assert_eq!(found, Some(3));
    assert_eq!(buf.search(|s| s.to_string()), "lo world");
}

#[test]
fn expect_state_clock_reads() {
    let zero = ExpectState::new(PatternSet::new(), 0);
    assert!(zero.is_timed_out());
    assert_eq!(zero.remaining_time(), 0);
    let long = ExpectState::new(PatternSet::new(), 3_600_000);
    assert!(!long.is_timed_out());
    assert!(long.remaining_time() <= 3_600_000);
}

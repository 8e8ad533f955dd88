use rust_expect::encoding::{decode_utf8_escape, decode_utf8_lossy, decode_utf8_skip, detect_line_ending, normalize_line_endings, strip_ansi, LineEndingStyle};
use rust_expect::error::message::format_buffer_snippet;
use rust_expect::error::{ExpectError, SpawnError};
use rust_expect::expect::buffer::RingBuffer;
use rust_expect::health::{HealthCheckConfig, HealthChecker, HealthStatus};

#[test]
fn error_display() {
    let err = ExpectError::timeout(5_000, "password:".to_string(), "Enter username: admin\n".to_string());
    let msg = err.to_string();
    assert!(msg.contains("timeout"));
    assert!(msg.contains("password:"));
    assert!(msg.contains("admin"));
    assert!(msg.contains("Pattern:"));
    assert!(msg.contains("buffer"));
    assert!(msg.starts_with("timeout after 5s waiting for pattern"));
}

#[test]
fn error_display_with_tips() {
    let err = ExpectError::timeout(5_000, "password:".to_string(), "output here\n".to_string());
    let msg = err.to_string();
    assert!(msg.contains("Tip:"));
}

#[test]
fn error_display_empty_buffer() {
    let err = ExpectError::eof(String::new());
    let msg = err.to_string();
    assert!(msg.contains("empty buffer"));
}

#[test]
fn error_display_large_buffer_truncation() {
    let mut large_buffer = String::new();
    for i in 0..50 {
        large_buffer.push_str(&format!("Line {i}: Some content here\n"));
    }

    let err = ExpectError::timeout(1_000, "pattern".to_string(), large_buffer);
    let msg = err.to_string();

    assert!(msg.contains("lines hidden"));
    assert!(msg.contains("lines)"));
    assert!(msg.contains("(44 lines hidden)"));
}

#[test]
fn error_is_timeout() {
    let timeout = ExpectError::timeout(1_000, "test".to_string(), "buffer".to_string());
    assert!(timeout.is_timeout());

    let eof = ExpectError::eof("buffer".to_string());
    assert!(!eof.is_timeout());
}

#[test]
fn error_buffer() {
    let err = ExpectError::timeout(1_000, "test".to_string(), "the buffer".to_string());
    assert_eq!(err.buffer(), Some("the buffer"));

    let io_err = ExpectError::Io("test".to_string());
    assert!(io_err.buffer().is_none());
}

#[test]
fn spawn_error_display() {
    let err = SpawnError::command_not_found("/usr/bin/nonexistent".to_string());
    assert!(err.to_string().contains("nonexistent"));
}

#[test]
fn format_buffer_snippet_empty() {
    let result = format_buffer_snippet("");
    assert_eq!(result, "(empty buffer)");
}

#[test]
fn format_buffer_snippet_small() {
    let result = format_buffer_snippet("hello\nworld");
    assert!(result.contains("hello"));
    assert!(result.contains("world"));
    assert!(result.contains("bytes"));
    assert_eq!(
        result,
        "┌─ buffer (11 bytes) ──────────────────────\n│ hello\n│ world\n└────────────────────────────────────────"
    );
}

#[test]
fn pattern_not_found_error() {
    let err = ExpectError::pattern_not_found("prompt>".to_string(), "some output".to_string());
    let msg = err.to_string();
    assert!(msg.contains("prompt>"));
    assert!(msg.contains("some output"));
    assert!(msg.contains("EOF"));
}

#[test]
fn eof_error() {
    let err = ExpectError::eof("final output".to_string());
    let msg = err.to_string();
    assert!(msg.contains("end of file"));
    assert!(msg.contains("final output"));
}

#[test]
fn io_with_context_error() {
    let err = ExpectError::io_context("reading config file".to_string(), "file not found".to_string());
    let msg = err.to_string();
    assert!(msg.contains("reading config file"));
    assert!(msg.contains("file not found"));
}

#[test]
fn with_io_context_helper() {
    let result: Result<(), String> = Err("access denied".to_string());
    let err = ExpectError::with_io_context(result, "writing to log file".to_string()).unwrap_err();
    let msg = err.to_string();
    assert!(msg.contains("writing to log file"));
    assert!(msg.contains("access denied"));
}

#[test]
fn with_io_context_success() {
    let result: Result<i32, String> = Ok(42);
    let value = ExpectError::with_io_context(result, "some operation".to_string()).unwrap();
    assert_eq!(value, 42);
}

#[test]
fn error_messages_of_simple_variants() {
    assert_eq!(ExpectError::buffer_overflow(10).to_string(), "buffer overflow: maximum size of 10 bytes exceeded");
    assert_eq!(
        ExpectError::process_exited(Some(-1), String::new()).to_string(),
        "process exited unexpectedly with exit status: -1\n\n(empty buffer)"
    );
    assert_eq!(ExpectError::SessionNotFound { id: 7 }.to_string(), "session with id 7 not found");
}

#[test]
fn decode_valid_utf8() {
    let result = decode_utf8_lossy(b"hello world");
    assert_eq!(result.text, "hello world");
    assert!(!result.had_errors);
    assert_eq!(result.replacements, 0);
}

#[test]
fn decode_invalid_utf8_lossy() {
    let result = decode_utf8_lossy(b"hello\xff\xfeworld");
    assert!(result.text.contains('\u{FFFD}'));
    assert!(result.had_errors);
    assert!(result.replacements > 0);
}

#[test]
fn normalize_crlf_to_lf() {
    let text = "line1\r\nline2\r\nline3";
    let result = normalize_line_endings(text, LineEndingStyle::Lf);
    assert_eq!(result, "line1\nline2\nline3");
}

#[test]
fn normalize_lf_to_crlf() {
    let text = "line1\nline2\nline3";
    let result = normalize_line_endings(text, LineEndingStyle::CrLf);
    assert_eq!(result, "line1\r\nline2\r\nline3");
}

#[test]
fn detect_line_ending_lf() {
    assert_eq!(detect_line_ending("line1\nline2\n"), Some(LineEndingStyle::Lf));
}

#[test]
fn detect_line_ending_crlf() {
    assert_eq!(detect_line_ending("line1\r\nline2\r\n"), Some(LineEndingStyle::CrLf));
}

#[test]
fn strip_ansi_csi() {
    let text = "\x1b[32mgreen\x1b[0m text";
    let result = strip_ansi(text);
    assert_eq!(result, "green text");
}

#[test]
fn strip_ansi_no_escape() {
    let text = "plain text";
    let result = strip_ansi(text);
    assert_eq!(result, "plain text");
}

#[test]
fn strip_ansi_osc() {
    let text = "\x1b]0;Window Title\x07normal text";
    let result = strip_ansi(text);
    assert_eq!(result, "normal text");
}

#[test]
fn basic_append() {
    let mut buf = RingBuffer::new(100);
    buf.append(b"hello");
    assert_eq!(buf.len(), 5);
    assert_eq!(buf.as_slice(), b"hello");
}

#[test]
fn overflow_discards_oldest() {
    let mut buf = RingBuffer::new(10);
    buf.append(b"12345");
    buf.append(b"67890");
    buf.append(b"abc");

    assert_eq!(buf.len(), 10);
    assert_eq!(buf.as_str_lossy(), "4567890abc");
    assert_eq!(buf.bytes_discarded(), 3);
}

#[test]
fn find_pattern() {
    let mut buf = RingBuffer::new(100);
    buf.append(b"hello world");
    assert_eq!(buf.find(b"world"), Some(6));
    assert_eq!(buf.find(b"foo"), None);
}

#[test]
fn consume_until() {
    let mut buf = RingBuffer::new(100);
    buf.append(b"login: username");
    let result = buf.consume_until("login:");
    assert!(result.is_some());
    let (before, matched) = result.unwrap();
    assert_eq!(before, "");
    assert_eq!(matched, "login:");
    assert_eq!(buf.as_str_lossy(), " username");
}

#[test]
fn tail_and_head() {
    let mut buf = RingBuffer::new(100);
    buf.append(b"hello world");
    assert_eq!(buf.tail(5), b"world".to_vec());
    assert_eq!(buf.head(5), b"hello".to_vec());
}

#[test]
fn find_in_tail() {
    let mut buf = RingBuffer::new(100);
    buf.append(b"the quick brown fox jumps over the lazy dog");
    assert!(buf.find_in_tail(b"lazy", 20).is_some());
    assert!(buf.find_in_tail(b"quick", 20).is_none());
}

#[test]
fn write_trait() {
    let mut buf = RingBuffer::new(100);
    buf.append(format!("hello {}", "world").as_bytes());
    assert_eq!(buf.as_str_lossy(), "hello world");
}

#[test]
fn health_status() {
    assert!(HealthStatus::Healthy.is_healthy());
    assert!(HealthStatus::Healthy.is_operational());
    assert!(!HealthStatus::Degraded.is_healthy());
    assert!(HealthStatus::Degraded.is_operational());
    assert!(!HealthStatus::Unhealthy.is_operational());
}

#[test]
fn health_checker_transitions() {
    let config = HealthCheckConfig::new().with_failure_threshold(2).with_success_threshold(1);
    let mut checker = HealthChecker::new(config);

    assert_eq!(checker.status(), HealthStatus::Unknown);

    checker.record_success();
    assert_eq!(checker.status(), HealthStatus::Healthy);

    checker.record_failure("test".to_string());
    assert_eq!(checker.status(), HealthStatus::Degraded);

    checker.record_failure("test".to_string());
    assert_eq!(checker.status(), HealthStatus::Unhealthy);

    checker.record_success();
    assert_eq!(checker.status(), HealthStatus::Healthy);
}

#[test]
fn decode_invalid_utf8_escape() {
    let result = decode_utf8_escape(b"hello\xffworld");
    assert!(result.text.contains("\\xff"));
    assert!(result.had_errors);
}

#[test]
fn decode_invalid_utf8_skip() {
    let result = decode_utf8_skip(b"hello\xff\xfeworld");
    assert_eq!(result.text, "helloworld");
    assert!(result.had_errors);
}

#[test]
fn decode_escape_exact_text_and_count() {
    let result = decode_utf8_escape(b"a\xc3(b\xe2\x82");
    assert_eq!(result.text, "a\\xc3(b\\xe2\\x82");
    assert_eq!(result.replacements, 3);
    assert_eq!(result.bytes_consumed, 6);
    let clean = decode_utf8_escape("h\u{e9}llo".as_bytes());
    assert_eq!(clean.text, "h\u{e9}llo");
    assert!(!clean.had_errors);
}

#[test]
fn decode_skip_counts_invalid_bytes() {
    let result = decode_utf8_skip(b"\xff\xfe\xfd");
    assert_eq!(result.text, "");
    assert_eq!(result.replacements, 3);
}

#[test]
fn ring_buffer_counts_every_dropped_byte() {
    let mut buf = RingBuffer::new(4);
    buf.append(b"ab");
    buf.append(b"cdefgh");
    assert_eq!(buf.total_written(), 8);
    assert_eq!(buf.len() + buf.bytes_discarded(), buf.total_written());
    assert_eq!(buf.bytes_discarded(), 4);
}

#[test]
fn normalize_mixed_endings_to_crlf() {
    assert_eq!(normalize_line_endings("a\r\nb\nc\rd", LineEndingStyle::CrLf), "a\r\nb\r\nc\r\nd");
}

#[test]
fn lossy_decoding_counts_invalid_sequences() {
    let valid = decode_utf8_lossy("\u{FFFD}".as_bytes());
    assert_eq!(valid.text, "\u{FFFD}");
    assert_eq!(valid.replacements, 0);
    assert!(!valid.had_errors);
    let bad = decode_utf8_lossy(b"a\xffb\xe2\x82");
    assert_eq!(bad.replacements, 2);
    assert!(bad.had_errors);
}

#[test]
fn strip_ansi_leaves_no_escape_and_is_idempotent() {
    let text = "\x1b[31mred\x1b[0m \x1b]0;title\x07plain\x1b";
    let once = strip_ansi(text);
    assert_eq!(once, "red plain");
    assert!(!once.contains('\x1b'));
    assert_eq!(strip_ansi(&once), once);
}

use std::sync::atomic::Ordering;

use rust_expect::interact::hooks::crlf_hook;
use rust_expect::interact::mode::{InputFilter, InteractionMode, OutputFilter};
use rust_expect::interact::session::{interact_step, InteractAction, InteractEndReason, InteractEvent, InteractStep};
use rust_expect::interact::terminal::{Terminal, TerminalMode, TerminalSize};
use rust_expect::metrics::basic::{Counter, Gauge, SessionCounters, Timer};

#[test]
fn hook_builder() {
    let result = crlf_hook(b"a\nb");
    assert_eq!(result, b"a\r\nb");
}

#[test]
fn crlf_hook_expands_every_newline() {
    assert_eq!(crlf_hook(b"a\r\nb\n"), b"a\r\r\nb\r\n".to_vec());
}

#[test]
fn mode_defaults() {
    let mode = InteractionMode::new();
    assert!(!mode.local_echo);
    assert!(mode.crlf);
}

#[test]
fn input_filter() {
    let filter = InputFilter::new().filter(b"x");
    let result = filter.apply(b"text");
    assert_eq!(result, b"tet");
}

#[test]
fn output_normalize_newlines() {
    let filter = OutputFilter::new().with_normalize_newlines(true);
    let result = filter.apply(b"line1\r\nline2\r\n");
    assert_eq!(result, b"line1\nline2\n");
}

#[test]
fn terminal_default() {
    let term = Terminal::new();
    assert!(!term.is_running());
    assert_eq!(term.mode(), TerminalMode::Cooked);
}

#[test]
fn terminal_size_default() {
    let size = TerminalSize::default();
    assert_eq!(size.cols, 80);
    assert_eq!(size.rows, 24);
}

#[test]
fn terminal_running_flag() {
    let term = Terminal::new();
    let flag = term.running_flag();

    assert!(!term.is_running());
    flag.store(true, Ordering::SeqCst);
    assert!(term.is_running());
}

#[test]
fn terminal_save_restore() {
    let mut term = Terminal::new();
    term.save_state();
    term.set_mode(TerminalMode::Raw);
    assert_eq!(term.mode(), TerminalMode::Raw);
    term.restore_state();
    assert_eq!(term.mode(), TerminalMode::Cooked);
}

#[test]
fn counter_basic() {
    let mut counter = Counter::new();
    assert_eq!(counter.get(), 0);

    counter.inc();
    assert_eq!(counter.get(), 1);

    counter.add(5);
    assert_eq!(counter.get(), 6);
}

#[test]
fn gauge_basic() {
    let mut gauge = Gauge::new();
    assert_eq!(gauge.get(), 0);

    gauge.set(10);
    assert_eq!(gauge.get(), 10);

    gauge.inc();
    assert_eq!(gauge.get(), 11);

    gauge.dec();
    assert_eq!(gauge.get(), 10);
}

#[test]
fn timer_basic() {
    let timer = Timer::start_at(1_000);
    assert_eq!(timer.elapsed_at(1_010), 10);
    assert_eq!(timer.elapsed_at(500), 0);
}

#[test]
fn session_metrics() {
    let mut metrics = SessionCounters::new();
    metrics.bytes_sent.add(100);
    metrics.commands_executed.inc();

    let snapshot = metrics.snapshot();
    assert_eq!(snapshot.bytes_sent, 100);
    assert_eq!(snapshot.commands_executed, 1);
}

#[test]
fn interact_step_decides_the_end() {
    assert!(matches!(interact_step(true, InteractEvent::Deadline), (true, InteractStep::End(InteractEndReason::Timeout))));
    assert!(matches!(interact_step(true, InteractEvent::OutputRead(0)), (true, InteractStep::End(InteractEndReason::Eof))));
    assert!(matches!(interact_step(true, InteractEvent::OutputRead(5)), (true, InteractStep::ShowOutput)));
    assert!(matches!(interact_step(true, InteractEvent::InputRead { n: 0, escaped: false }), (false, InteractStep::StopInput)));
    assert!(matches!(
        interact_step(true, InteractEvent::InputRead { n: 1, escaped: true }),
        (true, InteractStep::End(InteractEndReason::Escape))
    ));
    assert!(matches!(interact_step(false, InteractEvent::InputRead { n: 3, escaped: false }), (false, InteractStep::ForwardInput)));
    assert!(matches!(
        interact_step(true, InteractEvent::PatternAnswer { index: 2, action: InteractAction::Stop }),
        (true, InteractStep::End(InteractEndReason::PatternStop { pattern_index: 2 }))
    ));
    match interact_step(true, InteractEvent::PatternAnswer { index: 1, action: InteractAction::Send(b"y\n".to_vec()) }) {
        (true, InteractStep::Send(d)) => assert_eq!(d, b"y\n".to_vec()),
        other => panic!("unexpected {other:?}"),
    }
    assert!(matches!(
        interact_step(true, InteractEvent::ResizeAnswer(InteractAction::Stop)),
        (true, InteractStep::End(InteractEndReason::PatternStop { pattern_index: 0 }))
    ));
    match interact_step(true, InteractEvent::ResizeAnswer(InteractAction::Error("bad".to_string()))) {
        (true, InteractStep::End(InteractEndReason::Error(m))) => assert_eq!(m, "bad"),
        other => panic!("unexpected {other:?}"),
    }
    assert!(matches!(interact_step(true, InteractEvent::PatternAnswer { index: 0, action: InteractAction::Continue }), (true, InteractStep::Wait)));
}

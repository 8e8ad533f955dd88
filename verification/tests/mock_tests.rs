use rust_expect::mock::builtin::{file_transfer_scenario, login_scenario, menu_scenario};
use rust_expect::mock::event::{EventTimeline, MockEvent};
use rust_expect::mock::scenario::{Scenario, ScenarioBuilder};
use rust_expect::mock::session::{MockRead, MockTransport};
use rust_expect::mock::{simple_mock, MockBuilder};

fn data(r: MockRead) -> Vec<u8> {
    match r {
        MockRead::Data(d) => d,
        other => panic!("expected data, got {:?}", other),
    }
}

#[test]
fn simple_mock_creates_transport() {
    let transport = simple_mock("test");
    assert!(!transport.is_eof());
}

#[test]
fn mock_builder_works() {
    let transport = MockBuilder::new().output("Hello\n").delay_ms(100).output("World\n").exit(0).build();

    assert!(!transport.is_eof());
}

#[test]
fn login_scenario_creates_valid_scenario() {
    let scenario = login_scenario("user", "pass");
    assert_eq!(scenario.name(), "login");
    assert!(!scenario.steps().is_empty());
}

#[test]
fn menu_scenario_creates_valid_menu() {
    let scenario = menu_scenario(&["Option A", "Option B", "Option C"]);
    let timeline = scenario.to_timeline();
    assert!(!timeline.events().is_empty());
}

#[test]
fn file_transfer_has_progress() {
    let scenario = file_transfer_scenario("test.txt", 1000);
    let timeline = scenario.to_timeline();
    assert!(timeline.events().len() > 10);
}

#[test]
fn timeline_basic() {
    let mut timeline = EventTimeline::new();
    timeline.push(MockEvent::output_str("hello"));
    timeline.push(MockEvent::delay_ms(100));
    timeline.push(MockEvent::exit(0));

    assert!(timeline.has_more());
    assert!(timeline.next().unwrap().is_output());
    assert!(timeline.next().unwrap().is_delay());
    assert!(timeline.next().unwrap().is_exit());
    assert!(!timeline.has_more());
}

#[test]
fn timeline_reset() {
    let mut timeline = EventTimeline::from_events(vec![MockEvent::output_str("test"), MockEvent::eof()]);

    assert_eq!(timeline.remaining(), 2);
    timeline.next();
    assert_eq!(timeline.remaining(), 1);
    timeline.reset();
    assert_eq!(timeline.remaining(), 2);
}

#[test]
fn scenario_basic() {
    let scenario = Scenario::new("test")
        .initial_output("Welcome\n")
        .expect_respond("login:", "user\n")
        .expect_respond("password:", "pass\n")
        .exit_code(0);

    assert_eq!(scenario.name(), "test");
    assert_eq!(scenario.steps().len(), 2);
}

#[test]
fn scenario_to_timeline() {
    let scenario = Scenario::new("test").initial_output("Hello\n").exit_code(0);

    let timeline = scenario.to_timeline();
    assert_eq!(timeline.events().len(), 2);
    assert!(timeline.events()[0].is_output());
    assert!(timeline.events()[1].is_exit());
}

#[test]
fn scenario_builder() {
    let scenario = ScenarioBuilder::new("login")
        .description("A login scenario")
        .login_prompt()
        .password_prompt()
        .shell_prompt("$ ")
        .exit_code(0)
        .build();

    assert_eq!(scenario.name(), "login");
    assert_eq!(scenario.steps().len(), 3);
}

#[test]
fn mock_transport_read_write() {
    let mut transport = MockTransport::new();
    transport.queue_output_str("hello");

    let got = data(transport.poll_read(10, 0));
    assert_eq!(got, b"hello");

    assert_eq!(transport.write(b"world"), 5);
    assert_eq!(transport.take_input_str(), "world");
}

#[test]
fn mock_transport_eof() {
    let mut transport = MockTransport::new();
    transport.signal_eof();

    assert!(matches!(transport.poll_read(10, 0), MockRead::Eof));
}

#[test]
fn queued_output_wakes_a_parked_read() {
    let mut transport = MockTransport::new();
    assert!(matches!(transport.poll_read(64, 0), MockRead::Pending));
    transport.queue_output_str("late output");
    assert_eq!(data(transport.poll_read(64, 50)), b"late output");
}

#[test]
fn signalled_eof_wakes_a_parked_read() {
    let mut transport = MockTransport::new();
    assert!(matches!(transport.poll_read(64, 0), MockRead::Pending));
    transport.signal_eof();
    assert!(matches!(transport.poll_read(64, 50), MockRead::Eof));
}

#[test]
fn scripted_delay_holds_then_releases() {
    let timeline = EventTimeline::from_events(vec![
        MockEvent::output_str("first"),
        MockEvent::delay_ms(150),
        MockEvent::output_str("second"),
    ]);
    let mut transport = MockTransport::from_timeline_at(timeline, 0);

    assert_eq!(data(transport.poll_read(64, 0)), b"first");

    match transport.poll_read(64, 10) {
        MockRead::WaitUntil(t) => assert_eq!(t, 160),
        other => panic!("expected a wait, got {:?}", other),
    }
    assert!(matches!(transport.poll_read(64, 159), MockRead::WaitUntil(160)));
    assert_eq!(data(transport.poll_read(64, 160)), b"second");
}

#[test]
fn scenario_expect_gates_the_response() {
    let scenario = Scenario::new("login").expect_respond("secret", "welcome\n");
    let mut transport = MockTransport::from_scenario(&scenario);

    assert!(matches!(transport.poll_read(64, 0), MockRead::Pending));

    transport.write(b"secret\n");
    assert_eq!(data(transport.poll_read(64, 1)), b"welcome\n");
}

#[test]
fn scenario_expect_survives_take_input() {
    let scenario = Scenario::new("two-step").expect_respond("one", "first\n").expect_respond("two", "second\n");
    let mut transport = MockTransport::from_scenario(&scenario);

    transport.write(b"one\n");
    assert_eq!(transport.take_input_str(), "one\n");

    assert_eq!(data(transport.poll_read(64, 0)), b"first\n");

    assert!(matches!(transport.poll_read(64, 1), MockRead::Pending));

    transport.write(b"two\n");
    assert_eq!(data(transport.poll_read(64, 2)), b"second\n");
}

#[test]
fn mock_transport_from_timeline() {
    let timeline = EventTimeline::from_events(vec![
        MockEvent::output_str("Welcome\n"),
        MockEvent::output_str("Login: "),
        MockEvent::eof(),
    ]);

    let mut transport = MockTransport::from_timeline_at(timeline, 0);

    let got = data(transport.poll_read(100, 0));
    assert!(!got.is_empty());
}

#[test]
fn mock_error_is_reported_once() {
    let mut transport = MockTransport::new();
    transport.set_error("boom");
    assert!(matches!(transport.poll_read(8, 0), MockRead::Error(ref m) if m == "boom"));
    assert!(matches!(transport.poll_read(8, 0), MockRead::Pending));
}

#[test]
fn read_respects_capacity() {
    let mut transport = MockTransport::new();
    transport.queue_output_str("abcdef");
    assert_eq!(data(transport.poll_read(4, 0)), b"abcd");
    assert_eq!(data(transport.poll_read(4, 0)), b"ef");
}

#[test]
fn timeline_has_no_input_events_but_transport_waits() {
    let scenario = Scenario::new("login").expect_respond("secret", "welcome\n");
    let timeline = scenario.to_timeline();
    assert_eq!(timeline.events().len(), 1);
    assert!(timeline.events()[0].is_output());
    let gated = scenario.to_gated_timeline();
    assert_eq!(gated.events().len(), 2);
    assert!(gated.events()[0].is_input());
    assert!(gated.events()[1].is_output());
}

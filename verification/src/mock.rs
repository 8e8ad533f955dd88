//! Mock sessions for testing expect scripts without spawning processes:
//! events, scenarios, built-in scenarios and a scripted transport.
pub mod builtin;
pub mod event;
pub mod scenario;
pub mod session;

use vstd::prelude::*;
use crate::mock::event::{event_view, events_view, utf8_bytes, EventTimeline, EventView, MockEvent};
use crate::mock::session::{process, MockTransport, MockView};

verus! {

/// A transport with this output queued.
pub fn simple_mock(output: &str) -> (r: MockTransport)
    ensures
        r.wf(),
        r.view().output == utf8_bytes(output@),
        r.view().events.len() == 0,
        !r.view().eof,
{
    let mut t = MockTransport::new();
    t.queue_output_str(output);
    t
}

/// A transport playing the built-in login scenario for `user` / `pass`.
pub fn login_mock() -> (r: MockTransport)
    ensures
        r.wf(),
{
    MockTransport::from_scenario(&builtin::login_scenario("user", "pass"))
}

/// A transport playing the built-in shell scenario.
pub fn shell_mock(prompt: &str) -> (r: MockTransport)
    ensures
        r.wf(),
{
    MockTransport::from_scenario(&builtin::shell_scenario(prompt))
}

/// Builder for scripted transports.
#[derive(Debug)]
pub struct MockBuilder {
    events: Vec<MockEvent>,
}

impl MockBuilder {
    /// The events so far.
    pub closed spec fn spec_events(&self) -> Seq<EventView> {
        events_view(self.events@)
    }

    /// A builder with no event.
    pub fn new() -> (r: Self)
        ensures
            r.spec_events().len() == 0,
    {
        MockBuilder { events: Vec::new() }
    }

    /// Add output.
    pub fn output(self, data: &str) -> (r: Self)
        ensures
            r.spec_events() == self.spec_events().push(EventView::Output(utf8_bytes(data@))),
    {
        let mut s = self;
        s.events.push(MockEvent::output_str(data));
        assert(events_view(s.events@) =~= events_view(self.events@).push(EventView::Output(utf8_bytes(data@))));
        s
    }

    /// Add a pause.
    pub fn delay_ms(self, ms: u64) -> (r: Self)
        ensures
            r.spec_events() == self.spec_events().push(EventView::Delay(ms)),
    {
        let mut s = self;
        s.events.push(MockEvent::delay_ms(ms));
        assert(events_view(s.events@) =~= events_view(self.events@).push(EventView::Delay(ms)));
        s
    }

    /// Add the end of output.
    pub fn eof(self) -> (r: Self)
        ensures
            r.spec_events() == self.spec_events().push(EventView::Eof),
    {
        let mut s = self;
        s.events.push(MockEvent::eof());
        assert(events_view(s.events@) =~= events_view(self.events@).push(EventView::Eof));
        s
    }

    /// Add an exit.
    pub fn exit(self, code: i32) -> (r: Self)
        ensures
            r.spec_events() == self.spec_events().push(EventView::Exit(code)),
    {
        let mut s = self;
        s.events.push(MockEvent::exit(code));
        assert(events_view(s.events@) =~= events_view(self.events@).push(EventView::Exit(code)));
        s
    }

    /// A transport playing the events, at time `now`.
    pub fn build_at(self, now: u64) -> (r: MockTransport)
        ensures
            r.wf(),
            r.view() == process(
                MockView {
                    output: Seq::empty(),
                    input: Seq::empty(),
                    log: Seq::empty(),
                    cursor: 0,
                    events: self.spec_events(),
                    pos: 0,
                    eof: false,
                    error: None,
                    exit_code: None,
                    resume_at: None,
                },
                now,
            ),
    {
        MockTransport::from_timeline_at(EventTimeline::from_events(self.events), now)
    }

    /// A transport playing the events (reads the clock).
    pub fn build(self) -> (r: MockTransport)
        ensures
            r.wf(),
            r.view().events == self.spec_events(),
    {
        MockTransport::from_timeline(EventTimeline::from_events(self.events))
    }
}

} // verus!

//! Mock events: what a scripted session shows, waits for, and does.
use vstd::prelude::*;

verus! {

/// A mock event (delays in milliseconds).
#[derive(Debug, Clone)]
pub enum MockEvent {
    /// Output from the session.
    Output(Vec<u8>),
    /// Input the session waits for.
    Input(Vec<u8>),
    /// A pause.
    Delay(u64),
    /// The process exits with this code.
    Exit(i32),
    /// End of output.
    Eof,
    /// An error.
    Error(String),
    /// A window resize.
    Resize { rows: u16, cols: u16 },
}

/// The mathematical value of a mock event.
pub enum EventView {
    /// Output bytes.
    Output(Seq<u8>),
    /// Awaited input bytes.
    Input(Seq<u8>),
    /// A pause.
    Delay(u64),
    /// An exit code.
    Exit(i32),
    /// End of output.
    Eof,
    /// An error message.
    Error(Seq<char>),
    /// A resize.
    Resize(u16, u16),
}

/// The value of an event.
pub open spec fn event_view(e: MockEvent) -> EventView {
    match e {
        MockEvent::Output(d) => EventView::Output(d@),
        MockEvent::Input(d) => EventView::Input(d@),
        MockEvent::Delay(ms) => EventView::Delay(ms),
        MockEvent::Exit(c) => EventView::Exit(c),
        MockEvent::Eof => EventView::Eof,
        MockEvent::Error(m) => EventView::Error(m@),
        MockEvent::Resize { rows, cols } => EventView::Resize(rows, cols),
    }
}

/// The values of events.
pub open spec fn events_view(es: Seq<MockEvent>) -> Seq<EventView> {
    es.map_values(|e: MockEvent| event_view(e))
}

/// The UTF-8 bytes of a text.
pub open spec fn utf8_bytes(s: Seq<char>) -> Seq<u8> {
    vstd::utf8::encode_utf8(s)
}

/// The bytes of a string, as a vector.
pub fn str_bytes(s: &str) -> (r: Vec<u8>)
    ensures
        r@ == utf8_bytes(s@),
{
    let b = s.as_bytes();
    let mut v: Vec<u8> = Vec::new();
    let mut i: usize = 0;
    while i < b.len()
        invariant
            i <= b@.len(),
            v@ == b@.subrange(0, i as int),
        decreases b.len() - i,
    {
        v.push(b[i]);
        i = i + 1;
        assert(v@ =~= b@.subrange(0, i as int));
    }
    assert(b@.subrange(0, b@.len() as int) =~= b@);
    v
}

/// A copy of a byte slice.
pub fn bytes_copy(b: &[u8]) -> (r: Vec<u8>)
    ensures
        r@ == b@,
{
    let mut v: Vec<u8> = Vec::new();
    let mut i: usize = 0;
    while i < b.len()
        invariant
            i <= b@.len(),
            v@ == b@.subrange(0, i as int),
        decreases b.len() - i,
    {
        v.push(b[i]);
        i = i + 1;
        assert(v@ =~= b@.subrange(0, i as int));
    }
    assert(b@.subrange(0, b@.len() as int) =~= b@);
    v
}

impl MockEvent {
    /// Output of these bytes.
    pub fn output(data: Vec<u8>) -> (r: Self)
        ensures
            event_view(r) == EventView::Output(data@),
    {
        MockEvent::Output(data)
    }

    /// Output of a text's bytes.
    pub fn output_str(s: &str) -> (r: Self)
        ensures
            event_view(r) == EventView::Output(utf8_bytes(s@)),
    {
        MockEvent::Output(str_bytes(s))
    }

    /// Awaited input of these bytes.
    pub fn input(data: Vec<u8>) -> (r: Self)
        ensures
            event_view(r) == EventView::Input(data@),
    {
        MockEvent::Input(data)
    }

    /// Awaited input of a text's bytes.
    pub fn input_str(s: &str) -> (r: Self)
        ensures
            event_view(r) == EventView::Input(utf8_bytes(s@)),
    {
        MockEvent::Input(str_bytes(s))
    }

    /// A pause of `duration` milliseconds.
    pub fn delay(duration: u64) -> (r: Self)
        ensures
            event_view(r) == EventView::Delay(duration),
    {
        MockEvent::Delay(duration)
    }

    /// A pause of `ms` milliseconds.
    pub fn delay_ms(ms: u64) -> (r: Self)
        ensures
            event_view(r) == EventView::Delay(ms),
    {
        MockEvent::Delay(ms)
    }

    /// An exit.
    pub fn exit(code: i32) -> (r: Self)
        ensures
            event_view(r) == EventView::Exit(code),
    {
        MockEvent::Exit(code)
    }

    /// End of output.
    pub fn eof() -> (r: Self)
        ensures
            event_view(r) == EventView::Eof,
    {
        MockEvent::Eof
    }

    /// An error.
    pub fn error(msg: &str) -> (r: Self)
        ensures
            event_view(r) == EventView::Error(msg@),
    {
        MockEvent::Error(msg.to_owned())
    }

    /// A resize.
    pub fn resize(rows: u16, cols: u16) -> (r: Self)
        ensures
            event_view(r) == EventView::Resize(rows, cols),
    {
        MockEvent::Resize { rows, cols }
    }

    /// Whether this is output.
    pub fn is_output(&self) -> (r: bool)
        ensures
            r == (*self is Output),
    {
        matches!(self, MockEvent::Output(_))
    }

    /// Whether this is awaited input.
    pub fn is_input(&self) -> (r: bool)
        ensures
            r == (*self is Input),
    {
        matches!(self, MockEvent::Input(_))
    }

    /// Whether this is a pause.
    pub fn is_delay(&self) -> (r: bool)
        ensures
            r == (*self is Delay),
    {
        matches!(self, MockEvent::Delay(_))
    }

    /// Whether this is an exit.
    pub fn is_exit(&self) -> (r: bool)
        ensures
            r == (*self is Exit),
    {
        matches!(self, MockEvent::Exit(_))
    }

    /// Whether this is the end of output.
    pub fn is_eof(&self) -> (r: bool)
        ensures
            r == (*self is Eof),
    {
        matches!(self, MockEvent::Eof)
    }
}

/// A sequence of events with a read position.
#[derive(Debug, Clone)]
pub struct EventTimeline {
    events: Vec<MockEvent>,
    position: usize,
}

impl EventTimeline {
    /// The events.
    pub closed spec fn spec_events(&self) -> Seq<MockEvent> {
        self.events@
    }

    /// The read position.
    pub closed spec fn spec_position(&self) -> int {
        self.position as int
    }

    /// The position is within the events.
    pub open spec fn wf(&self) -> bool {
        0 <= self.spec_position() <= self.spec_events().len()
    }

    /// An empty timeline.
    pub fn new() -> (r: Self)
        ensures
            r.wf(),
            r.spec_events().len() == 0,
            r.spec_position() == 0,
    {
        EventTimeline { events: Vec::new(), position: 0 }
    }

    /// A timeline of these events, at the start.
    pub fn from_events(events: Vec<MockEvent>) -> (r: Self)
        ensures
            r.wf(),
            r.spec_events() == events@,
            r.spec_position() == 0,
    {
        EventTimeline { events, position: 0 }
    }

    /// Add an event at the end.
    pub fn push(&mut self, event: MockEvent)
        requires
            old(self).wf(),
        ensures
            final(self).wf(),
            final(self).spec_events() == old(self).spec_events().push(event),
            final(self).spec_position() == old(self).spec_position(),
    {
        self.events.push(event);
    }

    /// The event at the position, which moves past it.
    pub fn next(&mut self) -> (r: Option<&MockEvent>)
        requires
            old(self).wf(),
        ensures
            final(self).wf(),
            final(self).spec_events() == old(self).spec_events(),
            old(self).spec_position() < old(self).spec_events().len() ==> r is Some
                && *r->0 == old(self).spec_events()[old(self).spec_position()]
                && final(self).spec_position() == old(self).spec_position() + 1,
            old(self).spec_position() >= old(self).spec_events().len() ==> r is None
                && final(self).spec_position() == old(self).spec_position(),
    {
        if self.position < self.events.len() {
            let p = self.position;
            self.position = self.position + 1;
            Some(&self.events[p])
        } else {
            None
        }
    }

    /// Move past the event at the position.
    pub fn skip_one(&mut self)
        requires
            old(self).wf(),
        ensures
            final(self).wf(),
            final(self).spec_events() == old(self).spec_events(),
            final(self).spec_position() == if old(self).spec_position() < old(self).spec_events().len() {
                old(self).spec_position() + 1
            } else {
                old(self).spec_position()
            },
    {
        if self.position < self.events.len() {
            self.position = self.position + 1;
        }
    }

    /// The event at the position.
    pub fn peek(&self) -> (r: Option<&MockEvent>)
        requires
            self.wf(),
        ensures
            self.spec_position() < self.spec_events().len() ==> r is Some
                && *r->0 == self.spec_events()[self.spec_position()],
            self.spec_position() >= self.spec_events().len() ==> r is None,
    {
        if self.position < self.events.len() {
            Some(&self.events[self.position])
        } else {
            None
        }
    }

    /// Go back to the start.
    pub fn reset(&mut self)
        ensures
            final(self).wf(),
            final(self).spec_events() == old(self).spec_events(),
            final(self).spec_position() == 0,
    {
        self.position = 0;
    }

    /// Whether events are left.
    pub fn has_more(&self) -> (r: bool)
        ensures
            r == (self.spec_position() < self.spec_events().len()),
    {
        self.position < self.events.len()
    }

    /// How many events are left.
    pub fn remaining(&self) -> (r: usize)
        ensures
            r == (if self.spec_position() <= self.spec_events().len() {
                self.spec_events().len() - self.spec_position()
            } else {
                0
            }),
    {
        if self.position <= self.events.len() {
            self.events.len() - self.position
        } else {
            0
        }
    }

    /// All events.
    pub fn events(&self) -> (r: &[MockEvent])
        ensures
            r@ == self.spec_events(),
    {
        self.events.as_slice()
    }
}

} // verus!

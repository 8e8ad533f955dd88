//! A scripted transport: it plays a timeline of events, holding back what
//! follows an awaited input until that input has been written, and what
//! follows a pause until the pause is over. Times are milliseconds on the
//! caller's clock.
use vstd::prelude::*;
use crate::clock::now_millis;
use crate::dialog::definition::opt_chars;
use crate::expect::buffer::{first_occurrence, lemma_first_occurrence};
use crate::mock::event::{bytes_copy, event_view, events_view, str_bytes, utf8_bytes, EventTimeline, EventView, MockEvent};
use crate::mock::scenario::Scenario;
use crate::text::{from_utf8_lossy, utf8_lossy};

verus! {

/// Calls `memchr::memmem::find`, which returns the index of the first
/// occurrence of `needle` in `haystack` (0 for an empty needle), or `None`.
#[verifier::external_body]
fn memmem_find(haystack: &[u8], needle: &[u8]) -> (r: Option<usize>)
    ensures
        match r {
            Some(i) => first_occurrence(haystack@, needle@) == Some(i as int),
            None => first_occurrence(haystack@, needle@) is None,
        },
{
    memchr::memmem::find(haystack, needle)
}

/// The state of a scripted transport.
pub struct MockView {
    /// Output not yet read.
    pub output: Seq<u8>,
    /// Input written and not yet taken.
    pub input: Seq<u8>,
    /// All input written.
    pub log: Seq<u8>,
    /// How much of the log awaited inputs have used up.
    pub cursor: int,
    /// The timeline's events.
    pub events: Seq<EventView>,
    /// The timeline's position.
    pub pos: int,
    /// Whether output has ended.
    pub eof: bool,
    /// An error to report.
    pub error: Option<Seq<char>>,
    /// The exit code.
    pub exit_code: Option<i32>,
    /// When a pause ends.
    pub resume_at: Option<u64>,
}

/// Where the log is used up to once `expected` has been awaited from
/// `cursor`: past its first occurrence in the unused log; unchanged for an
/// empty input; `None` while it has not been written.
pub open spec fn gate(log: Seq<u8>, cursor: int, expected: Seq<u8>) -> Option<int> {
    if expected.len() == 0 {
        Some(cursor)
    } else {
        match first_occurrence(log.subrange(cursor, log.len() as int), expected) {
            Some(p) => Some(cursor + p + expected.len()),
            None => None,
        }
    }
}

/// `now + d`, at most `u64::MAX`.
pub open spec fn deadline(now: u64, d: u64) -> u64 {
    if now + d <= u64::MAX { (now + d) as u64 } else { u64::MAX }
}

/// Playing the timeline from its position: awaited inputs that were
/// written and resizes are passed; the first output, end, error, exit or
/// pause is taken and playing stops; an awaited input not yet written stops
/// it too.
pub open spec fn process(v: MockView, now: u64) -> MockView
    decreases v.events.len() - v.pos,
{
    if v.pos < 0 || v.pos >= v.events.len() {
        v
    } else {
        match v.events[v.pos] {
            EventView::Input(exp) => match gate(v.log, v.cursor, exp) {
                Some(c) => process(MockView { cursor: c, pos: v.pos + 1, ..v }, now),
                None => v,
            },
            EventView::Output(d) => MockView { pos: v.pos + 1, output: v.output + d, ..v },
            EventView::Eof => MockView { pos: v.pos + 1, eof: true, ..v },
            EventView::Error(m) => MockView { pos: v.pos + 1, error: Some(m), ..v },
            EventView::Exit(c) => MockView { pos: v.pos + 1, exit_code: Some(c), eof: true, ..v },
            EventView::Delay(d) => MockView { pos: v.pos + 1, resume_at: Some(deadline(now, d)), ..v },
            EventView::Resize(_, _) => process(MockView { pos: v.pos + 1, ..v }, now),
        }
    }
}

/// What a read gives.
#[derive(Debug)]
pub enum MockRead {
    /// These bytes.
    Data(Vec<u8>),
    /// End of output.
    Eof,
    /// An error.
    Error(String),
    /// Nothing until this time.
    WaitUntil(u64),
    /// Nothing until more input is written or output queued.
    Pending,
}

/// A scripted transport.
#[derive(Debug)]
pub struct MockTransport {
    output: Vec<u8>,
    input: Vec<u8>,
    input_log: Vec<u8>,
    input_cursor: usize,
    timeline: EventTimeline,
    eof: bool,
    error: Option<String>,
    exit_code: Option<i32>,
    resume_at: Option<u64>,
}

impl MockTransport {
    /// The transport's state.
    pub closed spec fn view(&self) -> MockView {
        MockView {
            output: self.output@,
            input: self.input@,
            log: self.input_log@,
            cursor: self.input_cursor as int,
            events: events_view(self.timeline.spec_events()),
            pos: self.timeline.spec_position(),
            eof: self.eof,
            error: opt_chars(self.error),
            exit_code: self.exit_code,
            resume_at: self.resume_at,
        }
    }

    /// The cursor lies in the log and the position in the timeline.
    pub open spec fn wf(&self) -> bool {
        &&& 0 <= self.view().cursor <= self.view().log.len()
        &&& 0 <= self.view().pos <= self.view().events.len()
    }

    /// A transport with nothing scripted.
    pub fn new() -> (r: Self)
        ensures
            r.wf(),
            r.view() == (MockView {
                output: Seq::empty(),
                input: Seq::empty(),
                log: Seq::empty(),
                cursor: 0,
                events: Seq::empty(),
                pos: 0,
                eof: false,
                error: None,
                exit_code: None,
                resume_at: None,
            }),
    {
        let r = MockTransport {
            output: Vec::new(),
            input: Vec::new(),
            input_log: Vec::new(),
            input_cursor: 0,
            timeline: EventTimeline::new(),
            eof: false,
            error: None,
            exit_code: None,
            resume_at: None,
        };
        assert(events_view(r.timeline.spec_events()) =~= Seq::<EventView>::empty());
        r
    }

    /// A transport playing `timeline` from its start, with the events up to
    /// the first that shows something already played (at time `now`).
    pub fn from_timeline_at(timeline: EventTimeline, now: u64) -> (r: Self)
        ensures
            r.wf(),
            r.view().events == events_view(timeline.spec_events()),
            r.view() == process(
                MockView {
                    output: Seq::empty(),
                    input: Seq::empty(),
                    log: Seq::empty(),
                    cursor: 0,
                    events: events_view(timeline.spec_events()),
                    pos: 0,
                    eof: false,
                    error: None,
                    exit_code: None,
                    resume_at: None,
                },
                now,
            ),
    {
        let mut t = timeline;
        t.reset();
        let mut r = MockTransport {
            output: Vec::new(),
            input: Vec::new(),
            input_log: Vec::new(),
            input_cursor: 0,
            timeline: t,
            eof: false,
            error: None,
            exit_code: None,
            resume_at: None,
        };
        let ghost v0 = r.view();
        r.process_event(now);
        proof {
            lemma_process_moves(v0, now);
        }
        r
    }

    /// A transport playing `timeline` (reads the clock).
    pub fn from_timeline(timeline: EventTimeline) -> (r: Self)
        ensures
            r.wf(),
            r.view().events == events_view(timeline.spec_events()),
    {
        let now = now_millis();
        Self::from_timeline_at(timeline, now)
    }

    /// A transport playing a scenario (reads the clock): each step with an
    /// expected text waits for the client to write it before answering.
    pub fn from_scenario(scenario: &Scenario) -> (r: Self)
        ensures
            r.wf(),
            r.view().events == scenario.events_spec(true),
    {
        Self::from_timeline(scenario.to_gated_timeline())
    }

    /// Whether an awaited input was written; if so the cursor moves past it.
    fn consume_expected_input(&mut self, expected: &[u8]) -> (r: bool)
        requires
            old(self).wf(),
        ensures
            final(self).wf(),
            match gate(old(self).view().log, old(self).view().cursor, expected@) {
                Some(c) => r && final(self).view() == (MockView { cursor: c, ..old(self).view() }),
                None => !r && final(self).view() == old(self).view(),
            },
    {
        if expected.len() == 0 {
            return true;
        }
        let rest = crate::expect::buffer::slice_to_vec(self.input_log.as_slice(), self.input_cursor, self.input_log.len());
        proof {
            assert(rest@ =~= self.input_log@.subrange(self.input_cursor as int, self.input_log@.len() as int));
        }
        match memmem_find(rest.as_slice(), expected) {
            Some(pos) => {
                proof {
                    lemma_first_occurrence(rest@, expected@);
                }
                self.input_cursor = self.input_cursor + pos + expected.len();
                true
            },
            None => false,
        }
    }

    /// Play the timeline from its position at time `now` (see [`process`]).
    fn process_event(&mut self, now: u64)
        requires
            old(self).wf(),
        ensures
            final(self).wf(),
            final(self).view() == process(old(self).view(), now),
    {
        loop
            invariant
                self.wf(),
                process(self.view(), now) == process(old(self).view(), now),
            decreases self.view().events.len() - self.view().pos,
        {
            let ghost v = self.view();
            match self.timeline.peek() {
                None => {
                    return;
                },
                Some(ev) => {
                    proof {
                        assert(v.events[v.pos] == event_view(*ev));
                    }
                    match ev {
                        MockEvent::Input(expected) => {
                            let e = bytes_copy(expected.as_slice());
                            if !self.consume_expected_input(e.as_slice()) {
                                return;
                            }
                            self.timeline.skip_one();
                        },
                        MockEvent::Output(data) => {
                            let d = bytes_copy(data.as_slice());
                            self.timeline.skip_one();
                            self.extend_output(d.as_slice());
                            return;
                        },
                        MockEvent::Eof => {
                            self.timeline.skip_one();
                            self.eof = true;
                            return;
                        },
                        MockEvent::Error(msg) => {
                            let m = msg.clone();
                            self.timeline.skip_one();
                            self.error = Some(m);
                            return;
                        },
                        MockEvent::Exit(code) => {
                            let c = *code;
                            self.timeline.skip_one();
                            self.exit_code = Some(c);
                            self.eof = true;
                            return;
                        },
                        MockEvent::Delay(d) => {
                            let d = *d;
                            self.timeline.skip_one();
                            self.resume_at = Some(now.saturating_add(d));
                            return;
                        },
                        MockEvent::Resize { .. } => {
                            self.timeline.skip_one();
                        },
                    }
                },
            }
        }
    }

    /// Append to the output.
    fn extend_output(&mut self, data: &[u8])
        requires
            old(self).wf(),
        ensures
            final(self).wf(),
            final(self).view() == (MockView { output: old(self).view().output + data@, ..old(self).view() }),
    {
        let mut i: usize = 0;
        while i < data.len()
            invariant
                i <= data@.len(),
                self.wf(),
                self.view() == (MockView { output: old(self).view().output + data@.subrange(0, i as int), ..old(self).view() }),
            decreases data.len() - i,
        {
            self.output.push(data[i]);
            i = i + 1;
            assert(self.output@ =~= old(self).view().output + data@.subrange(0, i as int));
        }
        assert(data@.subrange(0, data@.len() as int) =~= data@);
    }

    /// Queue output to be read.
    pub fn queue_output(&mut self, data: &[u8])
        requires
            old(self).wf(),
        ensures
            final(self).wf(),
            final(self).view() == (MockView { output: old(self).view().output + data@, ..old(self).view() }),
    {
        self.extend_output(data);
    }

    /// Queue a text's bytes to be read.
    pub fn queue_output_str(&mut self, s: &str)
        requires
            old(self).wf(),
        ensures
            final(self).wf(),
            final(self).view() == (MockView { output: old(self).view().output + utf8_bytes(s@), ..old(self).view() }),
    {
        let b = str_bytes(s);
        self.extend_output(b.as_slice());
    }

    /// Take the input written so far (awaited inputs still see it).
    pub fn take_input(&mut self) -> (r: Vec<u8>)
        requires
            old(self).wf(),
        ensures
            final(self).wf(),
            r@ == old(self).view().input,
            final(self).view() == (MockView { input: Seq::empty(), ..old(self).view() }),
    {
        let mut taken: Vec<u8> = Vec::new();
        std::mem::swap(&mut taken, &mut self.input);
        assert(self.input@ =~= Seq::<u8>::empty());
        taken
    }

    /// Take the input written so far, as text (invalid UTF-8 replaced).
    pub fn take_input_str(&mut self) -> (r: String)
        requires
            old(self).wf(),
        ensures
            final(self).wf(),
            r@ == utf8_lossy(old(self).view().input),
            final(self).view() == (MockView { input: Seq::empty(), ..old(self).view() }),
    {
        let b = self.take_input();
        from_utf8_lossy(b.as_slice())
    }

    /// End the output.
    pub fn signal_eof(&mut self)
        requires
            old(self).wf(),
        ensures
            final(self).wf(),
            final(self).view() == (MockView { eof: true, ..old(self).view() }),
    {
        self.eof = true;
    }

    /// Exit with `code` (which ends the output).
    pub fn signal_exit(&mut self, code: i32)
        requires
            old(self).wf(),
        ensures
            final(self).wf(),
            final(self).view() == (MockView { eof: true, exit_code: Some(code), ..old(self).view() }),
    {
        self.exit_code = Some(code);
        self.eof = true;
    }

    /// Report an error at the next read.
    pub fn set_error(&mut self, msg: &str)
        requires
            old(self).wf(),
        ensures
            final(self).wf(),
            final(self).view() == (MockView { error: Some(msg@), ..old(self).view() }),
    {
        self.error = Some(msg.to_owned());
    }

    /// Whether the output has ended.
    pub fn is_eof(&self) -> (r: bool)
        ensures
            r == self.view().eof,
    {
        self.eof
    }

    /// The exit code.
    pub fn exit_code(&self) -> (r: Option<i32>)
        ensures
            r == self.view().exit_code,
    {
        self.exit_code
    }

    /// Play the timeline on at time `now`.
    pub fn advance_at(&mut self, now: u64)
        requires
            old(self).wf(),
        ensures
            final(self).wf(),
            final(self).view() == process(old(self).view(), now),
    {
        self.process_event(now);
    }

    /// Play the timeline on now (reads the clock).
    pub fn advance(&mut self)
        requires
            old(self).wf(),
        ensures
            final(self).wf(),
            exists|t: u64| final(self).view() == process(old(self).view(), t),
    {
        let now = now_millis();
        self.process_event(now);
    }

    /// Write: the bytes become input, and are logged for awaited inputs.
    pub fn write(&mut self, buf: &[u8]) -> (r: usize)
        requires
            old(self).wf(),
        ensures
            final(self).wf(),
            r == buf@.len(),
            final(self).view() == (MockView {
                input: old(self).view().input + buf@,
                log: old(self).view().log + buf@,
                ..old(self).view()
            }),
    {
        let mut i: usize = 0;
        while i < buf.len()
            invariant
                i <= buf@.len(),
                self.wf(),
                self.view() == (MockView {
                    input: old(self).view().input + buf@.subrange(0, i as int),
                    log: old(self).view().log + buf@.subrange(0, i as int),
                    ..old(self).view()
                }),
            decreases buf.len() - i,
        {
            self.input.push(buf[i]);
            self.input_log.push(buf[i]);
            i = i + 1;
            assert(self.input@ =~= old(self).view().input + buf@.subrange(0, i as int));
            assert(self.input_log@ =~= old(self).view().log + buf@.subrange(0, i as int));
        }
        assert(buf@.subrange(0, buf@.len() as int) =~= buf@);
        buf.len()
    }

    /// Take up to `capacity` bytes of output.
    fn take_output(&mut self, capacity: usize) -> (r: Vec<u8>)
        requires
            old(self).wf(),
        ensures
            final(self).wf(),
            r@ == old(self).view().output.take(if capacity < old(self).view().output.len() { capacity as int } else { old(self).view().output.len() as int }),
            final(self).view() == (MockView {
                output: old(self).view().output.skip(if capacity < old(self).view().output.len() { capacity as int } else { old(self).view().output.len() as int }),
                ..old(self).view()
            }),
    {
        let n = if capacity < self.output.len() { capacity } else { self.output.len() };
        let mut out: Vec<u8> = Vec::new();
        let mut rest: Vec<u8> = Vec::new();
        let mut k: usize = 0;
        while k < self.output.len()
            invariant
                n <= self.output@.len(),
                self.output == old(self).output,
                k <= self.output@.len(),
                out@ == self.output@.take(if k < n { k as int } else { n as int }),
                rest@ == (if k <= n { Seq::<u8>::empty() } else { self.output@.subrange(n as int, k as int) }),
            decreases self.output.len() - k,
        {
            if k < n {
                out.push(self.output[k]);
            } else {
                rest.push(self.output[k]);
            }
            k = k + 1;
            assert(out@ =~= self.output@.take(if k < n { k as int } else { n as int }));
            assert(rest@ =~= (if k <= n { Seq::<u8>::empty() } else { self.output@.subrange(n as int, k as int) }));
        }
        assert(rest@ =~= self.output@.skip(n as int));
        self.output = rest;
        out
    }

    /// A read of at most `capacity` bytes at time `now`: a pending error is
    /// reported (once); nothing is given before a pause ends; queued output is
    /// given; after the end of output, the end; otherwise the timeline plays
    /// on, and when it shows nothing more the read waits.
    pub fn poll_read(&mut self, capacity: usize, now: u64) -> (r: MockRead)
        requires
            old(self).wf(),
        ensures
            final(self).wf(),
            final(self).view().input == old(self).view().input,
            final(self).view().log == old(self).view().log,
            old(self).view().error is Some ==> r is Error && r->Error_0@ == old(self).view().error->0
                && final(self).view() == (MockView { error: None, ..old(self).view() }),
            old(self).view().error is None && old(self).view().resume_at is Some && now < old(self).view().resume_at->0
                ==> r is WaitUntil && r->WaitUntil_0 == old(self).view().resume_at->0 && final(self).view() == old(self).view(),
            old(self).view().error is None && (old(self).view().resume_at is None || now >= old(self).view().resume_at->0)
                && old(self).view().output.len() > 0 ==> r is Data && r->Data_0@ == old(self).view().output.take(
                    if capacity < old(self).view().output.len() { capacity as int } else { old(self).view().output.len() as int },
                ) && final(self).view() == (MockView {
                    output: old(self).view().output.skip(
                        if capacity < old(self).view().output.len() { capacity as int } else { old(self).view().output.len() as int },
                    ),
                    resume_at: None,
                    ..old(self).view()
                }),
            old(self).view().error is None && (old(self).view().resume_at is None || now >= old(self).view().resume_at->0)
                && old(self).view().output.len() == 0 && old(self).view().eof ==> r is Eof
                && final(self).view() == (MockView { resume_at: None, ..old(self).view() }),
    {
        loop
            invariant
                self.wf(),
                self.view().input == old(self).view().input,
                self.view().log == old(self).view().log,
                old(self).view().error is Some ==> self.view() == old(self).view(),
                old(self).view().error is None && old(self).view().resume_at is Some && now < old(self).view().resume_at->0
                    ==> self.view() == old(self).view(),
                old(self).view().error is None && (old(self).view().resume_at is None || now >= old(self).view().resume_at->0)
                    && (old(self).view().output.len() > 0 || old(self).view().eof)
                    ==> self.view() == old(self).view(),
            decreases self.view().events.len() - self.view().pos,
        {
            if self.error.is_some() {
                let mut e: Option<String> = None;
                std::mem::swap(&mut e, &mut self.error);
                match e {
                    Some(m) => {
                        return MockRead::Error(m);
                    },
                    None => {
                        return MockRead::Pending;
                    },
                }
            }
            match self.resume_at {
                Some(t) => {
                    if now < t {
                        return MockRead::WaitUntil(t);
                    }
                    self.resume_at = None;
                },
                None => {},
            }
            if self.output.len() > 0 {
                let d = self.take_output(capacity);
                return MockRead::Data(d);
            }
            if self.eof {
                return MockRead::Eof;
            }
            let ghost before = self.view();
            self.process_event(now);
            proof {
                lemma_process_moves(before, now);
            }
            if self.resume_at.is_some() || self.output.len() > 0 || self.eof || self.error.is_some() {
                continue;
            }
            return MockRead::Pending;
        }
    }
}

/// Playing the timeline never moves its position back, and when it shows
/// output, an end, an error or a pause that was not there, it moved forward.
pub proof fn lemma_process_moves(v: MockView, now: u64)
    requires
        0 <= v.pos <= v.events.len(),
        0 <= v.cursor <= v.log.len(),
    ensures
        v.pos <= process(v, now).pos <= v.events.len(),
        process(v, now).log == v.log,
        process(v, now).input == v.input,
        0 <= process(v, now).cursor <= v.log.len(),
        process(v, now).events == v.events,
        (v.output.len() == 0 && !v.eof && v.error is None && v.resume_at is None)
            && (process(v, now).output.len() > 0 || process(v, now).eof || process(v, now).error is Some
                || process(v, now).resume_at is Some) ==> process(v, now).pos > v.pos,
    decreases v.events.len() - v.pos,
{
    if v.pos < v.events.len() {
        match v.events[v.pos] {
            EventView::Input(exp) => {
                match gate(v.log, v.cursor, exp) {
                    Some(c) => {
                        if exp.len() > 0 {
                            let rest = v.log.subrange(v.cursor, v.log.len() as int);
                            lemma_first_occurrence(rest, exp);
                        }
                        lemma_process_moves(MockView { cursor: c, pos: v.pos + 1, ..v }, now);
                    },
                    None => {},
                }
            },
            EventView::Resize(_, _) => {
                lemma_process_moves(MockView { pos: v.pos + 1, ..v }, now);
            },
            _ => {},
        }
    }
}

/// A mock session: a scripted transport.
#[derive(Debug)]
pub struct MockSession {
    transport: MockTransport,
}

impl MockSession {
    /// The transport.
    pub closed spec fn spec_transport(&self) -> MockTransport {
        self.transport
    }

    /// A session with nothing scripted.
    pub fn new() -> (r: Self)
        ensures
            r.spec_transport().wf(),
            r.spec_transport().view().events.len() == 0,
            r.spec_transport().view().output.len() == 0,
            !r.spec_transport().view().eof,
    {
        MockSession { transport: MockTransport::new() }
    }

    /// A session playing a scenario.
    pub fn from_scenario(scenario: &Scenario) -> (r: Self)
        ensures
            r.spec_transport().wf(),
            r.spec_transport().view().events == scenario.events_spec(true),
    {
        MockSession { transport: MockTransport::from_scenario(scenario) }
    }

    /// The transport.
    pub fn transport(&self) -> (r: &MockTransport)
        ensures
            *r == self.spec_transport(),
    {
        &self.transport
    }

    /// The transport, to change.
    pub fn transport_mut(&mut self) -> (r: &mut MockTransport)
        ensures
            *r == old(self).spec_transport(),
            final(self).spec_transport() == *final(r),
    {
        &mut self.transport
    }

    /// Queue output to be read.
    pub fn queue_output(&mut self, data: &[u8])
        requires
            old(self).spec_transport().wf(),
        ensures
            final(self).spec_transport().wf(),
            final(self).spec_transport().view() == (MockView {
                output: old(self).spec_transport().view().output + data@,
                ..old(self).spec_transport().view()
            }),
    {
        self.transport.queue_output(data);
    }

    /// Queue a text's bytes to be read.
    pub fn queue_output_str(&mut self, s: &str)
        requires
            old(self).spec_transport().wf(),
        ensures
            final(self).spec_transport().wf(),
            final(self).spec_transport().view() == (MockView {
                output: old(self).spec_transport().view().output + utf8_bytes(s@),
                ..old(self).spec_transport().view()
            }),
    {
        self.transport.queue_output_str(s);
    }

    /// Take the input written so far.
    pub fn take_input(&mut self) -> (r: Vec<u8>)
        requires
            old(self).spec_transport().wf(),
        ensures
            final(self).spec_transport().wf(),
            r@ == old(self).spec_transport().view().input,
            final(self).spec_transport().view() == (MockView { input: Seq::empty(), ..old(self).spec_transport().view() }),
    {
        self.transport.take_input()
    }

    /// Take the input written so far, as text.
    pub fn take_input_str(&mut self) -> (r: String)
        requires
            old(self).spec_transport().wf(),
        ensures
            final(self).spec_transport().wf(),
            r@ == utf8_lossy(old(self).spec_transport().view().input),
            final(self).spec_transport().view() == (MockView { input: Seq::empty(), ..old(self).spec_transport().view() }),
    {
        self.transport.take_input_str()
    }
}

} // verus!

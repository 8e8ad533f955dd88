//! What interaction hooks answer, what they are told, how an interaction
//! ends, and the detection of the escape sequence in typed input.
use vstd::prelude::*;
use crate::config::LineEnding;
use crate::interact::terminal::TerminalSize;
use crate::mock::event::{str_bytes, utf8_bytes};
use crate::text::push_str;

verus! {

/// What a hook asks for.
#[derive(Debug, Clone)]
pub enum InteractAction {
    /// Go on.
    Continue,
    /// Send these bytes to the child.
    Send(Vec<u8>),
    /// End the interaction.
    Stop,
    /// End the interaction with an error.
    Error(String),
}

impl InteractAction {
    /// Send a text's bytes.
    pub fn send(s: &str) -> (r: Self)
        ensures
            r matches InteractAction::Send(d) && d@ == utf8_bytes(s@),
    {
        InteractAction::Send(str_bytes(s))
    }

    /// Send bytes.
    pub fn send_bytes(data: Vec<u8>) -> (r: Self)
        ensures
            r matches InteractAction::Send(d) && d@ == data@,
    {
        InteractAction::Send(data)
    }
}

/// What a pattern hook is told of a match.
#[derive(Debug, Clone, Copy)]
pub struct InteractContext<'a> {
    /// The matched text.
    pub matched: &'a str,
    /// The text before it.
    pub before: &'a str,
    /// The text after it.
    pub after: &'a str,
    /// The whole buffer.
    pub buffer: &'a str,
    /// Which pattern matched.
    pub pattern_index: usize,
}

impl<'a> InteractContext<'a> {
    /// Send a text's bytes.
    pub fn send(&self, data: &str) -> (r: InteractAction)
        ensures
            r matches InteractAction::Send(d) && d@ == utf8_bytes(data@),
    {
        InteractAction::send(data)
    }

    /// Send a text and the default line ending (LF).
    pub fn send_line(&self, data: &str) -> (r: InteractAction)
        ensures
            r matches InteractAction::Send(d) && d@ == utf8_bytes(data@ + "\n"@),
    {
        let mut s = data.to_owned();
        push_str(&mut s, LineEnding::default().as_str());
        proof {
            reveal_strlit("\n");
        }
        InteractAction::send(s.as_str())
    }
}

/// What a resize hook is told.
#[derive(Debug, Clone, Copy, PartialEq, Eq, Structural)]
pub struct ResizeContext {
    /// The new size.
    pub size: TerminalSize,
    /// The size before, if known.
    pub previous: Option<TerminalSize>,
}

/// How an interaction ended.
#[derive(Debug, Clone)]
pub enum InteractEndReason {
    /// A pattern hook stopped it.
    PatternStop { pattern_index: usize },
    /// The escape sequence was typed.
    Escape,
    /// It timed out.
    Timeout,
    /// The child's output ended.
    Eof,
    /// An error ended it.
    Error(String),
}

/// The result of an interaction.
#[derive(Debug, Clone)]
pub struct InteractResult {
    /// How it ended.
    pub reason: InteractEndReason,
    /// The session's buffer when it ended.
    pub buffer: String,
}

/// What happened in an interaction, as the loop that runs it reports it.
#[derive(Debug, Clone)]
pub enum InteractEvent {
    /// The interaction's deadline passed.
    Deadline,
    /// The child's output gave this many bytes (none: its output ended).
    OutputRead(usize),
    /// The user's terminal gave this many bytes (none: it closed); `escaped`
    /// says whether the escape sequence has now been typed.
    InputRead { n: usize, escaped: bool },
    /// The pattern hook at `index` answered.
    PatternAnswer { index: usize, action: InteractAction },
    /// The resize hook answered.
    ResizeAnswer(InteractAction),
}

/// What the loop does next.
#[derive(Debug, Clone)]
pub enum InteractStep {
    /// Wait for the next event.
    Wait,
    /// Show the output (through the output hooks) and check the output patterns.
    ShowOutput,
    /// Stop reading the user's terminal, which has closed, and wait.
    StopInput,
    /// Pass the input through the input hooks and patterns, then to the child.
    ForwardInput,
    /// Send these bytes to the child, then wait.
    Send(Vec<u8>),
    /// End the interaction for this reason.
    End(InteractEndReason),
}

/// What a hook's answer leads to: nothing, a send, or the end (a resize hook
/// that stops ends as pattern 0 does).
pub open spec fn answer_step(index: usize, action: InteractAction, r: InteractStep) -> bool {
    match action {
        InteractAction::Continue => r is Wait,
        InteractAction::Send(d) => r matches InteractStep::Send(e) && e@ == d@,
        InteractAction::Stop => r matches InteractStep::End(InteractEndReason::PatternStop { pattern_index })
            && pattern_index == index,
        InteractAction::Error(m) => r matches InteractStep::End(InteractEndReason::Error(e)) && e@ == m@,
    }
}

/// The step of a hook's answer.
fn answer(index: usize, action: InteractAction) -> (r: InteractStep)
    ensures
        answer_step(index, action, r),
{
    match action {
        InteractAction::Continue => InteractStep::Wait,
        InteractAction::Send(d) => InteractStep::Send(d),
        InteractAction::Stop => InteractStep::End(InteractEndReason::PatternStop { pattern_index: index }),
        InteractAction::Error(m) => InteractStep::End(InteractEndReason::Error(m)),
    }
}

/// Decide what the interaction does on `event`, given whether the user's
/// terminal is still read; returns whether it is read afterwards, and the
/// step. The deadline ends it (timeout), as does the end of the child's
/// output (end of file) and the escape sequence; a closed terminal is no
/// longer read, but the interaction goes on.
pub fn interact_step(input_open: bool, event: InteractEvent) -> (r: (bool, InteractStep))
    ensures
        match event {
            InteractEvent::Deadline => r.0 == input_open && r.1 matches InteractStep::End(InteractEndReason::Timeout),
            InteractEvent::OutputRead(n) => r.0 == input_open && if n == 0 {
                r.1 matches InteractStep::End(InteractEndReason::Eof)
            } else {
                r.1 is ShowOutput
            },
            InteractEvent::InputRead { n, escaped } => if n == 0 {
                !r.0 && r.1 is StopInput
            } else if escaped {
                r.0 == input_open && r.1 matches InteractStep::End(InteractEndReason::Escape)
            } else {
                r.0 == input_open && r.1 is ForwardInput
            },
            InteractEvent::PatternAnswer { index, action } => r.0 == input_open && answer_step(index, action, r.1),
            InteractEvent::ResizeAnswer(action) => r.0 == input_open && answer_step(0, action, r.1),
        },
{
    match event {
        InteractEvent::Deadline => (input_open, InteractStep::End(InteractEndReason::Timeout)),
        InteractEvent::OutputRead(n) => {
            if n == 0 {
                (input_open, InteractStep::End(InteractEndReason::Eof))
            } else {
                (input_open, InteractStep::ShowOutput)
            }
        },
        InteractEvent::InputRead { n, escaped } => {
            if n == 0 {
                (false, InteractStep::StopInput)
            } else if escaped {
                (input_open, InteractStep::End(InteractEndReason::Escape))
            } else {
                (input_open, InteractStep::ForwardInput)
            }
        },
        InteractEvent::PatternAnswer { index, action } => (input_open, answer(index, action)),
        InteractEvent::ResizeAnswer(action) => (input_open, answer(0, action)),
    }
}

/// Whether `s` ends with `e`.
pub open spec fn ends_with(s: Seq<u8>, e: Seq<u8>) -> bool {
    e.len() <= s.len() && s.subrange(s.len() - e.len(), s.len() as int) == e
}

/// The last `n` elements of `s` (all of it when shorter).
pub open spec fn last_n(s: Seq<u8>, n: int) -> Seq<u8> {
    if s.len() <= n { s } else { s.subrange(s.len() - n, s.len() as int) }
}

/// Watches typed input for the escape sequence, across chunks.
pub struct EscapeDetector {
    escape: Vec<u8>,
    recent: Vec<u8>,
    typed: Ghost<Seq<u8>>,
}

impl EscapeDetector {
    /// The escape sequence.
    pub closed spec fn spec_escape(&self) -> Seq<u8> {
        self.escape@
    }

    /// Everything typed so far.
    pub closed spec fn spec_typed(&self) -> Seq<u8> {
        self.typed@
    }

    /// What is kept of the typed input: its last bytes, as many as the
    /// escape sequence has.
    pub closed spec fn wf(&self) -> bool {
        self.recent@ == last_n(self.typed@, self.escape@.len() as int)
    }

    /// A detector for `escape`, with nothing typed.
    pub fn new(escape: Vec<u8>) -> (r: Self)
        ensures
            r.wf(),
            r.spec_escape() == escape@,
            r.spec_typed().len() == 0,
    {
        EscapeDetector { escape, recent: Vec::new(), typed: Ghost(Seq::empty()) }
    }

    /// Take a chunk of typed input: whether everything typed so far now ends
    /// with the escape sequence.
    pub fn feed(&mut self, data: &[u8]) -> (r: bool)
        requires
            old(self).wf(),
        ensures
            final(self).wf(),
            final(self).spec_escape() == old(self).spec_escape(),
            final(self).spec_typed() == old(self).spec_typed() + data@,
            r == ends_with(old(self).spec_typed() + data@, old(self).spec_escape()),
    {
        let ghost t = self.typed@ + data@;
        let ghost n = self.escape@.len() as int;
        let mut buf: Vec<u8> = Vec::new();
        std::mem::swap(&mut buf, &mut self.recent);
        let ghost b0 = buf@;
        let mut i: usize = 0;
        while i < data.len()
            invariant
                i <= data@.len(),
                buf@ == b0 + data@.subrange(0, i as int),
            decreases data.len() - i,
        {
            buf.push(data[i]);
            i = i + 1;
            assert(buf@ =~= b0 + data@.subrange(0, i as int));
        }
        assert(data@.subrange(0, data@.len() as int) =~= data@);
        proof {
            lemma_suffix_kept(old(self).typed@, data@, n);
        }
        let m = self.escape.len();
        let found = if m <= buf.len() {
            let start = buf.len() - m;
            let mut k: usize = 0;
            let mut same = true;
            while k < m
                invariant
                    k <= m,
                    m == self.escape@.len(),
                    start + m == buf@.len(),
                    start + m == buf.len(),
                    same == (forall|j: int| 0 <= j < k ==> buf@[start + j] == self.escape@[j]),
                decreases m - k,
            {
                if buf[start + k] != self.escape[k] {
                    same = false;
                }
                k = k + 1;
            }
            proof {
                if same {
                    assert(buf@.subrange(start as int, buf@.len() as int) =~= self.escape@);
                } else {
                    let j = choose|j: int| 0 <= j < m && buf@[start + j] != self.escape@[j];
                    assert(buf@.subrange(start as int, buf@.len() as int)[j] != self.escape@[j]);
                }
            }
            same
        } else {
            false
        };
        let kept = if buf.len() > m {
            let from = buf.len() - m;
            crate::expect::buffer::slice_to_vec(buf.as_slice(), from, buf.len())
        } else {
            buf
        };
        proof {
            assert(found == ends_with(buf@, self.escape@));
            assert(buf@ == last_n(old(self).typed@, n) + data@);
            assert(ends_with(last_n(old(self).typed@, n) + data@, self.escape@) == ends_with(t, self.escape@));
            if buf@.len() > m {
                assert(kept@ =~= last_n(buf@, n));
            }
        }
        self.recent = kept;
        self.typed = Ghost(t);
        found
    }
}

/// Keeping the last `n` bytes before a chunk keeps enough to see the last
/// `n` bytes after it: the kept bytes and the chunk end the whole input,
/// with their last `n` bytes and its end sequences of length `n` the same.
proof fn lemma_suffix_kept(t: Seq<u8>, d: Seq<u8>, n: int)
    requires
        n >= 0,
    ensures
        last_n(last_n(t, n) + d, n) == last_n(t + d, n),
        forall|e: Seq<u8>| e.len() == n ==> (#[trigger] ends_with(last_n(t, n) + d, e) == ends_with(t + d, e)),
{
    let s = t + d;
    let b = last_n(t, n) + d;
    let k: int = if t.len() <= n { 0 } else { t.len() - n };
    assert(b =~= s.subrange(k, s.len() as int));
    if b.len() >= n {
        assert(last_n(b, n) =~= last_n(s, n));
        assert forall|e: Seq<u8>| e.len() == n implies (#[trigger] ends_with(b, e) == ends_with(s, e)) by {
            assert(b.subrange(b.len() - n, b.len() as int) =~= s.subrange(s.len() - n, s.len() as int));
        }
    } else {
        assert(k == 0);
        assert(b =~= s);
    }
}

} // verus!

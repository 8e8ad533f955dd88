//! Interaction events, and the input hook that turns newlines into CR LF.
use vstd::prelude::*;

verus! {

/// An event of an interaction.
#[derive(Debug, Clone)]
pub enum InteractionEvent {
    /// The interaction started.
    Started,
    /// The interaction ended.
    Ended,
    /// Input was typed.
    Input(Vec<u8>),
    /// Output was shown.
    Output(Vec<u8>),
    /// The user asked to leave.
    ExitRequested,
    /// An escape sequence was typed.
    EscapeSequence(Vec<u8>),
    /// The window was resized.
    Resize { cols: u16, rows: u16 },
}

/// `s` with every LF preceded by a CR.
pub open spec fn lf_to_crlf(s: Seq<u8>) -> Seq<u8>
    decreases s.len(),
{
    if s.len() == 0 {
        Seq::empty()
    } else {
        lf_to_crlf(s.drop_last()) + if s.last() == 10 { seq![13u8, 10u8] } else { seq![s.last()] }
    }
}

/// The CR LF input hook: every LF becomes CR LF.
pub fn crlf_hook(data: &[u8]) -> (r: Vec<u8>)
    ensures
        r@ == lf_to_crlf(data@),
{
    let mut out: Vec<u8> = Vec::new();
    let mut i: usize = 0;
    while i < data.len()
        invariant
            i <= data@.len(),
            out@ == lf_to_crlf(data@.take(i as int)),
        decreases data.len() - i,
    {
        proof {
            assert(data@.take(i + 1).drop_last() =~= data@.take(i as int));
        }
        if data[i] == 10 {
            out.push(13);
            out.push(10);
        } else {
            out.push(data[i]);
        }
        i = i + 1;
        assert(out@ =~= lf_to_crlf(data@.take(i as int)));
    }
    assert(data@.take(i as int) =~= data@);
    out
}

} // verus!

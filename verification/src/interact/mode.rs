//! Interaction modes and the filters applied to what is typed and shown.
use vstd::prelude::*;
use crate::ansi_bytes::{strip_ansi_bytes, strip_ansi_bytes_spec};

verus! {

/// How an interaction behaves (read timeout in milliseconds).
#[derive(Debug, Clone, Copy, PartialEq, Eq, Structural)]
pub struct InteractionMode {
    /// Echo typed input locally.
    pub local_echo: bool,
    /// Send CR LF for a newline.
    pub crlf: bool,
    /// How long a read waits.
    pub read_timeout: u64,
}

impl InteractionMode {
    /// The default: no local echo, CR LF, 100 ms reads.
    pub fn new() -> (r: Self)
        ensures
            r == (InteractionMode { local_echo: false, crlf: true, read_timeout: 100 }),
    {
        InteractionMode { local_echo: false, crlf: true, read_timeout: 100 }
    }

    /// Set local echo.
    pub fn with_local_echo(self, echo: bool) -> (r: Self)
        ensures
            r == (InteractionMode { local_echo: echo, ..self }),
    {
        InteractionMode { local_echo: echo, ..self }
    }

    /// Set CR LF.
    pub fn with_crlf(self, crlf: bool) -> (r: Self)
        ensures
            r == (InteractionMode { crlf, ..self }),
    {
        InteractionMode { crlf, ..self }
    }

    /// Set the read timeout.
    pub fn with_read_timeout(self, timeout: u64) -> (r: Self)
        ensures
            r == (InteractionMode { read_timeout: timeout, ..self }),
    {
        InteractionMode { read_timeout: timeout, ..self }
    }
}

impl Default for InteractionMode {
    fn default() -> (r: Self)
        ensures
            r == (InteractionMode { local_echo: false, crlf: true, read_timeout: 100 }),
    {
        InteractionMode::new()
    }
}

/// A filter on typed input.
#[derive(Debug, Clone)]
pub struct InputFilter {
    /// Bytes to drop.
    pub filter_chars: Vec<u8>,
    /// Whether control bytes pass.
    pub allow_control: bool,
    /// Whether the high bit is cleared.
    pub strip_high_bit: bool,
}

/// Whether the input filter lets `b` through: it is not a dropped byte, and
/// control bytes other than CR, LF and tab pass only when allowed.
pub open spec fn input_keeps(f: InputFilter, b: u8) -> bool {
    !f.filter_chars@.contains(b) && (f.allow_control || b >= 0x20 || b == 13 || b == 10 || b == 9)
}

/// What the input filter makes of a byte it lets through.
pub open spec fn input_maps(f: InputFilter, b: u8) -> u8 {
    if f.strip_high_bit { b & 0x7f } else { b }
}

/// The input filter applied to `s`.
pub open spec fn input_apply(f: InputFilter, s: Seq<u8>) -> Seq<u8>
    decreases s.len(),
{
    if s.len() == 0 {
        Seq::empty()
    } else {
        input_apply(f, s.drop_last()) + if input_keeps(f, s.last()) { seq![input_maps(f, s.last())] } else { Seq::empty() }
    }
}

impl InputFilter {
    /// A filter that drops nothing but control bytes.
    pub fn new() -> (r: Self)
        ensures
            r.filter_chars@.len() == 0,
            !r.allow_control,
            !r.strip_high_bit,
    {
        InputFilter { filter_chars: Vec::new(), allow_control: false, strip_high_bit: false }
    }

    /// Also drop these bytes.
    pub fn filter(self, chars: &[u8]) -> (r: Self)
        ensures
            r.filter_chars@ == self.filter_chars@ + chars@,
            r.allow_control == self.allow_control,
            r.strip_high_bit == self.strip_high_bit,
    {
        let mut s = self;
        let mut i: usize = 0;
        while i < chars.len()
            invariant
                i <= chars@.len(),
                s.filter_chars@ == self.filter_chars@ + chars@.subrange(0, i as int),
                s.allow_control == self.allow_control,
                s.strip_high_bit == self.strip_high_bit,
            decreases chars.len() - i,
        {
            s.filter_chars.push(chars[i]);
            i = i + 1;
            assert(s.filter_chars@ =~= self.filter_chars@ + chars@.subrange(0, i as int));
        }
        assert(chars@.subrange(0, chars@.len() as int) =~= chars@);
        s
    }

    /// Let control bytes through or not.
    pub fn with_control(self, allow: bool) -> (r: Self)
        ensures
            r.filter_chars == self.filter_chars,
            r.allow_control == allow,
            r.strip_high_bit == self.strip_high_bit,
    {
        InputFilter { allow_control: allow, ..self }
    }

    /// Whether `b` is one of the dropped bytes.
    fn drops(&self, b: u8) -> (r: bool)
        ensures
            r == self.filter_chars@.contains(b),
    {
        let mut i: usize = 0;
        while i < self.filter_chars.len()
            invariant
                i <= self.filter_chars@.len(),
                forall|j: int| 0 <= j < i ==> self.filter_chars@[j] != b,
            decreases self.filter_chars.len() - i,
        {
            if self.filter_chars[i] == b {
                return true;
            }
            i = i + 1;
        }
        false
    }

    /// Filter typed input (see [`input_apply`]).
    pub fn apply(&self, input: &[u8]) -> (r: Vec<u8>)
        ensures
            r@ == input_apply(*self, input@),
    {
        let mut out: Vec<u8> = Vec::new();
        let mut i: usize = 0;
        while i < input.len()
            invariant
                i <= input@.len(),
                out@ == input_apply(*self, input@.take(i as int)),
            decreases input.len() - i,
        {
            let b = input[i];
            proof {
                assert(input@.take(i + 1).drop_last() =~= input@.take(i as int));
            }
            if !self.drops(b) && (self.allow_control || b >= 0x20 || b == 13 || b == 10 || b == 9) {
                let m = if self.strip_high_bit { b & 0x7f } else { b };
                out.push(m);
            }
            i = i + 1;
            assert(out@ =~= input_apply(*self, input@.take(i as int)));
        }
        assert(input@.take(i as int) =~= input@);
        out
    }
}

/// A filter on shown output.
#[derive(Debug, Clone, Copy, PartialEq, Eq, Structural)]
pub struct OutputFilter {
    /// Remove ANSI escape sequences.
    pub strip_ansi: bool,
    /// Turn CR LF into LF.
    pub normalize_newlines: bool,
    /// Remove NUL bytes.
    pub strip_nulls: bool,
}

/// `s` without NUL bytes.
pub open spec fn without_nulls(s: Seq<u8>) -> Seq<u8>
    decreases s.len(),
{
    if s.len() == 0 {
        Seq::empty()
    } else {
        without_nulls(s.drop_last()) + if s.last() != 0 { seq![s.last()] } else { Seq::empty() }
    }
}

/// `s` with each CR LF, from left to right, turned into LF.
pub open spec fn crlf_to_lf(s: Seq<u8>) -> Seq<u8>
    decreases s.len(),
{
    if s.len() == 0 {
        Seq::empty()
    } else if s.len() >= 2 && s[0] == 13 && s[1] == 10 {
        seq![10u8] + crlf_to_lf(s.skip(2))
    } else {
        seq![s[0]] + crlf_to_lf(s.skip(1))
    }
}

/// The output filter applied to `s`: NULs removed (when set), then CR LF
/// normalized (when set), then escape sequences removed (when set).
pub open spec fn output_apply(f: OutputFilter, s: Seq<u8>) -> Seq<u8> {
    let a = if f.strip_nulls { without_nulls(s) } else { s };
    let b = if f.normalize_newlines { crlf_to_lf(a) } else { a };
    if f.strip_ansi { strip_ansi_bytes_spec(b) } else { b }
}

impl OutputFilter {
    /// A filter that changes nothing.
    pub fn new() -> (r: Self)
        ensures
            r == (OutputFilter { strip_ansi: false, normalize_newlines: false, strip_nulls: false }),
    {
        OutputFilter { strip_ansi: false, normalize_newlines: false, strip_nulls: false }
    }

    /// Remove escape sequences or not.
    pub fn with_strip_ansi(self, strip: bool) -> (r: Self)
        ensures
            r == (OutputFilter { strip_ansi: strip, ..self }),
    {
        OutputFilter { strip_ansi: strip, ..self }
    }

    /// Normalize CR LF or not.
    pub fn with_normalize_newlines(self, normalize: bool) -> (r: Self)
        ensures
            r == (OutputFilter { normalize_newlines: normalize, ..self }),
    {
        OutputFilter { normalize_newlines: normalize, ..self }
    }

    /// Filter shown output (see [`output_apply`]).
    pub fn apply(&self, output: &[u8]) -> (r: Vec<u8>)
        ensures
            r@ == output_apply(*self, output@),
    {
        let mut result: Vec<u8> = Vec::new();
        let mut i: usize = 0;
        while i < output.len()
            invariant
                i <= output@.len(),
                result@ == (if self.strip_nulls { without_nulls(output@.take(i as int)) } else { output@.take(i as int) }),
            decreases output.len() - i,
        {
            proof {
                assert(output@.take(i + 1).drop_last() =~= output@.take(i as int));
            }
            if !self.strip_nulls || output[i] != 0 {
                result.push(output[i]);
            }
            i = i + 1;
            assert(result@ =~= (if self.strip_nulls { without_nulls(output@.take(i as int)) } else { output@.take(i as int) }));
        }
        assert(output@.take(i as int) =~= output@);
        if self.normalize_newlines {
            result = normalize_crlf(result.as_slice());
        }
        if self.strip_ansi {
            result = strip_ansi_bytes(result.as_slice());
        }
        result
    }
}

impl Default for OutputFilter {
    fn default() -> (r: Self)
        ensures
            r == (OutputFilter { strip_ansi: false, normalize_newlines: false, strip_nulls: false }),
    {
        OutputFilter::new()
    }
}

/// `s` with CR LF turned into LF (see [`crlf_to_lf`]).
pub fn normalize_crlf(s: &[u8]) -> (r: Vec<u8>)
    ensures
        r@ == crlf_to_lf(s@),
{
    let mut out: Vec<u8> = Vec::new();
    let mut i: usize = 0;
    assert(s@.skip(0) =~= s@);
    while i < s.len()
        invariant
            i <= s@.len(),
            out@ + crlf_to_lf(s@.skip(i as int)) == crlf_to_lf(s@),
        decreases s.len() - i,
    {
        let ghost rest = s@.skip(i as int);
        if i + 1 < s.len() && s[i] == 13 && s[i + 1] == 10 {
            proof {
                assert(rest[0] == 13 && rest[1] == 10);
                assert(rest.skip(2) =~= s@.skip(i + 2));
                assert(out@.push(10u8) + crlf_to_lf(s@.skip(i + 2)) =~= out@ + (seq![10u8] + crlf_to_lf(rest.skip(2))));
            }
            out.push(10);
            i = i + 2;
        } else {
            proof {
                assert(rest[0] == s@[i as int]);
                assert(rest.skip(1) =~= s@.skip(i + 1));
                assert(out@.push(s@[i as int]) + crlf_to_lf(s@.skip(i + 1)) =~= out@ + (seq![rest[0]] + crlf_to_lf(rest.skip(1))));
            }
            out.push(s[i]);
            i = i + 1;
        }
    }
    assert(s@.skip(i as int) =~= Seq::<u8>::empty());
    assert(out@ + Seq::<u8>::empty() =~= out@);
    out
}

} // verus!

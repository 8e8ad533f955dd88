//! Line ending detection and handling.
use vstd::prelude::*;

verus! {

/// Line ending style.
#[derive(Debug, Clone, Copy, PartialEq, Eq, Structural)]
pub enum LineEnding {
    /// Unix-style LF (`\n`).
    Lf,
    /// Windows-style CRLF (`\r\n`).
    CrLf,
    /// Old Mac-style CR (`\r`).
    Cr,
    /// Unknown or mixed.
    Unknown,
}

/// The bytes that stand for a line ending.
pub open spec fn ending_bytes(e: LineEnding) -> Seq<u8> {
    match e {
        LineEnding::CrLf => seq![13u8, 10u8],
        LineEnding::Cr => seq![13u8],
        _ => seq![10u8],
    }
}

/// The text that stands for a line ending.
pub open spec fn ending_chars(e: LineEnding) -> Seq<char> {
    match e {
        LineEnding::CrLf => seq!['\r', '\n'],
        LineEnding::Cr => seq!['\r'],
        _ => seq!['\n'],
    }
}

pub const LF_BYTES: [u8; 1] = [10u8];

pub const CR_BYTES: [u8; 1] = [13u8];

pub const CRLF_BYTES: [u8; 2] = [13u8, 10u8];

impl LineEnding {
    /// Get the line ending bytes.
    pub fn as_bytes(&self) -> (r: &'static [u8])
        ensures
            r@ == ending_bytes(*self),
    {
        match self {
            LineEnding::CrLf => {
                let r: &'static [u8] = &CRLF_BYTES;
                assert(r@ =~= seq![13u8, 10u8]);
                r
            },
            LineEnding::Cr => {
                let r: &'static [u8] = &CR_BYTES;
                assert(r@ =~= seq![13u8]);
                r
            },
            _ => {
                let r: &'static [u8] = &LF_BYTES;
                assert(r@ =~= seq![10u8]);
                r
            },
        }
    }

    /// Get the line ending string.
    pub fn as_str(&self) -> (r: &'static str)
        ensures
            r@ == ending_chars(*self),
    {
        proof {
            reveal_strlit("\n");
            reveal_strlit("\r\n");
            reveal_strlit("\r");
        }
        match self {
            LineEnding::CrLf => "\r\n",
            LineEnding::Cr => "\r",
            _ => "\n",
        }
    }

    /// Get name of line ending.
    pub fn name(&self) -> (r: &'static str)
        ensures
            r@ == (match *self {
                LineEnding::Lf => "LF"@,
                LineEnding::CrLf => "CRLF"@,
                LineEnding::Cr => "CR"@,
                LineEnding::Unknown => "Unknown"@,
            }),
    {
        match self {
            LineEnding::Lf => "LF",
            LineEnding::CrLf => "CRLF",
            LineEnding::Cr => "CR",
            LineEnding::Unknown => "Unknown",
        }
    }

    /// The platform line ending; this build targets Unix-like systems, whose
    /// line ending is LF.
    pub fn platform() -> (r: Self)
        ensures
            r == LineEnding::Lf,
    {
        LineEnding::Lf
    }
}

impl Default for LineEnding {
    fn default() -> (r: Self)
        ensures
            r == LineEnding::Lf,
    {
        LineEnding::platform()
    }
}

/// Counts of (LF, CRLF, CR) line endings, scanning left to right and taking
/// `\r\n` as one CRLF.
pub open spec fn ending_counts(d: Seq<u8>) -> (nat, nat, nat)
    decreases d.len(),
{
    if d.len() == 0 {
        (0, 0, 0)
    } else if d.len() >= 2 && d[0] == 13u8 && d[1] == 10u8 {
        let r = ending_counts(d.skip(2));
        (r.0, r.1 + 1, r.2)
    } else if d[0] == 10u8 {
        let r = ending_counts(d.skip(1));
        (r.0 + 1, r.1, r.2)
    } else if d[0] == 13u8 {
        let r = ending_counts(d.skip(1));
        (r.0, r.1, r.2 + 1)
    } else {
        ending_counts(d.skip(1))
    }
}

/// The style that `detect_line_ending` reports for the given counts.
pub open spec fn dominant_ending(lf: nat, crlf: nat, cr: nat) -> LineEnding {
    if crlf > lf && crlf > cr {
        LineEnding::CrLf
    } else if lf > crlf && lf > cr {
        LineEnding::Lf
    } else if cr > 0 && lf == 0 && crlf == 0 {
        LineEnding::Cr
    } else if lf == 0 && crlf == 0 && cr == 0 {
        LineEnding::Unknown
    } else {
        LineEnding::Lf
    }
}

/// Every ending counted lies within the data.
proof fn lemma_counts_bounded(d: Seq<u8>)
    ensures
        ending_counts(d).0 + ending_counts(d).1 + ending_counts(d).2 <= d.len(),
    decreases d.len(),
{
    if d.len() == 0 {
    } else if d.len() >= 2 && d[0] == 13u8 && d[1] == 10u8 {
        lemma_counts_bounded(d.skip(2));
    } else {
        lemma_counts_bounded(d.skip(1));
    }
}

/// Detect line ending style in data.
pub fn detect_line_ending(data: &[u8]) -> (r: LineEnding)
    ensures
        r == dominant_ending(ending_counts(data@).0, ending_counts(data@).1, ending_counts(data@).2),
{
    let mut lf_count: usize = 0;
    let mut crlf_count: usize = 0;
    let mut cr_count: usize = 0;
    let mut i: usize = 0;
    proof {
        assert(data@.skip(0) =~= data@);
        lemma_counts_bounded(data@);
    }
    while i < data.len()
        invariant
            i <= data.len(),
            ({
                let rest = ending_counts(data@.skip(i as int));
                let all = ending_counts(data@);
                &&& all.0 == lf_count + rest.0
                &&& all.1 == crlf_count + rest.1
                &&& all.2 == cr_count + rest.2
            }),
            ending_counts(data@).0 + ending_counts(data@).1 + ending_counts(data@).2 <= data.len(),
        decreases data.len() - i,
    {
        let ghost rest = data@.skip(i as int);
        proof {
            lemma_counts_bounded(rest);
        }
        if i + 1 < data.len() && data[i] == 13u8 && data[i + 1] == 10u8 {
            assert(rest.skip(2) =~= data@.skip(i + 2));
            crlf_count = crlf_count + 1;
            i = i + 2;
        } else if data[i] == 10u8 {
            assert(rest.skip(1) =~= data@.skip(i + 1));
            lf_count = lf_count + 1;
            i = i + 1;
        } else if data[i] == 13u8 {
            assert(rest.skip(1) =~= data@.skip(i + 1));
            cr_count = cr_count + 1;
            i = i + 1;
        } else {
            assert(rest.skip(1) =~= data@.skip(i + 1));
            i = i + 1;
        }
    }
    proof {
        assert(data@.skip(i as int).len() == 0);
    }
    if crlf_count > lf_count && crlf_count > cr_count {
        LineEnding::CrLf
    } else if lf_count > crlf_count && lf_count > cr_count {
        LineEnding::Lf
    } else if cr_count > 0 && lf_count == 0 && crlf_count == 0 {
        LineEnding::Cr
    } else if lf_count == 0 && crlf_count == 0 && cr_count == 0 {
        LineEnding::Unknown
    } else {
        LineEnding::default()
    }
}

/// `d` with every line ending (CRLF, lone LF, lone CR) replaced by `t`.
pub open spec fn normalize_spec(d: Seq<u8>, t: Seq<u8>) -> Seq<u8>
    decreases d.len(),
{
    if d.len() == 0 {
        Seq::empty()
    } else if d.len() >= 2 && d[0] == 13u8 && d[1] == 10u8 {
        t + normalize_spec(d.skip(2), t)
    } else if d[0] == 10u8 || d[0] == 13u8 {
        t + normalize_spec(d.skip(1), t)
    } else {
        seq![d[0]] + normalize_spec(d.skip(1), t)
    }
}

/// Whether `t` is the text of a line ending.
pub open spec fn is_ending_bytes(t: Seq<u8>) -> bool {
    t == seq![10u8] || t == seq![13u8, 10u8] || t == seq![13u8]
}

/// Normalizing to CR leaves no LF.
proof fn lemma_norm_cr_no_lf(d: Seq<u8>)
    ensures
        forall|i: int| 0 <= i < normalize_spec(d, seq![13u8]).len() ==> normalize_spec(d, seq![13u8])[i] != 10u8,
    decreases d.len(),
{
    if d.len() > 0 {
        let rest = if d.len() >= 2 && d[0] == 13u8 && d[1] == 10u8 { d.skip(2) } else { d.skip(1) };
        lemma_norm_cr_no_lf(rest);
        let p = if d[0] == 10u8 || d[0] == 13u8 { seq![13u8] } else { seq![d[0]] };
        let r = normalize_spec(rest, seq![13u8]);
        assert(normalize_spec(d, seq![13u8]) == p + r);
        assert forall|i: int| 0 <= i < (p + r).len() implies (p + r)[i] != 10u8 by {
            if i >= p.len() {
                assert((p + r)[i] == r[i - p.len()]);
            }
        }
    }
}

/// A line ending followed by text normalizes to the target followed by the
/// text normalized, unless a lone CR would join an LF after it.
proof fn lemma_norm_ending_head(t: Seq<u8>, u: Seq<u8>, s: Seq<u8>)
    requires
        is_ending_bytes(t),
        t == seq![13u8] ==> u.len() == 0 || u[0] != 10u8,
    ensures
        normalize_spec(t + u, s) == s + normalize_spec(u, s),
{
    let d = t + u;
    if t == seq![13u8, 10u8] {
        assert(d.skip(2) =~= u);
    } else {
        assert(d.skip(1) =~= u);
    }
}

/// Normalizing to one style and then to another is normalizing to the
/// second directly; in particular normalizing twice to the same style
/// changes nothing the second time.
pub proof fn law_normalize_twice(d: Seq<u8>, t: Seq<u8>, s: Seq<u8>)
    requires
        is_ending_bytes(t),
        is_ending_bytes(s),
    ensures
        normalize_spec(normalize_spec(d, t), s) == normalize_spec(d, s),
    decreases d.len(),
{
    if d.len() == 0 {
    } else {
        let rest = if d.len() >= 2 && d[0] == 13u8 && d[1] == 10u8 { d.skip(2) } else { d.skip(1) };
        law_normalize_twice(rest, t, s);
        let u = normalize_spec(rest, t);
        if d[0] == 10u8 || d[0] == 13u8 {
            if t == seq![13u8] {
                lemma_norm_cr_no_lf(rest);
                if u.len() > 0 {
                    assert(u[0] != 10u8);
                }
            }
            lemma_norm_ending_head(t, u, s);
        } else {
            let c = seq![d[0]];
            assert((c + u).skip(1) =~= u);
        }
    }
}

/// Appends the bytes of `src` to `dst`.
pub fn extend_bytes(dst: &mut Vec<u8>, src: &[u8])
    ensures
        final(dst)@ == old(dst)@ + src@,
{
    let mut i: usize = 0;
    while i < src.len()
        invariant
            i <= src.len(),
            dst@ == old(dst)@ + src@.subrange(0, i as int),
        decreases src.len() - i,
    {
        dst.push(src[i]);
        i = i + 1;
        assert(dst@ =~= old(dst)@ + src@.subrange(0, i as int));
    }
    assert(src@.subrange(0, src.len() as int) =~= src@);
}

/// Normalize line endings in data.
pub fn normalize_line_endings(data: &[u8], target: LineEnding) -> (r: Vec<u8>)
    ensures
        r@ == normalize_spec(data@, ending_bytes(target)),
{
    let target_bytes = target.as_bytes();
    let mut result: Vec<u8> = Vec::new();
    let mut i: usize = 0;
    proof {
        assert(data@.skip(0) =~= data@);
    }
    while i < data.len()
        invariant
            i <= data.len(),
            target_bytes@ == ending_bytes(target),
            normalize_spec(data@, ending_bytes(target)) == result@ + normalize_spec(
                data@.skip(i as int),
                ending_bytes(target),
            ),
        decreases data.len() - i,
    {
        let ghost rest = data@.skip(i as int);
        let ghost t = ending_bytes(target);
        if i + 1 < data.len() && data[i] == 13u8 && data[i + 1] == 10u8 {
            assert(rest.skip(2) =~= data@.skip(i + 2));
            extend_bytes(&mut result, target_bytes);
            i = i + 2;
            assert(result@ + normalize_spec(data@.skip(i as int), t) =~= (result@.subrange(
                0,
                result@.len() - t.len(),
            )) + (t + normalize_spec(rest.skip(2), t)));
        } else if data[i] == 10u8 || data[i] == 13u8 {
            assert(rest.skip(1) =~= data@.skip(i + 1));
            extend_bytes(&mut result, target_bytes);
            i = i + 1;
            assert(result@ + normalize_spec(data@.skip(i as int), t) =~= (result@.subrange(
                0,
                result@.len() - t.len(),
            )) + (t + normalize_spec(rest.skip(1), t)));
        } else {
            assert(rest.skip(1) =~= data@.skip(i + 1));
            let b = data[i];
            result.push(b);
            i = i + 1;
            assert(result@ + normalize_spec(data@.skip(i as int), t) =~= (result@.subrange(
                0,
                result@.len() - 1,
            )) + (seq![b] + normalize_spec(rest.skip(1), t)));
        }
    }
    proof {
        assert(data@.skip(i as int).len() == 0);
        assert(result@ + Seq::<u8>::empty() =~= result@);
    }
    result
}

/// Convert line endings to LF.
pub fn to_lf(data: &[u8]) -> (r: Vec<u8>)
    ensures
        r@ == normalize_spec(data@, seq![10u8]),
{
    normalize_line_endings(data, LineEnding::Lf)
}

/// Convert line endings to CRLF.
pub fn to_crlf(data: &[u8]) -> (r: Vec<u8>)
    ensures
        r@ == normalize_spec(data@, seq![13u8, 10u8]),
{
    normalize_line_endings(data, LineEnding::CrLf)
}

/// Line ending configuration.
#[derive(Debug, Clone)]
pub struct LineEndingConfig {
    /// Input line ending (what to send).
    pub input: LineEnding,
    /// Output line ending (normalize received output).
    pub output: Option<LineEnding>,
    /// Auto-detect from first output.
    pub auto_detect: bool,
}

impl Default for LineEndingConfig {
    fn default() -> (r: Self)
        ensures
            r.input == LineEnding::Lf,
            r.output is None,
            r.auto_detect,
    {
        LineEndingConfig { input: LineEnding::default(), output: None, auto_detect: true }
    }
}

impl LineEndingConfig {
    /// Create new config.
    pub fn new() -> (r: Self)
        ensures
            r.input == LineEnding::Lf,
            r.output is None,
            r.auto_detect,
    {
        Self::default()
    }

    /// Set input line ending.
    pub fn with_input(self, ending: LineEnding) -> (r: Self)
        ensures
            r == (LineEndingConfig { input: ending, ..self }),
    {
        LineEndingConfig { input: ending, ..self }
    }

    /// Set output normalization.
    pub fn with_output(self, ending: LineEnding) -> (r: Self)
        ensures
            r == (LineEndingConfig { output: Some(ending), ..self }),
    {
        LineEndingConfig { output: Some(ending), ..self }
    }

    /// Enable auto-detection.
    pub fn with_auto_detect(self, auto: bool) -> (r: Self)
        ensures
            r == (LineEndingConfig { auto_detect: auto, ..self }),
    {
        LineEndingConfig { auto_detect: auto, ..self }
    }

    /// Process input (add line endings to send).
    pub fn process_input(&self, line: &str) -> (r: Vec<u8>)
        ensures
            r@ == (if line@.len() > 0 && (line@.last() == '\n' || line@.last() == '\r') {
                vstd::utf8::encode_utf8(line@)
            } else {
                vstd::utf8::encode_utf8(line@) + ending_bytes(self.input)
            }),
    {
        let bytes = line.as_bytes();
        let mut result: Vec<u8> = Vec::new();
        extend_bytes(&mut result, bytes);
        let ends_with_newline = crate::text::ends_with_line_break(line);
        if !ends_with_newline {
            extend_bytes(&mut result, self.input.as_bytes());
        }
        result
    }

    /// Process output (normalize received data).
    pub fn process_output(&self, data: &[u8]) -> (r: Vec<u8>)
        ensures
            r@ == (match self.output {
                Some(t) => normalize_spec(data@, ending_bytes(t)),
                None => data@,
            }),
    {
        match self.output {
            Some(target) => normalize_line_endings(data, target),
            None => {
                let mut v: Vec<u8> = Vec::new();
                extend_bytes(&mut v, data);
                v
            },
        }
    }
}

} // verus!

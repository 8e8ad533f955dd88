//! Text encoding helpers: UTF-8 decoding, line endings and ANSI stripping.
use vstd::prelude::*;
use crate::text::{chars_of, string_from_chars, from_utf8_lossy, utf8_lossy, lowercase_of, push_str, push_char};
use crate::expect::buffer::slice_to_vec;

verus! {

/// Decoded text with error information.
#[derive(Debug, Clone)]
pub struct EncodedText {
    /// The decoded text.
    pub text: String,
    /// Number of bytes consumed.
    pub bytes_consumed: usize,
    /// Whether any invalid sequences were replaced.
    pub had_errors: bool,
    /// Number of replacements made.
    pub replacements: usize,
}

impl EncodedText {
    /// Successfully decoded text.
    pub fn ok(text: String, bytes_consumed: usize) -> (r: Self)
        ensures
            r.text == text,
            r.bytes_consumed == bytes_consumed,
            !r.had_errors,
            r.replacements == 0,
    {
        EncodedText { text, bytes_consumed, had_errors: false, replacements: 0 }
    }

    /// Text decoded with `replacements` replacements.
    pub fn with_errors(text: String, bytes_consumed: usize, replacements: usize) -> (r: Self)
        ensures
            r.text == text,
            r.bytes_consumed == bytes_consumed,
            r.had_errors == (replacements > 0),
            r.replacements == replacements,
    {
        EncodedText { text, bytes_consumed, had_errors: replacements > 0, replacements }
    }
}

/// Decode UTF-8, replacing invalid sequences with U+FFFD.
pub fn decode_utf8_lossy(bytes: &[u8]) -> (r: EncodedText)
    ensures
        r.text@ == utf8_lossy(bytes@),
        r.bytes_consumed == bytes@.len(),
        r.replacements == invalid_sequences(bytes@),
        r.had_errors == (r.replacements > 0),
        vstd::utf8::valid_utf8(bytes@) ==> r.replacements == 0 && !r.had_errors
            && r.text@ == vstd::utf8::decode_utf8(bytes@),
{
    let text = from_utf8_lossy(bytes);
    let replacements = count_invalid_sequences(bytes);
    EncodedText { text, bytes_consumed: bytes.len(), had_errors: replacements > 0, replacements }
}

#[verifier::external_type_specification]
#[verifier::external_body]
pub struct ExUtf8Error(std::str::Utf8Error);

/// Where `std::str::from_utf8` reports the first error in `bytes`: how far
/// the input was valid, and the length of the invalid sequence there
/// (`None` where the input ends inside a sequence); `None` for valid input.
pub uninterp spec fn utf8_error_info(bytes: Seq<u8>) -> Option<(int, Option<int>)>;

/// Calls `std::str::from_utf8`. It succeeds exactly on valid UTF-8, giving
/// the characters encoded; otherwise the error's `valid_up_to` is the
/// longest valid prefix (so shorter than the input) and its `error_len`,
/// where there is one, is the length (at least one byte, within the input)
/// of the invalid sequence that follows.
#[verifier::external_body]
pub(crate) fn str_from_utf8(bytes: &[u8]) -> (r: Result<String, (std::str::Utf8Error, usize, Option<usize>)>)
    ensures
        r is Ok <==> vstd::utf8::valid_utf8(bytes@),
        r is Ok <==> utf8_error_info(bytes@) is None,
        r matches Ok(s) ==> s@ == vstd::utf8::decode_utf8(bytes@),
        r matches Err((_, v, e)) ==> v < bytes@.len() && vstd::utf8::valid_utf8(bytes@.take(v as int))
            && (forall|k: int| v < k <= bytes@.len() ==> !vstd::utf8::valid_utf8(#[trigger] bytes@.take(k)))
            && utf8_error_info(bytes@) == Some((v as int, match e {
                Some(n) => Some(n as int),
                None => None,
            })) && (e matches Some(n) ==> 1 <= n && v + n <= bytes@.len()),
{
    match std::str::from_utf8(bytes) {
        Ok(s) => Ok(s.to_owned()),
        Err(e) => Err((e, e.valid_up_to(), e.error_len())),
    }
}

/// Decode UTF-8 strictly: an error for invalid input.
pub fn decode_utf8_strict(bytes: &[u8]) -> (r: Result<EncodedText, std::str::Utf8Error>)
    ensures
        r is Ok <==> vstd::utf8::valid_utf8(bytes@),
        r matches Ok(t) ==> t.text@ == vstd::utf8::decode_utf8(bytes@) && t.bytes_consumed == bytes@.len()
            && !t.had_errors && t.replacements == 0,
{
    match str_from_utf8(bytes) {
        Ok(text) => Ok(EncodedText::ok(text, bytes.len())),
        Err((e, _, _)) => Err(e),
    }
}

/// How many bytes an invalid sequence that `std::str::from_utf8` reports
/// spans: its length, or one byte where the input ends inside a sequence.
pub open spec fn error_span(e: Option<int>) -> int {
    match e {
        Some(n) => n,
        None => 1,
    }
}

/// The lowercase hexadecimal digit of `d` (below 16).
pub open spec fn hex_digit(d: int) -> char {
    if d < 10 {
        (48 + d) as char
    } else {
        (87 + d) as char
    }
}

/// The escape `\xHH` of a byte, in lowercase hexadecimal.
pub open spec fn hex_escape(b: u8) -> Seq<char> {
    seq!['\\', 'x', hex_digit(b as int / 16), hex_digit(b as int % 16)]
}

/// The escapes of each byte of `bs`, in order.
pub open spec fn hex_escapes(bs: Seq<u8>) -> Seq<char>
    decreases bs.len(),
{
    if bs.len() == 0 {
        Seq::empty()
    } else {
        hex_escapes(bs.drop_last()) + hex_escape(bs.last())
    }
}

/// `bytes` decoded as UTF-8, each invalid byte written as its escape
/// (`escape`) or left out (`!escape`).
pub open spec fn decode_escaping(bytes: Seq<u8>, escape: bool) -> Seq<char>
    decreases bytes.len(),
{
    match utf8_error_info(bytes) {
        None => vstd::utf8::decode_utf8(bytes),
        Some((v, e)) => {
            let n = error_span(e);
            if 0 <= v && 1 <= n && v + n <= bytes.len() {
                vstd::utf8::decode_utf8(bytes.take(v)) + (if escape {
                    hex_escapes(bytes.subrange(v, v + n))
                } else {
                    Seq::empty()
                }) + decode_escaping(bytes.skip(v + n), escape)
            } else {
                Seq::empty()
            }
        },
    }
}

/// The number of invalid bytes in `bytes`.
pub open spec fn invalid_bytes(bytes: Seq<u8>) -> int
    decreases bytes.len(),
{
    match utf8_error_info(bytes) {
        None => 0,
        Some((v, e)) => {
            let n = error_span(e);
            if 0 <= v && 1 <= n && v + n <= bytes.len() {
                n + invalid_bytes(bytes.skip(v + n))
            } else {
                0
            }
        },
    }
}

/// The number of invalid sequences in `bytes` that lossy decoding replaces,
/// one replacement character each: every invalid sequence that
/// `std::str::from_utf8` reports, and an unfinished sequence at the end.
pub open spec fn invalid_sequences(bytes: Seq<u8>) -> int
    decreases bytes.len(),
{
    match utf8_error_info(bytes) {
        None => 0,
        Some((v, None)) => 1,
        Some((v, Some(n))) => {
            if 0 <= v && 1 <= n && v + n <= bytes.len() {
                1 + invalid_sequences(bytes.skip(v + n))
            } else {
                1
            }
        },
    }
}

/// Counts the invalid sequences of `bytes` (see [`invalid_sequences`]).
fn count_invalid_sequences(bytes: &[u8]) -> (r: usize)
    ensures
        r == invalid_sequences(bytes@),
        vstd::utf8::valid_utf8(bytes@) ==> r == 0,
{
    let mut count: usize = 0;
    let mut i: usize = 0;
    let mut done = false;
    assert(bytes@.skip(0) =~= bytes@);
    while !done
        invariant
            i <= bytes@.len(),
            count <= i + if done { 1int } else { 0int },
            done ==> count == invalid_sequences(bytes@),
            !done ==> count + invalid_sequences(bytes@.skip(i as int)) == invalid_sequences(bytes@),
            vstd::utf8::valid_utf8(bytes@) ==> count == 0 && (!done ==> i == 0),
        decreases bytes@.len() - i + if done { 0int } else { 1int },
    {
        let rest = slice_to_vec(bytes, i, bytes.len());
        assert(rest@ =~= bytes@.skip(i as int));
        proof {
            if i == 0 {
                assert(rest@ =~= bytes@);
            }
        }
        match str_from_utf8(rest.as_slice()) {
            Ok(_) => {
                done = true;
            },
            Err((_, v, e)) => {
                match e {
                    Some(n) => {
                        count = count + 1;
                        proof {
                            assert(rest@.skip(v + n) =~= bytes@.skip(i + v + n));
                        }
                        i = i + v + n;
                    },
                    None => {
                        count = count + 1;
                        done = true;
                    },
                }
            },
        }
    }
    count
}

/// The hexadecimal digit of `d`.
fn hex_digit_char(d: u8) -> (c: char)
    requires
        d < 16,
    ensures
        c == hex_digit(d as int),
{
    if d < 10 {
        (48u8 + d) as char
    } else {
        (87u8 + d) as char
    }
}

/// Decode UTF-8, writing each invalid byte as `\xHH` (with `escape`) or
/// leaving it out (without); the count is of the invalid bytes.
fn decode_invalid(bytes: &[u8], escape: bool) -> (r: (String, usize))
    ensures
        r.0@ == decode_escaping(bytes@, escape),
        r.1 == invalid_bytes(bytes@),
{
    let mut result = String::new();
    let mut count: usize = 0;
    let mut i: usize = 0;
    let mut done = false;
    assert(bytes@.skip(0) =~= bytes@);
    while !done
        invariant
            i <= bytes@.len(),
            count <= i,
            done ==> result@ == decode_escaping(bytes@, escape) && count == invalid_bytes(bytes@),
            !done ==> result@ + decode_escaping(bytes@.skip(i as int), escape) == decode_escaping(bytes@, escape),
            !done ==> count + invalid_bytes(bytes@.skip(i as int)) == invalid_bytes(bytes@),
        decreases bytes@.len() - i + if done { 0int } else { 1int },
    {
        let rest = slice_to_vec(bytes, i, bytes.len());
        assert(rest@ =~= bytes@.skip(i as int));
        match str_from_utf8(rest.as_slice()) {
            Ok(s) => {
                push_str(&mut result, s.as_str());
                done = true;
            },
            Err((_, v, e)) => {
                let n: usize = match e {
                    Some(k) => k,
                    None => 1,
                };
                let prefix = slice_to_vec(rest.as_slice(), 0, v);
                assert(prefix@ =~= rest@.take(v as int));
                match str_from_utf8(prefix.as_slice()) {
                    Ok(p) => {
                        push_str(&mut result, p.as_str());
                    },
                    Err(_) => {},
                }
                let ghost before = result@;
                if escape {
                    let mut k: usize = 0;
                    while k < n
                        invariant
                            k <= n,
                            v + n <= rest.len(),
                            result@ == before + hex_escapes(rest@.subrange(v as int, v + k)),
                        decreases n - k,
                    {
                        let b = rest[v + k];
                        push_char(&mut result, '\\');
                        push_char(&mut result, 'x');
                        push_char(&mut result, hex_digit_char(b / 16));
                        push_char(&mut result, hex_digit_char(b % 16));
                        k = k + 1;
                        proof {
                            assert(rest@.subrange(v as int, v + k).drop_last() =~= rest@.subrange(v as int, v + k - 1));
                            assert(result@ =~= before + hex_escapes(rest@.subrange(v as int, v + k)));
                        }
                    }
                }
                count = count + n;
                proof {
                    assert(rest@.skip(v + n) =~= bytes@.skip(i + v + n));
                }
                i = i + v + n;
                proof {
                    assert(result@ + decode_escaping(bytes@.skip(i as int), escape) =~= decode_escaping(bytes@, escape));
                }
            },
        }
    }
    (result, count)
}

/// Decode UTF-8, writing each invalid byte as the escape `\xHH`.
pub fn decode_utf8_escape(bytes: &[u8]) -> (r: EncodedText)
    ensures
        r.text@ == decode_escaping(bytes@, true),
        r.bytes_consumed == bytes@.len(),
        r.replacements == invalid_bytes(bytes@),
        r.had_errors == (r.replacements > 0),
{
    let (text, count) = decode_invalid(bytes, true);
    EncodedText::with_errors(text, bytes.len(), count)
}

/// Decode UTF-8, leaving out invalid bytes.
pub fn decode_utf8_skip(bytes: &[u8]) -> (r: EncodedText)
    ensures
        r.text@ == decode_escaping(bytes@, false),
        r.bytes_consumed == bytes@.len(),
        r.replacements == invalid_bytes(bytes@),
        r.had_errors == (r.replacements > 0),
{
    let (text, count) = decode_invalid(bytes, false);
    EncodedText::with_errors(text, bytes.len(), count)
}

/// Line ending style.
#[derive(Debug, Clone, Copy, PartialEq, Eq, Structural)]
pub enum LineEndingStyle {
    /// Unix-style LF.
    Lf,
    /// Windows-style CRLF.
    CrLf,
    /// Classic Mac CR.
    Cr,
}

/// The text of a line ending style.
pub open spec fn style_chars(e: LineEndingStyle) -> Seq<char> {
    match e {
        LineEndingStyle::Lf => seq!['\n'],
        LineEndingStyle::CrLf => seq!['\r', '\n'],
        LineEndingStyle::Cr => seq!['\r'],
    }
}

impl Default for LineEndingStyle {
    fn default() -> (r: Self)
        ensures
            r == LineEndingStyle::Lf,
    {
        LineEndingStyle::Lf
    }
}

impl LineEndingStyle {
    /// The line ending as a string.
    pub fn as_str(self) -> (r: &'static str)
        ensures
            r@ == style_chars(self),
    {
        proof {
            reveal_strlit("\n");
            reveal_strlit("\r\n");
            reveal_strlit("\r");
        }
        match self {
            LineEndingStyle::Lf => "\n",
            LineEndingStyle::CrLf => "\r\n",
            LineEndingStyle::Cr => "\r",
        }
    }

    /// The line ending as bytes.
    pub fn as_bytes(self) -> (r: &'static [u8])
        ensures
            r@ == (match self {
                LineEndingStyle::Lf => seq![10u8],
                LineEndingStyle::CrLf => seq![13u8, 10u8],
                LineEndingStyle::Cr => seq![13u8],
            }),
    {
        match self {
            LineEndingStyle::Lf => crate::auto_config::line_ending::LineEnding::Lf.as_bytes(),
            LineEndingStyle::CrLf => crate::auto_config::line_ending::LineEnding::CrLf.as_bytes(),
            LineEndingStyle::Cr => crate::auto_config::line_ending::LineEnding::Cr.as_bytes(),
        }
    }

    /// The platform style; this build targets Unix-like systems (LF).
    pub fn from_env() -> (r: Self)
        ensures
            r == LineEndingStyle::Lf,
    {
        LineEndingStyle::Lf
    }
}

/// `t` with every line ending (CRLF, lone LF, lone CR) replaced by `target`.
pub open spec fn normalize_chars(t: Seq<char>, target: Seq<char>) -> Seq<char>
    decreases t.len(),
{
    if t.len() == 0 {
        Seq::empty()
    } else if t.len() >= 2 && t[0] == '\r' && t[1] == '\n' {
        target + normalize_chars(t.skip(2), target)
    } else if t[0] == '\n' || t[0] == '\r' {
        target + normalize_chars(t.skip(1), target)
    } else {
        seq![t[0]] + normalize_chars(t.skip(1), target)
    }
}

/// Whether `t` is the text of a line ending.
pub open spec fn is_ending_chars(t: Seq<char>) -> bool {
    t == seq!['\n'] || t == seq!['\r', '\n'] || t == seq!['\r']
}

/// Normalizing to CR leaves no LF.
proof fn lemma_norm_cr_no_lf(d: Seq<char>)
    ensures
        forall|i: int| 0 <= i < normalize_chars(d, seq!['\r']).len() ==> normalize_chars(d, seq!['\r'])[i] != '\n',
    decreases d.len(),
{
    if d.len() > 0 {
        let rest = if d.len() >= 2 && d[0] == '\r' && d[1] == '\n' { d.skip(2) } else { d.skip(1) };
        lemma_norm_cr_no_lf(rest);
        let p = if d[0] == '\n' || d[0] == '\r' { seq!['\r'] } else { seq![d[0]] };
        let r = normalize_chars(rest, seq!['\r']);
        assert(normalize_chars(d, seq!['\r']) == p + r);
        assert forall|i: int| 0 <= i < (p + r).len() implies (p + r)[i] != '\n' by {
            if i >= p.len() {
                assert((p + r)[i] == r[i - p.len()]);
            }
        }
    }
}

/// A line ending followed by text normalizes to the target followed by the
/// text normalized, unless a lone CR would join an LF after it.
proof fn lemma_norm_ending_head(t: Seq<char>, u: Seq<char>, s: Seq<char>)
    requires
        is_ending_chars(t),
        t == seq!['\r'] ==> u.len() == 0 || u[0] != '\n',
    ensures
        normalize_chars(t + u, s) == s + normalize_chars(u, s),
{
    let d = t + u;
    if t == seq!['\r', '\n'] {
        assert(d.skip(2) =~= u);
    } else {
        assert(d.skip(1) =~= u);
    }
}

/// Normalizing to one style and then to another is normalizing to the
/// second directly; in particular normalizing twice to the same style
/// changes nothing the second time.
pub proof fn law_normalize_twice(d: Seq<char>, t: Seq<char>, s: Seq<char>)
    requires
        is_ending_chars(t),
        is_ending_chars(s),
    ensures
        normalize_chars(normalize_chars(d, t), s) == normalize_chars(d, s),
    decreases d.len(),
{
    if d.len() == 0 {
    } else {
        let rest = if d.len() >= 2 && d[0] == '\r' && d[1] == '\n' { d.skip(2) } else { d.skip(1) };
        law_normalize_twice(rest, t, s);
        let u = normalize_chars(rest, t);
        if d[0] == '\n' || d[0] == '\r' {
            if t == seq!['\r'] {
                lemma_norm_cr_no_lf(rest);
                if u.len() > 0 {
                    assert(u[0] != '\n');
                }
            }
            lemma_norm_ending_head(t, u, s);
        } else {
            let c = seq![d[0]];
            assert((c + u).skip(1) =~= u);
        }
    }
}

/// Line endings normalized over characters.
fn normalize_chars_exec(cs: &[char], target: &[char]) -> (r: Vec<char>)
    ensures
        r@ == normalize_chars(cs@, target@),
{
    let mut result: Vec<char> = Vec::new();
    let mut i: usize = 0;
    proof {
        assert(cs@.skip(0) =~= cs@);
    }
    while i < cs.len()
        invariant
            i <= cs.len(),
            normalize_chars(cs@, target@) == result@ + normalize_chars(cs@.skip(i as int), target@),
        decreases cs.len() - i,
    {
        let ghost rest = cs@.skip(i as int);
        let ghost before = result@;
        if i + 1 < cs.len() && cs[i] == '\r' && cs[i + 1] == '\n' {
            assert(rest.skip(2) =~= cs@.skip(i + 2));
            push_all(&mut result, target);
            i = i + 2;
            assert(before + (target@ + normalize_chars(rest.skip(2), target@)) =~= result@ + normalize_chars(cs@.skip(i as int), target@));
        } else if cs[i] == '\n' || cs[i] == '\r' {
            assert(rest.skip(1) =~= cs@.skip(i + 1));
            push_all(&mut result, target);
            i = i + 1;
            assert(before + (target@ + normalize_chars(rest.skip(1), target@)) =~= result@ + normalize_chars(cs@.skip(i as int), target@));
        } else {
            assert(rest.skip(1) =~= cs@.skip(i + 1));
            let c = cs[i];
            result.push(c);
            i = i + 1;
            assert(before + (seq![c] + normalize_chars(rest.skip(1), target@)) =~= result@ + normalize_chars(cs@.skip(i as int), target@));
        }
    }
    proof {
        assert(cs@.skip(i as int).len() == 0);
        assert(result@ + Seq::<char>::empty() =~= result@);
    }
    result
}

/// Appends all of `src` to `dst`.
pub fn push_all(dst: &mut Vec<char>, src: &[char])
    ensures
        final(dst)@ == old(dst)@ + src@,
{
    let mut i: usize = 0;
    while i < src.len()
        invariant
            i <= src.len(),
            dst@ == old(dst)@ + src@.subrange(0, i as int),
        decreases src.len() - i,
    {
        dst.push(src[i]);
        i = i + 1;
        assert(dst@ =~= old(dst)@ + src@.subrange(0, i as int));
    }
    assert(src@.subrange(0, src.len() as int) =~= src@);
}

/// Normalize line endings in text: every line ending (CRLF, lone LF, lone
/// CR) becomes the style asked for.
pub fn normalize_line_endings(text: &str, ending: LineEndingStyle) -> (r: String)
    ensures
        r@ == normalize_chars(text@, style_chars(ending)),
{
    let cs = chars_of(text);
    let target = chars_of(ending.as_str());
    let out = normalize_chars_exec(cs.as_slice(), target.as_slice());
    string_from_chars(out.as_slice())
}

/// Counts of (CRLF, lone LF, lone CR) in text, scanning left to right.
pub open spec fn text_ending_counts(t: Seq<char>) -> (nat, nat, nat)
    decreases t.len(),
{
    if t.len() == 0 {
        (0, 0, 0)
    } else if t.len() >= 2 && t[0] == '\r' && t[1] == '\n' {
        let r = text_ending_counts(t.skip(2));
        (r.0 + 1, r.1, r.2)
    } else if t[0] == '\n' {
        let r = text_ending_counts(t.skip(1));
        (r.0, r.1 + 1, r.2)
    } else if t[0] == '\r' {
        let r = text_ending_counts(t.skip(1));
        (r.0, r.1, r.2 + 1)
    } else {
        text_ending_counts(t.skip(1))
    }
}

/// The style `detect_line_ending` reports for the counts (CRLF, LF, CR).
pub open spec fn detected_style(crlf: nat, lf: nat, cr: nat) -> Option<LineEndingStyle> {
    if crlf == 0 && lf == 0 && cr == 0 {
        None
    } else if crlf >= lf && crlf >= cr {
        Some(LineEndingStyle::CrLf)
    } else if lf >= cr {
        Some(LineEndingStyle::Lf)
    } else {
        Some(LineEndingStyle::Cr)
    }
}

proof fn lemma_text_counts_bounded(t: Seq<char>)
    ensures
        text_ending_counts(t).0 + text_ending_counts(t).1 + text_ending_counts(t).2 <= t.len(),
    decreases t.len(),
{
    if t.len() == 0 {
    } else if t.len() >= 2 && t[0] == '\r' && t[1] == '\n' {
        lemma_text_counts_bounded(t.skip(2));
    } else {
        lemma_text_counts_bounded(t.skip(1));
    }
}

/// The detected style is the most frequent line ending: none when there is
/// no line ending, else one whose count is at least each of the two others,
/// a tie going to CRLF before LF and to LF before CR.
pub proof fn law_detected_style_most_frequent(crlf: nat, lf: nat, cr: nat)
    ensures
        detected_style(crlf, lf, cr) is None <==> (crlf == 0 && lf == 0 && cr == 0),
        detected_style(crlf, lf, cr) == Some(LineEndingStyle::CrLf) ==> crlf >= lf && crlf >= cr && crlf > 0,
        detected_style(crlf, lf, cr) == Some(LineEndingStyle::Lf) ==> lf > crlf && lf >= cr,
        detected_style(crlf, lf, cr) == Some(LineEndingStyle::Cr) ==> cr > crlf && cr > lf,
        crlf > 0 && crlf >= lf && crlf >= cr ==> detected_style(crlf, lf, cr) == Some(LineEndingStyle::CrLf),
        lf > crlf && lf >= cr ==> detected_style(crlf, lf, cr) == Some(LineEndingStyle::Lf),
        cr > crlf && cr > lf ==> detected_style(crlf, lf, cr) == Some(LineEndingStyle::Cr),
{
}

/// Text without line feeds has no CRLF and no lone LF, and has a lone CR
/// exactly when it holds a carriage return.
proof fn lemma_counts_without_lf(t: Seq<char>)
    requires
        forall|i: int| 0 <= i < t.len() ==> t[i] != '\n',
    ensures
        text_ending_counts(t).0 == 0,
        text_ending_counts(t).1 == 0,
        text_ending_counts(t).2 > 0 <==> exists|i: int| 0 <= i < t.len() && t[i] == '\r',
    decreases t.len(),
{
    if t.len() > 0 {
        assert forall|i: int| 0 <= i < t.skip(1).len() implies t.skip(1)[i] != '\n' by {
            assert(t.skip(1)[i] == t[i + 1]);
        }
        lemma_counts_without_lf(t.skip(1));
        assert(t[0] != '\n');
        if t[0] != '\r' {
            if exists|i: int| 0 <= i < t.len() && t[i] == '\r' {
                let i = choose|i: int| 0 <= i < t.len() && t[i] == '\r';
                assert(t.skip(1)[i - 1] == t[i]);
            }
        }
    }
}

/// Text whose line endings are all lone carriage returns (it holds at least
/// one, and no line feed) is detected as CR.
pub proof fn law_detect_cr_only(t: Seq<char>)
    requires
        forall|i: int| 0 <= i < t.len() ==> t[i] != '\n',
        exists|i: int| 0 <= i < t.len() && t[i] == '\r',
    ensures
        detected_style(text_ending_counts(t).0, text_ending_counts(t).1, text_ending_counts(t).2)
            == Some(LineEndingStyle::Cr),
{
    lemma_counts_without_lf(t);
}

/// Detect the dominant line ending style of text (`None` when it has none).
pub fn detect_line_ending(text: &str) -> (r: Option<LineEndingStyle>)
    ensures
        r == detected_style(text_ending_counts(text@).0, text_ending_counts(text@).1, text_ending_counts(text@).2),
{
    let cs = chars_of(text);
    let mut crlf: usize = 0;
    let mut lf: usize = 0;
    let mut cr: usize = 0;
    let mut i: usize = 0;
    proof {
        assert(cs@.skip(0) =~= cs@);
        lemma_text_counts_bounded(cs@);
    }
    while i < cs.len()
        invariant
            i <= cs.len(),
            cs@ == text@,
            ({
                let rest = text_ending_counts(cs@.skip(i as int));
                let all = text_ending_counts(cs@);
                &&& all.0 == crlf + rest.0
                &&& all.1 == lf + rest.1
                &&& all.2 == cr + rest.2
            }),
            text_ending_counts(cs@).0 + text_ending_counts(cs@).1 + text_ending_counts(cs@).2 <= cs.len(),
        decreases cs.len() - i,
    {
        let ghost rest = cs@.skip(i as int);
        proof {
            lemma_text_counts_bounded(rest);
        }
        if i + 1 < cs.len() && cs[i] == '\r' && cs[i + 1] == '\n' {
            assert(rest.skip(2) =~= cs@.skip(i + 2));
            crlf = crlf + 1;
            i = i + 2;
        } else if cs[i] == '\n' {
            assert(rest.skip(1) =~= cs@.skip(i + 1));
            lf = lf + 1;
            i = i + 1;
        } else if cs[i] == '\r' {
            assert(rest.skip(1) =~= cs@.skip(i + 1));
            cr = cr + 1;
            i = i + 1;
        } else {
            assert(rest.skip(1) =~= cs@.skip(i + 1));
            i = i + 1;
        }
    }
    proof {
        assert(cs@.skip(i as int).len() == 0);
    }
    if crlf == 0 && lf == 0 && cr == 0 {
        None
    } else if crlf >= lf && crlf >= cr {
        Some(LineEndingStyle::CrLf)
    } else if lf >= cr {
        Some(LineEndingStyle::Lf)
    } else {
        Some(LineEndingStyle::Cr)
    }
}

/// Detected encoding.
#[derive(Debug, Clone, PartialEq, Eq)]
pub enum DetectedEncoding {
    /// UTF-8.
    Utf8,
    /// ISO-8859-1.
    Latin1,
    /// Windows-1252.
    Windows1252,
    /// Unknown encoding (the locale string).
    Unknown(String),
}

impl DetectedEncoding {
    /// Whether this is UTF-8.
    pub fn is_utf8(&self) -> (r: bool)
        ensures
            r == (*self is Utf8),
    {
        matches!(self, DetectedEncoding::Utf8)
    }
}

/// Whether `needle` occurs in `hay`.
pub open spec fn contains_seq(hay: Seq<char>, needle: Seq<char>) -> bool {
    exists|i: int| 0 <= i && i + needle.len() <= hay.len() && #[trigger] hay.subrange(i, i + needle.len()) == needle
}

/// Whether `needle` occurs in `hay`.
pub fn contains_chars(hay: &[char], needle: &[char]) -> (r: bool)
    ensures
        r == contains_seq(hay@, needle@),
{
    if needle.len() > hay.len() {
        return false;
    }
    let last = hay.len() - needle.len();
    let mut i: usize = 0;
    while i <= last
        invariant
            last == hay.len() - needle.len(),
            forall|j: int| 0 <= j < i ==> #[trigger] hay@.subrange(j, j + needle@.len()) != needle@,
        decreases last + 1 - i,
    {
        let mut k: usize = 0;
        let mut same = true;
        while k < needle.len()
            invariant
                k <= needle.len(),
                i + needle.len() <= hay.len(),
                same == (forall|m: int| 0 <= m < k ==> hay@[i + m] == needle@[m]),
            decreases needle.len() - k,
        {
            if hay[i + k] != needle[k] {
                same = false;
            }
            k = k + 1;
        }
        if same {
            assert(hay@.subrange(i as int, i + needle@.len()) =~= needle@);
            return true;
        }
        proof {
            if hay@.subrange(i as int, i + needle@.len()) == needle@ {
                assert(hay@.subrange(i as int, i + needle@.len())[0] == hay@[i as int]);
                assert forall|m: int| 0 <= m < needle.len() implies hay@[i + m] == needle@[m] by {
                    assert(hay@.subrange(i as int, i + needle@.len())[m] == hay@[i + m]);
                }
            }
        }
        i = i + 1;
    }
    false
}

/// Whether the detected encoding is the one a lowercased locale names.
pub open spec fn encoding_matches(r: DetectedEncoding, lower: Seq<char>, locale: Seq<char>) -> bool {
    if contains_seq(lower, "utf-8"@) || contains_seq(lower, "utf8"@) {
        r == DetectedEncoding::Utf8
    } else if contains_seq(lower, "iso-8859-1"@) || contains_seq(lower, "iso8859-1"@) {
        r == DetectedEncoding::Latin1
    } else if contains_seq(lower, "1252"@) {
        r == DetectedEncoding::Windows1252
    } else if locale.len() == 0 {
        r == DetectedEncoding::Utf8
    } else {
        r matches DetectedEncoding::Unknown(s) && s@ == locale
    }
}

/// The encoding a locale string names (compared in lowercase); an empty
/// locale is taken as UTF-8.
pub fn detect_encoding_from_locale(locale: &str) -> (r: DetectedEncoding)
    ensures
        encoding_matches(r, lowercase_of(locale@), locale@),
{
    let lowered = crate::text::to_lowercase(locale);
    encoding_from_lowered(lowered.as_str(), locale)
}

/// The encoding named by the lowercased locale `lower` (see `detect_encoding_from_locale`).
pub fn encoding_from_lowered(lower: &str, locale: &str) -> (r: DetectedEncoding)
    ensures
        encoding_matches(r, lower@, locale@),
{
    let l = chars_of(lower);
    let s = l.as_slice();
    if contains_chars(s, chars_of("utf-8").as_slice()) || contains_chars(s, chars_of("utf8").as_slice()) {
        DetectedEncoding::Utf8
    } else if contains_chars(s, chars_of("iso-8859-1").as_slice()) || contains_chars(s, chars_of("iso8859-1").as_slice()) {
        DetectedEncoding::Latin1
    } else if contains_chars(s, chars_of("1252").as_slice()) {
        DetectedEncoding::Windows1252
    } else if locale.is_empty() {
        DetectedEncoding::Utf8
    } else {
        DetectedEncoding::Unknown(locale.to_owned())
    }
}

/// The locale `detect_encoding_from_env` reads: `LC_ALL`, else `LC_CTYPE`,
/// else `LANG`, else empty.
pub open spec fn encoding_locale(lc_all: Option<Seq<char>>, lc_ctype: Option<Seq<char>>, lang: Option<Seq<char>>) -> Seq<char> {
    match lc_all {
        Some(v) => v,
        None => match lc_ctype {
            Some(v) => v,
            None => match lang {
                Some(v) => v,
                None => Seq::empty(),
            },
        },
    }
}

/// The view of an optional string.
pub open spec fn opt_str(o: Option<&str>) -> Option<Seq<char>> {
    match o {
        Some(s) => Some(s@),
        None => None,
    }
}

/// The encoding named by the locale variables (read by the caller).
pub fn detect_encoding_from_vars(lc_all: Option<&str>, lc_ctype: Option<&str>, lang: Option<&str>) -> (r: DetectedEncoding)
    ensures
        encoding_matches(
            r,
            lowercase_of(encoding_locale(opt_str(lc_all), opt_str(lc_ctype), opt_str(lang))),
            encoding_locale(opt_str(lc_all), opt_str(lc_ctype), opt_str(lang)),
        ),
{
    let l: &str = match lc_all {
        Some(v) => v,
        None => match lc_ctype {
            Some(v) => v,
            None => match lang {
                Some(v) => v,
                None => "",
            },
        },
    };
    proof {
        reveal_strlit("");
        assert(l@ == encoding_locale(opt_str(lc_all), opt_str(lc_ctype), opt_str(lang)));
    }
    detect_encoding_from_locale(l)
}

} // verus!

verus! {

/// Whether `c` ends a CSI sequence (an ASCII letter, `@` or a backquote).
pub open spec fn is_csi_final(c: char) -> bool {
    ('a' <= c && c <= 'z') || ('A' <= c && c <= 'Z') || c == '@' || c == '`'
}

/// Length of a CSI body: up to and including its final character (all of `s` if none).
pub open spec fn csi_len(s: Seq<char>) -> nat
    decreases s.len(),
{
    if s.len() == 0 {
        0
    } else if is_csi_final(s[0]) {
        1
    } else {
        1 + csi_len(s.skip(1))
    }
}

/// Length of an OSC body: up to and including BEL, or ESC (with a following
/// backslash); all of `s` if neither occurs.
pub open spec fn osc_len(s: Seq<char>) -> nat
    decreases s.len(),
{
    if s.len() == 0 {
        0
    } else if s[0] == '\x07' {
        1
    } else if s[0] == '\x1b' {
        if s.len() >= 2 && s[1] == '\\' { 2 } else { 1 }
    } else {
        1 + osc_len(s.skip(1))
    }
}

/// Bounds of the escape body lengths.
pub proof fn lemma_escape_lens(s: Seq<char>)
    ensures
        csi_len(s) <= s.len(),
        osc_len(s) <= s.len(),
    decreases s.len(),
{
    if s.len() > 0 {
        lemma_escape_lens(s.skip(1));
    }
}

/// `s` with ANSI escape sequences removed: CSI (`ESC [` ... final), OSC
/// (`ESC ]` ... BEL or ST), character-set designations (`ESC (` and the next
/// character), and two-character escapes (`ESC` then an uppercase letter,
/// `=` or `>`); any other `ESC` is dropped alone.
pub open spec fn strip_ansi_spec(s: Seq<char>) -> Seq<char>
    decreases s.len(),
{
    if s.len() == 0 {
        Seq::empty()
    } else if s[0] != '\x1b' {
        seq![s[0]] + strip_ansi_spec(s.skip(1))
    } else if s.len() == 1 {
        Seq::empty()
    } else {
        let n = s[1];
        proof {
            lemma_escape_lens(s.skip(2));
        }
        if n == '[' {
            strip_ansi_spec(s.skip(2 + csi_len(s.skip(2)) as int))
        } else if n == ']' {
            strip_ansi_spec(s.skip(2 + osc_len(s.skip(2)) as int))
        } else if n == '(' || n == ')' || n == '*' || n == '+' {
            strip_ansi_spec(s.skip(if s.len() >= 3 { 3 } else { 2 }))
        } else if ('A' <= n && n <= 'Z') || n == '=' || n == '>' {
            strip_ansi_spec(s.skip(2))
        } else {
            strip_ansi_spec(s.skip(1))
        }
    }
}

/// Text without `ESC` is left as it is.
proof fn lemma_strip_plain(s: Seq<char>)
    requires
        forall|i: int| 0 <= i < s.len() ==> s[i] != '\x1b',
    ensures
        strip_ansi_spec(s) == s,
    decreases s.len(),
{
    if s.len() > 0 {
        lemma_strip_plain(s.skip(1));
        assert(seq![s[0]] + s.skip(1) =~= s);
    }
}

/// The text `strip_ansi` returns holds no `ESC`, and stripping it again
/// changes nothing.
pub proof fn law_strip_ansi(s: Seq<char>)
    ensures
        forall|i: int| 0 <= i < strip_ansi_spec(s).len() ==> strip_ansi_spec(s)[i] != '\x1b',
        strip_ansi_spec(strip_ansi_spec(s)) == strip_ansi_spec(s),
    decreases s.len(),
{
    if s.len() == 0 {
    } else if s[0] != '\x1b' {
        law_strip_ansi(s.skip(1));
        let r = strip_ansi_spec(s.skip(1));
        let p = seq![s[0]];
        assert forall|i: int| 0 <= i < (p + r).len() implies (p + r)[i] != '\x1b' by {
            if i >= 1 {
                assert((p + r)[i] == r[i - 1]);
            }
        }
    } else if s.len() == 1 {
    } else {
        let n = s[1];
        lemma_escape_lens(s.skip(2));
        if n == '[' {
            law_strip_ansi(s.skip(2 + csi_len(s.skip(2)) as int));
        } else if n == ']' {
            law_strip_ansi(s.skip(2 + osc_len(s.skip(2)) as int));
        } else if n == '(' || n == ')' || n == '*' || n == '+' {
            law_strip_ansi(s.skip(if s.len() >= 3 { 3 } else { 2 }));
        } else if ('A' <= n && n <= 'Z') || n == '=' || n == '>' {
            law_strip_ansi(s.skip(2));
        } else {
            law_strip_ansi(s.skip(1));
        }
    }
    lemma_strip_plain(strip_ansi_spec(s));
}

/// A CSI body made of parameter characters and then a final character
/// runs up to and including that final character.
proof fn lemma_csi_len_params(params: Seq<char>, f: char, rest: Seq<char>)
    requires
        forall|i: int| 0 <= i < params.len() ==> !is_csi_final(#[trigger] params[i]),
        is_csi_final(f),
    ensures
        csi_len(params + seq![f] + rest) == params.len() + 1,
    decreases params.len(),
{
    let s = params + seq![f] + rest;
    if params.len() == 0 {
        assert(s[0] == f);
    } else {
        assert(s[0] == params[0]);
        assert(s.skip(1) =~= params.skip(1) + seq![f] + rest);
        assert forall|i: int| 0 <= i < params.skip(1).len() implies !is_csi_final(#[trigger] params.skip(1)[i]) by {
            assert(params.skip(1)[i] == params[i + 1]);
        }
        lemma_csi_len_params(params.skip(1), f, rest);
    }
}

/// A CSI sequence ends at its first ASCII letter of either case, `@` or
/// backquote: `ESC [`, then parameters holding none of these, then such a
/// final character, then text without `ESC`, is stripped to that text.
pub proof fn law_strip_csi_sequence(params: Seq<char>, f: char, text: Seq<char>)
    requires
        forall|i: int|
            0 <= i < params.len() ==> {
                let c = #[trigger] params[i];
                !('a' <= c <= 'z' || 'A' <= c <= 'Z' || c == '@' || c == '`')
            },
        'a' <= f <= 'z' || 'A' <= f <= 'Z' || f == '@' || f == '`',
        forall|i: int| 0 <= i < text.len() ==> text[i] != '\x1b',
    ensures
        strip_ansi_spec(seq!['\x1b', '['] + params + seq![f] + text) == text,
{
    let s = seq!['\x1b', '['] + params + seq![f] + text;
    assert forall|i: int| 0 <= i < params.len() implies !is_csi_final(#[trigger] params[i]) by {
        let c = params[i];
        assert(!('a' <= c <= 'z' || 'A' <= c <= 'Z' || c == '@' || c == '`'));
    }
    assert(s.skip(2) =~= params + seq![f] + text);
    lemma_csi_len_params(params, f, text);
    assert(s.skip(2 + (params.len() + 1) as int) =~= text);
    lemma_strip_plain(text);
}

/// An OSC body without BEL or `ESC`, then its terminator, runs up to and
/// including the terminator (BEL, or `ESC` and a backslash).
proof fn lemma_osc_len_body(body: Seq<char>, term: Seq<char>, rest: Seq<char>)
    requires
        forall|i: int| 0 <= i < body.len() ==> #[trigger] body[i] != '\x07' && body[i] != '\x1b',
        term == seq!['\x07'] || term == seq!['\x1b', '\\'],
    ensures
        osc_len(body + term + rest) == body.len() + term.len(),
    decreases body.len(),
{
    let s = body + term + rest;
    if body.len() == 0 {
        assert(s[0] == term[0]);
        if term.len() == 2 {
            assert(s[1] == term[1]);
        }
    } else {
        assert(s[0] == body[0]);
        assert(s.skip(1) =~= body.skip(1) + term + rest);
        assert forall|i: int| 0 <= i < body.skip(1).len() implies #[trigger] body.skip(1)[i] != '\x07'
            && body.skip(1)[i] != '\x1b' by {
            assert(body.skip(1)[i] == body[i + 1]);
        }
        lemma_osc_len_body(body.skip(1), term, rest);
    }
}

/// An OSC sequence ends at BEL or at `ESC` and a backslash: `ESC ]`, then a body holding
/// neither BEL nor `ESC`, then either terminator, then text without `ESC`,
/// is stripped to that text.
pub proof fn law_strip_osc_sequence(body: Seq<char>, bel: bool, text: Seq<char>)
    requires
        forall|i: int| 0 <= i < body.len() ==> #[trigger] body[i] != '\x07' && body[i] != '\x1b',
        forall|i: int| 0 <= i < text.len() ==> text[i] != '\x1b',
    ensures
        strip_ansi_spec(seq!['\x1b', ']'] + body + (if bel { seq!['\x07'] } else { seq!['\x1b', '\\'] }) + text)
            == text,
{
    let term = if bel { seq!['\x07'] } else { seq!['\x1b', '\\'] };
    let s = seq!['\x1b', ']'] + body + term + text;
    assert(s.skip(2) =~= body + term + text);
    lemma_osc_len_body(body, term, text);
    assert(s.skip(2 + (body.len() + term.len()) as int) =~= text);
    lemma_strip_plain(text);
}

/// End of the CSI body starting at `i`.
fn csi_end(cs: &[char], i: usize) -> (r: usize)
    requires
        i <= cs.len(),
    ensures
        r == i + csi_len(cs@.skip(i as int)),
    decreases cs.len() - i,
{
    if i >= cs.len() {
        proof {
            assert(cs@.skip(i as int).len() == 0);
        }
        i
    } else {
        let c = cs[i];
        proof {
            assert(cs@.skip(i as int)[0] == c);
            assert(cs@.skip(i as int).skip(1) =~= cs@.skip(i + 1));
        }
        if ('a' <= c && c <= 'z') || ('A' <= c && c <= 'Z') || c == '@' || c == '`' {
            i + 1
        } else {
            csi_end(cs, i + 1)
        }
    }
}

/// End of the OSC body starting at `i`.
fn osc_end(cs: &[char], i: usize) -> (r: usize)
    requires
        i <= cs.len(),
    ensures
        r == i + osc_len(cs@.skip(i as int)),
    decreases cs.len() - i,
{
    if i >= cs.len() {
        proof {
            assert(cs@.skip(i as int).len() == 0);
        }
        i
    } else {
        let c = cs[i];
        proof {
            assert(cs@.skip(i as int)[0] == c);
            assert(cs@.skip(i as int).skip(1) =~= cs@.skip(i + 1));
        }
        if c == '\x07' {
            i + 1
        } else if c == '\x1b' {
            if i + 1 < cs.len() && cs[i + 1] == '\\' {
                assert(cs@.skip(i as int)[1] == cs@[i + 1]);
                i + 2
            } else {
                i + 1
            }
        } else {
            osc_end(cs, i + 1)
        }
    }
}

/// Strip ANSI escape sequences from text.
pub fn strip_ansi(text: &str) -> (r: String)
    ensures
        r@ == strip_ansi_spec(text@),
{
    let cs = chars_of(text);
    let s = cs.as_slice();
    let mut result: Vec<char> = Vec::new();
    let mut i: usize = 0;
    proof {
        assert(s@.skip(0) =~= s@);
    }
    while i < s.len()
        invariant
            i <= s.len(),
            s@ == text@,
            strip_ansi_spec(s@) == result@ + strip_ansi_spec(s@.skip(i as int)),
        decreases s.len() - i,
    {
        let ghost rest = s@.skip(i as int);
        let ghost before = result@;
        let c = s[i];
        proof {
            assert(rest[0] == c);
        }
        if c != '\x1b' {
            result.push(c);
            proof {
                assert(rest.skip(1) =~= s@.skip(i + 1));
                assert(before + (seq![c] + strip_ansi_spec(rest.skip(1))) =~= result@ + strip_ansi_spec(s@.skip(i + 1)));
            }
            i = i + 1;
        } else if i + 1 >= s.len() {
            proof {
                assert(rest.len() == 1);
                assert(s@.skip(i + 1).len() == 0);
                assert(before + Seq::<char>::empty() =~= result@ + strip_ansi_spec(s@.skip(i + 1)));
            }
            i = i + 1;
        } else {
            let n = s[i + 1];
            proof {
                assert(rest[1] == n);
                lemma_escape_lens(rest.skip(2));
                assert(rest.skip(2) =~= s@.skip(i + 2));
            }
            let next: usize = if n == '[' {
                csi_end(s, i + 2)
            } else if n == ']' {
                osc_end(s, i + 2)
            } else if n == '(' || n == ')' || n == '*' || n == '+' {
                if i + 2 < s.len() { i + 3 } else { i + 2 }
            } else if ('A' <= n && n <= 'Z') || n == '=' || n == '>' {
                i + 2
            } else {
                i + 1
            };
            proof {
                assert(i < next <= s.len());
                assert(rest.skip(next - i) =~= s@.skip(next as int));
                assert(strip_ansi_spec(rest) == strip_ansi_spec(rest.skip(next - i)));
            }
            i = next;
        }
    }
    proof {
        assert(s@.skip(i as int).len() == 0);
        assert(result@ + Seq::<char>::empty() =~= result@);
    }
    string_from_chars(result.as_slice())
}

} // verus!

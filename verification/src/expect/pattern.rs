//! Patterns for expect operations: literal text, regular expressions,
//! globs, end of file, timeouts and byte counts.
//!
//! Offsets are byte offsets into the text (a glob's start is the character
//! position where it matched); timeouts are in milliseconds.
use vstd::prelude::*;
use vstd::utf8::encode_utf8;
use crate::expect::buffer::{find_bytes, first_occurrence, lemma_first_occurrence_is, occurs_at};
use crate::expect::glob::{glob_match, glob_start};
use crate::text::{from_utf8_lossy, utf8_lossy};

verus! {

#[verifier::external_type_specification]
#[verifier::external_body]
pub struct ExRegex(regex::Regex);

#[verifier::external_type_specification]
#[verifier::external_body]
pub struct ExRegexError(regex::Error);

/// Whether `regex::Regex::new` accepts `pattern`.
pub uninterp spec fn regex_accepts(pattern: Seq<char>) -> bool;

/// The byte range of the leftmost-first match of `pattern` in `text`, as
/// `regex::Regex::find` reports it.
pub uninterp spec fn regex_find_range(pattern: Seq<char>, text: Seq<char>) -> Option<(int, int)>;

/// The capture groups (the whole match first) of the first match of
/// `pattern` in `text`, as `regex::Regex::captures` reports them.
pub uninterp spec fn regex_capture_groups(pattern: Seq<char>, text: Seq<char>) -> Option<Seq<Option<Seq<char>>>>;

/// Calls `regex::Regex::new`, which fails exactly when the expression is
/// invalid (or too big to compile).
#[verifier::external_body]
fn compile_regex(pattern: &str) -> (r: Result<regex::Regex, regex::Error>)
    ensures
        r is Ok <==> regex_accepts(pattern@),
{
    regex::Regex::new(pattern)
}

/// A compiled regular expression with its source. Its view is the source;
/// the compiled form is always the one `regex::Regex::new` made from it.
#[derive(Debug)]
pub struct CompiledRegex {
    pattern: String,
    compiled: regex::Regex,
}

impl View for CompiledRegex {
    type V = Seq<char>;

    closed spec fn view(&self) -> Seq<char> {
        self.pattern@
    }
}

/// Calls `Clone` of `regex::Regex` (a copy of the compiled expression) and
/// keeps the source with it.
#[verifier::external_body]
fn clone_regex(re: &CompiledRegex) -> (r: CompiledRegex)
    ensures
        r@ == re@,
{
    CompiledRegex { pattern: re.pattern.clone(), compiled: re.compiled.clone() }
}

impl Clone for CompiledRegex {
    fn clone(&self) -> (r: Self)
        ensures
            r@ == self@,
    {
        clone_regex(self)
    }
}

/// Calls `regex::Regex::find` on the compiled form of `re` and gives the
/// match's byte offsets, which lie within the text in order.
#[verifier::external_body]
fn regex_find(re: &CompiledRegex, text: &str) -> (r: Option<(usize, usize)>)
    ensures
        match r {
            Some((s, e)) => regex_find_range(re@, text@) == Some((s as int, e as int)) && s <= e
                <= encode_utf8(text@).len(),
            None => regex_find_range(re@, text@) is None,
        },
{
    match re.compiled.find(text) {
        Some(m) => Some((m.start(), m.end())),
        None => None,
    }
}

/// The text of each group, `None` for a group that took no part.
pub open spec fn group_texts(gs: Seq<Option<String>>) -> Seq<Option<Seq<char>>> {
    gs.map_values(|g: Option<String>| match g {
        Some(s) => Some(s@),
        None => None,
    })
}

/// Calls `regex::Regex::captures` on the compiled form of `re` and gives
/// each group's text, the whole match first.
#[verifier::external_body]
fn regex_captures(re: &CompiledRegex, text: &str) -> (r: Option<Vec<Option<String>>>)
    ensures
        match r {
            Some(gs) => regex_capture_groups(re@, text@) == Some(group_texts(gs@)),
            None => regex_capture_groups(re@, text@) is None,
        },
{
    match re.compiled.captures(text) {
        Some(caps) => {
            let mut v = Vec::new();
            for m in caps.iter() {
                v.push(m.map(|m| m.as_str().to_string()));
            }
            Some(v)
        },
        None => None,
    }
}

/// The texts of the groups after the whole match that took part, in order.
pub open spec fn present_groups(gs: Seq<Option<Seq<char>>>) -> Seq<Seq<char>>
    decreases gs.len(),
{
    if gs.len() <= 1 {
        Seq::empty()
    } else {
        match gs.last() {
            Some(t) => present_groups(gs.drop_last()).push(t),
            None => present_groups(gs.drop_last()),
        }
    }
}

/// The captures reported for a regex match (none where there is no match).
pub open spec fn regex_capture_texts(pattern: Seq<char>, text: Seq<char>) -> Seq<Seq<char>> {
    match regex_capture_groups(pattern, text) {
        Some(gs) => present_groups(gs),
        None => Seq::empty(),
    }
}

impl CompiledRegex {
    /// Compile `pattern`.
    pub fn compile(pattern: &str) -> (r: Result<Self, regex::Error>)
        ensures
            r is Ok <==> regex_accepts(pattern@),
            r matches Ok(c) ==> c@ == pattern@,
    {
        match compile_regex(pattern) {
            Ok(compiled) => Ok(CompiledRegex { pattern: pattern.to_owned(), compiled }),
            Err(e) => Err(e),
        }
    }

    /// The source pattern.
    pub fn pattern(&self) -> (r: &str)
        ensures
            r@ == self@,
    {
        self.pattern.as_str()
    }

    /// The byte range of the first match in `text`.
    pub fn find(&self, text: &str) -> (r: Option<(usize, usize)>)
        ensures
            match r {
                Some((s, e)) => regex_find_range(self@, text@) == Some((s as int, e as int)) && s <= e
                    <= encode_utf8(text@).len(),
                None => regex_find_range(self@, text@) is None,
            },
    {
        regex_find(self, text)
    }

    /// The texts of the capture groups of the first match that took part
    /// (the whole match left out).
    pub fn captures(&self, text: &str) -> (r: Vec<String>)
        ensures
            r@.map_values(|s: String| s@) == regex_capture_texts(self@, text@),
    {
        match regex_captures(self, text) {
            Some(gs) => {
                let mut out: Vec<String> = Vec::new();
                let mut k: usize = 1;
                if gs.len() == 0 {
                    proof {
                        assert(out@.map_values(|s: String| s@) =~= present_groups(group_texts(gs@)));
                    }
                    return out;
                }
                proof {
                    assert(group_texts(gs@).take(1).len() == 1);
                    assert(out@.map_values(|s: String| s@) =~= present_groups(group_texts(gs@).take(1)));
                }
                while k < gs.len()
                    invariant
                        1 <= k <= gs@.len(),
                        out@.map_values(|s: String| s@) == present_groups(group_texts(gs@).take(k as int)),
                    decreases gs.len() - k,
                {
                    let ghost before = out@;
                    match &gs[k] {
                        Some(t) => {
                            out.push(t.clone());
                        },
                        None => {},
                    }
                    proof {
                        let g = group_texts(gs@);
                        assert(g.take(k + 1).drop_last() =~= g.take(k as int));
                        assert(g.take(k + 1).last() == g[k as int]);
                        match gs@[k as int] {
                            Some(t) => {
                                assert(out@.map_values(|s: String| s@) =~= before.map_values(|s: String| s@).push(t@));
                            },
                            None => {
                                assert(out@.map_values(|s: String| s@) =~= before.map_values(|s: String| s@));
                            },
                        }
                    }
                    k = k + 1;
                }
                proof {
                    assert(group_texts(gs@).take(gs@.len() as int) =~= group_texts(gs@));
                }
                out
            },
            None => {
                let out: Vec<String> = Vec::new();
                proof {
                    assert(out@.map_values(|s: String| s@) =~= Seq::<Seq<char>>::empty());
                }
                out
            },
        }
    }
}

/// A pattern that can be matched against terminal output.
#[derive(Clone, Debug)]
pub enum Pattern {
    /// Exact text.
    Literal(String),
    /// A regular expression.
    Regex(CompiledRegex),
    /// A glob (`*` any run, `?` one character).
    Glob(String),
    /// The end of output.
    Eof,
    /// A timeout (milliseconds).
    Timeout(u64),
    /// At least this many bytes received.
    Bytes(usize),
}

/// The byte range of the first occurrence of `s` in `text`.
pub open spec fn literal_range(s: Seq<char>, text: Seq<char>) -> Option<(int, int)> {
    match first_occurrence(encode_utf8(text), encode_utf8(s)) {
        Some(i) => Some((i, i + encode_utf8(s).len())),
        None => None,
    }
}

/// Where a glob matches: from the first character position where it
/// matches to the end of the text (in bytes).
pub open spec fn glob_range(p: Seq<char>, text: Seq<char>) -> Option<(int, int)> {
    match glob_start(p, text) {
        Some(s) => Some((s, encode_utf8(text).len() as int)),
        None => None,
    }
}

/// Where pattern `p` matches `text`; end of file, timeouts and byte counts
/// do not match text.
pub open spec fn match_range(p: Pattern, text: Seq<char>) -> Option<(int, int)> {
    match p {
        Pattern::Literal(s) => literal_range(s@, text),
        Pattern::Regex(r) => regex_find_range(r@, text),
        Pattern::Glob(g) => glob_range(g@, text),
        _ => None,
    }
}

/// The captures of a match of `p` in `text` (only regular expressions have any).
pub open spec fn match_captures(p: Pattern, text: Seq<char>) -> Seq<Seq<char>> {
    match p {
        Pattern::Regex(r) => regex_capture_texts(r@, text),
        _ => Seq::empty(),
    }
}

/// Whether `m` reports the match of `p` in `text`.
pub open spec fn reports_match(m: PatternMatch, p: Pattern, text: Seq<char>) -> bool {
    &&& match_range(p, text) == Some((m.start as int, m.end as int))
    &&& m.captures@.map_values(|s: String| s@) == match_captures(p, text)
}

/// Text is at least as long in bytes as in characters.
pub proof fn lemma_encode_len(t: Seq<char>)
    ensures
        encode_utf8(t).len() >= t.len(),
    decreases t.len(),
{
    if t.len() > 0 {
        lemma_encode_len(t.drop_first());
        let e = vstd::utf8::encode_scalar(t[0] as u32);
        assert(e.len() >= 1);
    }
}

/// The first occurrence of `s` in `text`, in bytes.
pub(crate) fn find_literal_bytes(text: &str, s: &str) -> (r: Option<(usize, usize)>)
    ensures
        match r {
            Some((a, b)) => literal_range(s@, text@) == Some((a as int, b as int)) && a <= b <= encode_utf8(text@).len(),
            None => literal_range(s@, text@) is None,
        },
{
    let hay = text.as_bytes();
    let needle = s.as_bytes();
    if needle.len() == 0 {
        proof {
            assert(occurs_at(hay@, needle@, 0)) by {
                assert(hay@.subrange(0, 0) =~= needle@);
            }
            lemma_first_occurrence_is(hay@, needle@, 0);
        }
        return Some((0, 0));
    }
    match find_bytes(hay, needle) {
        Some(i) => {
            proof {
                crate::expect::buffer::lemma_first_occurrence(hay@, needle@);
                assert(i + needle@.len() <= hay@.len());
            }
            let hl = hay.len();
            assert(i + needle.len() <= hl);
            Some((i, i + needle.len()))
        },
        None => None,
    }
}

impl Pattern {
    /// A literal pattern.
    pub fn literal(s: &str) -> (r: Self)
        ensures
            is_literal_of(r, s@),
    {
        Pattern::Literal(s.to_owned())
    }

    /// A regular expression pattern; fails where the expression is invalid.
    pub fn regex(pattern: &str) -> (r: Result<Self, regex::Error>)
        ensures
            r is Ok <==> regex_accepts(pattern@),
            r matches Ok(p) ==> is_regex_of(p, pattern@),
    {
        match CompiledRegex::compile(pattern) {
            Ok(c) => Ok(Pattern::Regex(c)),
            Err(e) => Err(e),
        }
    }

    /// A glob pattern.
    pub fn glob(pattern: &str) -> (r: Self)
        ensures
            is_glob_of(r, pattern@),
    {
        Pattern::Glob(pattern.to_owned())
    }

    /// The end-of-file pattern.
    pub fn eof() -> (r: Self)
        ensures
            r is Eof,
    {
        Pattern::Eof
    }

    /// A timeout pattern.
    pub fn timeout(duration: u64) -> (r: Self)
        ensures
            r == Pattern::Timeout(duration),
    {
        Pattern::Timeout(duration)
    }

    /// A byte-count pattern.
    pub fn bytes(n: usize) -> (r: Self)
        ensures
            r == Pattern::Bytes(n),
    {
        Pattern::Bytes(n)
    }

    /// The pattern as text: its source, or `<EOF>`, `<TIMEOUT>`, `<BYTES>`.
    pub fn as_str(&self) -> (r: &str)
        ensures
            r@ == match *self {
                Pattern::Literal(s) => s@,
                Pattern::Regex(c) => c@,
                Pattern::Glob(s) => s@,
                Pattern::Eof => "<EOF>"@,
                Pattern::Timeout(_) => "<TIMEOUT>"@,
                Pattern::Bytes(_) => "<BYTES>"@,
            },
    {
        match self {
            Pattern::Literal(s) => s.as_str(),
            Pattern::Regex(c) => c.pattern(),
            Pattern::Glob(s) => s.as_str(),
            Pattern::Eof => "<EOF>",
            Pattern::Timeout(_) => "<TIMEOUT>",
            Pattern::Bytes(_) => "<BYTES>",
        }
    }

    /// Where this pattern matches `text` (see [`match_range`]), with its captures.
    pub fn matches(&self, text: &str) -> (r: Option<PatternMatch>)
        ensures
            match r {
                Some(m) => reports_match(m, *self, text@) && m.start <= m.end <= encode_utf8(text@).len(),
                None => match_range(*self, text@) is None,
            },
    {
        match self {
            Pattern::Literal(s) => match find_literal_bytes(text, s.as_str()) {
                Some((a, b)) => {
                    let m = PatternMatch { start: a, end: b, captures: Vec::new() };
                    proof {
                        assert(m.captures@.map_values(|s: String| s@) =~= Seq::<Seq<char>>::empty());
                    }
                    Some(m)
                },
                None => None,
            },
            Pattern::Regex(c) => match c.find(text) {
                Some((a, b)) => {
                    let caps = c.captures(text);
                    Some(PatternMatch { start: a, end: b, captures: caps })
                },
                None => None,
            },
            Pattern::Glob(g) => match glob_match(g.as_str(), text) {
                Some(pos) => {
                    let n = text.as_bytes().len();
                    proof {
                        crate::expect::glob::lemma_glob_start_bound(g@, text@);
                        lemma_encode_len(text@);
                    }
                    let m = PatternMatch { start: pos, end: n, captures: Vec::new() };
                    proof {
                        assert(m.captures@.map_values(|s: String| s@) =~= Seq::<Seq<char>>::empty());
                    }
                    Some(m)
                },
                None => None,
            },
            _ => None,
        }
    }

    /// Whether this is a timeout pattern.
    pub fn is_timeout(&self) -> (r: bool)
        ensures
            r == (*self is Timeout),
    {
        matches!(self, Pattern::Timeout(_))
    }

    /// Whether this is the end-of-file pattern.
    pub fn is_eof(&self) -> (r: bool)
        ensures
            r == (*self is Eof),
    {
        matches!(self, Pattern::Eof)
    }

    /// The duration of a timeout pattern.
    pub fn timeout_duration(&self) -> (r: Option<u64>)
        ensures
            r == match *self {
                Pattern::Timeout(d) => Some(d),
                _ => None,
            },
    {
        match self {
            Pattern::Timeout(d) => Some(*d),
            _ => None,
        }
    }

    /// `pattern` as a regular expression, or `fallback` where it does not compile.
    fn regex_or(pattern: &str, fallback: Pattern) -> (r: Self)
        ensures
            regex_accepts(pattern@) ==> is_regex_of(r, pattern@),
            !regex_accepts(pattern@) ==> r == fallback,
    {
        match Pattern::regex(pattern) {
            Ok(p) => p,
            Err(_) => fallback,
        }
    }

    /// Common shell prompts: `$`, `#`, `>` or `%` and trailing blanks at the
    /// end (the literal `$ ` should the expression not compile).
    pub fn shell_prompt() -> (r: Self)
        ensures
            regex_accepts("[$#>%]\\s*$"@) ==> is_regex_of(r, "[$#>%]\\s*$"@),
            !regex_accepts("[$#>%]\\s*$"@) ==> is_literal_of(r, "$ "@),
    {
        Self::regex_or("[$#>%]\\s*$", Pattern::literal("$ "))
    }

    /// Any text with a `$` in it (the glob `*$*`).
    pub fn any_prompt() -> (r: Self)
        ensures
            is_glob_of(r, "*$*"@),
    {
        Pattern::glob("*$*")
    }

    /// IPv4 addresses.
    pub fn ipv4() -> (r: Result<Self, regex::Error>)
        ensures
            r is Ok <==> regex_accepts(ipv4_regex()),
            r matches Ok(p) ==> is_regex_of(p, ipv4_regex()),
    {
        Self::regex(
            "\\b(?:(?:25[0-5]|2[0-4][0-9]|[01]?[0-9][0-9]?)\\.){3}(?:25[0-5]|2[0-4][0-9]|[01]?[0-9][0-9]?)\\b",
        )
    }

    /// Email addresses.
    pub fn email() -> (r: Result<Self, regex::Error>)
        ensures
            r is Ok <==> regex_accepts("\\b[A-Za-z0-9._%+-]+@[A-Za-z0-9.-]+\\.[A-Za-z]{2,}\\b"@),
            r matches Ok(p) ==> is_regex_of(p, "\\b[A-Za-z0-9._%+-]+@[A-Za-z0-9.-]+\\.[A-Za-z]{2,}\\b"@),
    {
        Self::regex("\\b[A-Za-z0-9._%+-]+@[A-Za-z0-9.-]+\\.[A-Za-z]{2,}\\b")
    }

    /// ISO 8601 timestamps such as `2024-01-15T10:30:00`.
    pub fn timestamp_iso8601() -> (r: Result<Self, regex::Error>)
        ensures
            r is Ok <==> regex_accepts("\\d{4}-\\d{2}-\\d{2}[T ]\\d{2}:\\d{2}:\\d{2}"@),
            r matches Ok(p) ==> is_regex_of(p, "\\d{4}-\\d{2}-\\d{2}[T ]\\d{2}:\\d{2}:\\d{2}"@),
    {
        Self::regex("\\d{4}-\\d{2}-\\d{2}[T ]\\d{2}:\\d{2}:\\d{2}")
    }

    /// `error`, `failed` or `fatal` as words, in any case (the glob
    /// `*[Ee]rror*` should the expression not compile).
    pub fn error_indicator() -> (r: Self)
        ensures
            regex_accepts("(?i)\\b(?:error|failed|fatal)\\b"@) ==> is_regex_of(r, "(?i)\\b(?:error|failed|fatal)\\b"@),
            !regex_accepts("(?i)\\b(?:error|failed|fatal)\\b"@) ==> is_glob_of(r, "*[Ee]rror*"@),
    {
        Self::regex_or("(?i)\\b(?:error|failed|fatal)\\b", Pattern::glob("*[Ee]rror*"))
    }

    /// `success`, `successful`, `passed`, `complete` or `ok` as words, in any case.
    pub fn success_indicator() -> (r: Self)
        ensures
            regex_accepts("(?i)\\b(?:success|successful|passed|complete|ok)\\b"@) ==> is_regex_of(r, "(?i)\\b(?:success|successful|passed|complete|ok)\\b"@),
            !regex_accepts("(?i)\\b(?:success|successful|passed|complete|ok)\\b"@) ==> is_glob_of(r, "*[Ss]uccess*"@),
    {
        Self::regex_or("(?i)\\b(?:success|successful|passed|complete|ok)\\b", Pattern::glob("*[Ss]uccess*"))
    }

    /// Password prompts such as `Password:` or `Enter passphrase: `.
    pub fn password_prompt() -> (r: Self)
        ensures
            regex_accepts("(?i)(?:password|passphrase)\\s*:\\s*$"@) ==> is_regex_of(r, "(?i)(?:password|passphrase)\\s*:\\s*$"@),
            !regex_accepts("(?i)(?:password|passphrase)\\s*:\\s*$"@) ==> is_literal_of(r, "password:"@),
    {
        Self::regex_or("(?i)(?:password|passphrase)\\s*:\\s*$", Pattern::literal("password:"))
    }

    /// Login prompts such as `login:` or `Username:`.
    pub fn login_prompt() -> (r: Self)
        ensures
            regex_accepts("(?i)(?:login|username|user)\\s*:\\s*$"@) ==> is_regex_of(r, "(?i)(?:login|username|user)\\s*:\\s*$"@),
            !regex_accepts("(?i)(?:login|username|user)\\s*:\\s*$"@) ==> is_literal_of(r, "login:"@),
    {
        Self::regex_or("(?i)(?:login|username|user)\\s*:\\s*$", Pattern::literal("login:"))
    }

    /// Confirmation prompts such as `[y/n]` or `(yes/no)`.
    pub fn confirmation_prompt() -> (r: Self)
        ensures
            regex_accepts("\\[([yYnN])/([yYnN])\\]|\\(([yY]es)/([nN]o)\\)"@) ==> is_regex_of(r, "\\[([yYnN])/([yYnN])\\]|\\(([yY]es)/([nN]o)\\)"@),
            !regex_accepts("\\[([yYnN])/([yYnN])\\]|\\(([yY]es)/([nN]o)\\)"@) ==> is_glob_of(r, "*[y/n]*"@),
    {
        Self::regex_or("\\[([yYnN])/([yYnN])\\]|\\(([yY]es)/([nN]o)\\)", Pattern::glob("*[y/n]*"))
    }

    /// "Continue?" prompts such as `Continue?` or `Press any key`.
    pub fn continue_prompt() -> (r: Self)
        ensures
            regex_accepts("(?i)(?:continue\\s*\\?|press any key|hit enter)"@) ==> is_regex_of(r, "(?i)(?:continue\\s*\\?|press any key|hit enter)"@),
            !regex_accepts("(?i)(?:continue\\s*\\?|press any key|hit enter)"@) ==> is_glob_of(r, "*continue*"@),
    {
        Self::regex_or("(?i)(?:continue\\s*\\?|press any key|hit enter)", Pattern::glob("*continue*"))
    }
}

/// Whether `p` is the regular expression compiled from `src`.
pub open spec fn is_regex_of(p: Pattern, src: Seq<char>) -> bool {
    p matches Pattern::Regex(c) && c@ == src
}

/// Whether `p` is the literal `text`.
pub open spec fn is_literal_of(p: Pattern, text: Seq<char>) -> bool {
    p matches Pattern::Literal(s) && s@ == text
}

/// Whether `p` is the glob `text`.
pub open spec fn is_glob_of(p: Pattern, text: Seq<char>) -> bool {
    p matches Pattern::Glob(s) && s@ == text
}

/// The expression `Pattern::ipv4` compiles.
pub open spec fn ipv4_regex() -> Seq<char> {
    "\\b(?:(?:25[0-5]|2[0-4][0-9]|[01]?[0-9][0-9]?)\\.){3}(?:25[0-5]|2[0-4][0-9]|[01]?[0-9][0-9]?)\\b"@
}

/// A successful match: byte offsets and capture groups.
#[derive(Debug, Clone)]
pub struct PatternMatch {
    /// Start of the match.
    pub start: usize,
    /// End of the match.
    pub end: usize,
    /// Capture groups (regular expressions only).
    pub captures: Vec<String>,
}

impl PatternMatch {
    /// The matched text of `text` (bytes that are not whole characters are
    /// shown as U+FFFD).
    pub fn as_str(&self, text: &str) -> (r: String)
        requires
            self.start <= self.end <= encode_utf8(text@).len(),
        ensures
            r@ == utf8_lossy(encode_utf8(text@).subrange(self.start as int, self.end as int)),
    {
        let bytes = crate::expect::buffer::slice_to_vec(text.as_bytes(), self.start, self.end);
        from_utf8_lossy(bytes.as_slice())
    }

    /// The length of the match.
    pub fn len(&self) -> (r: usize)
        requires
            self.start <= self.end,
        ensures
            r == self.end - self.start,
    {
        self.end - self.start
    }

    /// Whether the match is empty.
    pub fn is_empty(&self) -> (r: bool)
        ensures
            r == (self.start == self.end),
    {
        self.start == self.end
    }
}

/// A pattern with an optional name and its index in a set.
#[derive(Clone, Debug)]
pub struct NamedPattern {
    /// The pattern.
    pub pattern: Pattern,
    /// Its name.
    pub name: Option<String>,
    /// Its index in the set.
    pub index: usize,
}

/// Whether each pattern carries its own index.
pub open spec fn indexed(ps: Seq<NamedPattern>) -> bool {
    forall|i: int| 0 <= i < ps.len() ==> #[trigger] ps[i].index == i
}

/// The start of a match range (0 for none).
pub open spec fn range_start(o: Option<(int, int)>) -> int {
    match o {
        Some((s, _)) => s,
        None => 0,
    }
}

/// Whether index `i` holds the match that starts first, the earliest such
/// pattern winning a tie.
pub open spec fn is_best_match(ps: Seq<NamedPattern>, text: Seq<char>, i: int) -> bool {
    &&& 0 <= i < ps.len()
    &&& match_range(ps[i].pattern, text) is Some
    &&& forall|j: int|
        0 <= j < ps.len() && #[trigger] match_range(ps[j].pattern, text) is Some ==> range_start(
            match_range(ps[j].pattern, text),
        ) >= range_start(match_range(ps[i].pattern, text)) && (j < i ==> range_start(match_range(ps[j].pattern, text))
            > range_start(match_range(ps[i].pattern, text)))
}

/// A set of patterns matched together.
#[derive(Clone, Debug)]
pub struct PatternSet {
    patterns: Vec<NamedPattern>,
}

impl PatternSet {
    /// The patterns, in order.
    pub closed spec fn spec_patterns(&self) -> Seq<NamedPattern> {
        self.patterns@
    }

    /// An empty set.
    pub fn new() -> (r: Self)
        ensures
            r.spec_patterns().len() == 0,
    {
        PatternSet { patterns: Vec::new() }
    }

    /// A set of the given patterns, unnamed, in order.
    pub fn from_patterns(patterns: Vec<Pattern>) -> (r: Self)
        ensures
            r.spec_patterns().len() == patterns@.len(),
            indexed(r.spec_patterns()),
            forall|i: int| 0 <= i < patterns@.len() ==> (#[trigger] r.spec_patterns()[i]).pattern == patterns@[i]
                && r.spec_patterns()[i].name is None,
    {
        let mut rest = patterns;
        let ghost orig = rest@;
        let mut reversed: Vec<Pattern> = Vec::new();
        while rest.len() > 0
            invariant
                rest@.len() + reversed@.len() == orig.len(),
                forall|k: int| 0 <= k < rest@.len() ==> #[trigger] rest@[k] == orig[k],
                forall|k: int| 0 <= k < reversed@.len() ==> #[trigger] reversed@[k] == orig[orig.len() - 1 - k],
            decreases rest@.len(),
        {
            match rest.pop() {
                Some(p) => {
                    reversed.push(p);
                },
                None => {},
            }
        }
        let mut out: Vec<NamedPattern> = Vec::new();
        let mut i: usize = 0;
        while reversed.len() > 0
            invariant
                out@.len() == i,
                i + reversed@.len() == orig.len(),
                indexed(out@),
                forall|k: int| 0 <= k < i ==> (#[trigger] out@[k]).pattern == orig[k] && out@[k].name is None,
                forall|k: int| 0 <= k < reversed@.len() ==> #[trigger] reversed@[k] == orig[orig.len() - 1 - k],
            decreases reversed@.len(),
        {
            match reversed.pop() {
                Some(p) => {
                    out.push(NamedPattern { pattern: p, name: None, index: i });
                    i = out.len();
                },
                None => {},
            }
        }
        PatternSet { patterns: out }
    }

    /// Add an unnamed pattern.
    pub fn add(&mut self, pattern: Pattern) -> (r: &mut Self)
        ensures
            (*r).spec_patterns() == old(self).spec_patterns().push(
                NamedPattern { pattern, name: None, index: old(self).spec_patterns().len() as usize },
            ),
            *final(self) == *final(r),
    {
        let index = self.patterns.len();
        self.patterns.push(NamedPattern { pattern, name: None, index });
        self
    }

    /// Add a named pattern.
    pub fn add_named(&mut self, name: &str, pattern: Pattern) -> (r: &mut Self)
        ensures
            (*r).spec_patterns().len() == old(self).spec_patterns().len() + 1,
            (*r).spec_patterns().drop_last() == old(self).spec_patterns(),
            (*r).spec_patterns().last().pattern == pattern,
            (*r).spec_patterns().last().name matches Some(n) && n@ == name@,
            (*r).spec_patterns().last().index == old(self).spec_patterns().len(),
            *final(self) == *final(r),
    {
        let index = self.patterns.len();
        let ghost before = self.patterns@;
        self.patterns.push(NamedPattern { pattern, name: Some(name.to_owned()), index });
        assert(self.patterns@.drop_last() =~= before);
        self
    }

    /// The number of patterns.
    pub fn len(&self) -> (r: usize)
        ensures
            r == self.spec_patterns().len(),
    {
        self.patterns.len()
    }

    /// Whether the set is empty.
    pub fn is_empty(&self) -> (r: bool)
        ensures
            r == (self.spec_patterns().len() == 0),
    {
        self.patterns.len() == 0
    }

    /// The patterns, in order.
    pub fn patterns(&self) -> (r: &[NamedPattern])
        ensures
            r@ == self.spec_patterns(),
    {
        self.patterns.as_slice()
    }

    /// The pattern at `index`.
    pub fn get(&self, index: usize) -> (r: Option<&NamedPattern>)
        ensures
            index < self.spec_patterns().len() ==> r == Some(&self.spec_patterns()[index as int]),
            index >= self.spec_patterns().len() ==> r is None,
    {
        if index < self.patterns.len() {
            Some(&self.patterns[index])
        } else {
            None
        }
    }

    /// The match that starts first in `text`, with its pattern's index; of
    /// patterns matching at the same place the earliest wins.
    pub fn find_match(&self, text: &str) -> (r: Option<(usize, PatternMatch)>)
        ensures
            match r {
                Some((i, m)) => is_best_match(self.spec_patterns(), text@, i as int) && reports_match(
                    m,
                    self.spec_patterns()[i as int].pattern,
                    text@,
                ),
                None => forall|j: int|
                    0 <= j < self.spec_patterns().len() ==> #[trigger] match_range(self.spec_patterns()[j].pattern, text@) is None,
            },
    {
        let ghost ps = self.patterns@;
        let mut best: Option<(usize, PatternMatch)> = None;
        let mut k: usize = 0;
        while k < self.patterns.len()
            invariant
                k <= ps.len(),
                ps == self.patterns@,
                match best {
                    Some((i, m)) => i < k && reports_match(m, ps[i as int].pattern, text@) && forall|j: int|
                        0 <= j < k && #[trigger] match_range(ps[j].pattern, text@) is Some ==> range_start(
                            match_range(ps[j].pattern, text@),
                        ) >= m.start && (j < i ==> range_start(match_range(ps[j].pattern, text@)) > m.start),
                    None => forall|j: int| 0 <= j < k ==> #[trigger] match_range(ps[j].pattern, text@) is None,
                },
            decreases ps.len() - k,
        {
            let found = self.patterns[k].pattern.matches(text);
            match found {
                Some(m) => {
                    let better = match &best {
                        None => true,
                        Some((_, cur)) => m.start < cur.start,
                    };
                    if better {
                        best = Some((k, m));
                    }
                },
                None => {},
            }
            k = k + 1;
        }
        best
    }

    /// The shortest timeout among the timeout patterns.
    pub fn min_timeout(&self) -> (r: Option<u64>)
        ensures
            match r {
                Some(d) => (exists|i: int| 0 <= i < self.spec_patterns().len() && #[trigger] self.spec_patterns()[i].pattern
                    == Pattern::Timeout(d)) && forall|i: int|
                    0 <= i < self.spec_patterns().len() && #[trigger] self.spec_patterns()[i].pattern is Timeout
                        ==> d <= self.spec_patterns()[i].pattern->Timeout_0,
                None => forall|i: int| 0 <= i < self.spec_patterns().len() ==> !(#[trigger] self.spec_patterns()[i].pattern is Timeout),
            },
    {
        let mut best: Option<u64> = None;
        let mut k: usize = 0;
        while k < self.patterns.len()
            invariant
                k <= self.patterns@.len(),
                match best {
                    Some(d) => (exists|i: int| 0 <= i < k && #[trigger] self.patterns@[i].pattern == Pattern::Timeout(d))
                        && forall|i: int| 0 <= i < k && #[trigger] self.patterns@[i].pattern is Timeout ==> d <= self.patterns@[i].pattern->Timeout_0,
                    None => forall|i: int| 0 <= i < k ==> !(#[trigger] self.patterns@[i].pattern is Timeout),
                },
            decreases self.patterns.len() - k,
        {
            match self.patterns[k].pattern.timeout_duration() {
                Some(d) => {
                    match best {
                        None => {
                            best = Some(d);
                        },
                        Some(b) => {
                            if d < b {
                                best = Some(d);
                            }
                        },
                    }
                    assert(self.patterns@[k as int].pattern == Pattern::Timeout(d));
                },
                None => {},
            }
            k = k + 1;
        }
        best
    }

    /// Whether any pattern is the end-of-file pattern.
    pub fn has_eof(&self) -> (r: bool)
        ensures
            r == exists|i: int| 0 <= i < self.spec_patterns().len() && (#[trigger] self.spec_patterns()[i]).pattern is Eof,
    {
        let mut k: usize = 0;
        while k < self.patterns.len()
            invariant
                k <= self.patterns@.len(),
                forall|i: int| 0 <= i < k ==> !((#[trigger] self.patterns@[i]).pattern is Eof),
            decreases self.patterns.len() - k,
        {
            if self.patterns[k].pattern.is_eof() {
                return true;
            }
            k = k + 1;
        }
        false
    }
}

} // verus!

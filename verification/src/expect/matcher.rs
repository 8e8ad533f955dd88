//! The matching engine: output collected in a buffer, searched for patterns.
//!
//! Patterns see the lossy decoding of the buffer (or of its last bytes, with
//! a search window); the offsets they report are mapped back to raw buffer
//! offsets, so that consuming a match takes exactly the matched bytes.
use vstd::prelude::*;
use vstd::utf8::encode_utf8;
use crate::expect::buffer::{keep_last, lemma_first_occurrence, occurs_at, RingBuffer, DEFAULT_CAPACITY};
use crate::expect::pattern::{
    find_literal_bytes, literal_range, match_captures, match_range, Pattern, PatternMatch, PatternSet,
    NamedPattern,
};
use crate::expect::search::{search_chars, search_offset, SearchText};
use crate::text::{chars_of, from_utf8_lossy, string_from_chars, utf8_lossy};
use crate::types::Match;

verus! {

/// Where the simple glob of a single match finds `p` in `text` (in bytes):
/// `*inner*` anywhere, `*suffix` at the end, `prefix*` at the start, else
/// the text itself anywhere.
pub open spec fn simple_glob_range(p: Seq<char>, text: Seq<char>) -> Option<(int, int)> {
    let tb = encode_utf8(text);
    if p.len() > 0 && p[0] == '*' {
        let rest = p.skip(1);
        if rest.len() > 0 && rest.last() == '*' {
            literal_range(rest.drop_last(), text)
        } else {
            let sb = encode_utf8(rest);
            if sb.len() <= tb.len() && tb.skip(tb.len() - sb.len()) == sb {
                Some(((tb.len() - sb.len()) as int, tb.len() as int))
            } else {
                None
            }
        }
    } else if p.len() > 0 && p.last() == '*' {
        let pb = encode_utf8(p.drop_last());
        if pb.len() <= tb.len() && tb.take(pb.len() as int) == pb {
            Some((0, pb.len() as int))
        } else {
            None
        }
    } else {
        literal_range(p, text)
    }
}

/// Where a single pattern matches the searched text (before mapping back).
pub open spec fn single_range(p: Pattern, text: Seq<char>) -> Option<(int, int)> {
    match p {
        Pattern::Glob(g) => simple_glob_range(g@, text),
        _ => match_range(p, text),
    }
}

/// A match found in the buffer: which pattern, the raw byte range, captures.
#[derive(Debug, Clone)]
pub struct MatchResult {
    /// Index of the pattern that matched.
    pub pattern_index: usize,
    /// Start in the buffer.
    pub start: usize,
    /// End in the buffer.
    pub end: usize,
    /// Capture groups.
    pub captures: Vec<String>,
}

impl MatchResult {
    /// The length of the match.
    pub fn len(&self) -> (r: usize)
        requires
            self.start <= self.end,
        ensures
            r == self.end - self.start,
    {
        self.end - self.start
    }

    /// Whether the match is empty.
    pub fn is_empty(&self) -> (r: bool)
        ensures
            r == (self.start == self.end),
    {
        self.start == self.end
    }
}

/// Whether `m` holds the range `(a, b)` of the searched text, mapped back,
/// with index `i` and these captures.
pub open spec fn reports(m: MatchResult, i: int, w: Seq<u8>, base: int, a: int, b: int, caps: Seq<Seq<char>>) -> bool {
    &&& m.pattern_index == i
    &&& m.start == search_offset(w, base, a)
    &&& m.end == search_offset(w, base, b)
    &&& m.captures@.map_values(|s: String| s@) == caps
}

/// The pattern matching engine (timeouts in milliseconds).
pub struct Matcher {
    buffer: RingBuffer,
    default_timeout: u64,
    search_window: Option<usize>,
}

impl Matcher {
    /// The buffered output.
    pub closed spec fn contents(&self) -> Seq<u8> {
        self.buffer.contents()
    }

    /// The buffer.
    pub closed spec fn spec_buffer(&self) -> RingBuffer {
        self.buffer
    }

    /// The default timeout.
    pub closed spec fn spec_default_timeout(&self) -> u64 {
        self.default_timeout
    }

    /// The search window.
    pub closed spec fn spec_search_window(&self) -> Option<usize> {
        self.search_window
    }

    /// The buffer is well formed.
    pub closed spec fn wf(&self) -> bool {
        self.buffer.wf()
    }

    /// The bytes searched: the last `w` bytes with a window `w`, else all.
    pub open spec fn window(&self) -> Seq<u8> {
        match self.spec_search_window() {
            Some(w) => keep_last(self.contents(), w as nat),
            None => self.contents(),
        }
    }

    /// Where the searched bytes start in the buffer.
    pub open spec fn window_base(&self) -> int {
        match self.spec_search_window() {
            Some(w) => if self.contents().len() > w {
                self.contents().len() - w
            } else {
                0
            },
            None => 0,
        }
    }

    /// A matcher over a buffer of `buffer_size` bytes, 30 s default timeout, no window.
    pub fn new(buffer_size: usize) -> (r: Self)
        ensures
            r.wf(),
            r.contents() == Seq::<u8>::empty(),
            r.spec_buffer().spec_max_size() == buffer_size,
            r.spec_default_timeout() == 30_000,
            r.spec_search_window() is None,
    {
        Matcher { buffer: RingBuffer::new(buffer_size), default_timeout: 30_000, search_window: None }
    }

    /// A matcher with the default buffer size.
    pub fn default() -> (r: Self)
        ensures
            r.wf(),
            r.contents() == Seq::<u8>::empty(),
            r.spec_buffer().spec_max_size() == DEFAULT_CAPACITY,
            r.spec_default_timeout() == 30_000,
            r.spec_search_window() is None,
    {
        Self::new(DEFAULT_CAPACITY)
    }

    /// Set the default timeout.
    pub fn set_default_timeout(&mut self, timeout: u64)
        ensures
            final(self).spec_default_timeout() == timeout,
            final(self).spec_buffer() == old(self).spec_buffer(),
            final(self).spec_search_window() == old(self).spec_search_window(),
    {
        self.default_timeout = timeout;
    }

    /// Search only the last `size` bytes (all, with `None`).
    pub fn set_search_window(&mut self, size: Option<usize>)
        ensures
            final(self).spec_search_window() == size,
            final(self).spec_buffer() == old(self).spec_buffer(),
            final(self).spec_default_timeout() == old(self).spec_default_timeout(),
    {
        self.search_window = size;
    }

    /// Add output.
    pub fn append(&mut self, data: &[u8])
        requires
            old(self).wf(),
            old(self).spec_buffer().spec_total_written() + data@.len() <= usize::MAX,
            old(self).spec_buffer().spec_bytes_discarded() + data@.len() <= usize::MAX,
        ensures
            final(self).wf(),
            final(self).contents() == keep_last(old(self).contents() + data@, old(self).spec_buffer().spec_max_size() as nat),
            final(self).spec_buffer().spec_max_size() == old(self).spec_buffer().spec_max_size(),
            final(self).spec_default_timeout() == old(self).spec_default_timeout(),
            final(self).spec_search_window() == old(self).spec_search_window(),
    {
        self.buffer.append(data);
    }

    /// The buffer.
    pub fn buffer(&self) -> (r: &RingBuffer)
        ensures
            *r == self.spec_buffer(),
    {
        &self.buffer
    }

    /// The buffered output as text (invalid UTF-8 replaced).
    pub fn buffer_str(&mut self) -> (r: String)
        ensures
            r@ == utf8_lossy(old(self).contents()),
            vstd::utf8::valid_utf8(old(self).contents()) ==> r@ == vstd::utf8::decode_utf8(old(self).contents()),
            *final(self) == *old(self),
    {
        self.buffer.as_str_lossy()
    }

    /// Empty the buffer.
    pub fn clear(&mut self)
        requires
            old(self).wf(),
        ensures
            final(self).wf(),
            final(self).contents() == Seq::<u8>::empty(),
            final(self).spec_buffer().spec_max_size() == old(self).spec_buffer().spec_max_size(),
            final(self).spec_default_timeout() == old(self).spec_default_timeout(),
            final(self).spec_search_window() == old(self).spec_search_window(),
    {
        self.buffer.clear();
    }

    /// The decoded text of the searched bytes.
    fn search_text(&mut self) -> (r: SearchText)
        requires
            old(self).wf(),
        ensures
            *final(self) == *old(self),
            r.wf(),
            r.spec_bytes() == old(self).window(),
            r.spec_base() == old(self).window_base(),
            r.spec_text() == search_chars(old(self).window()),
    {
        match self.search_window {
            Some(w) => {
                let n = self.buffer.len();
                let base = if n > w { n - w } else { 0 };
                let tail = self.buffer.tail(w);
                SearchText::decode(tail.as_slice(), base)
            },
            None => {
                let all = self.buffer.as_slice();
                let n = all.len();
                assert(all@.len() == n);
                SearchText::decode(all.as_slice(), 0)
            },
        }
    }

    /// Try one pattern against the buffer. A byte count matches the first
    /// `n` bytes once there are `n`; a glob is matched simply (see
    /// [`simple_glob_range`]); end of file and timeouts never match here.
    pub fn try_match(&mut self, pattern: &Pattern) -> (r: Option<MatchResult>)
        requires
            old(self).wf(),
        ensures
            *final(self) == *old(self),
            match *pattern {
                Pattern::Bytes(n) => if old(self).contents().len() >= n {
                    r matches Some(m) && m.pattern_index == 0 && m.start == 0 && m.end == n && m.captures@.len() == 0
                } else {
                    r is None
                },
                Pattern::Eof => r is None,
                Pattern::Timeout(_) => r is None,
                _ => match single_range(*pattern, search_chars(old(self).window())) {
                    Some((a, b)) => r matches Some(m) && reports(
                        m,
                        0,
                        old(self).window(),
                        old(self).window_base(),
                        a,
                        b,
                        match_captures(*pattern, search_chars(old(self).window())),
                    ),
                    None => r is None,
                },
            },
    {
        match pattern {
            Pattern::Bytes(n) => {
                if self.buffer.len() >= *n {
                    let m = MatchResult { pattern_index: 0, start: 0, end: *n, captures: Vec::new() };
                    Some(m)
                } else {
                    None
                }
            },
            Pattern::Eof => None,
            Pattern::Timeout(_) => None,
            _ => self.try_text_match(pattern),
        }
    }

    /// Match a text pattern against the searched text.
    fn try_text_match(&mut self, pattern: &Pattern) -> (r: Option<MatchResult>)
        requires
            old(self).wf(),
        ensures
            *final(self) == *old(self),
            match single_range(*pattern, search_chars(old(self).window())) {
                Some((a, b)) => r matches Some(m) && reports(
                    m,
                    0,
                    old(self).window(),
                    old(self).window_base(),
                    a,
                    b,
                    match_captures(*pattern, search_chars(old(self).window())),
                ),
                None => r is None,
            },
    {
        let search = self.search_text();
        let text = search.text();
        let ghost w = old(self).window();
        assert(text@ == search_chars(w));
        match pattern {
            Pattern::Glob(g) => match simple_glob(g.as_str(), text) {
                Some((a, b)) => {
                    let start = search.raw_offset(a);
                    let end = search.raw_offset(b);
                    let m = MatchResult { pattern_index: 0, start, end, captures: Vec::new() };
                    proof {
                        assert(m.captures@.map_values(|s: String| s@) =~= Seq::<Seq<char>>::empty());
                    }
                    Some(m)
                },
                None => None,
            },
            _ => match pattern.matches(text) {
                Some(pm) => {
                    let start = search.raw_offset(pm.start);
                    let end = search.raw_offset(pm.end);
                    let m = MatchResult { pattern_index: 0, start, end, captures: pm.captures };
                    assert(single_range(*pattern, search_chars(w)) == Some((pm.start as int, pm.end as int)));
                    assert(reports(m, 0, w, old(self).window_base(), pm.start as int, pm.end as int, match_captures(*pattern, search_chars(w))));
                    Some(m)
                },
                None => None,
            },
        }
    }
}

/// What pattern `p` of a set offers against the buffer: the raw range and
/// captures of its match, a byte count's first `n` bytes.
pub open spec fn candidate(contents: Seq<u8>, w: Seq<u8>, base: int, p: Pattern) -> Option<(int, int, Seq<Seq<char>>)> {
    match p {
        Pattern::Bytes(n) => if contents.len() >= n {
            Some((0, n as int, Seq::empty()))
        } else {
            None
        },
        _ => match match_range(p, search_chars(w)) {
            Some((a, b)) => Some((search_offset(w, base, a), search_offset(w, base, b), match_captures(p, search_chars(w)))),
            None => None,
        },
    }
}

/// The start of a candidate (0 for none).
pub open spec fn cand_start(o: Option<(int, int, Seq<Seq<char>>)>) -> int {
    match o {
        Some((a, _, _)) => a,
        None => 0,
    }
}

/// Whether pattern `i` of `ps` offers the match that starts first, the
/// earliest such pattern winning a tie.
pub open spec fn is_first_candidate(contents: Seq<u8>, w: Seq<u8>, base: int, ps: Seq<NamedPattern>, i: int) -> bool {
    &&& 0 <= i < ps.len()
    &&& candidate(contents, w, base, ps[i].pattern) is Some
    &&& forall|j: int|
        0 <= j < ps.len() && #[trigger] candidate(contents, w, base, ps[j].pattern) is Some ==> cand_start(candidate(
            contents,
            w,
            base,
            ps[j].pattern,
        )) >= cand_start(candidate(contents, w, base, ps[i].pattern)) && (j < i ==> cand_start(candidate(contents, w, base, ps[j].pattern))
            > cand_start(candidate(contents, w, base, ps[i].pattern)))
}

impl Matcher {
    /// What pattern `p` would give (see [`candidate`]).
    fn candidate_of(&self, search: &SearchText, buffer_len: usize, p: &Pattern, index: usize) -> (r: Option<MatchResult>)
        requires
            search.wf(),
            search.spec_text() == search_chars(search.spec_bytes()),
            buffer_len == self.contents().len(),
        ensures
            match candidate(self.contents(), search.spec_bytes(), search.spec_base(), *p) {
                Some((a, b, caps)) => r matches Some(m) && m.pattern_index == index && m.start == a && m.end == b
                    && m.captures@.map_values(|s: String| s@) == caps,
                None => r is None,
            },
    {
        match p {
            Pattern::Bytes(n) => {
                if buffer_len >= *n {
                    let m = MatchResult { pattern_index: index, start: 0, end: *n, captures: Vec::new() };
                    proof {
                        assert(m.captures@.map_values(|s: String| s@) =~= Seq::<Seq<char>>::empty());
                    }
                    Some(m)
                } else {
                    None
                }
            },
            _ => match p.matches(search.text()) {
                Some(pm) => {
                    let start = search.raw_offset(pm.start);
                    let end = search.raw_offset(pm.end);
                    Some(MatchResult { pattern_index: index, start, end, captures: pm.captures })
                },
                None => None,
            },
        }
    }

    /// Try every pattern of a set; the match that starts first in the buffer
    /// wins, the earliest pattern on a tie.
    pub fn try_match_any(&mut self, patterns: &PatternSet) -> (r: Option<MatchResult>)
        requires
            old(self).wf(),
        ensures
            *final(self) == *old(self),
            match r {
                Some(m) => is_first_candidate(
                    old(self).contents(),
                    old(self).window(),
                    old(self).window_base(),
                    patterns.spec_patterns(),
                    m.pattern_index as int,
                ) && candidate(
                    old(self).contents(),
                    old(self).window(),
                    old(self).window_base(),
                    patterns.spec_patterns()[m.pattern_index as int].pattern,
                ) == Some((m.start as int, m.end as int, m.captures@.map_values(|s: String| s@))),
                None => forall|j: int|
                    0 <= j < patterns.spec_patterns().len() ==> #[trigger] candidate(
                        old(self).contents(),
                        old(self).window(),
                        old(self).window_base(),
                        patterns.spec_patterns()[j].pattern,
                    ) is None,
            },
    {
        let search = self.search_text();
        let buffer_len = self.buffer.len();
        let ps = patterns.patterns();
        let ghost c = self.contents();
        let ghost w = search.spec_bytes();
        let ghost base = search.spec_base();
        let mut best: Option<MatchResult> = None;
        let mut k: usize = 0;
        while k < ps.len()
            invariant
                k <= ps@.len(),
                ps@ == patterns.spec_patterns(),
                search.wf(),
                search.spec_text() == search_chars(search.spec_bytes()),
                buffer_len == self.contents().len(),
                c == self.contents(),
                w == search.spec_bytes(),
                base == search.spec_base(),
                match best {
                    Some(m) => m.pattern_index < k && candidate(c, w, base, ps@[m.pattern_index as int].pattern) == Some(
                        (m.start as int, m.end as int, m.captures@.map_values(|s: String| s@)),
                    ) && forall|j: int|
                        0 <= j < k && #[trigger] candidate(c, w, base, ps@[j].pattern) is Some ==> cand_start(candidate(
                            c,
                            w,
                            base,
                            ps@[j].pattern,
                        )) >= m.start && (j < m.pattern_index ==> cand_start(candidate(c, w, base, ps@[j].pattern)) > m.start),
                    None => forall|j: int| 0 <= j < k ==> #[trigger] candidate(c, w, base, ps@[j].pattern) is None,
                },
            decreases ps@.len() - k,
        {
            let found = self.candidate_of(&search, buffer_len, &ps[k].pattern, k);
            match found {
                Some(m) => {
                    let better = match &best {
                        None => true,
                        Some(cur) => m.start < cur.start,
                    };
                    if better {
                        best = Some(m);
                    }
                },
                None => {},
            }
            k = k + 1;
        }
        best
    }

    /// Take a match out of the buffer: the output before it, the matched
    /// bytes (as text) and what remains after it.
    pub fn consume_match(&mut self, result: &MatchResult) -> (r: Match)
        requires
            old(self).wf(),
            result.start <= result.end,
        ensures
            final(self).wf(),
            ({
                let c = old(self).contents();
                let s = if result.start < c.len() { result.start as int } else { c.len() as int };
                let rest = c.skip(s);
                let k = if result.end - result.start < rest.len() { (result.end - result.start) as int } else { rest.len() as int };
                &&& r.before@ == utf8_lossy(c.take(s))
                &&& r.matched@ == utf8_lossy(rest.take(k))
                &&& final(self).contents() == rest.skip(k)
                &&& r.after@ == utf8_lossy(rest.skip(k))
            }),
            r.pattern_index == result.pattern_index,
            r.captures@.map_values(|s: String| s@) == result.captures@.map_values(|s: String| s@),
            final(self).spec_default_timeout() == old(self).spec_default_timeout(),
            final(self).spec_search_window() == old(self).spec_search_window(),
    {
        let before = self.buffer.consume_before(result.start);
        let matched_bytes = self.buffer.consume(result.end - result.start);
        let matched = from_utf8_lossy(matched_bytes.as_slice());
        let after = self.buffer_str();
        let caps = clone_strings(&result.captures);
        Match::new(result.pattern_index, matched, before, after).with_captures(caps)
    }

    /// The timeout for a set: its shortest timeout pattern, else the default.
    pub fn get_timeout(&self, patterns: &PatternSet) -> (r: u64)
        ensures
            r == match min_timeout_spec(patterns.spec_patterns()) {
                Some(d) => d,
                None => self.spec_default_timeout(),
            },
    {
        match patterns.min_timeout() {
            Some(d) => {
                proof {
                    lemma_min_timeout_unique(patterns.spec_patterns(), d);
                }
                d
            },
            None => {
                proof {
                    lemma_min_timeout_none(patterns.spec_patterns());
                }
                self.default_timeout
            },
        }
    }
}

/// Whether `d` is the shortest timeout among the timeout patterns.
pub open spec fn is_min_timeout(ps: Seq<NamedPattern>, d: u64) -> bool {
    &&& exists|i: int| 0 <= i < ps.len() && #[trigger] ps[i].pattern == Pattern::Timeout(d)
    &&& forall|i: int| 0 <= i < ps.len() && #[trigger] ps[i].pattern is Timeout ==> d <= ps[i].pattern->Timeout_0
}

/// The shortest timeout among timeout patterns, if any.
pub open spec fn min_timeout_spec(ps: Seq<NamedPattern>) -> Option<u64> {
    if exists|d: u64| #[trigger] is_min_timeout(ps, d) {
        Some(choose|d: u64| #[trigger] is_min_timeout(ps, d))
    } else {
        None
    }
}

/// The least timeout is the one `min_timeout` reports.
proof fn lemma_min_timeout_unique(ps: Seq<NamedPattern>, d: u64)
    requires
        is_min_timeout(ps, d),
    ensures
        min_timeout_spec(ps) == Some(d),
{
    let e = choose|e: u64| #[trigger] is_min_timeout(ps, e);
    let i = choose|i: int| 0 <= i < ps.len() && #[trigger] ps[i].pattern == Pattern::Timeout(d);
    let j = choose|j: int| 0 <= j < ps.len() && #[trigger] ps[j].pattern == Pattern::Timeout(e);
    assert(ps[i].pattern is Timeout);
    assert(ps[j].pattern is Timeout);
    assert(d <= e && e <= d);
}

/// With no timeout pattern there is no shortest one.
proof fn lemma_min_timeout_none(ps: Seq<NamedPattern>)
    requires
        forall|i: int| 0 <= i < ps.len() ==> !(#[trigger] ps[i].pattern is Timeout),
    ensures
        min_timeout_spec(ps) is None,
{
    if exists|d: u64| #[trigger] is_min_timeout(ps, d) {
        let d = choose|d: u64| #[trigger] is_min_timeout(ps, d);
        let i = choose|i: int| 0 <= i < ps.len() && #[trigger] ps[i].pattern == Pattern::Timeout(d);
        assert(ps[i].pattern is Timeout);
    }
}

/// Copies of strings.
fn clone_strings(v: &Vec<String>) -> (r: Vec<String>)
    ensures
        r@.map_values(|s: String| s@) == v@.map_values(|s: String| s@),
{
    let mut out: Vec<String> = Vec::new();
    let mut k: usize = 0;
    while k < v.len()
        invariant
            k <= v@.len(),
            out@.len() == k,
            forall|m: int| 0 <= m < k ==> #[trigger] out@[m]@ == v@[m]@,
        decreases v.len() - k,
    {
        out.push(v[k].clone());
        k = k + 1;
    }
    assert(out@.map_values(|s: String| s@) =~= v@.map_values(|s: String| s@));
    out
}

/// The state of one expect operation: the patterns, when it started, its
/// timeout (milliseconds) and whether the end of output was seen.
pub struct ExpectState {
    patterns: PatternSet,
    start_time: u64,
    timeout: u64,
    eof_detected: bool,
}

impl ExpectState {
    /// The start time.
    pub closed spec fn spec_start(&self) -> u64 {
        self.start_time
    }

    /// The timeout.
    pub closed spec fn spec_timeout(&self) -> u64 {
        self.timeout
    }

    /// Whether the end of output was seen.
    pub closed spec fn spec_eof(&self) -> bool {
        self.eof_detected
    }

    /// The patterns.
    pub closed spec fn spec_set(&self) -> PatternSet {
        self.patterns
    }

    /// A state started at `now`.
    pub fn new_at(patterns: PatternSet, timeout: u64, now: u64) -> (r: Self)
        ensures
            r.spec_start() == now,
            r.spec_timeout() == timeout,
            !r.spec_eof(),
            r.spec_set() == patterns,
    {
        ExpectState { patterns, start_time: now, timeout, eof_detected: false }
    }

    /// A state started now.
    pub fn new(patterns: PatternSet, timeout: u64) -> (r: Self)
        ensures
            r.spec_timeout() == timeout,
            !r.spec_eof(),
            r.spec_set() == patterns,
    {
        Self::new_at(patterns, timeout, crate::clock::now_millis())
    }

    /// The time elapsed at `now` (none before the start).
    pub open spec fn elapsed_at(&self, now: u64) -> int {
        if now >= self.spec_start() {
            now - self.spec_start()
        } else {
            0
        }
    }

    /// Whether the timeout has passed at `now`.
    pub fn is_timed_out_at(&self, now: u64) -> (r: bool)
        ensures
            r == (self.elapsed_at(now) >= self.spec_timeout()),
    {
        let elapsed = if now >= self.start_time { now - self.start_time } else { 0 };
        elapsed >= self.timeout
    }

    /// Whether the timeout has passed now (reads the clock).
    pub fn is_timed_out(&self) -> (r: bool)
        ensures
            exists|t: u64| r == (self.elapsed_at(t) >= self.spec_timeout()),
            self.spec_timeout() == 0 ==> r,
    {
        self.is_timed_out_at(crate::clock::now_millis())
    }

    /// The time left at `now` (none once the timeout has passed).
    pub fn remaining_time_at(&self, now: u64) -> (r: u64)
        ensures
            r == (if self.elapsed_at(now) >= self.spec_timeout() { 0 } else { self.spec_timeout() - self.elapsed_at(now) }),
    {
        let elapsed = if now >= self.start_time { now - self.start_time } else { 0 };
        if elapsed >= self.timeout {
            0
        } else {
            self.timeout - elapsed
        }
    }

    /// The time left now (reads the clock).
    pub fn remaining_time(&self) -> (r: u64)
        ensures
            exists|t: u64| r == (if self.elapsed_at(t) >= self.spec_timeout() { 0 } else {
                self.spec_timeout() - self.elapsed_at(t)
            }),
            r <= self.spec_timeout(),
    {
        self.remaining_time_at(crate::clock::now_millis())
    }

    /// Record that the end of output was seen.
    pub fn set_eof(&mut self)
        ensures
            final(self).spec_eof(),
            final(self).spec_start() == old(self).spec_start(),
            final(self).spec_timeout() == old(self).spec_timeout(),
            final(self).spec_set() == old(self).spec_set(),
    {
        self.eof_detected = true;
    }

    /// Whether the end of output was seen.
    pub fn is_eof(&self) -> (r: bool)
        ensures
            r == self.spec_eof(),
    {
        self.eof_detected
    }

    /// The patterns.
    pub fn patterns(&self) -> (r: &PatternSet)
        ensures
            *r == self.spec_set(),
    {
        &self.patterns
    }

    /// Whether the patterns include the end-of-file pattern.
    pub fn expects_eof(&self) -> (r: bool)
        ensures
            r == exists|i: int| 0 <= i < self.spec_set().spec_patterns().len() && (#[trigger] self.spec_set().spec_patterns()[i]).pattern is Eof,
    {
        self.patterns.has_eof()
    }
}

/// The simple glob of a single match (see [`simple_glob_range`]).
fn simple_glob(pattern: &str, text: &str) -> (r: Option<(usize, usize)>)
    ensures
        match r {
            Some((a, b)) => simple_glob_range(pattern@, text@) == Some((a as int, b as int)) && a <= b
                <= encode_utf8(text@).len(),
            None => simple_glob_range(pattern@, text@) is None,
        },
{
    let pc = chars_of(pattern);
    let tb = text.as_bytes();
    if pc.len() > 0 && pc[0] == '*' {
        let rest = crate::split::slice_chars(pc.as_slice(), 1, pc.len());
        assert(rest@ =~= pattern@.skip(1));
        if rest.len() > 0 && rest[rest.len() - 1] == '*' {
            let inner = string_from_chars(crate::split::slice_chars(rest.as_slice(), 0, rest.len() - 1).as_slice());
            assert(inner@ =~= pattern@.skip(1).drop_last());
            return find_literal_bytes(text, inner.as_str());
        }
        let suffix = string_from_chars(rest.as_slice());
        let sb = suffix.as_str().as_bytes();
        if sb.len() <= tb.len() && bytes_eq_at(tb, tb.len() - sb.len(), sb) {
            proof {
                assert(tb@.skip(tb@.len() - sb@.len()) =~= tb@.subrange(tb@.len() - sb@.len(), tb@.len() as int));
            }
            return Some((tb.len() - sb.len(), tb.len()));
        }
        proof {
            assert(tb@.skip(tb@.len() - sb@.len()) =~= tb@.subrange(tb@.len() - sb@.len(), tb@.len() as int));
        }
        return None;
    }
    if pc.len() > 0 && pc[pc.len() - 1] == '*' {
        let prefix = string_from_chars(crate::split::slice_chars(pc.as_slice(), 0, pc.len() - 1).as_slice());
        assert(prefix@ =~= pattern@.drop_last());
        let pb = prefix.as_str().as_bytes();
        if pb.len() <= tb.len() && bytes_eq_at(tb, 0, pb) {
            proof {
                assert(tb@.take(pb@.len() as int) =~= tb@.subrange(0, pb@.len() as int));
            }
            return Some((0, pb.len()));
        }
        proof {
            assert(tb@.take(pb@.len() as int) =~= tb@.subrange(0, pb@.len() as int));
        }
        return None;
    }
    find_literal_bytes(text, pattern)
}

/// Whether `b` occurs in `a` at `at`.
fn bytes_eq_at(a: &[u8], at: usize, b: &[u8]) -> (r: bool)
    requires
        at + b@.len() <= a@.len(),
    ensures
        r == (a@.subrange(at as int, at + b@.len()) == b@),
{
    let al = a.len();
    let mut k: usize = 0;
    while k < b.len()
        invariant
            k <= b@.len(),
            al == a@.len(),
            at + b@.len() <= a@.len(),
            forall|m: int| 0 <= m < k ==> a@[at + m] == b@[m],
        decreases b.len() - k,
    {
        if a[at + k] != b[k] {
            assert(a@.subrange(at as int, at + b@.len())[k as int] != b@[k as int]);
            return false;
        }
        k = k + 1;
    }
    assert(a@.subrange(at as int, at + b@.len()) =~= b@);
    true
}

/// A glob `*inner*` is found wherever `inner` occurs in the text: the match
/// is the literal match of `inner`, that is, present exactly when the bytes
/// of `inner` occur in the bytes of the text, and then running from the
/// first byte offset where they occur to that offset plus their length.
pub proof fn law_glob_star_inner_star(inner: Seq<char>, text: Seq<char>)
    ensures
        simple_glob_range(seq!['*'] + inner + seq!['*'], text) == literal_range(inner, text),
        ({
            let tb = encode_utf8(text);
            let ib = encode_utf8(inner);
            match simple_glob_range(seq!['*'] + inner + seq!['*'], text) {
                Some((a, b)) => {
                    &&& occurs_at(tb, ib, a)
                    &&& b == a + ib.len()
                    &&& forall|j: int| 0 <= j < a ==> !occurs_at(tb, ib, j)
                },
                None => forall|i: int| !occurs_at(tb, ib, i),
            }
        }),
{
    let p = seq!['*'] + inner + seq!['*'];
    assert(p.skip(1) =~= inner + seq!['*']);
    assert(p.skip(1).drop_last() =~= inner);
    lemma_first_occurrence(encode_utf8(text), encode_utf8(inner));
}

/// A glob `*suffix` (with a suffix that does not end in `*`) matches exactly
/// when the text ends with the suffix, and covers the text's last bytes, as
/// many as the suffix has.
pub proof fn law_glob_star_suffix(suffix: Seq<char>, text: Seq<char>)
    requires
        suffix.len() == 0 || suffix.last() != '*',
    ensures
        ({
            let tb = encode_utf8(text);
            let sb = encode_utf8(suffix);
            let ends = sb.len() <= tb.len() && tb.subrange(tb.len() - sb.len(), tb.len() as int) == sb;
            &&& ends ==> simple_glob_range(seq!['*'] + suffix, text) == Some(((tb.len() - sb.len()) as int, tb.len() as int))
            &&& !ends ==> simple_glob_range(seq!['*'] + suffix, text) is None
        }),
{
    let p = seq!['*'] + suffix;
    let tb = encode_utf8(text);
    let sb = encode_utf8(suffix);
    assert(p.skip(1) =~= suffix);
    if sb.len() <= tb.len() {
        assert(tb.skip(tb.len() - sb.len()) =~= tb.subrange(tb.len() - sb.len(), tb.len() as int));
    }
}

/// A glob `prefix*` (with a non-empty prefix that does not start with `*`)
/// matches exactly when the text starts with the prefix, and covers the
/// text's first bytes, as many as the prefix has.
pub proof fn law_glob_prefix_star(prefix: Seq<char>, text: Seq<char>)
    requires
        prefix.len() > 0,
        prefix[0] != '*',
    ensures
        ({
            let tb = encode_utf8(text);
            let pb = encode_utf8(prefix);
            let starts = pb.len() <= tb.len() && tb.subrange(0, pb.len() as int) == pb;
            &&& starts ==> simple_glob_range(prefix + seq!['*'], text) == Some((0int, pb.len() as int))
            &&& !starts ==> simple_glob_range(prefix + seq!['*'], text) is None
        }),
{
    let p = prefix + seq!['*'];
    let tb = encode_utf8(text);
    let pb = encode_utf8(prefix);
    assert(p[0] == prefix[0]);
    assert(p.drop_last() =~= prefix);
    if pb.len() <= tb.len() {
        assert(tb.take(pb.len() as int) =~= tb.subrange(0, pb.len() as int));
    }
}

/// A glob with no `*` at either end is searched for as literal text.
pub proof fn law_glob_without_stars(p: Seq<char>, text: Seq<char>)
    requires
        p.len() == 0 || (p[0] != '*' && p.last() != '*'),
    ensures
        simple_glob_range(p, text) == literal_range(p, text),
{
}

} // verus!

//! Trimming and splitting of character sequences, with the meaning that
//! `str::trim`, `str::split_whitespace`, `str::split` and `str::lines` give
//! them.
use vstd::prelude::*;

verus! {

/// Whether `c` has the Unicode `White_Space` property (what
/// `char::is_whitespace` tests).
pub open spec fn is_ws(c: char) -> bool {
    ||| ('\u{9}' <= c && c <= '\u{d}')
    ||| c == ' '
    ||| c == '\u{85}'
    ||| c == '\u{a0}'
    ||| c == '\u{1680}'
    ||| ('\u{2000}' <= c && c <= '\u{200a}')
    ||| c == '\u{2028}'
    ||| c == '\u{2029}'
    ||| c == '\u{202f}'
    ||| c == '\u{205f}'
    ||| c == '\u{3000}'
}

/// Whether `c` is white space.
pub fn is_whitespace(c: char) -> (r: bool)
    ensures
        r == is_ws(c),
{
    ('\u{9}' <= c && c <= '\u{d}') || c == ' ' || c == '\u{85}' || c == '\u{a0}' || c == '\u{1680}'
        || ('\u{2000}' <= c && c <= '\u{200a}') || c == '\u{2028}' || c == '\u{2029}' || c == '\u{202f}'
        || c == '\u{205f}' || c == '\u{3000}'
}

/// The first index at or after `i` that does not hold white space (or the length).
pub open spec fn skip_ws(s: Seq<char>, i: int) -> int
    decreases s.len() - i,
{
    if 0 <= i < s.len() && is_ws(s[i]) {
        skip_ws(s, i + 1)
    } else {
        i
    }
}

/// The first index at or after `i` that holds white space (or the length).
pub open spec fn skip_word(s: Seq<char>, i: int) -> int
    decreases s.len() - i,
{
    if 0 <= i < s.len() && !is_ws(s[i]) {
        skip_word(s, i + 1)
    } else {
        i
    }
}

/// The end of `s` with trailing white space, down to `lo`, removed.
pub open spec fn back_ws(s: Seq<char>, j: int, lo: int) -> int
    decreases j - lo,
{
    if lo < j && j <= s.len() && is_ws(s[j - 1]) {
        back_ws(s, j - 1, lo)
    } else {
        j
    }
}

/// `s` without leading and trailing white space.
pub open spec fn trim(s: Seq<char>) -> Seq<char> {
    let a = skip_ws(s, 0);
    s.subrange(a, back_ws(s, s.len() as int, a))
}

/// The white-space-separated words of `s` from index `i` on.
pub open spec fn words_from(s: Seq<char>, i: int) -> Seq<Seq<char>>
    decreases s.len() - i,
{
    if i < 0 || i >= s.len() {
        Seq::empty()
    } else {
        let a = skip_ws(s, i);
        if a >= s.len() {
            Seq::empty()
        } else {
            let b = skip_word(s, a);
            proof {
                lemma_skip_ws_bounds(s, i);
                lemma_skip_word_bounds(s, a);
            }
            seq![s.subrange(a, b)] + words_from(s, b)
        }
    }
}

/// The white-space-separated words of `s`, in order.
pub open spec fn words(s: Seq<char>) -> Seq<Seq<char>> {
    words_from(s, 0)
}

/// The first index at or after `i` that holds `c` (or the length).
pub open spec fn find_from(s: Seq<char>, c: char, i: int) -> int
    decreases s.len() - i,
{
    if 0 <= i < s.len() && s[i] != c {
        find_from(s, c, i + 1)
    } else {
        i
    }
}

/// The pieces of `s` from index `i` on, between occurrences of `c`.
pub open spec fn split_from(s: Seq<char>, c: char, i: int) -> Seq<Seq<char>>
    decreases s.len() - i,
{
    let j = find_from(s, c, i);
    if i < 0 || j >= s.len() || j < i {
        seq![s.subrange(i, s.len() as int)]
    } else {
        seq![s.subrange(i, j)] + split_from(s, c, j + 1)
    }
}

/// The pieces of `s` between occurrences of `c` (at least one).
pub open spec fn split_on(s: Seq<char>, c: char) -> Seq<Seq<char>> {
    split_from(s, c, 0)
}

/// A line without the carriage return that may end it.
pub open spec fn strip_cr(l: Seq<char>) -> Seq<char> {
    if l.len() > 0 && l.last() == '\r' {
        l.drop_last()
    } else {
        l
    }
}

/// The lines of `s` from index `i` on.
pub open spec fn lines_from(s: Seq<char>, i: int) -> Seq<Seq<char>>
    decreases s.len() - i,
{
    if i < 0 || i >= s.len() {
        Seq::empty()
    } else {
        let j = find_from(s, '\n', i);
        if j >= s.len() || j < i {
            seq![strip_cr(s.subrange(i, s.len() as int))]
        } else {
            seq![strip_cr(s.subrange(i, j))] + lines_from(s, j + 1)
        }
    }
}

/// Where each line of `s` from index `i` on starts (see [`lines_from`]).
pub open spec fn line_starts_from(s: Seq<char>, i: int) -> Seq<int>
    decreases s.len() - i,
{
    if i < 0 || i >= s.len() {
        Seq::empty()
    } else {
        let j = find_from(s, '\n', i);
        if j >= s.len() || j < i {
            seq![i]
        } else {
            seq![i] + line_starts_from(s, j + 1)
        }
    }
}

/// The lines of `s`: separated by `\n`, each without a final `\r`, with no
/// empty line after a final `\n`.
pub open spec fn lines(s: Seq<char>) -> Seq<Seq<char>> {
    lines_from(s, 0)
}

/// `skip_ws` moves forward, within the sequence, to a character that is not white space.
pub proof fn lemma_skip_ws_bounds(s: Seq<char>, i: int)
    requires
        0 <= i <= s.len(),
    ensures
        i <= skip_ws(s, i) <= s.len(),
        skip_ws(s, i) < s.len() ==> !is_ws(s[skip_ws(s, i)]),
    decreases s.len() - i,
{
    if i < s.len() && is_ws(s[i]) {
        lemma_skip_ws_bounds(s, i + 1);
    }
}

/// `skip_word` moves forward, within the sequence, past at least one character
/// when it starts on one that is not white space.
pub proof fn lemma_skip_word_bounds(s: Seq<char>, i: int)
    requires
        0 <= i <= s.len(),
    ensures
        i <= skip_word(s, i) <= s.len(),
        i < s.len() && !is_ws(s[i]) ==> skip_word(s, i) > i,
    decreases s.len() - i,
{
    if i < s.len() && !is_ws(s[i]) {
        lemma_skip_word_bounds(s, i + 1);
    }
}

proof fn lemma_back_ws_bounds(s: Seq<char>, j: int, lo: int)
    requires
        0 <= lo <= j <= s.len(),
    ensures
        lo <= back_ws(s, j, lo) <= j,
    decreases j - lo,
{
    if lo < j && is_ws(s[j - 1]) {
        lemma_back_ws_bounds(s, j - 1, lo);
    }
}

proof fn lemma_find_from_bounds(s: Seq<char>, c: char, i: int)
    requires
        0 <= i <= s.len(),
    ensures
        i <= find_from(s, c, i) <= s.len(),
        find_from(s, c, i) < s.len() ==> s[find_from(s, c, i)] == c,
    decreases s.len() - i,
{
    if i < s.len() && s[i] != c {
        lemma_find_from_bounds(s, c, i + 1);
    }
}

/// The index of the first character at or after `i` that is not white space.
fn skip_ws_exec(cs: &[char], i: usize) -> (r: usize)
    requires
        i <= cs@.len(),
    ensures
        r == skip_ws(cs@, i as int),
        i <= r <= cs@.len(),
{
    let mut k = i;
    while k < cs.len() && is_whitespace(cs[k])
        invariant
            i <= k <= cs@.len(),
            skip_ws(cs@, k as int) == skip_ws(cs@, i as int),
        decreases cs.len() - k,
    {
        k = k + 1;
    }
    k
}

/// The index of the first white-space character at or after `i`.
fn skip_word_exec(cs: &[char], i: usize) -> (r: usize)
    requires
        i <= cs@.len(),
    ensures
        r == skip_word(cs@, i as int),
        i <= r <= cs@.len(),
{
    let mut k = i;
    while k < cs.len() && !is_whitespace(cs[k])
        invariant
            i <= k <= cs@.len(),
            skip_word(cs@, k as int) == skip_word(cs@, i as int),
        decreases cs.len() - k,
    {
        k = k + 1;
    }
    k
}

/// The index of the first occurrence of `c` at or after `i`, or the length.
pub fn find_from_exec(cs: &[char], c: char, i: usize) -> (r: usize)
    requires
        i <= cs@.len(),
    ensures
        r == find_from(cs@, c, i as int),
        i <= r <= cs@.len(),
        r < cs@.len() ==> cs@[r as int] == c,
        forall|k: int| i <= k < r ==> cs@[k] != c,
{
    let mut k = i;
    while k < cs.len() && cs[k] != c
        invariant
            i <= k <= cs@.len(),
            find_from(cs@, c, k as int) == find_from(cs@, c, i as int),
            forall|m: int| i <= m < k ==> cs@[m] != c,
        decreases cs.len() - k,
    {
        k = k + 1;
    }
    k
}

/// The bounds of `cs` without leading and trailing white space.
pub fn trim_bounds(cs: &[char]) -> (r: (usize, usize))
    ensures
        r.0 <= r.1 <= cs@.len(),
        cs@.subrange(r.0 as int, r.1 as int) == trim(cs@),
{
    let a = skip_ws_exec(cs, 0);
    let mut b = cs.len();
    while a < b && is_whitespace(cs[b - 1])
        invariant
            a <= b <= cs@.len(),
            a == skip_ws(cs@, 0),
            back_ws(cs@, b as int, a as int) == back_ws(cs@, cs@.len() as int, a as int),
        decreases b - a,
    {
        b = b - 1;
    }
    (a, b)
}

/// `cs` without leading and trailing white space.
pub fn trim_chars(cs: &[char]) -> (r: Vec<char>)
    ensures
        r@ == trim(cs@),
{
    let (a, b) = trim_bounds(cs);
    slice_chars(cs, a, b)
}

/// The characters `cs[a..b]`.
pub fn slice_chars(cs: &[char], a: usize, b: usize) -> (r: Vec<char>)
    requires
        a <= b <= cs@.len(),
    ensures
        r@ == cs@.subrange(a as int, b as int),
{
    let mut out: Vec<char> = Vec::new();
    let mut k = a;
    while k < b
        invariant
            a <= k <= b <= cs@.len(),
            out@ == cs@.subrange(a as int, k as int),
        decreases b - k,
    {
        out.push(cs[k]);
        k = k + 1;
        assert(out@ =~= cs@.subrange(a as int, k as int));
    }
    out
}

/// The white-space-separated words of `cs`, in order.
pub fn split_words(cs: &[char]) -> (r: Vec<Vec<char>>)
    ensures
        r@.len() == words(cs@).len(),
        forall|k: int| 0 <= k < r@.len() ==> #[trigger] r@[k]@ == words(cs@)[k],
{
    let ghost s = cs@;
    let mut out: Vec<Vec<char>> = Vec::new();
    let mut i: usize = 0;
    let ghost mut done: Seq<Seq<char>> = Seq::empty();
    while i < cs.len()
        invariant
            i <= cs@.len(),
            s == cs@,
            out@.len() == done.len(),
            forall|k: int| 0 <= k < out@.len() ==> #[trigger] out@[k]@ == done[k],
            done + words_from(s, i as int) == words(s),
        decreases cs.len() - i,
    {
        let a = skip_ws_exec(cs, i);
        if a >= cs.len() {
            assert(words_from(s, i as int) =~= Seq::<Seq<char>>::empty());
            i = cs.len();
            assert(words_from(s, i as int) =~= Seq::<Seq<char>>::empty());
        } else {
            let b = skip_word_exec(cs, a);
            proof {
                lemma_skip_ws_bounds(s, i as int);
                lemma_skip_word_bounds(s, a as int);
            }
            let w = slice_chars(cs, a, b);
            proof {
                let ws = seq![s.subrange(a as int, b as int)];
                assert(words_from(s, i as int) == ws + words_from(s, b as int));
                assert((done + ws) + words_from(s, b as int) =~= done + (ws + words_from(s, b as int)));
                done = done + ws;
            }
            out.push(w);
            i = b;
        }
    }
    proof {
        assert(words_from(s, i as int) =~= Seq::<Seq<char>>::empty());
        assert(done + Seq::<Seq<char>>::empty() =~= done);
    }
    out
}

/// The pieces of `cs` between occurrences of `c`, in order.
pub fn split_on_char(cs: &[char], c: char) -> (r: Vec<Vec<char>>)
    ensures
        r@.len() == split_on(cs@, c).len(),
        forall|k: int| 0 <= k < r@.len() ==> #[trigger] r@[k]@ == split_on(cs@, c)[k],
{
    let ghost s = cs@;
    let mut out: Vec<Vec<char>> = Vec::new();
    let mut i: usize = 0;
    let ghost mut done: Seq<Seq<char>> = Seq::empty();
    loop
        invariant
            i <= cs@.len(),
            s == cs@,
            out@.len() == done.len(),
            forall|k: int| 0 <= k < out@.len() ==> #[trigger] out@[k]@ == done[k],
            done + split_from(s, c, i as int) == split_on(s, c),
        decreases cs.len() - i,
    {
        let j = find_from_exec(cs, c, i);
        let piece = slice_chars(cs, i, j);
        if j >= cs.len() {
            proof {
                assert(split_from(s, c, i as int) == seq![s.subrange(i as int, s.len() as int)]);
                done = done + seq![s.subrange(i as int, s.len() as int)];
            }
            out.push(piece);
            return out;
        }
        proof {
            let ps = seq![s.subrange(i as int, j as int)];
            assert(split_from(s, c, i as int) == ps + split_from(s, c, j + 1));
            assert((done + ps) + split_from(s, c, j + 1) =~= done + (ps + split_from(s, c, j + 1)));
            done = done + ps;
        }
        out.push(piece);
        i = j + 1;
    }
}

/// The lines of `cs`, in order (see [`lines`]).
pub fn split_lines(cs: &[char]) -> (r: Vec<Vec<char>>)
    ensures
        r@.len() == lines(cs@).len(),
        forall|k: int| 0 <= k < r@.len() ==> #[trigger] r@[k]@ == lines(cs@)[k],
{
    let ghost s = cs@;
    let mut out: Vec<Vec<char>> = Vec::new();
    let mut i: usize = 0;
    let ghost mut done: Seq<Seq<char>> = Seq::empty();
    while i < cs.len()
        invariant
            i <= cs@.len(),
            s == cs@,
            out@.len() == done.len(),
            forall|k: int| 0 <= k < out@.len() ==> #[trigger] out@[k]@ == done[k],
            done + lines_from(s, i as int) == lines(s),
        decreases cs.len() - i,
    {
        let j = find_from_exec(cs, '\n', i);
        let mut end = j;
        if end > i && cs[end - 1] == '\r' {
            end = end - 1;
        }
        let line = slice_chars(cs, i, end);
        proof {
            let raw = s.subrange(i as int, j as int);
            assert(strip_cr(raw) =~= s.subrange(i as int, end as int));
        }
        if j >= cs.len() {
            proof {
                assert(lines_from(s, i as int) == seq![strip_cr(s.subrange(i as int, s.len() as int))]);
                done = done + seq![strip_cr(s.subrange(i as int, s.len() as int))];
            }
            out.push(line);
            i = cs.len();
            assert(lines_from(s, i as int) =~= Seq::<Seq<char>>::empty());
        } else {
            proof {
                let ls = seq![strip_cr(s.subrange(i as int, j as int))];
                assert(lines_from(s, i as int) == ls + lines_from(s, j + 1));
                assert((done + ls) + lines_from(s, j + 1) =~= done + (ls + lines_from(s, j + 1)));
                done = done + ls;
            }
            out.push(line);
            i = j + 1;
        }
    }
    proof {
        assert(lines_from(s, i as int) =~= Seq::<Seq<char>>::empty());
        assert(done + Seq::<Seq<char>>::empty() =~= done);
    }
    out
}

/// Where each line of `cs` starts, in order (see [`line_starts_from`]).
pub fn line_starts(cs: &[char]) -> (r: Vec<usize>)
    ensures
        r@.len() == lines(cs@).len(),
        r@.len() == line_starts_from(cs@, 0).len(),
        forall|k: int| 0 <= k < r@.len() ==> #[trigger] r@[k] == line_starts_from(cs@, 0)[k] && r@[k] < cs@.len(),
{
    let ghost s = cs@;
    let mut out: Vec<usize> = Vec::new();
    let mut i: usize = 0;
    let ghost mut done: Seq<int> = Seq::empty();
    let ghost mut dl: Seq<Seq<char>> = Seq::empty();
    while i < cs.len()
        invariant
            i <= cs@.len(),
            s == cs@,
            out@.len() == done.len(),
            done.len() == dl.len(),
            forall|k: int| 0 <= k < out@.len() ==> #[trigger] out@[k] == done[k] && out@[k] < s.len(),
            done + line_starts_from(s, i as int) == line_starts_from(s, 0),
            dl + lines_from(s, i as int) == lines(s),
        decreases cs.len() - i,
    {
        let j = find_from_exec(cs, '\n', i);
        if j >= cs.len() {
            proof {
                done = done + seq![i as int];
                dl = dl + seq![strip_cr(s.subrange(i as int, s.len() as int))];
            }
            out.push(i);
            i = cs.len();
            assert(lines_from(s, i as int) =~= Seq::<Seq<char>>::empty());
            assert(line_starts_from(s, i as int) =~= Seq::<int>::empty());
        } else {
            proof {
                let ls = seq![strip_cr(s.subrange(i as int, j as int))];
                assert((dl + ls) + lines_from(s, j + 1) =~= dl + (ls + lines_from(s, j + 1)));
                let st = seq![i as int];
                assert((done + st) + line_starts_from(s, j + 1) =~= done + (st + line_starts_from(s, j + 1)));
                done = done + st;
                dl = dl + ls;
            }
            out.push(i);
            i = j + 1;
        }
    }
    proof {
        assert(lines_from(s, i as int) =~= Seq::<Seq<char>>::empty());
        assert(line_starts_from(s, i as int) =~= Seq::<int>::empty());
        assert(done + Seq::<int>::empty() =~= done);
        assert(dl + Seq::<Seq<char>>::empty() =~= dl);
    }
    out
}

/// Whether `cs` starts with `c`.
pub fn starts_with_char(cs: &[char], c: char) -> (r: bool)
    ensures
        r == (cs@.len() > 0 && cs@[0] == c),
{
    cs.len() > 0 && cs[0] == c
}

/// Joins pieces with a separator.
pub open spec fn join(pieces: Seq<Seq<char>>, sep: Seq<char>) -> Seq<char>
    decreases pieces.len(),
{
    if pieces.len() == 0 {
        Seq::empty()
    } else if pieces.len() == 1 {
        pieces[0]
    } else {
        join(pieces.drop_last(), sep) + sep + pieces.last()
    }
}

/// `s` with every occurrence of `pat` (non-empty), from left to right and
/// not overlapping, replaced by `rep` (what `str::replace` does).
pub open spec fn replace_all(s: Seq<char>, pat: Seq<char>, rep: Seq<char>) -> Seq<char>
    decreases s.len(),
{
    if pat.len() == 0 || s.len() < pat.len() {
        s
    } else if s.take(pat.len() as int) == pat {
        rep + replace_all(s.skip(pat.len() as int), pat, rep)
    } else {
        seq![s[0]] + replace_all(s.skip(1), pat, rep)
    }
}

/// Whether `pat` occurs in `cs` at index `i`.
fn occurs_at(cs: &[char], pat: &[char], i: usize) -> (r: bool)
    requires
        i <= cs@.len(),
    ensures
        r == (i + pat@.len() <= cs@.len() && cs@.subrange(i as int, i + pat@.len()) == pat@),
{
    if pat.len() > cs.len() - i {
        return false;
    }
    let mut k: usize = 0;
    while k < pat.len()
        invariant
            k <= pat@.len(),
            i + pat@.len() <= cs@.len(),
            cs@.len() == cs.len(),
            forall|m: int| 0 <= m < k ==> cs@[i + m] == pat@[m],
        decreases pat.len() - k,
    {
        assert(i + k < cs.len());
        if cs[i + k] != pat[k] {
            assert(cs@.subrange(i as int, i + pat@.len())[k as int] != pat@[k as int]);
            return false;
        }
        k = k + 1;
    }
    assert(cs@.subrange(i as int, i + pat@.len()) =~= pat@);
    true
}

/// `s` with every occurrence of `pat` replaced by `rep` (see [`replace_all`]).
pub fn replace_str(s: &str, pat: &str, rep: &str) -> (r: String)
    ensures
        r@ == replace_all(s@, pat@, rep@),
{
    let cs = crate::text::chars_of(s);
    let ps = crate::text::chars_of(pat);
    let ghost sv = s@;
    let mut out = String::new();
    if ps.len() == 0 {
        return s.to_owned();
    }
    let mut i: usize = 0;
    assert(sv.skip(0) =~= sv);
    while i < cs.len()
        invariant
            cs@ == sv,
            ps@ == pat@,
            ps@.len() > 0,
            i <= sv.len(),
            out@ + replace_all(sv.skip(i as int), pat@, rep@) == replace_all(sv, pat@, rep@),
        decreases cs.len() - i,
    {
        let ghost t = sv.skip(i as int);
        if occurs_at(cs.as_slice(), ps.as_slice(), i) {
            proof {
                assert(t.take(pat@.len() as int) =~= sv.subrange(i as int, i + pat@.len()));
                assert(t.skip(pat@.len() as int) =~= sv.skip(i + pat@.len()));
                assert(replace_all(t, pat@, rep@) == rep@ + replace_all(sv.skip(i + pat@.len()), pat@, rep@));
                assert((out@ + rep@) + replace_all(sv.skip(i + pat@.len()), pat@, rep@)
                    =~= out@ + (rep@ + replace_all(sv.skip(i + pat@.len()), pat@, rep@)));
            }
            crate::text::push_str(&mut out, rep);
            i = i + ps.len();
        } else {
            proof {
                if t.len() >= pat@.len() {
                    assert(t.take(pat@.len() as int) =~= sv.subrange(i as int, i + pat@.len()));
                }
                if t.len() < pat@.len() {
                    assert(replace_all(t, pat@, rep@) == t);
                    assert(t =~= seq![t[0]] + t.skip(1));
                    // the tail is too short to hold the pattern as well
                    assert(replace_all(t.skip(1), pat@, rep@) == t.skip(1));
                }
                assert(t.skip(1) =~= sv.skip(i + 1));
                assert((out@.push(cs@[i as int])) + replace_all(sv.skip(i + 1), pat@, rep@)
                    =~= out@ + (seq![t[0]] + replace_all(t.skip(1), pat@, rep@)));
            }
            crate::text::push_char(&mut out, cs[i]);
            i = i + 1;
        }
    }
    proof {
        assert(sv.skip(i as int) =~= Seq::<char>::empty());
        assert(out@ + Seq::<char>::empty() =~= out@);
    }
    out
}

} // verus!

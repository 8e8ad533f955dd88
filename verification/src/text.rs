//! Character-level helpers on `str` and `String`, stated over their views.
use vstd::prelude::*;

verus! {

/// The characters of `s`, in order.
pub fn chars_of(s: &str) -> (v: Vec<char>)
    ensures
        v@ == s@,
{
    let mut v: Vec<char> = Vec::new();
    for c in it: s.chars()
        invariant
            it.seq() == s@,
            v@ == it.seq().take(it.index() as int),
    {
        v.push(c);
        assert(v@ =~= it.seq().take(it.index() + 1));
    }
    v
}

/// Appends one character to a `String` (calls `String::push`).
#[verifier::external_body]
pub(crate) fn push_char(s: &mut String, c: char)
    ensures
        final(s)@ == old(s)@.push(c),
{
    s.push(c);
}

/// A `String` holding exactly the given characters.
pub fn string_from_chars(cs: &[char]) -> (r: String)
    ensures
        r@ == cs@,
{
    let mut r = String::new();
    let mut i: usize = 0;
    while i < cs.len()
        invariant
            i <= cs.len(),
            r@ == cs@.subrange(0, i as int),
        decreases cs.len() - i,
    {
        push_char(&mut r, cs[i]);
        i = i + 1;
        assert(r@ =~= cs@.subrange(0, i as int));
    }
    assert(cs@.subrange(0, cs.len() as int) =~= cs@);
    r
}

} // verus!

verus! {

/// Whether `s` holds no character.
pub fn is_empty_text(s: &str) -> (r: bool)
    ensures
        r == (s@.len() == 0),
{
    chars_of(s).len() == 0
}

/// Whether the last character of `s` is `\n` or `\r`.
pub fn ends_with_line_break(s: &str) -> (r: bool)
    ensures
        r == (s@.len() > 0 && (s@.last() == '\n' || s@.last() == '\r')),
{
    let cs = chars_of(s);
    if cs.len() == 0 {
        false
    } else {
        let c = cs[cs.len() - 1];
        c == '\n' || c == '\r'
    }
}

} // verus!

verus! {

/// Whether two character slices are equal.
pub fn chars_eq(a: &[char], b: &[char]) -> (r: bool)
    ensures
        r == (a@ == b@),
{
    if a.len() != b.len() {
        return false;
    }
    let mut i: usize = 0;
    while i < a.len()
        invariant
            i <= a.len(),
            a.len() == b.len(),
            forall|j: int| 0 <= j < i ==> a@[j] == b@[j],
        decreases a.len() - i,
    {
        if a[i] != b[i] {
            return false;
        }
        i = i + 1;
    }
    assert(a@ =~= b@);
    true
}

/// Whether two strings hold the same characters.
pub fn str_eq(a: &str, b: &str) -> (r: bool)
    ensures
        r == (a@ == b@),
{
    let ca = chars_of(a);
    let cb = chars_of(b);
    chars_eq(ca.as_slice(), cb.as_slice())
}

/// Whether a `String` holds the same characters as a `str`.
pub fn string_eq_str(a: &String, b: &str) -> (r: bool)
    ensures
        r == (a@ == b@),
{
    str_eq(a.as_str(), b)
}

} // verus!

verus! {

/// Appends the characters of `t` to `s`.
pub(crate) fn push_str(s: &mut String, t: &str)
    ensures
        final(s)@ == old(s)@ + t@,
{
    s.append(t);
}

/// The index of the last occurrence of `c` in `s`.
#[verifier::opaque]
pub open spec fn last_index_of(s: Seq<char>, c: char) -> Option<int> {
    if exists|i: int| 0 <= i < s.len() && s[i] == c {
        Some(choose|i: int| 0 <= i < s.len() && s[i] == c && forall|j: int| i < j < s.len() ==> s[j] != c)
    } else {
        None
    }
}

/// Where `last_index_of` finds `c`, `c` is there and nowhere after; where
/// it finds nothing, `c` is nowhere.
pub proof fn lemma_last_index_of(s: Seq<char>, c: char)
    ensures
        match last_index_of(s, c) {
            Some(i) => 0 <= i < s.len() && s[i] == c && forall|j: int| i < j < s.len() ==> s[j] != c,
            None => forall|j: int| 0 <= j < s.len() ==> s[j] != c,
        },
{
    reveal(last_index_of);
    if exists|i: int| 0 <= i < s.len() && s[i] == c {
        let k = choose|i: int| 0 <= i < s.len() && s[i] == c;
        lemma_last_exists(s, c, k);
    }
}

proof fn lemma_last_exists(s: Seq<char>, c: char, k: int)
    requires
        0 <= k < s.len(),
        s[k] == c,
    ensures
        exists|i: int| 0 <= i < s.len() && s[i] == c && forall|j: int| i < j < s.len() ==> s[j] != c,
    decreases s.len() - k,
{
    if exists|j: int| k < j < s.len() && s[j] == c {
        let j = choose|j: int| k < j < s.len() && s[j] == c;
        lemma_last_exists(s, c, j);
    } else {
        assert(forall|j: int| k < j < s.len() ==> s[j] != c);
    }
}

/// The index of the first occurrence of `c` in `s`.
#[verifier::opaque]
pub open spec fn first_index_of(s: Seq<char>, c: char) -> Option<int> {
    if exists|i: int| 0 <= i < s.len() && s[i] == c {
        Some(choose|i: int| 0 <= i < s.len() && s[i] == c && forall|j: int| 0 <= j < i ==> s[j] != c)
    } else {
        None
    }
}

/// Position of the last `c` in `cs`.
pub fn rfind_char(cs: &[char], c: char) -> (r: Option<usize>)
    ensures
        r matches Some(i) ==> last_index_of(cs@, c) == Some(i as int) && i < cs.len() && cs@[i as int] == c,
        r is None ==> last_index_of(cs@, c) is None,
{
    let mut i: usize = cs.len();
    while i > 0
        invariant
            i <= cs.len(),
            forall|j: int| i <= j < cs.len() ==> cs@[j] != c,
        decreases i,
    {
        if cs[i - 1] == c {
            let k = i - 1;
            proof {
                reveal(last_index_of);
                let w = choose|w: int| 0 <= w < cs@.len() && cs@[w] == c && forall|j: int| w < j < cs@.len() ==> cs@[j] != c;
                assert(w == k as int);
            }
            return Some(k);
        }
        i = i - 1;
    }
    proof {
        reveal(last_index_of);
    }
    None
}

/// Position of the first `c` in `cs`.
pub fn find_char(cs: &[char], c: char) -> (r: Option<usize>)
    ensures
        r matches Some(i) ==> first_index_of(cs@, c) == Some(i as int) && i < cs.len() && cs@[i as int] == c,
        r is None ==> first_index_of(cs@, c) is None,
{
    let mut i: usize = 0;
    while i < cs.len()
        invariant
            i <= cs.len(),
            forall|j: int| 0 <= j < i ==> cs@[j] != c,
        decreases cs.len() - i,
    {
        if cs[i] == c {
            proof {
                reveal(first_index_of);
                let w = choose|w: int| 0 <= w < cs@.len() && cs@[w] == c && forall|j: int| 0 <= j < w ==> cs@[j] != c;
                assert(w == i as int);
            }
            return Some(i);
        }
        i = i + 1;
    }
    proof {
        reveal(first_index_of);
    }
    None
}

/// A `String` of the characters `cs[from..to]`.
pub fn substring(cs: &[char], from: usize, to: usize) -> (r: String)
    requires
        from <= to <= cs.len(),
    ensures
        r@ == cs@.subrange(from as int, to as int),
{
    let mut r = String::new();
    let mut i: usize = from;
    while i < to
        invariant
            from <= i <= to <= cs.len(),
            r@ == cs@.subrange(from as int, i as int),
        decreases to - i,
    {
        push_char(&mut r, cs[i]);
        i = i + 1;
        assert(r@ =~= cs@.subrange(from as int, i as int));
    }
    r
}

/// The lowercase form of a text, as `str::to_lowercase` computes it
/// (Unicode's `Lowercase` mapping).
pub uninterp spec fn lowercase_of(s: Seq<char>) -> Seq<char>;

/// The uppercase form of a text, as `str::to_uppercase` computes it
/// (Unicode's `Uppercase` mapping).
pub uninterp spec fn uppercase_of(s: Seq<char>) -> Seq<char>;

/// Calls `str::to_lowercase`; the result is named `lowercase_of` of the input.
#[verifier::external_body]
pub(crate) fn to_lowercase(s: &str) -> (r: String)
    ensures
        r@ == lowercase_of(s@),
{
    s.to_lowercase()
}

/// Calls `str::to_uppercase`; the result is named `uppercase_of` of the input.
#[verifier::external_body]
pub(crate) fn to_uppercase(s: &str) -> (r: String)
    ensures
        r@ == uppercase_of(s@),
{
    s.to_uppercase()
}

} // verus!

verus! {

/// The text `String::from_utf8_lossy` decodes from `bytes`: each invalid
/// sequence becomes U+FFFD.
pub uninterp spec fn utf8_lossy(bytes: Seq<u8>) -> Seq<char>;

/// Calls `String::from_utf8_lossy`. Its documentation shows that valid UTF-8
/// decodes to the characters it encodes; of other input only the name is stated.
#[verifier::external_body]
pub(crate) fn from_utf8_lossy(bytes: &[u8]) -> (r: String)
    ensures
        r@ == utf8_lossy(bytes@),
        vstd::utf8::valid_utf8(bytes@) ==> r@ == vstd::utf8::decode_utf8(bytes@),
{
    String::from_utf8_lossy(bytes).into_owned()
}

} // verus!

//! Ring buffer for terminal output: keeps the most recent bytes up to a limit.
use vstd::prelude::*;
use std::collections::VecDeque;
use crate::text::{from_utf8_lossy, utf8_lossy};

verus! {

/// Default buffer capacity (1 MiB).
pub const DEFAULT_CAPACITY: usize = 1_048_576usize;

/// The last `max` bytes of `s` (all of `s` if shorter).
pub open spec fn keep_last(s: Seq<u8>, max: nat) -> Seq<u8> {
    if s.len() > max {
        s.skip(s.len() - max)
    } else {
        s
    }
}

/// Whether `needle` occurs in `data` at position `i`.
pub open spec fn occurs_at(data: Seq<u8>, needle: Seq<u8>, i: int) -> bool {
    0 <= i && i + needle.len() <= data.len() && data.subrange(i, i + needle.len()) == needle
}

/// The first position of `needle` in `data`.
#[verifier::opaque]
pub open spec fn first_occurrence(data: Seq<u8>, needle: Seq<u8>) -> Option<int> {
    if exists|i: int| occurs_at(data, needle, i) {
        Some(choose|i: int| occurs_at(data, needle, i) && forall|j: int| 0 <= j < i ==> !occurs_at(data, needle, j))
    } else {
        None
    }
}

/// Every byte written is either held or was dropped to stay within the
/// limit. This holds of a new buffer and is kept by `append` (consuming or
/// clearing takes bytes out by other means).
pub open spec fn accounted(b: RingBuffer) -> bool {
    b.spec_total_written() == b.contents().len() + b.spec_bytes_discarded()
}

/// A ring buffer of bytes holding at most `max_size` of the most recent bytes.
#[derive(Clone)]
pub struct RingBuffer {
    data: VecDeque<u8>,
    max_size: usize,
    total_written: usize,
    bytes_discarded: usize,
}

impl RingBuffer {
    /// Well-formedness: the contents never exceed the limit.
    pub closed spec fn wf(&self) -> bool {
        self.data@.len() <= self.max_size
    }

    /// The bytes held, oldest first.
    pub closed spec fn contents(&self) -> Seq<u8> {
        self.data@
    }

    /// The size limit.
    pub closed spec fn spec_max_size(&self) -> usize {
        self.max_size
    }

    /// Bytes appended in all.
    pub closed spec fn spec_total_written(&self) -> usize {
        self.total_written
    }

    /// Bytes dropped to keep within the limit.
    pub closed spec fn spec_bytes_discarded(&self) -> usize {
        self.bytes_discarded
    }

    /// Create a new ring buffer with the given maximum size.
    pub fn new(max_size: usize) -> (r: Self)
        ensures
            r.contents() == Seq::<u8>::empty(),
            r.spec_max_size() == max_size,
            r.spec_total_written() == 0,
            r.spec_bytes_discarded() == 0,
            r.wf(),
            accounted(r),
    {
        RingBuffer { data: VecDeque::new(), max_size, total_written: 0, bytes_discarded: 0 }
    }

    /// Create with the default capacity.
    pub fn with_default_capacity() -> (r: Self)
        ensures
            r.contents() == Seq::<u8>::empty(),
            r.spec_max_size() == DEFAULT_CAPACITY,
            r.spec_total_written() == 0,
            r.spec_bytes_discarded() == 0,
            r.wf(),
    {
        Self::new(DEFAULT_CAPACITY)
    }

    /// Append data, dropping the oldest bytes beyond the limit.
    pub fn append(&mut self, data: &[u8])
        requires
            old(self).wf(),
            old(self).spec_total_written() + data@.len() <= usize::MAX,
            old(self).spec_bytes_discarded() + data@.len() <= usize::MAX,
        ensures
            final(self).contents() == keep_last(old(self).contents() + data@, old(self).spec_max_size() as nat),
            final(self).wf(),
            final(self).spec_max_size() == old(self).spec_max_size(),
            final(self).spec_total_written() == old(self).spec_total_written() + data@.len(),
            final(self).spec_bytes_discarded() == old(self).spec_bytes_discarded() + (
            if old(self).contents().len() + data@.len() > old(self).spec_max_size() {
                old(self).contents().len() + data@.len() - old(self).spec_max_size()
            } else {
                0
            }),
            accounted(*old(self)) ==> accounted(*final(self)),
    {
        let ghost all = self.data@ + data@;
        self.total_written = self.total_written + data.len();
        if data.len() >= self.max_size {
            let dropped = self.data.len() + (data.len() - self.max_size);
            self.data.clear();
            let start = data.len() - self.max_size;
            let mut i = start;
            while i < data.len()
                invariant
                    start <= i <= data.len(),
                    start == data.len() - self.max_size,
                    self.data@ == data@.subrange(start as int, i as int),
                    self.max_size == old(self).max_size,
                    self.total_written == old(self).total_written + data@.len(),
                    self.bytes_discarded == old(self).bytes_discarded,
                    old(self).bytes_discarded + dropped <= usize::MAX,
                decreases data.len() - i,
            {
                self.data.push_back(data[i]);
                i = i + 1;
                assert(self.data@ =~= data@.subrange(start as int, i as int));
            }
            self.bytes_discarded = self.bytes_discarded + dropped;
            proof {
                assert(self.data@ =~= all.skip(all.len() - self.max_size));
            }
            return;
        }
        let room = self.max_size - data.len();
        let needed = if self.data.len() > room { self.data.len() - room } else { 0 };
        let ghost total = self.data@.len() + data@.len();
        let ghost old_data = self.data@;
        if needed > 0 {
            self.bytes_discarded = self.bytes_discarded + needed;
            let mut k: usize = 0;
            while k < needed
                invariant
                    k <= needed,
                    needed <= old_data.len(),
                    self.data@ == old_data.skip(k as int),
                    self.data@.len() <= self.max_size,
                    self.max_size == old(self).max_size,
                    self.total_written == old(self).total_written + data@.len(),
                    self.bytes_discarded == old(self).bytes_discarded + needed,
                decreases needed - k,
            {
                let _ = self.data.pop_front();
                k = k + 1;
                assert(self.data@ =~= old_data.skip(k as int));
            }
        }
        let ghost kept = self.data@;
        let mut i: usize = 0;
        while i < data.len()
            invariant
                i <= data.len(),
                kept.len() + data@.len() <= self.max_size,
                self.data@ == kept + data@.subrange(0, i as int),
                self.max_size == old(self).max_size,
                self.total_written == old(self).total_written + data@.len(),
                self.bytes_discarded == old(self).bytes_discarded + needed,
            decreases data.len() - i,
        {
            self.data.push_back(data[i]);
            i = i + 1;
            assert(self.data@ =~= kept + data@.subrange(0, i as int));
        }
        proof {
            assert(data@.subrange(0, data@.len() as int) =~= data@);
            assert(kept == old_data.skip(needed as int));
            if total > self.max_size {
                assert(self.data@ =~= all.skip(all.len() - self.max_size));
            } else {
                assert(self.data@ =~= all);
            }
        }
    }

    /// The contents, oldest first.
    pub fn as_slice(&mut self) -> (r: Vec<u8>)
        ensures
            r@ == old(self).contents(),
            *final(self) == *old(self),
    {
        let mut v: Vec<u8> = Vec::new();
        let mut i: usize = 0;
        while i < self.data.len()
            invariant
                i <= self.data@.len(),
                v@ == self.data@.subrange(0, i as int),
            decreases self.data@.len() - i,
        {
            v.push(self.data[i]);
            i = i + 1;
            assert(v@ =~= self.data@.subrange(0, i as int));
        }
        assert(self.data@.subrange(0, i as int) =~= self.data@);
        v
    }

    /// The contents as text, invalid UTF-8 replaced.
    pub fn as_str_lossy(&mut self) -> (r: String)
        ensures
            r@ == utf8_lossy(old(self).contents()),
            vstd::utf8::valid_utf8(old(self).contents()) ==> r@ == vstd::utf8::decode_utf8(old(self).contents()),
            *final(self) == *old(self),
    {
        let v = self.as_slice();
        from_utf8_lossy(v.as_slice())
    }

    /// Hands the contents, decoded lossily, to `f` and returns what it returns.
    pub fn search<F, R>(&mut self, f: F) -> (r: R)
        where
            F: FnOnce(&str) -> R,
        requires
            forall|s: &str| #[trigger] f.requires((s,)),
        ensures
            *final(self) == *old(self),
            exists|s: &str| s@ == utf8_lossy(old(self).contents()) && f.ensures((s,), r),
    {
        let s = self.as_str_lossy();
        f(s.as_str())
    }

    /// Current length.
    pub fn len(&self) -> (r: usize)
        requires
            self.wf(),
        ensures
            r == self.contents().len(),
            r <= self.spec_max_size(),
    {
        self.data.len()
    }

    /// Whether the buffer is empty.
    pub fn is_empty(&self) -> (r: bool)
        ensures
            r == (self.contents().len() == 0),
    {
        self.data.len() == 0
    }

    /// Maximum size.
    pub fn max_size(&self) -> (r: usize)
        ensures
            r == self.spec_max_size(),
    {
        self.max_size
    }

    /// Total bytes written.
    pub fn total_written(&self) -> (r: usize)
        ensures
            r == self.spec_total_written(),
    {
        self.total_written
    }

    /// Bytes discarded due to overflow.
    pub fn bytes_discarded(&self) -> (r: usize)
        ensures
            r == self.spec_bytes_discarded(),
    {
        self.bytes_discarded
    }

    /// Clear the buffer (counters are kept).
    pub fn clear(&mut self)
        requires
            old(self).wf(),
        ensures
            final(self).wf(),
            final(self).contents() == Seq::<u8>::empty(),
            final(self).spec_max_size() == old(self).spec_max_size(),
            final(self).spec_total_written() == old(self).spec_total_written(),
            final(self).spec_bytes_discarded() == old(self).spec_bytes_discarded(),
    {
        self.data.clear();
    }

    /// Find the first occurrence of `needle` (`Some(0)` for an empty needle).
    pub fn find(&mut self, needle: &[u8]) -> (r: Option<usize>)
        ensures
            *final(self) == *old(self),
            needle@.len() == 0 ==> r == Some(0usize),
            needle@.len() > 0 ==> match r {
                Some(i) => first_occurrence(old(self).contents(), needle@) == Some(i as int),
                None => first_occurrence(old(self).contents(), needle@) is None,
            },
    {
        if needle.len() == 0 {
            return Some(0);
        }
        if needle.len() > self.data.len() {
            proof {
                assert forall|i: int| !occurs_at(self.data@, needle@, i) by {}
                lemma_no_occurrence(self.data@, needle@);
            }
            return None;
        }
        let data = self.as_slice();
        find_bytes(data.as_slice(), needle)
    }

    /// Find a string in the buffer (as its UTF-8 bytes).
    pub fn find_str(&mut self, needle: &str) -> (r: Option<usize>)
        ensures
            *final(self) == *old(self),
            needle@.len() == 0 ==> r == Some(0usize),
            needle@.len() > 0 ==> match r {
                Some(i) => first_occurrence(old(self).contents(), vstd::utf8::encode_utf8(needle@)) == Some(i as int),
                None => first_occurrence(old(self).contents(), vstd::utf8::encode_utf8(needle@)) is None,
            },
    {
        let bytes = needle.as_bytes();
        proof {
            lemma_encode_empty(needle@);
        }
        self.find(bytes)
    }

    /// Remove and return the first `end` bytes (all, if fewer).
    pub fn consume(&mut self, end: usize) -> (r: Vec<u8>)
        requires
            old(self).wf(),
        ensures
            final(self).wf(),
            ({
                let n = if end < old(self).contents().len() { end as int } else { old(self).contents().len() as int };
                &&& r@ == old(self).contents().take(n)
                &&& final(self).contents() == old(self).contents().skip(n)
            }),
            final(self).spec_max_size() == old(self).spec_max_size(),
            final(self).spec_total_written() == old(self).spec_total_written(),
            final(self).spec_bytes_discarded() == old(self).spec_bytes_discarded(),
    {
        let n = if end < self.data.len() { end } else { self.data.len() };
        let ghost old_data = self.data@;
        let mut out: Vec<u8> = Vec::new();
        let mut k: usize = 0;
        while k < n
            invariant
                k <= n <= old_data.len(),
                self.data@ == old_data.skip(k as int),
                out@ == old_data.take(k as int),
                self.data@.len() <= self.max_size,
                self.max_size == old(self).max_size,
                self.total_written == old(self).total_written,
                self.bytes_discarded == old(self).bytes_discarded,
            decreases n - k,
        {
            let b = self.data.pop_front();
            match b {
                Some(x) => out.push(x),
                None => {},
            }
            k = k + 1;
            assert(self.data@ =~= old_data.skip(k as int));
            assert(out@ =~= old_data.take(k as int));
        }
        out
    }

    /// Remove the first `pos` bytes and return them as text (invalid UTF-8 replaced).
    pub fn consume_before(&mut self, pos: usize) -> (r: String)
        requires
            old(self).wf(),
        ensures
            final(self).wf(),
            ({
                let n = if pos < old(self).contents().len() { pos as int } else { old(self).contents().len() as int };
                &&& r@ == utf8_lossy(old(self).contents().take(n))
                &&& (vstd::utf8::valid_utf8(old(self).contents().take(n))
                    ==> r@ == vstd::utf8::decode_utf8(old(self).contents().take(n)))
                &&& final(self).contents() == old(self).contents().skip(n)
            }),
            final(self).spec_max_size() == old(self).spec_max_size(),
    {
        let data = self.consume(pos);
        from_utf8_lossy(data.as_slice())
    }

    /// Remove everything up to and including the first occurrence of `needle`;
    /// returns the text before it and the matched text.
    pub fn consume_until(&mut self, needle: &str) -> (r: Option<(String, String)>)
        requires
            old(self).wf(),
        ensures
            final(self).wf(),
            ({
                let nb = vstd::utf8::encode_utf8(needle@);
                let c = old(self).contents();
                match r {
                    None => nb.len() > 0 && first_occurrence(c, nb) is None && final(self).contents() == c,
                    Some((before, matched)) => {
                        let p = if nb.len() == 0 { 0 } else { first_occurrence(c, nb)->0 };
                        &&& (nb.len() > 0 ==> first_occurrence(c, nb) is Some)
                        &&& before@ == utf8_lossy(c.take(p))
                        &&& (vstd::utf8::valid_utf8(c.take(p)) ==> before@ == vstd::utf8::decode_utf8(c.take(p)))
                        &&& matched@ == utf8_lossy(nb)
                        &&& matched@ == needle@
                        &&& final(self).contents() == c.skip(p + nb.len())
                    },
                }
            }),
    {
        let ghost c = self.data@;
        let pos = match self.find_str(needle) {
            Some(p) => p,
            None => {
                return None;
            },
        };
        let ghost nb = vstd::utf8::encode_utf8(needle@);
        proof {
            lemma_encode_empty(needle@);
            if nb.len() > 0 {
                lemma_first_occurrence(c, nb);
            }
        }
        let before = self.consume_before(pos);
        let matched = self.consume(needle.len());
        proof {
            assert(c.skip(pos as int).take(nb.len() as int) =~= nb);
            assert(c.skip(pos as int).skip(nb.len() as int) =~= c.skip(pos + nb.len()));
        }
        let m = from_utf8_lossy(matched.as_slice());
        proof {
            vstd::utf8::encode_utf8_valid_utf8(needle@);
            vstd::utf8::encode_utf8_decode_utf8(needle@);
        }
        Some((before, m))
    }

    /// The last `n` bytes (all, if fewer).
    pub fn tail(&mut self, n: usize) -> (r: Vec<u8>)
        ensures
            *final(self) == *old(self),
            r@ == keep_last(old(self).contents(), n as nat),
    {
        let data = self.as_slice();
        let start = if data.len() > n { data.len() - n } else { 0 };
        let r = slice_to_vec(data.as_slice(), start, data.len());
        proof {
            assert(r@ =~= keep_last(data@, n as nat));
        }
        r
    }

    /// The first `n` bytes (all, if fewer).
    pub fn head(&mut self, n: usize) -> (r: Vec<u8>)
        ensures
            *final(self) == *old(self),
            r@ == old(self).contents().take(if n < old(self).contents().len() { n as int } else { old(self).contents().len() as int }),
    {
        let data = self.as_slice();
        let end = if n < data.len() { n } else { data.len() };
        let r = slice_to_vec(data.as_slice(), 0, end);
        proof {
            assert(r@ =~= data@.take(end as int));
        }
        r
    }

    /// Find the first occurrence of a non-empty `needle` within the last
    /// `window_size` bytes; the position is in the whole buffer.
    pub fn find_in_tail(&mut self, needle: &[u8], window_size: usize) -> (r: Option<usize>)
        requires
            needle@.len() > 0,
        ensures
            *final(self) == *old(self),
            ({
                let c = old(self).contents();
                let start = if c.len() > window_size { c.len() - window_size } else { 0 };
                match r {
                    Some(i) => i >= start && first_occurrence(c.skip(start), needle@) == Some(i - start),
                    None => first_occurrence(c.skip(start), needle@) is None,
                }
            }),
    {
        let data = self.as_slice();
        let start = if data.len() > window_size { data.len() - window_size } else { 0 };
        let window = &data.as_slice()[start..data.len()];
        proof {
            assert(window@ =~= data@.skip(start as int));
        }
        match find_bytes(window, needle) {
            Some(p) => {
                proof {
                    lemma_first_occurrence(window@, needle@);
                }
                Some(start + p)
            },
            None => None,
        }
    }
}

/// Copies `s[from..to]` into a vector.
pub fn slice_to_vec(s: &[u8], from: usize, to: usize) -> (r: Vec<u8>)
    requires
        from <= to <= s.len(),
    ensures
        r@ == s@.subrange(from as int, to as int),
{
    let mut v: Vec<u8> = Vec::new();
    let mut i = from;
    while i < to
        invariant
            from <= i <= to <= s.len(),
            v@ == s@.subrange(from as int, i as int),
        decreases to - i,
    {
        v.push(s[i]);
        i = i + 1;
        assert(v@ =~= s@.subrange(from as int, i as int));
    }
    v
}

proof fn lemma_encode_empty(s: Seq<char>)
    ensures
        (vstd::utf8::encode_utf8(s).len() == 0) == (s.len() == 0),
{
    if s.len() > 0 {
        reveal_with_fuel(vstd::utf8::encode_utf8, 1);
        let e = vstd::utf8::encode_scalar(s[0] as u32);
        assert(e.len() > 0);
    }
}

/// A first occurrence lies within the data.
pub proof fn lemma_first_occurrence(data: Seq<u8>, needle: Seq<u8>)
    ensures
        first_occurrence(data, needle) matches Some(i) ==> occurs_at(data, needle, i) && 0 <= i
            && i + needle.len() <= data.len() && forall|j: int| 0 <= j < i ==> !occurs_at(data, needle, j),
        first_occurrence(data, needle) is None ==> forall|i: int| !occurs_at(data, needle, i),
{
    reveal(first_occurrence);
    if exists|i: int| occurs_at(data, needle, i) {
        let w = choose|w: int| occurs_at(data, needle, w) && forall|j: int| 0 <= j < w ==> !occurs_at(data, needle, j);
        let i = choose|i: int| occurs_at(data, needle, i);
        lemma_least_occurrence(data, needle, i);
        assert(occurs_at(data, needle, w));
    }
}

proof fn lemma_least_occurrence(data: Seq<u8>, needle: Seq<u8>, i: int)
    requires
        occurs_at(data, needle, i),
    ensures
        exists|w: int| occurs_at(data, needle, w) && forall|j: int| 0 <= j < w ==> !occurs_at(data, needle, j),
    decreases i,
{
    if exists|j: int| 0 <= j < i && occurs_at(data, needle, j) {
        let j = choose|j: int| 0 <= j < i && occurs_at(data, needle, j);
        lemma_least_occurrence(data, needle, j);
    } else {
        assert(occurs_at(data, needle, i) && forall|j: int| 0 <= j < i ==> !occurs_at(data, needle, j));
    }
}

/// The earliest position where `needle` occurs is its first occurrence.
pub proof fn lemma_first_occurrence_is(data: Seq<u8>, needle: Seq<u8>, i: int)
    requires
        occurs_at(data, needle, i),
        forall|j: int| 0 <= j < i ==> !occurs_at(data, needle, j),
    ensures
        first_occurrence(data, needle) == Some(i),
{
    reveal(first_occurrence);
    let w = choose|w: int| occurs_at(data, needle, w) && forall|j: int| 0 <= j < w ==> !occurs_at(data, needle, j);
    if w < i {
        assert(!occurs_at(data, needle, w));
    } else if w > i {
        assert(!occurs_at(data, needle, i));
    }
}

/// Where `needle` occurs nowhere, there is no first occurrence.
pub proof fn lemma_no_occurrence(data: Seq<u8>, needle: Seq<u8>)
    requires
        forall|i: int| !occurs_at(data, needle, i),
    ensures
        first_occurrence(data, needle) is None,
{
    reveal(first_occurrence);
}

/// First position of a non-empty `needle` in `data`.
pub fn find_bytes(data: &[u8], needle: &[u8]) -> (r: Option<usize>)
    requires
        needle@.len() > 0,
    ensures
        match r {
            Some(i) => first_occurrence(data@, needle@) == Some(i as int),
            None => first_occurrence(data@, needle@) is None,
        },
{
    if needle.len() > data.len() {
        proof {
            assert forall|i: int| !occurs_at(data@, needle@, i) by {}
            lemma_no_occurrence(data@, needle@);
        }
        return None;
    }
    let last = data.len() - needle.len();
    let mut i: usize = 0;
    while i <= last
        invariant
            last == data.len() - needle.len(),
            i <= last + 1,
            forall|j: int| 0 <= j < i ==> !occurs_at(data@, needle@, j),
        decreases last + 1 - i,
    {
        let mut k: usize = 0;
        let mut matched = true;
        while k < needle.len()
            invariant
                k <= needle.len(),
                i + needle.len() <= data.len(),
                matched == (forall|m: int| 0 <= m < k ==> data@[i + m] == needle@[m]),
            decreases needle.len() - k,
        {
            if data[i + k] != needle[k] {
                matched = false;
            }
            k = k + 1;
        }
        proof {
            if matched {
                assert(data@.subrange(i as int, i + needle.len()) =~= needle@);
            } else {
                if occurs_at(data@, needle@, i as int) {
                    assert forall|m: int| 0 <= m < needle.len() implies data@[i + m] == needle@[m] by {
                        assert(data@.subrange(i as int, i + needle.len())[m] == data@[i + m]);
                    }
                }
            }
        }
        if matched {
            proof {
                lemma_first_occurrence_is(data@, needle@, i as int);
            }
            return Some(i);
        }
        i = i + 1;
    }
    proof {
        assert forall|j: int| !occurs_at(data@, needle@, j) by {
            if 0 <= j < i {
            }
        }
        lemma_no_occurrence(data@, needle@);
    }
    None
}

} // verus!

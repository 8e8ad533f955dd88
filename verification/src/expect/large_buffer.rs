//! The arithmetic and search of a file-backed output buffer.
//!
//! The buffer's bytes live in a file, so reading them is I/O that the caller
//! performs. What is decided here: which extent a read covers, where a tail
//! starts, how much a consume takes, when an in-memory buffer spills to a
//! file, and the search for a byte string over the file read chunk by chunk.
use vstd::prelude::*;
use crate::expect::buffer::{occurs_at, first_occurrence, find_bytes, lemma_first_occurrence,
    lemma_first_occurrence_is, lemma_no_occurrence, slice_to_vec};

verus! {

/// Size above which an adaptive buffer moves to a file (10 MiB).
pub const MMAP_THRESHOLD: usize = 10_485_760usize;

/// Bytes read from the file at a time when searching it.
pub const CHUNK_SIZE: usize = 65_536usize;

/// How many bytes a read of `len` bytes from `start` yields in a buffer of
/// `size` bytes: none from or past the end, else up to the end.
pub fn read_extent(size: usize, start: usize, len: usize) -> (r: usize)
    ensures
        start >= size ==> r == 0,
        start < size ==> r == if len <= size - start { len as int } else { size - start },
{
    if start >= size {
        0
    } else if len <= size - start {
        len
    } else {
        size - start
    }
}

/// Where the last `n` bytes of a buffer of `size` bytes start.
pub fn tail_start(size: usize, n: usize) -> (r: usize)
    ensures
        r == if n >= size { 0 } else { size - n },
{
    if n >= size { 0 } else { size - n }
}

/// How many bytes a consume of `len` takes from a buffer of `size` bytes.
pub fn consume_len(size: usize, len: usize) -> (r: usize)
    ensures
        r == if len <= size { len } else { size },
{
    if len <= size { len } else { size }
}

/// The length of the next chunk to read at `pos` in a file of `size` bytes.
pub fn chunk_len(size: usize, pos: usize) -> (r: usize)
    requires
        pos <= size,
    ensures
        r == if CHUNK_SIZE <= size - pos { CHUNK_SIZE as int } else { size - pos },
{
    if CHUNK_SIZE <= size - pos { CHUNK_SIZE } else { size - pos }
}

/// Whether appending `adding` bytes to `held` in-memory bytes passes `threshold`,
/// which moves the buffer to a file.
pub fn spills(held: usize, adding: usize, threshold: usize) -> (r: bool)
    ensures
        r == (held + adding > threshold),
{
    adding > threshold || held > threshold - adding
}

/// The search for a byte string over data fed chunk by chunk.
///
/// It keeps the last `needle.len() - 1` bytes of the previous chunk, so that an
/// occurrence that straddles two chunks is found in the second.
pub struct ChunkSearch {
    needle: Vec<u8>,
    overlap: Vec<u8>,
    pos: usize,
    seen: Ghost<Seq<u8>>,
}

/// How a search over a buffer begins.
pub enum SearchStart {
    /// The answer is known without reading: an empty needle is found at 0.
    Found(usize),
    /// The needle is longer than the buffer.
    Absent,
    /// Read the buffer chunk by chunk and feed the chunks to this search.
    Search(ChunkSearch),
}

impl ChunkSearch {
    /// The needle.
    pub closed spec fn needle(&self) -> Seq<u8> {
        self.needle@
    }

    /// The data fed so far.
    pub closed spec fn seen(&self) -> Seq<u8> {
        self.seen@
    }

    /// The position of the next chunk: the number of bytes fed so far.
    pub closed spec fn spec_pos(&self) -> usize {
        self.pos
    }

    /// The bytes kept from what was fed.
    pub closed spec fn spec_overlap(&self) -> Seq<u8> {
        self.overlap@
    }

    /// Well-formedness: a non-empty needle, and the kept bytes are a suffix of
    /// what was fed.
    pub closed spec fn wf(&self) -> bool {
        &&& self.needle@.len() > 0
        &&& self.pos == self.seen@.len()
        &&& self.overlap@.len() <= self.seen@.len()
        &&& self.overlap@ == self.seen@.skip(self.seen@.len() - self.overlap@.len())
    }

    /// The search is exact: nothing fed so far holds the needle, and the kept
    /// bytes reach back far enough for any occurrence that ends in the next
    /// chunk.
    pub closed spec fn exact(&self) -> bool {
        &&& (forall|i: int| !occurs_at(self.seen@, self.needle@, i))
        &&& (self.overlap@.len() + 1 >= self.needle@.len() || self.overlap@.len() == self.seen@.len())
    }

    /// The current position: the number of bytes fed so far.
    pub fn pos(&self) -> (r: usize)
        ensures
            r == self.spec_pos(),
    {
        self.pos
    }

    /// Begin a search for `needle` in a buffer of `size` bytes.
    pub fn begin(needle: &[u8], size: usize) -> (r: SearchStart)
        ensures
            needle@.len() == 0 ==> r == SearchStart::Found(0),
            0 < needle@.len() && needle@.len() > size ==> r is Absent,
            0 < needle@.len() <= size ==> (r matches SearchStart::Search(s) && s.wf() && s.exact()
                && s.needle() == needle@ && s.seen() == Seq::<u8>::empty()),
    {
        if needle.len() == 0 {
            return SearchStart::Found(0);
        }
        if needle.len() > size {
            return SearchStart::Absent;
        }
        assert(needle@.subrange(0, needle@.len() as int) =~= needle@);
        let s = ChunkSearch { needle: slice_to_vec(needle, 0, needle.len()), overlap: Vec::new(), pos: 0, seen: Ghost(Seq::empty()) };
        proof {
            assert(s.overlap@ =~= s.seen@.skip(0));
        }
        SearchStart::Search(s)
    }

    /// Feed the next chunk. Returns where the needle occurs in the data fed so
    /// far, counting this chunk; if the search was exact, that is the first
    /// occurrence, and `None` means there is none.
    pub fn step(&mut self, chunk: &[u8]) -> (r: Option<usize>)
        requires
            old(self).wf(),
            old(self).spec_pos() + chunk@.len() <= usize::MAX,
        ensures
            r matches Some(p) ==> occurs_at(old(self).seen() + chunk@, old(self).needle(), p as int),
            old(self).exact() ==> match r {
                Some(p) => first_occurrence(old(self).seen() + chunk@, old(self).needle()) == Some(p as int),
                None => first_occurrence(old(self).seen() + chunk@, old(self).needle()) is None,
            },
            r is None ==> final(self).wf() && final(self).seen() == old(self).seen() + chunk@
                && final(self).needle() == old(self).needle(),
            r is None && old(self).exact() && (chunk@.len() + 1 >= old(self).needle().len()
                || old(self).seen().len() == 0) ==> final(self).exact(),
    {
        let ghost all = self.seen@ + chunk@;
        let ghost n = self.needle@.len() as int;
        let ghost k = self.seen@.len() - self.overlap@.len();
        let mut combined: Vec<u8> = Vec::new();
        let mut i: usize = 0;
        while i < self.overlap.len()
            invariant
                i <= self.overlap@.len(),
                combined@ == self.overlap@.take(i as int),
            decreases self.overlap.len() - i,
        {
            combined.push(self.overlap[i]);
            i = i + 1;
            assert(combined@ =~= self.overlap@.take(i as int));
        }
        let mut j: usize = 0;
        while j < chunk.len()
            invariant
                j <= chunk@.len(),
                combined@ == self.overlap@ + chunk@.take(j as int),
            decreases chunk.len() - j,
        {
            combined.push(chunk[j]);
            j = j + 1;
            assert(combined@ =~= self.overlap@ + chunk@.take(j as int));
        }
        proof {
            assert(self.overlap@.take(self.overlap@.len() as int) =~= self.overlap@);
            assert(chunk@.take(chunk@.len() as int) =~= chunk@);
            assert(combined@ =~= all.skip(k));
        }
        let found = find_bytes(combined.as_slice(), self.needle.as_slice());
        proof {
            lemma_first_occurrence(combined@, self.needle@);
        }
        match found {
            Some(q) => {
                let p = self.pos - self.overlap.len() + q;
                proof {
                    assert(all.subrange(p as int, p + n) =~= combined@.subrange(q as int, q + n));
                    if self.exact() {
                        assert forall|x: int| 0 <= x < p implies !occurs_at(all, self.needle@, x) by {
                            if occurs_at(all, self.needle@, x) {
                                if x < k {
                                    assert(all.subrange(x, x + n) =~= self.seen@.subrange(x, x + n));
                                    assert(occurs_at(self.seen@, self.needle@, x));
                                } else {
                                    assert(combined@.subrange(x - k, x - k + n) =~= all.subrange(x, x + n));
                                    assert(occurs_at(combined@, self.needle@, x - k));
                                }
                            }
                        }
                        lemma_first_occurrence_is(all, self.needle@, p as int);
                    }
                }
                Some(p)
            },
            None => {
                let nl = self.needle.len();
                let new_overlap: Vec<u8> = if chunk.len() >= nl - 1 {
                    let start = chunk.len() - (nl - 1);
                    slice_to_vec(chunk, start, chunk.len())
                } else {
                    slice_to_vec(chunk, 0, chunk.len())
                };
                proof {
                    if self.exact() {
                        assert forall|x: int| !occurs_at(all, self.needle@, x) by {
                            if occurs_at(all, self.needle@, x) {
                                if x < k {
                                    assert(all.subrange(x, x + n) =~= self.seen@.subrange(x, x + n));
                                    assert(occurs_at(self.seen@, self.needle@, x));
                                } else {
                                    assert(combined@.subrange(x - k, x - k + n) =~= all.subrange(x, x + n));
                                    assert(occurs_at(combined@, self.needle@, x - k));
                                }
                            }
                        }
                        lemma_no_occurrence(all, self.needle@);
                    }
                    if chunk@.len() + 1 >= n {
                        assert(new_overlap@ =~= all.skip(all.len() - new_overlap@.len()));
                    } else {
                        assert(new_overlap@ =~= chunk@);
                        if self.seen@.len() == 0 {
                            assert(all =~= chunk@);
                        }
                        assert(new_overlap@ =~= all.skip(all.len() - new_overlap@.len()));
                    }
                }
                self.overlap = new_overlap;
                self.pos = self.pos + chunk.len();
                self.seen = Ghost(all);
                None
            },
        }
    }
}

} // verus!

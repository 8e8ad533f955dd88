//! A cache of compiled regular expressions, bounded in size: when full, the
//! pattern compiled longest ago gives way. Hits and misses are counted.
use vstd::prelude::*;
use crate::expect::pattern::{regex_accepts, CompiledRegex};
use crate::text::str_eq;

verus! {

/// The default number of patterns kept.
pub const DEFAULT_CACHE_SIZE: usize = 100;

/// A cached expression: its source, its compiled form, how often it was used.
#[derive(Debug)]
struct CacheEntry {
    pattern: String,
    regex: CompiledRegex,
    hits: usize,
}

/// A bounded cache of compiled expressions, oldest first.
#[derive(Debug)]
pub struct RegexCache {
    entries: Vec<CacheEntry>,
    max_size: usize,
    total_hits: usize,
    total_misses: usize,
}

/// Cache statistics.
#[derive(Debug, Clone, Copy, PartialEq, Eq, Structural)]
pub struct CacheStats {
    /// Patterns cached.
    pub size: usize,
    /// The most that are kept.
    pub max_size: usize,
    /// Lookups that found their pattern.
    pub total_hits: usize,
    /// Lookups that did not.
    pub total_misses: usize,
}

/// One more, wrapping to 0.
pub open spec fn wrap_inc(x: usize) -> usize {
    if x == usize::MAX {
        0
    } else {
        (x + 1) as usize
    }
}

/// One more, wrapping to 0.
fn inc(x: usize) -> (r: usize)
    ensures
        r == wrap_inc(x),
{
    if x == usize::MAX {
        0
    } else {
        x + 1
    }
}

/// The index of pattern `p` in the cached sources, if there.
pub open spec fn index_of(ps: Seq<(Seq<char>, usize)>, p: Seq<char>) -> Option<int> {
    if exists|i: int| 0 <= i < ps.len() && (#[trigger] ps[i]).0 == p {
        Some(choose|i: int| 0 <= i < ps.len() && (#[trigger] ps[i]).0 == p)
    } else {
        None
    }
}

impl RegexCache {
    /// The cached sources with their hit counts, oldest first.
    pub closed spec fn contents(&self) -> Seq<(Seq<char>, usize)> {
        self.entries@.map_values(|e: CacheEntry| (e.pattern@, e.hits))
    }

    /// The most patterns kept.
    pub closed spec fn spec_max_size(&self) -> usize {
        self.max_size
    }

    /// Lookups that found their pattern.
    pub closed spec fn spec_hits(&self) -> usize {
        self.total_hits
    }

    /// Lookups that did not.
    pub closed spec fn spec_misses(&self) -> usize {
        self.total_misses
    }

    /// Each source is cached once, with its own compiled form.
    pub closed spec fn wf(&self) -> bool {
        &&& forall|i: int, j: int|
            0 <= i < j < self.entries@.len() ==> (#[trigger] self.entries@[i]).pattern@ != (#[trigger] self.entries@[j]).pattern@
        &&& forall|i: int| 0 <= i < self.entries@.len() ==> (#[trigger] self.entries@[i]).regex@ == self.entries@[i].pattern@
    }

    /// An empty cache keeping up to `max_size` patterns.
    pub fn new(max_size: usize) -> (r: Self)
        ensures
            r.wf(),
            r.contents().len() == 0,
            r.spec_max_size() == max_size,
            r.spec_hits() == 0,
            r.spec_misses() == 0,
    {
        let r = RegexCache { entries: Vec::new(), max_size, total_hits: 0, total_misses: 0 };
        assert(r.contents() =~= Seq::<(Seq<char>, usize)>::empty());
        r
    }

    /// An empty cache of the default size.
    pub fn with_default_size() -> (r: Self)
        ensures
            r.wf(),
            r.contents().len() == 0,
            r.spec_max_size() == DEFAULT_CACHE_SIZE,
            r.spec_hits() == 0,
            r.spec_misses() == 0,
    {
        Self::new(DEFAULT_CACHE_SIZE)
    }

    /// Where `pattern` is cached.
    fn position(&self, pattern: &str) -> (r: Option<usize>)
        ensures
            match r {
                Some(i) => i < self.entries@.len() && self.entries@[i as int].pattern@ == pattern@,
                None => forall|i: int| 0 <= i < self.entries@.len() ==> (#[trigger] self.entries@[i]).pattern@ != pattern@,
            },
    {
        let mut i: usize = 0;
        while i < self.entries.len()
            invariant
                i <= self.entries@.len(),
                forall|j: int| 0 <= j < i ==> (#[trigger] self.entries@[j]).pattern@ != pattern@,
            decreases self.entries.len() - i,
        {
            if str_eq(self.entries[i].pattern.as_str(), pattern) {
                return Some(i);
            }
            i = i + 1;
        }
        None
    }

    /// The compiled form of `pattern`: from the cache (a hit) or compiled
    /// now (a miss) and cached, the oldest pattern giving way when the cache
    /// is full. Counters wrap.
    pub fn get_or_compile(&mut self, pattern: &str) -> (r: Result<CompiledRegex, regex::Error>)
        requires
            old(self).wf(),
        ensures
            final(self).wf(),
            final(self).spec_max_size() == old(self).spec_max_size(),
            r matches Ok(c) ==> c@ == pattern@,
            match index_of(old(self).contents(), pattern@) {
                Some(i) => {
                    &&& r is Ok
                    &&& final(self).contents() == old(self).contents().update(
                        i,
                        (pattern@, wrap_inc(old(self).contents()[i].1)),
                    )
                    &&& final(self).spec_hits() == wrap_inc(old(self).spec_hits())
                    &&& final(self).spec_misses() == old(self).spec_misses()
                },
                None => {
                    &&& final(self).spec_hits() == old(self).spec_hits()
                    &&& final(self).spec_misses() == wrap_inc(old(self).spec_misses())
                    &&& (r is Ok <==> regex_accepts(pattern@))
                    &&& r is Err ==> final(self).contents() == old(self).contents()
                    &&& r is Ok ==> final(self).contents() == (if old(self).contents().len() >= old(self).spec_max_size()
                        && old(self).contents().len() > 0 {
                        old(self).contents().drop_first()
                    } else {
                        old(self).contents()
                    }).push((pattern@, 1usize))
                },
            },
    {
        let ghost before = self.contents();
        match self.position(pattern) {
            Some(i) => {
                let ghost before_e = self.entries@;
                let old_e = self.entries.remove(i);
                let c = old_e.regex.clone();
                let new_e = CacheEntry { pattern: old_e.pattern, regex: old_e.regex, hits: inc(old_e.hits) };
                self.entries.insert(i, new_e);
                self.total_hits = inc(self.total_hits);
                proof {
                    assert(self.entries@ =~= before_e.update(i as int, new_e));
                    assert(self.contents() =~= before.update(i as int, (pattern@, wrap_inc(before[i as int].1))));
                    assert(index_of(before, pattern@) == Some(i as int)) by {
                        let j = choose|j: int| 0 <= j < before.len() && (#[trigger] before[j]).0 == pattern@;
                        if j != i {
                            if j < i {
                                assert(old(self).entries@[j].pattern@ != old(self).entries@[i as int].pattern@);
                            } else {
                                assert(old(self).entries@[i as int].pattern@ != old(self).entries@[j].pattern@);
                            }
                        }
                    }
                }
                Ok(c)
            },
            None => {
                self.total_misses = inc(self.total_misses);
                proof {
                    assert(index_of(before, pattern@) is None) by {
                        if exists|j: int| 0 <= j < before.len() && (#[trigger] before[j]).0 == pattern@ {
                            let j = choose|j: int| 0 <= j < before.len() && (#[trigger] before[j]).0 == pattern@;
                            assert(self.entries@[j].pattern@ == pattern@);
                        }
                    }
                }
                match CompiledRegex::compile(pattern) {
                    Ok(c) => {
                        if self.entries.len() >= self.max_size && self.entries.len() > 0 {
                            self.entries.remove(0);
                        }
                        let kept = c.clone();
                        let ghost mid = self.entries@;
                        self.entries.push(CacheEntry { pattern: pattern.to_owned(), regex: kept, hits: 1 });
                        proof {
                            let expected = (if before.len() >= old(self).max_size && before.len() > 0 {
                                before.drop_first()
                            } else {
                                before
                            }).push((pattern@, 1usize));
                            assert(self.contents() =~= expected);
                            assert forall|a: int, b: int| 0 <= a < b < self.entries@.len() implies (#[trigger] self.entries@[a]).pattern@
                                != (#[trigger] self.entries@[b]).pattern@ by {
                                if b == self.entries@.len() - 1 {
                                    assert(self.entries@[a] == mid[a]);
                                } else {
                                    assert(self.entries@[a] == mid[a] && self.entries@[b] == mid[b]);
                                }
                            }
                        }
                        Ok(c)
                    },
                    Err(e) => Err(e),
                }
            },
        }
    }

    /// Whether `pattern` is cached.
    pub fn contains(&self, pattern: &str) -> (r: bool)
        ensures
            r == (exists|i: int| 0 <= i < self.contents().len() && (#[trigger] self.contents()[i]).0 == pattern@),
    {
        match self.position(pattern) {
            Some(i) => {
                assert(self.contents()[i as int].0 == pattern@);
                true
            },
            None => {
                proof {
                    if exists|i: int| 0 <= i < self.contents().len() && (#[trigger] self.contents()[i]).0 == pattern@ {
                        let i = choose|i: int| 0 <= i < self.contents().len() && (#[trigger] self.contents()[i]).0 == pattern@;
                        assert(self.entries@[i].pattern@ == pattern@);
                    }
                }
                false
            },
        }
    }

    /// How many patterns are cached.
    pub fn len(&self) -> (r: usize)
        ensures
            r == self.contents().len(),
    {
        self.entries.len()
    }

    /// Whether the cache is empty.
    pub fn is_empty(&self) -> (r: bool)
        ensures
            r == (self.contents().len() == 0),
    {
        self.entries.len() == 0
    }

    /// Empty the cache (the counters stay).
    pub fn clear(&mut self)
        ensures
            final(self).wf(),
            final(self).contents().len() == 0,
            final(self).spec_max_size() == old(self).spec_max_size(),
            final(self).spec_hits() == old(self).spec_hits(),
            final(self).spec_misses() == old(self).spec_misses(),
    {
        self.entries.clear();
    }

    /// The most patterns kept.
    pub fn max_size(&self) -> (r: usize)
        ensures
            r == self.spec_max_size(),
    {
        self.max_size
    }

    /// The statistics.
    pub fn stats(&self) -> (r: CacheStats)
        ensures
            r == (CacheStats {
                size: self.contents().len() as usize,
                max_size: self.spec_max_size(),
                total_hits: self.spec_hits(),
                total_misses: self.spec_misses(),
            }),
    {
        CacheStats {
            size: self.entries.len(),
            max_size: self.max_size,
            total_hits: self.total_hits,
            total_misses: self.total_misses,
        }
    }

    /// Lookups that found their pattern.
    pub fn total_hits(&self) -> (r: usize)
        ensures
            r == self.spec_hits(),
    {
        self.total_hits
    }

    /// Lookups that did not.
    pub fn total_misses(&self) -> (r: usize)
        ensures
            r == self.spec_misses(),
    {
        self.total_misses
    }
}

} // verus!

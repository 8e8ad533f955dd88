//! An insertion-ordered map from names to values (environment variables,
//! dialog variables and the like), with each name held at most once.
use vstd::prelude::*;

verus! {

/// Whether `k` names some entry of `s`.
pub open spec fn has_key(s: Seq<(String, String)>, k: Seq<char>) -> bool {
    exists|i: int| 0 <= i < s.len() && (#[trigger] s[i]).0@ == k
}

/// No name occurs twice.
pub open spec fn keys_unique(s: Seq<(String, String)>) -> bool {
    forall|i: int, j: int| 0 <= i < s.len() && 0 <= j < s.len() && i != j ==> (#[trigger] s[i]).0@ != (#[trigger] s[j]).0@
}

/// The names of the entries, in insertion order.
pub open spec fn key_seq(s: Seq<(String, String)>) -> Seq<Seq<char>> {
    s.map_values(|e: (String, String)| e.0@)
}

/// An ordered map of names to values.
#[derive(Debug)]
pub struct EnvMap {
    entries: Vec<(String, String)>,
}

impl EnvMap {
    #[verifier::type_invariant]
    spec fn inv(self) -> bool {
        keys_unique(self.entries@)
    }

    /// The entries, in insertion order.
    pub closed spec fn spec_entries(&self) -> Seq<(String, String)> {
        self.entries@
    }

    /// The map from names to values.
    pub open spec fn contents(&self) -> Map<Seq<char>, Seq<char>> {
        Map::new(
            |k: Seq<char>| has_key(self.spec_entries(), k),
            |k: Seq<char>|
                self.spec_entries()[choose|i: int|
                    0 <= i < self.spec_entries().len() && (#[trigger] self.spec_entries()[i]).0@
                        == k].1@,
        )
    }

    /// The names, in insertion order.
    pub open spec fn names(&self) -> Seq<Seq<char>> {
        key_seq(self.spec_entries())
    }

    /// An empty map.
    pub fn new() -> (r: Self)
        ensures
            r.spec_entries() == Seq::<(String, String)>::empty(),
            r.contents() == Map::<Seq<char>, Seq<char>>::empty(),
    {
        let r = EnvMap { entries: Vec::new() };
        assert(r.contents() =~= Map::<Seq<char>, Seq<char>>::empty());
        r
    }

    /// Number of entries.
    pub fn len(&self) -> (r: usize)
        ensures
            r == self.spec_entries().len(),
    {
        self.entries.len()
    }

    /// Whether there are no entries.
    pub fn is_empty(&self) -> (r: bool)
        ensures
            r == (self.spec_entries().len() == 0),
    {
        self.entries.len() == 0
    }

    /// The entries, in insertion order.
    pub fn entries(&self) -> (r: &Vec<(String, String)>)
        ensures
            r@ == self.spec_entries(),
    {
        &self.entries
    }

    /// Position of the entry named `key`, if any.
    pub fn position(&self, key: &str) -> (r: Option<usize>)
        ensures
            match r {
                Some(i) => i < self.spec_entries().len() && self.spec_entries()[i as int].0@ == key@,
                None => !has_key(self.spec_entries(), key@),
            },
    {
        let mut i: usize = 0;
        while i < self.entries.len()
            invariant
                i <= self.entries.len(),
                forall|j: int| 0 <= j < i ==> (#[trigger] self.entries@[j]).0@ != key@,
            decreases self.entries.len() - i,
        {
            if crate::text::string_eq_str(&self.entries[i].0, key) {
                return Some(i);
            }
            i = i + 1;
        }
        None
    }

    /// The value named `key`, if any.
    pub fn get(&self, key: &str) -> (r: Option<&String>)
        ensures
            match r {
                Some(v) => self.contents().contains_key(key@) && self.contents()[key@] == v@,
                None => !self.contents().contains_key(key@),
            },
    {
        proof {
            use_type_invariant(self);
        }
        match self.position(key) {
            Some(i) => {
                let v = &self.entries[i].1;
                proof {
                    let j = choose|j: int|
                        0 <= j < self.spec_entries().len() && (#[trigger] self.spec_entries()[j]).0@
                            == key@;
                    assert(j == i as int);
                }
                Some(v)
            },
            None => None,
        }
    }

    /// Whether some entry is named `key`.
    pub fn contains_key(&self, key: &str) -> (r: bool)
        ensures
            r == self.contents().contains_key(key@),
    {
        self.position(key).is_some()
    }

    /// Sets `key` to `value`: an existing entry keeps its place and takes
    /// the new value, a new name is added at the end.
    pub fn insert(&mut self, key: String, value: String)
        ensures
            final(self).contents() == old(self).contents().insert(key@, value@),
            has_key(old(self).spec_entries(), key@) ==> final(self).names() == old(self).names(),
            !has_key(old(self).spec_entries(), key@) ==> final(self).names() == old(
                self,
            ).names().push(key@),
    {
        proof {
            use_type_invariant(&*self);
        }
        let ghost old_e = self.entries@;
        match self.position(key.as_str()) {
            Some(i) => {
                let mut entries: Vec<(String, String)> = Vec::new();
                std::mem::swap(&mut entries, &mut self.entries);
                entries.set(i, (key, value));
                proof {
                    assert(keys_unique(entries@));
                }
                self.entries = entries;
            },
            None => {
                let mut entries: Vec<(String, String)> = Vec::new();
                std::mem::swap(&mut entries, &mut self.entries);
                entries.push((key, value));
                proof {
                    assert(keys_unique(entries@));
                }
                self.entries = entries;
            },
        }
        proof {
            let new_e = self.entries@;
            assert forall|k: Seq<char>| #[trigger] has_key(new_e, k) == (has_key(old_e, k) || k == key@) by {
                if has_key(old_e, k) {
                    let j = choose|j: int| 0 <= j < old_e.len() && (#[trigger] old_e[j]).0@ == k;
                    assert(new_e[j].0@ == k);
                }
                if k == key@ {
                    if has_key(old_e, key@) {
                    } else {
                        assert(new_e[new_e.len() - 1].0@ == k);
                    }
                }
            }
            assert(self.contents() =~= old(self).contents().insert(key@, value@));
            assert(key_seq(new_e) =~= (if has_key(old_e, key@) { key_seq(old_e) } else { key_seq(old_e).push(key@) }));
        }
    }

    /// Sets every entry of `other` in this map: the names of `other` take its
    /// values, the other names keep theirs.
    pub fn overlay(&mut self, other: &EnvMap)
        ensures
            final(self).contents() == old(self).contents().union_prefer_right(other.contents()),
    {
        proof {
            use_type_invariant(other);
        }
        let ghost oe = other.entries@;
        let mut i: usize = 0;
        while i < other.entries.len()
            invariant
                i <= oe.len(),
                oe == other.entries@,
                keys_unique(oe),
                forall|k: Seq<char>| #[trigger] self.contents().contains_key(k) <==> (old(self).contents().contains_key(k)
                    || exists|j: int| 0 <= j < i && (#[trigger] oe[j]).0@ == k),
                forall|k: Seq<char>| (exists|j: int| 0 <= j < i && (#[trigger] oe[j]).0@ == k)
                    ==> #[trigger] self.contents()[k] == other.contents()[k],
                forall|k: Seq<char>| !(exists|j: int| 0 <= j < i && (#[trigger] oe[j]).0@ == k) && old(self).contents().contains_key(k)
                    ==> #[trigger] self.contents()[k] == old(self).contents()[k],
            decreases oe.len() - i,
        {
            let key = other.entries[i].0.clone();
            let value = other.entries[i].1.clone();
            proof {
                let k = oe[i as int].0@;
                assert(has_key(oe, k));
                let c = choose|c: int| 0 <= c < oe.len() && (#[trigger] oe[c]).0@ == k;
                assert(c == i);
                assert(other.contents()[k] == value@);
            }
            self.insert(key, value);
            proof {
                assert forall|k: Seq<char>| (exists|j: int| 0 <= j < i + 1 && (#[trigger] oe[j]).0@ == k)
                    implies #[trigger] self.contents()[k] == other.contents()[k] by {
                    if k != oe[i as int].0@ {
                        let j = choose|j: int| 0 <= j < i + 1 && (#[trigger] oe[j]).0@ == k;
                        assert(j < i);
                    }
                }
                assert forall|k: Seq<char>| #[trigger] self.contents().contains_key(k) <==> (old(self).contents().contains_key(k)
                    || exists|j: int| 0 <= j < i + 1 && (#[trigger] oe[j]).0@ == k) by {
                    if exists|j: int| 0 <= j < i + 1 && (#[trigger] oe[j]).0@ == k {
                        if k != oe[i as int].0@ {
                            let j = choose|j: int| 0 <= j < i + 1 && (#[trigger] oe[j]).0@ == k;
                            assert(j < i);
                        }
                    }
                }
                assert forall|k: Seq<char>| !(exists|j: int| 0 <= j < i + 1 && (#[trigger] oe[j]).0@ == k)
                    && old(self).contents().contains_key(k) implies #[trigger] self.contents()[k] == old(self).contents()[k] by {
                    assert(k != oe[i as int].0@);
                }
            }
            i = i + 1;
        }
        proof {
            assert forall|k: Seq<char>| #[trigger] other.contents().contains_key(k) <==> exists|j: int| 0 <= j < oe.len() && (#[trigger] oe[j]).0@ == k by {}
            assert(self.contents() =~= old(self).contents().union_prefer_right(other.contents()));
        }
    }

    /// Removes the entry named `key`, returning its value.
    pub fn remove(&mut self, key: &str) -> (r: Option<String>)
        ensures
            final(self).contents() == old(self).contents().remove(key@),
            match r {
                Some(v) => old(self).contents().contains_key(key@) && old(self).contents()[key@] == v@,
                None => !old(self).contents().contains_key(key@),
            },
    {
        proof {
            use_type_invariant(&*self);
        }
        let ghost old_e = self.entries@;
        match self.position(key) {
            Some(i) => {
                let mut entries: Vec<(String, String)> = Vec::new();
                std::mem::swap(&mut entries, &mut self.entries);
                let (_k, v) = entries.remove(i);
                proof {
                    assert(keys_unique(entries@));
                    let new_e = entries@;
                    assert forall|k: Seq<char>| #[trigger] has_key(new_e, k) == (has_key(old_e, k) && k != key@) by {
                        if has_key(old_e, k) && k != key@ {
                            let j = choose|j: int| 0 <= j < old_e.len() && (#[trigger] old_e[j]).0@ == k;
                            if j < i { assert(new_e[j].0@ == k); } else { assert(new_e[j - 1].0@ == k); }
                        }
                        if has_key(new_e, k) {
                            let j = choose|j: int| 0 <= j < new_e.len() && (#[trigger] new_e[j]).0@ == k;
                            if j < i { assert(old_e[j].0@ == k); } else { assert(old_e[j + 1].0@ == k); }
                        }
                    }
                    let j = choose|j: int| 0 <= j < old_e.len() && (#[trigger] old_e[j]).0@ == key@;
                    assert(j == i as int);
                }
                self.entries = entries;
                proof {
                    assert(self.contents() =~= old(self).contents().remove(key@));
                }
                Some(v)
            },
            None => {
                proof {
                    assert(self.contents() =~= old(self).contents().remove(key@));
                }
                None
            },
        }
    }
}

impl Clone for EnvMap {
    fn clone(&self) -> (r: Self)
        ensures
            r.spec_entries() == self.spec_entries(),
    {
        proof {
            use_type_invariant(self);
        }
        let mut v: Vec<(String, String)> = Vec::new();
        let mut i: usize = 0;
        while i < self.entries.len()
            invariant
                i <= self.entries.len(),
                v@ == self.entries@.subrange(0, i as int),
            decreases self.entries.len() - i,
        {
            let k = self.entries[i].0.clone();
            let val = self.entries[i].1.clone();
            v.push((k, val));
            i = i + 1;
            assert(v@ =~= self.entries@.subrange(0, i as int));
        }
        assert(self.entries@.subrange(0, i as int) =~= self.entries@);
        EnvMap { entries: v }
    }
}

/// Builds a map from literal pairs, later pairs overriding earlier ones.
pub fn env_map_from_pairs(pairs: &[(&str, &str)]) -> (r: EnvMap)
    ensures
        forall|i: int| 0 <= i < pairs.len() ==> #[trigger] r.contents().contains_key(pairs[i].0@),
{
    let mut m = EnvMap::new();
    let mut i: usize = 0;
    while i < pairs.len()
        invariant
            i <= pairs.len(),
            forall|j: int| 0 <= j < i ==> #[trigger] m.contents().contains_key(pairs[j].0@),
        decreases pairs.len() - i,
    {
        let (k, v) = pairs[i];
        m.insert(k.to_owned(), v.to_owned());
        i = i + 1;
    }
    m
}

} // verus!

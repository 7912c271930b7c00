//! A map from service tags to values, kept as a list of distinct tags.

use vstd::prelude::*;
use crate::text::chars_of;
use crate::path::components::chars_equal;

verus! {

/// Whether the tags of the entries are pairwise distinct.
pub open spec fn tags_distinct<V>(es: Seq<(Seq<char>, V)>) -> bool {
    forall|i: int, j: int| 0 <= i < j < es.len() ==> (#[trigger] es[i]).0 != (#[trigger] es[j]).0
}

/// The entries of a list of tag/value pairs, with each tag taken as characters.
pub open spec fn entry_views<V>(es: Seq<(String, V)>) -> Seq<(Seq<char>, V)> {
    es.map_values(|e: (String, V)| (e.0@, e.1))
}

/// Tags mapped to values. Each tag appears at most once; entries keep their
/// insertion order.
#[derive(Debug)]
pub struct TagMap<V> {
    entries: Vec<(String, V)>,
}

impl<V> TagMap<V> {
    #[verifier::type_invariant]
    spec fn distinct(&self) -> bool {
        tags_distinct(entry_views(self.entries@))
    }

    /// The entries, in insertion order.
    pub closed spec fn spec_entries(&self) -> Seq<(Seq<char>, V)> {
        entry_views(self.entries@)
    }

    /// The map from tags to values.
    pub open spec fn spec_map(&self) -> Map<Seq<char>, V> {
        Map::new(
            |t: Seq<char>| exists|i: int| 0 <= i < self.spec_entries().len() && (#[trigger] self.spec_entries()[i]).0 == t,
            |t: Seq<char>| self.spec_entries()[choose|i: int| 0 <= i < self.spec_entries().len() && (#[trigger] self.spec_entries()[i]).0 == t].1,
        )
    }

    /// An empty map.
    pub fn new() -> (m: Self)
        ensures
            m.spec_entries().len() == 0,
    {
        TagMap { entries: Vec::new() }
    }

    /// Tags are pairwise distinct.
    pub fn check_distinct(&self)
        ensures
            tags_distinct(self.spec_entries()),
    {
        proof { use_type_invariant(self); }
    }

    fn index_of(&self, tag: &str) -> (r: Option<usize>)
        ensures
            match r {
                Some(i) => i < self.spec_entries().len() && self.spec_entries()[i as int].0 == tag@,
                None => forall|j: int| 0 <= j < self.spec_entries().len() ==> (#[trigger] self.spec_entries()[j]).0 != tag@,
            },
    {
        let t = chars_of(tag);
        let mut i: usize = 0;
        while i < self.entries.len()
            invariant
                i <= self.entries@.len(),
                t@ == tag@,
                forall|j: int| 0 <= j < i ==> (#[trigger] entry_views(self.entries@)[j]).0 != tag@,
            decreases self.entries@.len() - i,
        {
            let e = chars_of(self.entries[i].0.as_str());
            if chars_equal(&e, &t) {
                return Some(i);
            }
            i = i + 1;
        }
        None
    }

    /// Sets the value for `tag`, replacing an existing one in place or appending.
    pub fn insert(&mut self, tag: String, value: V)
        ensures
            ({
                let old_es = old(self).spec_entries();
                let i = choose|i: int| 0 <= i < old_es.len() && (#[trigger] old_es[i]).0 == tag@;
                if exists|i: int| 0 <= i < old_es.len() && (#[trigger] old_es[i]).0 == tag@ {
                    final(self).spec_entries() == old_es.update(i, (tag@, value))
                } else {
                    final(self).spec_entries() == old_es.push((tag@, value))
                }
            }),
    {
        proof { use_type_invariant(&*self); }
        let ghost old_es = self.spec_entries();
        let found = self.index_of(tag.as_str());
        let mut entries: Vec<(String, V)> = Vec::new();
        std::mem::swap(&mut entries, &mut self.entries);
        let ghost tv = tag@;
        match found {
            Some(i) => {
                proof {
                    assert forall|k: int| 0 <= k < old_es.len() && (#[trigger] old_es[k]).0 == tag@ implies k == i by {
                        if k != i {
                            if k < i { assert(old_es[k].0 != old_es[i as int].0); }
                            else { assert(old_es[i as int].0 != old_es[k].0); }
                        }
                    }
                }
                entries.set(i, (tag, value));
                proof {
                    assert(entry_views(entries@) =~= old_es.update(i as int, (tv, value)));
                }
            },
            None => {
                entries.push((tag, value));
                proof {
                    assert(entry_views(entries@) =~= old_es.push((tv, value)));
                }
            },
        }
        proof {
            let n = entry_views(entries@);
            assert forall|a: int, b: int| 0 <= a < b < n.len() implies (#[trigger] n[a]).0 != (#[trigger] n[b]).0 by {
                if found is Some {
                    let i = found->0 as int;
                    if a != i && b != i { assert(n[a] == old_es[a] && n[b] == old_es[b]); }
                    else if a == i { assert(n[b] == old_es[b]); assert(old_es[i].0 != old_es[b].0); }
                    else { assert(n[a] == old_es[a]); assert(old_es[a].0 != old_es[i].0); }
                } else {
                    if b == old_es.len() { assert(n[a] == old_es[a]); }
                    else { assert(n[a] == old_es[a] && n[b] == old_es[b]); }
                }
            }
        }
        self.entries = entries;
    }

    /// The value stored for `tag`, if any.
    pub fn get(&self, tag: &str) -> (r: Option<&V>)
        ensures
            match r {
                Some(v) => exists|i: int| 0 <= i < self.spec_entries().len()
                    && (#[trigger] self.spec_entries()[i]).0 == tag@ && self.spec_entries()[i].1 == *v,
                None => forall|j: int| 0 <= j < self.spec_entries().len() ==> (#[trigger] self.spec_entries()[j]).0 != tag@,
            },
    {
        match self.index_of(tag) {
            Some(i) => {
                assert(entry_views(self.entries@)[i as int].1 == self.entries@[i as int].1);
                Some(&self.entries[i].1)
            },
            None => None,
        }
    }

    /// Whether `tag` has a value.
    pub fn contains_key(&self, tag: &str) -> (r: bool)
        ensures
            r == exists|i: int| 0 <= i < self.spec_entries().len() && (#[trigger] self.spec_entries()[i]).0 == tag@,
    {
        self.index_of(tag).is_some()
    }

    /// The number of tags.
    pub fn len(&self) -> (r: usize)
        ensures r == self.spec_entries().len(),
    {
        self.entries.len()
    }

    /// Whether there are no tags.
    pub fn is_empty(&self) -> (r: bool)
        ensures r == (self.spec_entries().len() == 0),
    {
        self.entries.len() == 0
    }

    /// The entries, in insertion order.
    pub fn entries(&self) -> (r: &Vec<(String, V)>)
        ensures
            entry_views(r@) == self.spec_entries(),
    {
        &self.entries
    }
}

} // verus!

//! The headers of a request: a map from names to values in which a later
//! value for a name replaces the earlier one.

use vstd::prelude::*;

verus! {

/// Whether entry `i` of `entries` is the one for `name`.
pub open spec fn names_entry(entries: Seq<(String, String)>, i: int, name: Seq<char>) -> bool {
    0 <= i < entries.len() && entries[i].0@ == name
}

/// Whether no name occurs twice in `entries`.
pub open spec fn distinct_names(entries: Seq<(String, String)>) -> bool {
    forall|i: int, j: int|
        0 <= i < j < entries.len() ==> (#[trigger] entries[i]).0@ != (#[trigger] entries[j]).0@
}

/// The map that a list of entries stands for: each name that occurs, with
/// the value that stands beside it.
pub open spec fn map_of(entries: Seq<(String, String)>) -> Map<Seq<char>, Seq<char>> {
    Map::new(
        |name: Seq<char>| exists|i: int| names_entry(entries, i, name),
        |name: Seq<char>| entries[choose|i: int| names_entry(entries, i, name)].1@,
    )
}

/// A list of entries with distinct names stands for a map with as many keys.
pub proof fn lemma_map_of_len(entries: Seq<(String, String)>)
    requires
        distinct_names(entries),
    ensures
        map_of(entries).dom().finite(),
        map_of(entries).dom().len() == entries.len(),
    decreases entries.len(),
{
    if entries.len() == 0 {
        assert(map_of(entries).dom() =~= Set::<Seq<char>>::empty());
    } else {
        let front = entries.drop_last();
        let last = entries.last();
        lemma_map_of_len(front);
        assert(map_of(entries).dom() =~= map_of(front).dom().insert(last.0@)) by {
            assert forall|name: Seq<char>|
                map_of(front).dom().insert(last.0@).contains(name) implies map_of(
                entries,
            ).dom().contains(name) by {
                if name == last.0@ {
                    assert(names_entry(entries, entries.len() - 1, name));
                } else {
                    let i = choose|i: int| names_entry(front, i, name);
                    assert(names_entry(entries, i, name));
                }
            }
            assert forall|name: Seq<char>| map_of(entries).dom().contains(name) implies map_of(
                front,
            ).dom().insert(last.0@).contains(name) by {
                let i = choose|i: int| names_entry(entries, i, name);
                if i < entries.len() - 1 {
                    assert(names_entry(front, i, name));
                }
            }
        }
    }
}

/// The headers of one request. No name is held twice: setting a header that
/// is there already replaces its value.
#[derive(Debug)]
pub struct HeaderMap {
    entries: Vec<(String, String)>,
}

impl View for HeaderMap {
    type V = Map<Seq<char>, Seq<char>>;

    closed spec fn view(&self) -> Map<Seq<char>, Seq<char>> {
        map_of(self.entries@)
    }
}

impl HeaderMap {
    /// The invariant of the type: no name is held twice.
    pub closed spec fn wf(&self) -> bool {
        distinct_names(self.entries@)
    }

    /// A map without headers.
    pub fn new() -> (headers: Self)
        ensures
            headers.wf(),
            headers@ == Map::<Seq<char>, Seq<char>>::empty(),
    {
        let headers = HeaderMap { entries: Vec::new() };
        headers
    }

    /// Where the entry for `name` stands, if there is one.
    fn position(&self, name: &String) -> (at: Option<usize>)
        ensures
            at matches Some(i) ==> names_entry(self.entries@, i as int, name@),
            at is None ==> forall|i: int| !names_entry(self.entries@, i, name@),
    {
        let mut i: usize = 0;
        while i < self.entries.len()
            invariant
                i <= self.entries.len(),
                forall|k: int| 0 <= k < i ==> !names_entry(self.entries@, k, name@),
            decreases self.entries.len() - i,
        {
            if self.entries[i].0 == *name {
                return Some(i);
            }
            i += 1;
        }
        None
    }

    /// Sets the header `name` to `value`. A value that the name had before
    /// is replaced; every other header stays as it is.
    pub fn insert(&mut self, name: String, value: String)
        requires
            old(self).wf(),
        ensures
            final(self).wf(),
            final(self)@ == old(self)@.insert(name@, value@),
    {
        let ghost before = self.entries@;
        let ghost key = name@;
        let ghost val = value@;
        match self.position(&name) {
            Some(i) => {
                self.entries.set(i, (name, value));
                let ghost after = self.entries@;
                assert forall|k: int, n: Seq<char>| names_entry(after, k, n) == names_entry(
                    before,
                    k,
                    n,
                ) by {}
                assert(map_of(after) =~= map_of(before).insert(key, val));
            },
            None => {
                self.entries.push((name, value));
                let ghost after = self.entries@;
                assert(distinct_names(after)) by {
                    assert forall|a: int, b: int| 0 <= a < b < after.len() implies (
                    #[trigger] after[a]).0@ != (#[trigger] after[b]).0@ by {
                        if b == before.len() {
                            assert(!names_entry(before, a, key));
                        }
                    }
                }
                assert(map_of(after) =~= map_of(before).insert(key, val)) by {
                    assert forall|n: Seq<char>|
                        map_of(before).insert(key, val).dom().contains(n) implies map_of(
                        after,
                    ).dom().contains(n) by {
                        if n == key {
                            assert(names_entry(after, before.len() as int, n));
                        } else {
                            let k = choose|k: int| names_entry(before, k, n);
                            assert(names_entry(after, k, n));
                        }
                    }
                    assert forall|n: Seq<char>| #[trigger]
                        map_of(after).dom().contains(n) implies map_of(before).insert(
                        key,
                        val,
                    ).dom().contains(n) && map_of(after)[n] == map_of(before).insert(key, val)[n] by {
                        let k = choose|k: int| names_entry(after, k, n);
                        if k < before.len() {
                            assert(names_entry(before, k, n));
                        }
                    }
                }
            },
        }
    }

    /// The value of the header `name`, if the map holds one.
    pub fn get(&self, name: &str) -> (value: Option<&String>)
        requires
            self.wf(),
        ensures
            value matches Some(v) ==> self@.contains_key(name@) && v@ == self@[name@],
            value is None ==> !self@.contains_key(name@),
    {
        let name: String = name.to_owned();
        match self.position(&name) {
            Some(i) => {
                assert(names_entry(self.entries@, i as int, name@));
                Some(&self.entries[i].1)
            },
            None => None,
        }
    }

    /// Whether the map holds a header `name`.
    pub fn contains(&self, name: &str) -> (held: bool)
        ensures
            held == self@.contains_key(name@),
    {
        let name: String = name.to_owned();
        self.position(&name).is_some()
    }

    /// How many headers the map holds.
    pub fn len(&self) -> (count: usize)
        requires
            self.wf(),
        ensures
            self@.dom().finite(),
            count == self@.dom().len(),
    {
        proof {
            lemma_map_of_len(self.entries@);
        }
        self.entries.len()
    }

    /// Whether the map holds no header.
    pub fn is_empty(&self) -> (empty: bool)
        ensures
            empty == (self@ == Map::<Seq<char>, Seq<char>>::empty()),
    {
        let empty = self.entries.len() == 0;
        proof {
            if empty {
                assert(self@ =~= Map::<Seq<char>, Seq<char>>::empty());
            } else {
                assert(names_entry(self.entries@, 0, self.entries@[0].0@));
                assert(self@.dom().contains(self.entries@[0].0@));
            }
        }
        empty
    }

    /// The headers one by one, each name once, in the order in which the
    /// names were first set.
    pub fn entries(&self) -> (entries: &Vec<(String, String)>)
        requires
            self.wf(),
        ensures
            distinct_names(entries@),
            map_of(entries@) == self@,
    {
        &self.entries
    }
}

} // verus!

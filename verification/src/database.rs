//! The identifier index: which original file name each note identifier came
//! from. The caller persists and restores it as a flat list of pairs.

use vstd::prelude::*;
use vstd::pervasive::VecAdditionalExecFns;

verus! {

/// The map a list of pairs denotes, later entries winning.
pub open spec fn entries_map(s: Seq<(String, String)>) -> Map<Seq<char>, Seq<char>>
    decreases s.len(),
{
    if s.len() == 0 {
        Map::empty()
    } else {
        entries_map(s.drop_last()).insert(s.last().0@, s.last().1@)
    }
}

/// No two entries share a key.
pub open spec fn unique_keys(s: Seq<(String, String)>) -> bool {
    forall|a: int, b: int| 0 <= a < b < s.len() ==> (#[trigger] s[a]).0@ != (#[trigger] s[b]).0@
}

/// An entry's key is in the map, bound to that entry's value.
proof fn lemma_entries_map_get(s: Seq<(String, String)>, j: int)
    requires
        0 <= j < s.len(),
        unique_keys(s),
    ensures
        entries_map(s).contains_key(s[j].0@),
        entries_map(s)[s[j].0@] == s[j].1@,
    decreases s.len(),
{
    if j == s.len() - 1 {
    } else {
        assert forall|a: int, b: int|
            0 <= a < b < s.drop_last().len() implies (#[trigger] s.drop_last()[a]).0@ != (
        #[trigger] s.drop_last()[b]).0@ by {
            assert(s.drop_last()[a] == s[a]);
            assert(s.drop_last()[b] == s[b]);
        }
        lemma_entries_map_get(s.drop_last(), j);
        assert(s.drop_last()[j] == s[j]);
        assert(s[j].0@ != s.last().0@) by {
            assert(s[s.len() - 1] == s.last());
        }
    }
}

/// A key held by no entry is not in the map.
proof fn lemma_entries_map_absent(s: Seq<(String, String)>, key: Seq<char>)
    requires
        forall|j: int| 0 <= j < s.len() ==> (#[trigger] s[j]).0@ != key,
    ensures
        !entries_map(s).contains_key(key),
    decreases s.len(),
{
    if s.len() > 0 {
        assert forall|j: int|
            0 <= j < s.drop_last().len() implies (#[trigger] s.drop_last()[j]).0@ != key by {
            assert(s.drop_last()[j] == s[j]);
        }
        lemma_entries_map_absent(s.drop_last(), key);
        assert(s[s.len() - 1] == s.last());
    }
}

/// Overwriting the entry that holds a key is inserting into the map.
proof fn lemma_entries_map_update(s: Seq<(String, String)>, j: int, p: (String, String))
    requires
        0 <= j < s.len(),
        unique_keys(s),
        p.0@ == s[j].0@,
    ensures
        entries_map(s.update(j, p)) == entries_map(s).insert(p.0@, p.1@),
    decreases s.len(),
{
    let t = s.update(j, p);
    if j == s.len() - 1 {
        assert(t.drop_last() =~= s.drop_last());
        assert(t.last() == p);
        assert(entries_map(s.drop_last()).insert(s.last().0@, s.last().1@).insert(p.0@, p.1@)
            =~= entries_map(s.drop_last()).insert(p.0@, p.1@)) by {
            assert(s[s.len() - 1] == s.last());
        }
    } else {
        assert forall|a: int, b: int|
            0 <= a < b < s.drop_last().len() implies (#[trigger] s.drop_last()[a]).0@ != (
        #[trigger] s.drop_last()[b]).0@ by {
            assert(s.drop_last()[a] == s[a]);
            assert(s.drop_last()[b] == s[b]);
        }
        assert(s.drop_last()[j] == s[j]);
        lemma_entries_map_update(s.drop_last(), j, p);
        assert(t.drop_last() =~= s.drop_last().update(j, p));
        assert(t.last() == s.last());
        assert(s[j].0@ != s.last().0@) by {
            assert(s[s.len() - 1] == s.last());
        }
        assert(entries_map(s.drop_last()).insert(p.0@, p.1@).insert(s.last().0@, s.last().1@)
            =~= entries_map(s.drop_last()).insert(s.last().0@, s.last().1@).insert(p.0@, p.1@));
    }
}

/// Maps each note identifier to the original name of the file it came from.
pub struct NoteDatabase {
    entries: Vec<(String, String)>,
}

impl View for NoteDatabase {
    type V = Map<Seq<char>, Seq<char>>;

    closed spec fn view(&self) -> Map<Seq<char>, Seq<char>> {
        entries_map(self.entries@)
    }
}

impl NoteDatabase {
    /// The index is well formed: no identifier appears twice.
    pub closed spec fn wf(&self) -> bool {
        unique_keys(self.entries@)
    }

    /// An empty index.
    pub fn new() -> (r: NoteDatabase)
        ensures
            r.wf(),
            r@ == Map::<Seq<char>, Seq<char>>::empty(),
    {
        NoteDatabase { entries: Vec::new() }
    }

    /// Records the original file name for an identifier, replacing whatever
    /// name the identifier was bound to before.
    pub fn insert(&mut self, uuid: String, original_filename: String)
        requires
            old(self).wf(),
        ensures
            final(self).wf(),
            final(self)@ == old(self)@.insert(uuid@, original_filename@),
    {
        let ghost s0 = self.entries@;
        let mut k: usize = 0;
        while k < self.entries.len()
            invariant
                0 <= k <= self.entries@.len(),
                self.entries@ == s0,
                old(self).entries@ == s0,
                unique_keys(s0),
                forall|j: int| 0 <= j < k ==> (#[trigger] s0[j]).0@ != uuid@,
            decreases self.entries@.len() - k,
        {
            if self.entries[k].0 == uuid {
                let pair = (uuid, original_filename);
                self.entries.set(k, pair);
                proof {
                    lemma_entries_map_update(s0, k as int, pair);
                    assert forall|a: int, b: int|
                        0 <= a < b < self.entries@.len() implies (
                    #[trigger] self.entries@[a]).0@ != (#[trigger] self.entries@[b]).0@ by {
                        if a != k && b != k {
                            assert(self.entries@[a] == s0[a]);
                            assert(self.entries@[b] == s0[b]);
                        } else if a == k {
                            assert(self.entries@[b] == s0[b]);
                            assert(s0[a as int].0@ == pair.0@);
                        } else {
                            assert(self.entries@[a] == s0[a]);
                            assert(s0[b as int].0@ == pair.0@);
                        }
                    }
                }
                return ;
            }
            k += 1;
        }
        let pair = (uuid, original_filename);
        let ghost before = self.entries@;
        self.entries.push(pair);
        proof {
            assert(self.entries@.drop_last() =~= before);
            assert(self.entries@.last() == pair);
            lemma_entries_map_absent(before, uuid@);
            assert forall|a: int, b: int|
                0 <= a < b < self.entries@.len() implies (#[trigger] self.entries@[a]).0@ != (
            #[trigger] self.entries@[b]).0@ by {
                if b < self.entries@.len() - 1 {
                    assert(self.entries@[a] == before[a]);
                    assert(self.entries@[b] == before[b]);
                } else {
                    assert(self.entries@[a] == before[a]);
                    assert(self.entries@[b] == pair);
                }
            }
        }
    }

    /// The original file name an identifier was recorded under, if any.
    pub fn get(&self, uuid: &String) -> (r: Option<&String>)
        requires
            self.wf(),
        ensures
            r matches Some(v) ==> self@.contains_key(uuid@) && v@ == self@[uuid@],
            r is None ==> !self@.contains_key(uuid@),
    {
        let mut k: usize = 0;
        while k < self.entries.len()
            invariant
                0 <= k <= self.entries@.len(),
                self.wf(),
                forall|j: int| 0 <= j < k ==> (#[trigger] self.entries@[j]).0@ != uuid@,
            decreases self.entries@.len() - k,
        {
            if self.entries[k].0 == *uuid {
                proof {
                    lemma_entries_map_get(self.entries@, k as int);
                }
                return Some(&self.entries[k].1);
            }
            k += 1;
        }
        proof {
            lemma_entries_map_absent(self.entries@, uuid@);
        }
        None
    }

    /// The raw entries, for persistence: each pair is one binding of the map,
    /// and together they denote exactly the map.
    pub fn entries(&self) -> (r: &Vec<(String, String)>)
        requires
            self.wf(),
        ensures
            entries_map(r@) == self@,
            forall|k: int|
                0 <= k < r@.len() ==> self@.contains_key((#[trigger] r@[k]).0@) && self@[r@[k].0@]
                    == r@[k].1@,
    {
        proof {
            assert forall|k: int|
                0 <= k < self.entries@.len() implies self@.contains_key(
                (#[trigger] self.entries@[k]).0@,
            ) && self@[self.entries@[k].0@] == self.entries@[k].1@ by {
                lemma_entries_map_get(self.entries@, k);
            }
        }
        &self.entries
    }

    /// Rebuilds an index from persisted pairs; when a key was somehow written
    /// twice, the later binding wins, as it would have in the live map.
    pub fn from_entries(list: Vec<(String, String)>) -> (r: NoteDatabase)
        ensures
            r.wf(),
            r@ == entries_map(list@),
    {
        let mut db = NoteDatabase::new();
        let mut k: usize = 0;
        while k < list.len()
            invariant
                0 <= k <= list@.len(),
                db.wf(),
                db@ == entries_map(list@.subrange(0, k as int)),
            decreases list@.len() - k,
        {
            let ghost prefix = list@.subrange(0, k as int);
            let ghost prefix_next = list@.subrange(0, k as int + 1);
            let key = list[k].0.clone();
            let val = list[k].1.clone();
            proof {
                assert(prefix_next.drop_last() =~= prefix);
                assert(prefix_next.last() == list@[k as int]);
            }
            db.insert(key, val);
            k += 1;
        }
        proof {
            assert(list@.subrange(0, list@.len() as int) =~= list@);
        }
        db
    }
}

} // verus!

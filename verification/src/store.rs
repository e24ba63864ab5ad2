//! The deterministic key-value store that holds every record.
//!
//! Records live at addresses from the address module; the store keeps one
//! record per address and knows nothing of the records' meaning. Its ghost
//! model is a map from addresses to record models, and each operation's
//! contract is stated over that map: `read` returns what the map holds,
//! and `upsert` is exactly a map insert ("create at address if absent,
//! else replace the record there").

use vstd::prelude::*;

use crate::bytes::bytes_eq;
use crate::records::Record;
use crate::records::RecordModel;

verus! {

/// The ghost state of the store: a map from addresses to record models.
pub type StoreModel = Map<Seq<u8>, RecordModel>;

/// The map described by an association list, later entries taking
/// precedence (with unique keys the order never matters).
spec fn entries_model(s: Seq<(Vec<u8>, Record)>) -> StoreModel
    decreases s.len(),
{
    if s.len() == 0 {
        Map::empty()
    } else {
        entries_model(s.drop_last()).insert(s.last().0@, s.last().1@)
    }
}

/// No two entries share an address.
spec fn unique_keys(s: Seq<(Vec<u8>, Record)>) -> bool {
    forall|i: int, j: int| 0 <= i < j < s.len() ==> s[i].0@ != s[j].0@
}

/// A key is in the map exactly when some entry holds it.
proof fn lemma_model_contains(s: Seq<(Vec<u8>, Record)>, k: Seq<u8>)
    ensures
        entries_model(s).contains_key(k) <==> exists|i: int| 0 <= i < s.len() && s[i].0@ == k,
    decreases s.len(),
{
    if s.len() > 0 {
        lemma_model_contains(s.drop_last(), k);
        if s.last().0@ == k {
            assert(s[s.len() - 1].0@ == k);
        } else if entries_model(s).contains_key(k) {
            let i = choose|i: int| 0 <= i < s.drop_last().len() && s.drop_last()[i].0@ == k;
            assert(s[i].0@ == k);
        } else {
            assert forall|i: int| 0 <= i < s.len() implies s[i].0@ != k by {
                if i < s.len() - 1 {
                    assert(s.drop_last()[i].0@ == s[i].0@);
                }
            }
        }
    }
}

/// With unique keys, the map sends each entry's address to its record.
proof fn lemma_model_get(s: Seq<(Vec<u8>, Record)>, i: int)
    requires
        unique_keys(s),
        0 <= i < s.len(),
    ensures
        entries_model(s).contains_key(s[i].0@),
        entries_model(s)[s[i].0@] == s[i].1@,
    decreases s.len(),
{
    if i < s.len() - 1 {
        assert(unique_keys(s.drop_last()));
        lemma_model_get(s.drop_last(), i);
        assert(s.drop_last()[i] == s[i]);
        assert(s.last().0@ != s[i].0@);
    }
}

/// Replacing the record of one entry is a map insert at its address.
proof fn lemma_model_update(s: Seq<(Vec<u8>, Record)>, i: int, p: (Vec<u8>, Record))
    requires
        unique_keys(s),
        0 <= i < s.len(),
        p.0@ == s[i].0@,
    ensures
        entries_model(s.update(i, p)) == entries_model(s).insert(p.0@, p.1@),
    decreases s.len(),
{
    let su = s.update(i, p);
    if i == s.len() - 1 {
        assert(su.drop_last() =~= s.drop_last());
        assert(su.last() == p);
        assert(entries_model(s.drop_last()).insert(p.0@, p.1@)
            =~= entries_model(s.drop_last()).insert(s.last().0@, s.last().1@).insert(p.0@, p.1@));
    } else {
        assert(unique_keys(s.drop_last()));
        assert(s.drop_last()[i] == s[i]);
        lemma_model_update(s.drop_last(), i, p);
        assert(su.drop_last() =~= s.drop_last().update(i, p));
        assert(su.last() == s.last());
        assert(s.last().0@ != p.0@);
        assert(entries_model(s.drop_last()).insert(p.0@, p.1@).insert(s.last().0@, s.last().1@)
            =~= entries_model(s.drop_last()).insert(s.last().0@, s.last().1@).insert(p.0@, p.1@));
    }
}

/// The deterministic key-value store: an address-keyed collection of
/// records with one record per address.
pub struct RecordStore {
    entries: Vec<(Vec<u8>, Record)>,
}

impl View for RecordStore {
    type V = StoreModel;

    closed spec fn view(&self) -> StoreModel {
        entries_model(self.entries@)
    }
}

impl RecordStore {
    /// The store keeps at most one record per address.
    pub closed spec fn wf(&self) -> bool {
        unique_keys(self.entries@)
    }

    /// An empty store.
    pub fn new() -> (s: Self)
        ensures
            s@ == Map::<Seq<u8>, RecordModel>::empty(),
            s.wf(),
    {
        RecordStore { entries: Vec::new() }
    }

    /// The position of the entry at an address, if one exists.
    fn find_index(&self, address: &Vec<u8>) -> (r: Option<usize>)
        ensures
            match r {
                Some(i) => i < self.entries@.len() && self.entries@[i as int].0@ == address@,
                None => forall|i: int|
                    0 <= i < self.entries@.len() ==> self.entries@[i].0@ != address@,
            },
    {
        let mut i: usize = 0;
        while i < self.entries.len()
            invariant
                i <= self.entries@.len(),
                forall|j: int| 0 <= j < i ==> self.entries@[j].0@ != address@,
            decreases self.entries@.len() - i,
        {
            if bytes_eq(&self.entries[i].0, address) {
                return Some(i);
            }
            i += 1;
        }
        None
    }

    /// Reads the record at an address, if one exists.
    pub fn read(&self, address: &Vec<u8>) -> (r: Option<&Record>)
        requires
            self.wf(),
        ensures
            match r {
                Some(rec) => self@.contains_key(address@) && rec@ == self@[address@],
                None => !self@.contains_key(address@),
            },
    {
        proof {
            lemma_model_contains(self.entries@, address@);
        }
        match self.find_index(address) {
            Some(i) => {
                proof {
                    lemma_model_get(self.entries@, i as int);
                }
                Some(&self.entries[i].1)
            },
            None => None,
        }
    }

    /// Writes a record at an address: creates the entry if the address is
    /// vacant, else replaces the record there.
    pub fn upsert(&mut self, address: Vec<u8>, rec: Record)
        requires
            old(self).wf(),
        ensures
            final(self).wf(),
            final(self)@ == old(self)@.insert(address@, rec@),
    {
        match self.find_index(&address) {
            Some(i) => {
                proof {
                    lemma_model_update(self.entries@, i as int, (address, rec));
                }
                self.entries.set(i, (address, rec));
                proof {
                    assert(unique_keys(self.entries@));
                }
            },
            None => {
                self.entries.push((address, rec));
                proof {
                    let s = self.entries@;
                    assert(s.drop_last() =~= old(self).entries@);
                    assert forall|i: int, j: int| 0 <= i < j < s.len() implies s[i].0@ != s[j].0@
                    by {
                        if j < s.len() - 1 {
                            assert(old(self).entries@[i] == s[i]);
                            assert(old(self).entries@[j] == s[j]);
                        } else {
                            assert(old(self).entries@[i] == s[i]);
                        }
                    }
                }
            },
        }
    }
}

} // verus!

//! The listing registry: the durable mapping from listing key to `Sale`
//! record, and the ground truth of what is for sale. It is a passive store;
//! all ordering discipline belongs to the settlement protocol built on it.

use vstd::prelude::*;

use crate::errors::MarketError;
use crate::sale::{KeyV, Sale, SaleV};

verus! {

/// One stored listing: its composite key and the record itself.
pub(crate) struct Entry {
    pub(crate) service_id: String,
    pub(crate) token_id: String,
    pub(crate) sale: Sale,
}

pub(crate) open spec fn key_of(e: Entry) -> KeyV {
    KeyV { service_id: e.service_id@, token_id: e.token_id@ }
}

/// The mapping that a sequence of entries represents; later entries shadow
/// earlier ones, though a well-formed registry never stores a key twice.
pub(crate) open spec fn map_of(s: Seq<Entry>) -> Map<KeyV, SaleV>
    decreases s.len(),
{
    if s.len() == 0 {
        Map::empty()
    } else {
        map_of(s.drop_last()).insert(key_of(s.last()), s.last().sale@)
    }
}

/// At most one entry per key.
pub(crate) open spec fn unique_keys(s: Seq<Entry>) -> bool {
    forall|i: int, j: int|
        0 <= i < j < s.len() ==> key_of(#[trigger] s[i]) != key_of(#[trigger] s[j])
}

/// A key is in the represented map exactly when some entry carries it.
proof fn lemma_map_of_contains(s: Seq<Entry>, k: KeyV)
    ensures
        map_of(s).contains_key(k) <==> (exists|i: int|
            0 <= i < s.len() && key_of(#[trigger] s[i]) == k),
    decreases s.len(),
{
    if s.len() > 0 {
        let d = s.drop_last();
        lemma_map_of_contains(d, k);
        if key_of(s.last()) == k {
            assert(key_of(s[s.len() - 1]) == k);
        } else {
            if exists|i: int| 0 <= i < s.len() && key_of(#[trigger] s[i]) == k {
                let i = choose|i: int| 0 <= i < s.len() && key_of(#[trigger] s[i]) == k;
                assert(i < s.len() - 1);
                assert(key_of(d[i]) == k);
            }
            if exists|i: int| 0 <= i < d.len() && key_of(#[trigger] d[i]) == k {
                let i = choose|i: int| 0 <= i < d.len() && key_of(#[trigger] d[i]) == k;
                assert(key_of(s[i]) == k);
            }
        }
    }
}

/// With unique keys, each entry is what the represented map holds at its key.
proof fn lemma_map_of_index(s: Seq<Entry>, i: int)
    requires
        unique_keys(s),
        0 <= i < s.len(),
    ensures
        map_of(s).contains_key(key_of(s[i])),
        map_of(s)[key_of(s[i])] == s[i].sale@,
    decreases s.len(),
{
    let d = s.drop_last();
    if i == s.len() - 1 {
        assert(s.last() == s[i]);
    } else {
        assert(unique_keys(d)) by {
            assert forall|x: int, y: int|
                0 <= x < y < d.len() implies key_of(#[trigger] d[x]) != key_of(
                #[trigger] d[y]) by {
                assert(d[x] == s[x]);
                assert(d[y] == s[y]);
            }
        }
        assert(d[i] == s[i]);
        lemma_map_of_index(d, i);
        assert(key_of(s[i]) != key_of(s[s.len() - 1]));
    }
}

/// Appending a fresh entry inserts its key.
proof fn lemma_map_of_push(s: Seq<Entry>, e: Entry)
    ensures
        map_of(s.push(e)) == map_of(s).insert(key_of(e), e.sale@),
{
    assert(s.push(e).drop_last() =~= s);
    assert(s.push(e).last() == e);
}

/// Removing the entry at `i` removes exactly its key from the map.
proof fn lemma_map_of_remove(s: Seq<Entry>, i: int)
    requires
        unique_keys(s),
        0 <= i < s.len(),
    ensures
        map_of(s.remove(i)) == map_of(s).remove(key_of(s[i])),
    decreases s.len(),
{
    s.remove_ensures(i);
    let d = s.drop_last();
    let kl = key_of(s.last());
    let vl = s.last().sale@;
    let ki = key_of(s[i]);
    if i == s.len() - 1 {
        assert(s.remove(i) =~= d);
        // the last key occurs nowhere earlier, so removing it from the
        // represented map of the prefix changes nothing
        assert(!map_of(d).contains_key(kl)) by {
            lemma_map_of_contains(d, kl);
            assert forall|j: int| 0 <= j < d.len() implies key_of(#[trigger] d[j]) != kl by {
                assert(d[j] == s[j]);
            }
        }
        assert(map_of(d).insert(kl, vl).remove(kl) =~= map_of(d));
    } else {
        assert(unique_keys(d)) by {
            assert forall|x: int, y: int|
                0 <= x < y < d.len() implies key_of(#[trigger] d[x]) != key_of(
                #[trigger] d[y]) by {
                assert(d[x] == s[x]);
                assert(d[y] == s[y]);
            }
        }
        assert(d[i] == s[i]);
        lemma_map_of_remove(d, i);
        let r = s.remove(i);
        assert(r.len() == s.len() - 1);
        assert(r[r.len() - 1] == s[s.len() - 1]);
        assert(r.drop_last() =~= d.remove(i)) by {
            d.remove_ensures(i);
            assert forall|j: int| 0 <= j < r.len() - 1 implies r.drop_last()[j] == d.remove(i)[j] by {
                if j < i {
                    assert(r[j] == s[j]);
                    assert(d.remove(i)[j] == d[j]);
                    assert(d[j] == s[j]);
                } else {
                    assert(r[j] == s[j + 1]);
                    assert(d.remove(i)[j] == d[j + 1]);
                    assert(d[j + 1] == s[j + 1]);
                }
            }
        }
        assert(map_of(r) == map_of(d.remove(i)).insert(kl, vl));
        assert(ki != kl);
        assert(map_of(d).remove(ki).insert(kl, vl) =~= map_of(d).insert(kl, vl).remove(ki));
    }
}

/// The registry: a passive store of listings, at most one per key.
pub struct Registry {
    entries: Vec<Entry>,
}

impl View for Registry {
    type V = Map<KeyV, SaleV>;

    closed spec fn view(&self) -> Map<KeyV, SaleV> {
        map_of(self.entries@)
    }
}

impl Registry {
    /// Keys are unique and every stored record can pay out without overflow.
    pub closed spec fn wf(&self) -> bool {
        &&& unique_keys(self.entries@)
        &&& forall|i: int|
            0 <= i < self.entries@.len() ==> (#[trigger] self.entries@[i]).sale@.valid()
    }

    /// Every record held by a well-formed registry is a valid record.
    pub proof fn lemma_wf_value(&self, k: KeyV)
        requires
            self.wf(),
            self@.contains_key(k),
        ensures
            self@[k].valid(),
    {
        lemma_map_of_contains(self.entries@, k);
        let i = choose|i: int|
            0 <= i < self.entries@.len() && key_of(#[trigger] self.entries@[i]) == k;
        lemma_map_of_index(self.entries@, i);
    }

    pub fn new() -> (r: Registry)
        ensures
            r.wf(),
            r@ == Map::<KeyV, SaleV>::empty(),
    {
        let r = Registry { entries: Vec::new() };
        proof {
            assert(r@ =~= Map::<KeyV, SaleV>::empty());
        }
        r
    }

    /// Index of the entry carrying the key, if any.
    fn find_index(&self, service_id: &String, token_id: &String) -> (r: Option<usize>)
        ensures
            match r {
                Some(i) => i < self.entries@.len() && key_of(self.entries@[i as int]) == (KeyV {
                    service_id: service_id@,
                    token_id: token_id@,
                }),
                None => forall|i: int|
                    0 <= i < self.entries@.len() ==> key_of(#[trigger] self.entries@[i]) != (KeyV {
                        service_id: service_id@,
                        token_id: token_id@,
                    }),
            },
    {
        let ghost k = KeyV { service_id: service_id@, token_id: token_id@ };
        let mut i: usize = 0;
        while i < self.entries.len()
            invariant
                i <= self.entries@.len(),
                k == (KeyV { service_id: service_id@, token_id: token_id@ }),
                forall|j: int| 0 <= j < i ==> key_of(#[trigger] self.entries@[j]) != k,
            decreases self.entries@.len() - i,
        {
            let e = &self.entries[i];
            if e.service_id == *service_id && e.token_id == *token_id {
                return Some(i);
            }
            proof {
                assert(key_of(self.entries@[i as int]) != k);
            }
            i = i + 1;
        }
        None
    }

    /// Inserts the record at the key; rejects a key already present.
    pub fn create(&mut self, service_id: String, token_id: String, sale: Sale) -> (r: Result<
        (),
        MarketError,
    >)
        requires
            old(self).wf(),
            sale@.valid(),
        ensures
            final(self).wf(),
            ({
                let k = (KeyV { service_id: service_id@, token_id: token_id@ });
                if old(self)@.contains_key(k) {
                    r == Err::<(), MarketError>(MarketError::DuplicateListing) && final(self)@
                        == old(self)@
                } else {
                    r == Ok::<(), MarketError>(()) && final(self)@ == old(self)@.insert(k, sale@)
                }
            }),
    {
        let ghost k = KeyV { service_id: service_id@, token_id: token_id@ };
        proof {
            lemma_map_of_contains(self.entries@, k);
        }
        match self.find_index(&service_id, &token_id) {
            Some(_) => Err(MarketError::DuplicateListing),
            None => {
                let ghost s0 = self.entries@;
                let e = Entry { service_id, token_id, sale };
                self.entries.push(e);
                proof {
                    lemma_map_of_push(s0, e);
                    assert forall|x: int, y: int|
                        0 <= x < y < self.entries@.len() implies key_of(
                        #[trigger] self.entries@[x]) != key_of(#[trigger] self.entries@[y]) by {
                        if y < s0.len() as int {
                            assert(self.entries@[x] == s0[x]);
                            assert(self.entries@[y] == s0[y]);
                        } else {
                            assert(self.entries@[x] == s0[x]);
                            assert(self.entries@[y] == e);
                        }
                    }
                    assert forall|x: int|
                        0 <= x < self.entries@.len() implies (#[trigger] self.entries@[x]).sale@.valid() by {
                        if x < s0.len() as int {
                            assert(self.entries@[x] == s0[x]);
                        } else {
                            assert(self.entries@[x] == e);
                        }
                    }
                }
                Ok(())
            },
        }
    }

    /// Returns the record at the key, or `NotFound`.
    pub fn read(&self, service_id: &String, token_id: &String) -> (r: Result<&Sale, MarketError>)
        requires
            self.wf(),
        ensures
            ({
                let k = (KeyV { service_id: service_id@, token_id: token_id@ });
                if self@.contains_key(k) {
                    r matches Ok(s) && s@ == self@[k]
                } else {
                    r == Err::<&Sale, MarketError>(MarketError::NotFound)
                }
            }),
    {
        let ghost k = KeyV { service_id: service_id@, token_id: token_id@ };
        proof {
            lemma_map_of_contains(self.entries@, k);
        }
        match self.find_index(service_id, token_id) {
            Some(i) => {
                proof {
                    lemma_map_of_index(self.entries@, i as int);
                }
                Ok(&self.entries[i].sale)
            },
            None => Err(MarketError::NotFound),
        }
    }

    /// Removes and returns the record at the key, or `NotFound`; this is the
    /// only way a record leaves the registry.
    pub fn remove(&mut self, service_id: &String, token_id: &String) -> (r: Result<
        Sale,
        MarketError,
    >)
        requires
            old(self).wf(),
        ensures
            final(self).wf(),
            ({
                let k = (KeyV { service_id: service_id@, token_id: token_id@ });
                if old(self)@.contains_key(k) {
                    r matches Ok(s) && s@ == old(self)@[k] && final(self)@ == old(self)@.remove(k)
                } else {
                    r == Err::<Sale, MarketError>(MarketError::NotFound) && final(self)@ == old(
                        self,
                    )@
                }
            }),
    {
        let ghost k = KeyV { service_id: service_id@, token_id: token_id@ };
        proof {
            lemma_map_of_contains(self.entries@, k);
        }
        match self.find_index(service_id, token_id) {
            Some(i) => {
                let ghost s0 = self.entries@;
                proof {
                    lemma_map_of_index(s0, i as int);
                    lemma_map_of_remove(s0, i as int);
                    s0.remove_ensures(i as int);
                }
                let e = self.entries.remove(i);
                proof {
                    assert forall|x: int, y: int|
                        0 <= x < y < self.entries@.len() implies key_of(
                        #[trigger] self.entries@[x]) != key_of(#[trigger] self.entries@[y]) by {
                        if x < i as int {
                            assert(self.entries@[x] == s0[x]);
                        } else {
                            assert(self.entries@[x] == s0[x + 1]);
                        }
                        if y < i as int {
                            assert(self.entries@[y] == s0[y]);
                        } else {
                            assert(self.entries@[y] == s0[y + 1]);
                        }
                    }
                    assert forall|x: int|
                        0 <= x < self.entries@.len() implies (#[trigger] self.entries@[x]).sale@.valid() by {
                        if x < i as int {
                            assert(self.entries@[x] == s0[x]);
                        } else {
                            assert(self.entries@[x] == s0[x + 1]);
                        }
                    }
                }
                Ok(e.sale)
            },
            None => Err(MarketError::NotFound),
        }
    }

    /// Replaces the record at a key that is known to be present; the
    /// settlement protocol uses it to move a listing between statuses.
    pub(crate) fn replace(&mut self, service_id: String, token_id: String, sale: Sale)
        requires
            old(self).wf(),
            sale@.valid(),
            old(self)@.contains_key(
                KeyV { service_id: service_id@, token_id: token_id@ },
            ),
        ensures
            final(self).wf(),
            final(self)@ == old(self)@.insert(
                KeyV { service_id: service_id@, token_id: token_id@ },
                sale@,
            ),
    {
        let ghost k = KeyV { service_id: service_id@, token_id: token_id@ };
        let ghost m0 = self@;
        let removed = self.remove(&service_id, &token_id);
        let created = self.create(service_id, token_id, sale);
        proof {
            assert(removed is Ok);
            assert(created is Ok);
            assert(m0.remove(k).insert(k, sale@) =~= m0.insert(k, sale@));
        }
    }
}

} // verus!

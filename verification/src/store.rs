use vstd::prelude::*;

use crate::ident::{AccountId, AgentError};

verus! {

/// The map described by a sequence of keys and a parallel sequence of
/// values: the entry of a later index wins, though a well-formed store
/// never holds the same key twice.
pub open spec fn map_of<T>(ks: Seq<Seq<u8>>, vs: Seq<T>) -> Map<Seq<u8>, T>
    decreases ks.len(),
{
    if ks.len() == 0 || vs.len() == 0 {
        Map::empty()
    } else {
        map_of(ks.drop_last(), vs.drop_last()).insert(ks.last(), vs.last())
    }
}

/// The key of a stored entry.
pub open spec fn key_view(k: AccountId) -> Seq<u8> {
    k@
}

/// `map_of` holds a key exactly when the key sequence holds it.
proof fn lemma_map_of_contains<T>(ks: Seq<Seq<u8>>, vs: Seq<T>, k: Seq<u8>)
    requires
        ks.len() == vs.len(),
    ensures
        map_of(ks, vs).contains_key(k) <==> (exists|i: int| 0 <= i < ks.len() && ks[i] == k),
    decreases ks.len(),
{
    if ks.len() == 0 {
    } else {
        lemma_map_of_contains(ks.drop_last(), vs.drop_last(), k);
        if ks.last() == k {
            assert(ks[ks.len() - 1] == k);
        } else {
            if exists|i: int| 0 <= i < ks.len() && ks[i] == k {
                let i = choose|i: int| 0 <= i < ks.len() && ks[i] == k;
                assert(ks.drop_last()[i] == k);
            }
        }
    }
}

/// At an index whose key has no later repetition, the parallel value is the
/// map's value for that key.
proof fn lemma_map_of_value<T>(ks: Seq<Seq<u8>>, vs: Seq<T>, i: int)
    requires
        ks.len() == vs.len(),
        0 <= i < ks.len(),
        forall|j: int| i < j < ks.len() ==> ks[j] != ks[i],
    ensures
        map_of(ks, vs).contains_key(ks[i]),
        map_of(ks, vs)[ks[i]] == vs[i],
    decreases ks.len(),
{
    if i == ks.len() - 1 {
    } else {
        assert(ks.drop_last()[i] == ks[i]);
        lemma_map_of_value(ks.drop_last(), vs.drop_last(), i);
        assert(ks.last() != ks[i]);
    }
}

/// A typed record store. Each record is resident at exactly one 32-byte
/// address; every operation is atomic with respect to the single record it
/// names, and a failed operation leaves the store unchanged.
pub struct Store<T> {
    keys: Vec<AccountId>,
    vals: Vec<T>,
}

impl<T> View for Store<T> {
    type V = Map<Seq<u8>, T>;

    closed spec fn view(&self) -> Map<Seq<u8>, T> {
        map_of(self.keys@.map(|i: int, k: AccountId| key_view(k)), self.vals@)
    }
}

impl<T> Store<T> {
    /// Parallel key and value sequences, with no address held twice.
    pub closed spec fn wf(&self) -> bool {
        &&& self.keys@.len() == self.vals@.len()
        &&& forall|i: int, j: int|
            0 <= i < j < self.keys@.len() ==> self.keys@[i]@ != self.keys@[j]@
    }

    spec fn kseq(&self) -> Seq<Seq<u8>> {
        self.keys@.map(|i: int, k: AccountId| key_view(k))
    }

    pub fn new() -> (r: Store<T>)
        ensures
            r.wf(),
            r@ == Map::<Seq<u8>, T>::empty(),
    {
        Store { keys: Vec::new(), vals: Vec::new() }
    }

    /// The index at which the record with the given address is resident.
    fn find_index(&self, a: &AccountId) -> (r: Option<usize>)
        requires
            self.wf(),
        ensures
            match r {
                Some(i) => i < self.keys@.len() && self.keys@[i as int]@ == a@
                    && self@.contains_key(a@) && self@[a@] == self.vals@[i as int],
                None => !self@.contains_key(a@),
            },
    {
        let mut i: usize = 0;
        while i < self.keys.len()
            invariant
                self.wf(),
                i <= self.keys@.len(),
                forall|j: int| 0 <= j < i ==> self.keys@[j]@ != a@,
            decreases self.keys@.len() - i,
        {
            if self.keys[i].same_as(a) {
                proof {
                    assert(self.kseq()[i as int] == a@);
                    assert forall|j: int| i < j < self.kseq().len()
                        implies self.kseq()[j] != self.kseq()[i as int] by {
                        assert(self.keys@[i as int]@ != self.keys@[j]@);
                    }
                    lemma_map_of_value(self.kseq(), self.vals@, i as int);
                }
                return Some(i);
            }
            i += 1;
        }
        proof {
            assert forall|j: int| 0 <= j < self.kseq().len()
                implies self.kseq()[j] != a@ by {
                assert(self.keys@[j]@ != a@);
            }
            lemma_map_of_contains(self.kseq(), self.vals@, a@);
        }
        None
    }

    /// Whether a record is resident at the address.
    pub fn contains(&self, a: &AccountId) -> (r: bool)
        requires
            self.wf(),
        ensures
            r == self@.contains_key(a@),
    {
        self.find_index(a).is_some()
    }

    /// A borrowed view of the record at the address, or `None` if absent.
    pub fn load(&self, a: &AccountId) -> (r: Option<&T>)
        requires
            self.wf(),
        ensures
            match r {
                Some(v) => self@.contains_key(a@) && *v == self@[a@],
                None => !self@.contains_key(a@),
            },
    {
        match self.find_index(a) {
            Some(i) => Some(&self.vals[i]),
            None => None,
        }
    }

    /// Appends a record at an address that holds none.
    pub(crate) fn put(&mut self, a: AccountId, v: T)
        requires
            old(self).wf(),
            !old(self)@.contains_key(a@),
        ensures
            final(self).wf(),
            final(self)@ == old(self)@.insert(a@, v),
    {
        proof {
            lemma_map_of_contains(self.kseq(), self.vals@, a@);
        }
        self.keys.push(a);
        self.vals.push(v);
        proof {
            assert(self.kseq() =~= old(self).kseq().push(a@));
            assert(self.kseq().drop_last() =~= old(self).kseq());
            assert(self.vals@.drop_last() =~= old(self).vals@);
            assert forall|i: int, j: int|
                0 <= i < j < self.keys@.len() implies self.keys@[i]@ != self.keys@[j]@ by {
                if j == self.keys@.len() - 1 {
                    assert(old(self).kseq()[i] == self.keys@[i]@);
                }
            }
            assert(self@ == old(self)@.insert(a@, v));
        }
    }

    /// Removes and returns the record at the address, which must be resident.
    /// One read-modify-write of a record is a `take`, the computation of the
    /// new value, and a `put` back, all within one operation's atomic scope.
    pub fn take(&mut self, a: &AccountId) -> (r: T)
        requires
            old(self).wf(),
            old(self)@.contains_key(a@),
        ensures
            final(self).wf(),
            final(self)@ == old(self)@.remove(a@),
            r == old(self)@[a@],
    {
        let oi = self.find_index(a);
        let i = match oi {
            Some(i) => i,
            None => unreached(),
        };
        self.keys.remove(i);
        let v = self.vals.remove(i);
        proof {
            let oks = old(self).kseq();
            let ovs = old(self).vals@;
            assert(self.kseq() =~= oks.remove(i as int));
            assert(self.vals@ =~= ovs.remove(i as int));
            assert forall|p: int, q: int|
                0 <= p < q < self.keys@.len() implies self.keys@[p]@ != self.keys@[q]@ by {
                let p0: int = if p < i { p } else { p + 1 };
                let q0: int = if q < i { q } else { q + 1 };
                assert(old(self).keys@[p0]@ == self.keys@[p]@);
                assert(old(self).keys@[q0]@ == self.keys@[q]@);
            }
            lemma_map_of_value(oks, ovs, i as int);
            assert forall|k: Seq<u8>| #[trigger] self@.contains_key(k)
                implies old(self)@.remove(a@).contains_key(k)
                    && self@[k] == old(self)@.remove(a@)[k] by {
                lemma_map_of_contains(self.kseq(), self.vals@, k);
                let p = choose|p: int| 0 <= p < self.kseq().len() && self.kseq()[p] == k;
                let p0: int = if p < i { p } else { p + 1 };
                assert(oks[p0] == k);
                assert(k != a@);
                assert forall|j: int| p < j < self.kseq().len()
                    implies self.kseq()[j] != self.kseq()[p] by {
                    assert(self.keys@[p]@ != self.keys@[j]@);
                }
                lemma_map_of_value(self.kseq(), self.vals@, p);
                assert forall|j: int| p0 < j < oks.len() implies oks[j] != oks[p0] by {
                    assert(old(self).keys@[p0]@ != old(self).keys@[j]@);
                }
                lemma_map_of_value(oks, ovs, p0);
                assert(self@[k] == self.vals@[p]);
                assert(self.vals@[p] == ovs[p0]);
            }
            assert forall|k: Seq<u8>| #[trigger] old(self)@.remove(a@).contains_key(k)
                implies self@.contains_key(k) by {
                lemma_map_of_contains(oks, ovs, k);
                let p0 = choose|p0: int| 0 <= p0 < oks.len() && oks[p0] == k;
                assert(k != a@);
                assert(oks[i as int] == a@);
                assert(p0 != i);
                let p: int = if p0 < i { p0 } else { p0 - 1 };
                assert(self.kseq()[p] == k);
                lemma_map_of_contains(self.kseq(), self.vals@, k);
            }
            assert(self@ =~= old(self)@.remove(a@));
        }
        v
    }

    /// First write initializes the record: creation fails with
    /// `AlreadyExists` when the address is occupied, and changes nothing.
    pub fn create(&mut self, a: AccountId, v: T) -> (r: Result<(), AgentError>)
        requires
            old(self).wf(),
        ensures
            final(self).wf(),
            old(self)@.contains_key(a@) ==> r == Err::<(), AgentError>(AgentError::AlreadyExists)
                && final(self)@ == old(self)@,
            !old(self)@.contains_key(a@) ==> r == Ok::<(), AgentError>(())
                && final(self)@ == old(self)@.insert(a@, v),
    {
        if self.contains(&a) {
            Err(AgentError::AlreadyExists)
        } else {
            self.put(a, v);
            Ok(())
        }
    }

    /// Overwrites the record at the address, which must already be resident;
    /// fails with `NotFound` otherwise, and changes nothing.
    pub fn save(&mut self, a: AccountId, v: T) -> (r: Result<(), AgentError>)
        requires
            old(self).wf(),
        ensures
            final(self).wf(),
            old(self)@.contains_key(a@) ==> r == Ok::<(), AgentError>(())
                && final(self)@ == old(self)@.insert(a@, v),
            !old(self)@.contains_key(a@) ==> r == Err::<(), AgentError>(AgentError::NotFound)
                && final(self)@ == old(self)@,
    {
        if self.contains(&a) {
            let _old_v = self.take(&a);
            self.put(a, v);
            proof {
                assert(self@ =~= old(self)@.insert(a@, v));
            }
            Ok(())
        } else {
            Err(AgentError::NotFound)
        }
    }
}

} // verus!

//! The record store: every addressable record of the system, with
//! create-if-absent allocation and read/rewrite access. Two attempts to
//! initialize the same address can never both succeed.

use vstd::prelude::*;

use crate::addr::Addr;
use crate::error::BullPosterError;

verus! {

/// One stored record: its address and its fixed-capacity buffer.
pub struct StoreEntry {
    pub addr: Addr,
    pub data: Vec<u8>,
}

/// The set of all addressable records.
pub struct RecordStore {
    pub entries: Vec<StoreEntry>,
}

/// A zero-filled buffer of the given size, the state of a freshly
/// allocated record.
pub open spec fn zeros(n: nat) -> Seq<u8> {
    Seq::new(n, |i: int| 0u8)
}

/// The mathematical content of a store: a map from each record's
/// address to its buffer.
pub open spec fn store_map(l: Seq<StoreEntry>) -> Map<Seq<u8>, Seq<u8>>
    decreases l.len(),
{
    if l.len() == 0 {
        Map::empty()
    } else {
        store_map(l.drop_last()).insert(l.last().addr@, l.last().data@)
    }
}

impl View for RecordStore {
    type V = Map<Seq<u8>, Seq<u8>>;

    open spec fn view(&self) -> Map<Seq<u8>, Seq<u8>> {
        store_map(self.entries@)
    }
}

/// An address is occupied exactly when some entry carries it.
proof fn lemma_store_map_dom(l: Seq<StoreEntry>, a: Seq<u8>)
    ensures
        store_map(l).dom().contains(a)
            <==> exists|i: int| 0 <= i < l.len() && (#[trigger] l[i]).addr@ == a,
    decreases l.len(),
{
    if l.len() > 0 {
        lemma_store_map_dom(l.drop_last(), a);
        if l.last().addr@ == a {
            assert(l[l.len() - 1].addr@ == a);
        } else {
            if exists|i: int| 0 <= i < l.len() && (#[trigger] l[i]).addr@ == a {
                let i = choose|i: int| 0 <= i < l.len() && (#[trigger] l[i]).addr@ == a;
                assert(l.drop_last()[i] == l[i]);
            }
        }
    }
}

/// Under distinct addresses, each entry's buffer is what the map holds
/// for its address.
proof fn lemma_store_map_at(l: Seq<StoreEntry>, i: int)
    requires
        forall|j: int, k: int| 0 <= j < k < l.len()
            ==> (#[trigger] l[j]).addr@ != (#[trigger] l[k]).addr@,
        0 <= i < l.len(),
    ensures
        store_map(l).dom().contains(l[i].addr@),
        store_map(l)[l[i].addr@] == l[i].data@,
    decreases l.len(),
{
    if i == l.len() - 1 {
        assert(l.last() == l[i]);
    } else {
        lemma_store_map_at(l.drop_last(), i);
        assert(l.drop_last()[i] == l[i]);
        assert(l[i].addr@ != l[l.len() - 1].addr@);
    }
}

impl RecordStore {
    /// Distinct addresses, all well formed.
    pub open spec fn wf(&self) -> bool {
        &&& forall|j: int, k: int| 0 <= j < k < self.entries@.len()
            ==> (#[trigger] self.entries@[j]).addr@ != (#[trigger] self.entries@[k]).addr@
        &&& forall|j: int| 0 <= j < self.entries@.len()
            ==> (#[trigger] self.entries@[j]).addr.wf()
    }

    /// An empty store.
    pub fn new() -> (r: RecordStore)
        ensures
            r.wf(),
            r@ == Map::<Seq<u8>, Seq<u8>>::empty(),
    {
        RecordStore { entries: Vec::new() }
    }

    /// The index of the record at an address, if any.
    fn find(&self, addr: &Addr) -> (r: Option<usize>)
        requires
            self.wf(),
        ensures
            match r {
                Some(i) => i < self.entries@.len() && self.entries@[i as int].addr@ == addr@
                    && self@.dom().contains(addr@)
                    && self@[addr@] == self.entries@[i as int].data@,
                None => !self@.dom().contains(addr@),
            },
    {
        let n = self.entries.len();
        let mut i: usize = 0;
        while i < n
            invariant
                i <= n,
                n == self.entries@.len(),
                self.wf(),
                forall|j: int| 0 <= j < i ==> (#[trigger] self.entries@[j]).addr@ != addr@,
            decreases n - i,
        {
            if self.entries[i].addr.addr_eq(addr) {
                proof {
                    lemma_store_map_at(self.entries@, i as int);
                }
                return Some(i);
            }
            i += 1;
        }
        proof {
            lemma_store_map_dom(self.entries@, addr@);
        }
        None
    }

    /// Whether a record exists at an address.
    pub fn occupied(&self, addr: &Addr) -> (r: bool)
        requires
            self.wf(),
        ensures
            r == self@.dom().contains(addr@),
    {
        match self.find(addr) {
            Some(_) => true,
            None => false,
        }
    }

    /// Create-if-absent allocation: a zero-filled record of the given
    /// capacity appears at the address, or the call fails because the
    /// address already holds one. Exactly one of two racing attempts at
    /// one address can ever succeed.
    pub fn allocate(&mut self, addr: &Addr, size: usize) -> (r: Result<(), BullPosterError>)
        requires
            old(self).wf(),
            addr.wf(),
        ensures
            final(self).wf(),
            match r {
                Ok(_) => !old(self)@.dom().contains(addr@)
                    && final(self)@ == old(self)@.insert(addr@, zeros(size as nat)),
                Err(e) => e == BullPosterError::AlreadyInitialized
                    && old(self)@.dom().contains(addr@)
                    && final(self)@ == old(self)@
                    && *final(self) == *old(self),
            },
    {
        match self.find(addr) {
            Some(_) => Err(BullPosterError::AlreadyInitialized),
            None => {
                let mut data: Vec<u8> = Vec::new();
                let mut i: usize = 0;
                while i < size
                    invariant
                        i <= size,
                        data@.len() == i,
                        forall|j: int| 0 <= j < i ==> data@[j] == 0u8,
                    decreases size - i,
                {
                    data.push(0u8);
                    i += 1;
                }
                assert(data@ =~= zeros(size as nat));
                let entry = StoreEntry { addr: addr.duplicate(), data };
                proof {
                    lemma_store_map_dom(old(self).entries@, addr@);
                    assert(forall|j: int| 0 <= j < self.entries@.len()
                        ==> (#[trigger] self.entries@[j]).addr@ != addr@);
                }
                let ghost prev = self.entries@;
                self.entries.push(entry);
                proof {
                    assert(self.entries@.drop_last() =~= prev);
                    assert(self.entries@.last().addr@ == addr@);
                }
                Ok(())
            },
        }
    }

    /// Read the record at an address, as a copy of its buffer.
    pub fn open(&self, addr: &Addr) -> (r: Result<Vec<u8>, BullPosterError>)
        requires
            self.wf(),
        ensures
            match r {
                Ok(d) => self@.dom().contains(addr@) && d@ == self@[addr@],
                Err(e) => e == BullPosterError::RecordNotFound && !self@.dom().contains(addr@),
            },
    {
        match self.find(addr) {
            Some(i) => {
                let src = &self.entries[i].data;
                let n = src.len();
                let mut out: Vec<u8> = Vec::new();
                let mut j: usize = 0;
                while j < n
                    invariant
                        j <= n,
                        n == src@.len(),
                        out@ == src@.subrange(0, j as int),
                    decreases n - j,
                {
                    out.push(src[j]);
                    assert(out@ =~= src@.subrange(0, j + 1));
                    j += 1;
                }
                assert(src@.subrange(0, n as int) =~= src@);
                Ok(out)
            },
            None => Err(BullPosterError::RecordNotFound),
        }
    }

    /// Rewrite the record at an existing address with new buffer
    /// contents.
    pub fn update(&mut self, addr: &Addr, data: Vec<u8>) -> (r: Result<(), BullPosterError>)
        requires
            old(self).wf(),
            addr.wf(),
        ensures
            final(self).wf(),
            match r {
                Ok(_) => old(self)@.dom().contains(addr@)
                    && final(self)@ == old(self)@.insert(addr@, data@),
                Err(e) => e == BullPosterError::RecordNotFound
                    && !old(self)@.dom().contains(addr@)
                    && final(self)@ == old(self)@
                    && *final(self) == *old(self),
            },
    {
        match self.find(addr) {
            Some(i) => {
                let entry = StoreEntry { addr: addr.duplicate(), data };
                let ghost prev = self.entries@;
                self.entries.set(i, entry);
                proof {
                    lemma_store_map_set(prev, i as int, self.entries@[i as int]);
                }
                Ok(())
            },
            None => Err(BullPosterError::RecordNotFound),
        }
    }
}

/// Replacing one entry's buffer, address kept, updates exactly that
/// address's image in the map.
proof fn lemma_store_map_set(l: Seq<StoreEntry>, i: int, e: StoreEntry)
    requires
        forall|j: int, k: int| 0 <= j < k < l.len()
            ==> (#[trigger] l[j]).addr@ != (#[trigger] l[k]).addr@,
        0 <= i < l.len(),
        e.addr@ == l[i].addr@,
    ensures
        store_map(l.update(i, e)) == store_map(l).insert(e.addr@, e.data@),
    decreases l.len(),
{
    let lu = l.update(i, e);
    if i == l.len() - 1 {
        assert(lu.drop_last() =~= l.drop_last());
        assert(lu.last() == e);
        assert(store_map(lu) == store_map(l.drop_last()).insert(e.addr@, e.data@));
        assert(store_map(l) == store_map(l.drop_last()).insert(l[i].addr@, l[i].data@));
        assert(store_map(l).insert(e.addr@, e.data@)
            =~= store_map(l.drop_last()).insert(e.addr@, e.data@));
    } else {
        assert(lu.drop_last() =~= l.drop_last().update(i, e));
        assert(lu.last() == l.last());
        lemma_store_map_set(l.drop_last(), i, e);
        assert(store_map(lu)
            == store_map(l.drop_last()).insert(e.addr@, e.data@).insert(l.last().addr@, l.last().data@));
        assert(l[i].addr@ != l.last().addr@);
        assert(store_map(l.drop_last()).insert(e.addr@, e.data@).insert(l.last().addr@, l.last().data@)
            =~= store_map(l).insert(e.addr@, e.data@));
    }
}

/// No double allocation: once an allocation at an address succeeds, the
/// address is occupied, so a second allocation there must fail.
pub proof fn lemma_no_double_allocation(m: Map<Seq<u8>, Seq<u8>>, a: Seq<u8>, size: nat)
    requires
        !m.dom().contains(a),
    ensures
        m.insert(a, zeros(size)).dom().contains(a),
{
}

} // verus!

use vstd::prelude::*;

verus! {

/// Number of bytes in a record address.
pub const ADDR_LEN: usize = 32;

/// A 32-byte deterministic record address.
#[derive(Clone, Debug)]
pub struct Addr {
    pub bytes: Vec<u8>,
}

impl Addr {
    /// An address is well formed when it holds exactly 32 bytes.
    pub open spec fn wf(&self) -> bool {
        self.bytes@.len() == 32
    }

    pub open spec fn view(&self) -> Seq<u8> {
        self.bytes@
    }

    /// Byte-for-byte equality of two addresses.
    pub fn addr_eq(&self, other: &Addr) -> (r: bool)
        ensures
            r == (self@ == other@),
    {
        if self.bytes.len() != other.bytes.len() {
            assert(self.bytes@ != other.bytes@);
            return false;
        }
        let n = self.bytes.len();
        let mut i: usize = 0;
        while i < n
            invariant
                n == self.bytes@.len(),
                n == other.bytes@.len(),
                i <= n,
                forall|j: int| 0 <= j < i ==> self.bytes@[j] == other.bytes@[j],
            decreases n - i,
        {
            if self.bytes[i] != other.bytes[i] {
                assert(self.bytes@ != other.bytes@);
                return false;
            }
            i += 1;
        }
        assert(self.bytes@ =~= other.bytes@);
        true
    }

    /// An owned copy of the address.
    pub fn duplicate(&self) -> (r: Addr)
        ensures
            r@ == self@,
            self.wf() ==> r.wf(),
    {
        let n = self.bytes.len();
        let mut bytes: Vec<u8> = Vec::new();
        let mut i: usize = 0;
        while i < n
            invariant
                i <= n,
                n == self.bytes@.len(),
                bytes@ == self.bytes@.subrange(0, i as int),
            decreases n - i,
        {
            bytes.push(self.bytes[i]);
            assert(bytes@ =~= self.bytes@.subrange(0, i + 1));
            i += 1;
        }
        assert(self.bytes@.subrange(0, n as int) =~= self.bytes@);
        Addr { bytes }
    }

    /// The all-zero address, the default value of an unset address
    /// field.
    pub fn zeroed() -> (r: Addr)
        ensures
            r.wf(),
            r@ == zero_addr(),
    {
        let mut bytes: Vec<u8> = Vec::new();
        let mut i: usize = 0;
        while i < 32
            invariant
                i <= 32,
                bytes@.len() == i,
                forall|j: int| 0 <= j < i ==> bytes@[j] == 0u8,
            decreases 32 - i,
        {
            bytes.push(0u8);
            i += 1;
        }
        assert(bytes@ =~= zero_addr());
        Addr { bytes }
    }
}

/// The all-zero address's bytes.
pub open spec fn zero_addr() -> Seq<u8> {
    Seq::new(32, |i: int| 0u8)
}

/// The views of a sequence of addresses, in order.
pub open spec fn views_of(l: Seq<Addr>) -> Seq<Seq<u8>> {
    l.map_values(|a: Addr| a@)
}

/// Whether a list of addresses holds the given one.
pub fn contains_addr(l: &Vec<Addr>, a: &Addr) -> (r: bool)
    ensures
        r == views_of(l@).contains(a@),
{
    let n = l.len();
    let mut i: usize = 0;
    while i < n
        invariant
            i <= n,
            n == l@.len(),
            forall|j: int| 0 <= j < i ==> (#[trigger] l@[j])@ != a@,
        decreases n - i,
    {
        if l[i].addr_eq(a) {
            assert(views_of(l@)[i as int] == a@);
            return true;
        }
        i += 1;
    }
    proof {
        if views_of(l@).contains(a@) {
            let j = choose|j: int| 0 <= j < views_of(l@).len()
                && views_of(l@)[j] == a@;
            assert(l@[j]@ == a@);
        }
    }
    false
}

/// All addresses of a sequence are well formed.
pub open spec fn addrs_wf(l: Seq<Addr>) -> bool {
    forall|i: int| 0 <= i < l.len() ==> (#[trigger] l[i]).wf()
}

} // verus!

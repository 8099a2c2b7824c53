//! Account addresses.

use vstd::prelude::*;
use vstd::std_specs::cmp::PartialEqSpecImpl;

verus! {

/// A 32-byte account address: it names the administrator, a depositor, a
/// winner or a token mint.
#[derive(Clone, Copy, Debug)]
pub struct Address {
    pub bytes: [u8; 32],
}

impl Address {
    /// Whether this is the all-zero address, which names nobody. A
    /// configuration whose administrator is the null address has not been
    /// initialized.
    pub open spec fn is_null(self) -> bool {
        forall|i: int| 0 <= i < 32 ==> self.bytes[i] == 0
    }

    /// There is only one null address.
    pub proof fn lemma_null_is_unique(a: Address, b: Address)
        requires
            a.is_null(),
            b.is_null(),
        ensures
            a == b,
    {
        assert(a.bytes =~= b.bytes);
    }

    /// The address made of the given bytes.
    pub fn new_from_array(bytes: [u8; 32]) -> (a: Address)
        ensures
            a.bytes == bytes,
    {
        Address { bytes }
    }

    /// The bytes of the address.
    pub fn to_bytes(&self) -> (bytes: [u8; 32])
        ensures
            bytes == self.bytes,
    {
        self.bytes
    }

    /// Tells whether this is the null address.
    pub fn is_default(&self) -> (r: bool)
        ensures
            r == self.is_null(),
    {
        let null = Address::default();
        proof {
            if self.is_null() {
                Address::lemma_null_is_unique(*self, null);
            }
        }
        *self == null
    }
}

impl Default for Address {
    /// The null address.
    fn default() -> (a: Address)
        ensures
            a.is_null(),
    {
        Address { bytes: [0u8; 32] }
    }
}

impl PartialEq for Address {
    /// Two addresses are equal when all their bytes are.
    fn eq(&self, other: &Address) -> (r: bool) {
        let mut i: usize = 0;
        while i < 32
            invariant
                i <= 32,
                forall|j: int| 0 <= j < i ==> self.bytes[j] == other.bytes[j],
            decreases 32 - i,
        {
            if self.bytes[i] != other.bytes[i] {
                return false;
            }
            i += 1;
        }
        assert(self.bytes =~= other.bytes);
        true
    }
}

impl Eq for Address {}

impl PartialEqSpecImpl for Address {
    open spec fn obeys_eq_spec() -> bool {
        true
    }

    open spec fn eq_spec(&self, other: &Address) -> bool {
        *self == *other
    }
}

} // verus!

use vstd::prelude::*;

verus! {

/// A 32-byte identity handle (an account or signer key), held as four
/// little-endian 64-bit words so that equality is plain field equality.
#[derive(Clone, Copy, Debug, PartialEq, Eq, Structural)]
pub struct Identity {
    pub w0: u64,
    pub w1: u64,
    pub w2: u64,
    pub w3: u64,
}

impl Identity {
    /// The all-zero identity, the value of an identity field never written.
    pub fn zero() -> (r: Identity)
        ensures
            r == (Identity { w0: 0, w1: 0, w2: 0, w3: 0 }),
    {
        Identity { w0: 0, w1: 0, w2: 0, w3: 0 }
    }

    /// Identity comparison: true exactly when all four words agree.
    pub fn same_as(&self, other: &Identity) -> (r: bool)
        ensures
            r == (*self == *other),
    {
        self.w0 == other.w0 && self.w1 == other.w1 && self.w2 == other.w2 && self.w3 == other.w3
    }
}

} // verus!

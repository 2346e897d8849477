//! The Keccak-256 digest, computed by the `sha3` crate, and the 32-byte hash type.

use vstd::prelude::*;
use sha3::Digest;

verus! {

/// The Keccak-256 digest of `data`, as `sha3::Keccak256` computes it.
pub uninterp spec fn keccak256_digest(data: Seq<u8>) -> Seq<u8>;

/// Calls `sha3::Keccak256::digest` on `data` and returns its 32 bytes.
/// Trusted: the result is `keccak256_digest` of the input bytes; nothing is
/// stated about which bytes that digest holds.
#[verifier::external_body]
pub(crate) fn keccak256(data: &[u8]) -> (r: [u8; 32])
    ensures
        r@ == keccak256_digest(data@),
{
    sha3::Keccak256::digest(data).into()
}

/// A 32-byte hash value.
#[derive(Debug, Clone, Copy, Hash)]
pub struct Hash(pub [u8; 32]);

impl View for Hash {
    type V = Seq<u8>;

    open spec fn view(&self) -> Seq<u8> {
        self.0@
    }
}

/// The view of the all-zero hash.
pub open spec fn zero_bytes(n: nat) -> Seq<u8> {
    Seq::new(n, |i: int| 0u8)
}

/// Compares two 32-byte arrays element by element.
pub fn bytes32_eq(a: &[u8; 32], b: &[u8; 32]) -> (r: bool)
    ensures
        r == (a@ == b@),
{
    let mut i: usize = 0;
    while i < 32
        invariant
            i <= 32,
            a@.len() == 32,
            b@.len() == 32,
            forall|j: int| 0 <= j < i ==> a@[j] == b@[j],
        decreases 32 - i,
    {
        if a[i] != b[i] {
            return false;
        }
        i = i + 1;
    }
    assert(a@ =~= b@);
    true
}

impl Hash {
    /// Creates a hash from its 32 bytes.
    pub fn from_bytes(bytes: [u8; 32]) -> (r: Self)
        ensures
            r@ == bytes@,
    {
        Hash(bytes)
    }

    /// Returns the 32 bytes of the hash.
    pub fn as_bytes(&self) -> (r: [u8; 32])
        ensures
            r@ == self@,
    {
        self.0
    }

    /// The all-zero hash.
    pub fn zero() -> (r: Self)
        ensures
            r@ == zero_bytes(32),
    {
        let r = Hash([0u8; 32]);
        assert(r@ =~= zero_bytes(32));
        r
    }

    /// Whether every byte of the hash is zero.
    pub fn is_zero(&self) -> (r: bool)
        ensures
            r == (self@ == zero_bytes(32)),
    {
        let z = [0u8; 32];
        assert(z@ =~= zero_bytes(32));
        bytes32_eq(&self.0, &z)
    }

    /// The Keccak-256 digest of `data` as a hash.
    pub fn keccak(data: &[u8]) -> (r: Self)
        ensures
            r@ == keccak256_digest(data@),
    {
        Hash(keccak256(data))
    }
}

impl PartialEq for Hash {
    fn eq(&self, other: &Self) -> (r: bool) {
        bytes32_eq(&self.0, &other.0)
    }
}

impl vstd::std_specs::cmp::PartialEqSpecImpl for Hash {
    open spec fn obeys_eq_spec() -> bool {
        true
    }

    open spec fn eq_spec(&self, other: &Self) -> bool {
        self@ == other@
    }
}

impl Eq for Hash {}

} // verus!

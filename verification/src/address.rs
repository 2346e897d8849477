//! Twenty-byte contract addresses and their derivation.

use vstd::prelude::*;
use vstd::string::StringSliceAdditionalSpecFns;
use crate::digest::{keccak256, keccak256_digest, zero_bytes};
use crate::hexstr::{hex_decode, hex_decode_spec, hex_encode, hex_encode_spec, HexError};

verus! {

/// Size of a contract address in bytes.
pub const CONTRACT_ADDRESS_SIZE: usize = 20;

/// A smart contract address on the network.
#[derive(Debug, Clone, Copy, Hash)]
pub struct ContractAddress([u8; 20]);

impl View for ContractAddress {
    type V = Seq<u8>;

    closed spec fn view(&self) -> Seq<u8> {
        self.0@
    }
}

impl ContractAddress {
    /// Every address view has exactly 20 bytes.
    pub broadcast proof fn lemma_view_len(a: ContractAddress)
        ensures
            #[trigger] a@.len() == 20,
    {
    }
}

/// The eight big-endian bytes of a 64-bit number.
pub open spec fn u64_be_bytes(n: u64) -> Seq<u8> {
    Seq::new(8, |i: int| ((n >> ((56 - 8 * i) as u64)) & 0xff) as u8)
}

/// The address that `create` derives from a deployer and a nonce.
pub open spec fn create_address_spec(deployer: Seq<u8>, nonce: u64) -> Seq<u8> {
    keccak256_digest(deployer + u64_be_bytes(nonce)).subrange(12, 32)
}

/// The eight bytes of `n`, most significant first, are the base-256 digits of `n`.
pub proof fn lemma_u64_be_bytes(n: u64)
    ensures
        u64_be_bytes(n).len() == 8,
        n as int == u64_be_bytes(n)[0] * 0x100_0000_0000_0000int + u64_be_bytes(n)[1] * 0x1_0000_0000_0000int
            + u64_be_bytes(n)[2] * 0x100_0000_0000int + u64_be_bytes(n)[3] * 0x1_0000_0000int
            + u64_be_bytes(n)[4] * 0x100_0000int + u64_be_bytes(n)[5] * 0x1_0000int
            + u64_be_bytes(n)[6] * 0x100int + u64_be_bytes(n)[7],
{
    let b = u64_be_bytes(n);
    let x0: u64 = (n >> 56u64) & 0xff;
    let x1: u64 = (n >> 48u64) & 0xff;
    let x2: u64 = (n >> 40u64) & 0xff;
    let x3: u64 = (n >> 32u64) & 0xff;
    let x4: u64 = (n >> 24u64) & 0xff;
    let x5: u64 = (n >> 16u64) & 0xff;
    let x6: u64 = (n >> 8u64) & 0xff;
    let x7: u64 = (n >> 0u64) & 0xff;
    assert(x0 < 256 && x1 < 256 && x2 < 256 && x3 < 256 && x4 < 256 && x5 < 256 && x6 < 256 && x7 < 256) by (bit_vector)
        requires
            x0 == (n >> 56u64) & 0xff, x1 == (n >> 48u64) & 0xff, x2 == (n >> 40u64) & 0xff, x3 == (n >> 32u64) & 0xff,
            x4 == (n >> 24u64) & 0xff, x5 == (n >> 16u64) & 0xff, x6 == (n >> 8u64) & 0xff, x7 == (n >> 0u64) & 0xff;
    assert(n == x0 * 0x100_0000_0000_0000 + x1 * 0x1_0000_0000_0000 + x2 * 0x100_0000_0000 + x3 * 0x1_0000_0000
        + x4 * 0x100_0000 + x5 * 0x1_0000 + x6 * 0x100 + x7) by (bit_vector)
        requires
            x0 == (n >> 56u64) & 0xff, x1 == (n >> 48u64) & 0xff, x2 == (n >> 40u64) & 0xff, x3 == (n >> 32u64) & 0xff,
            x4 == (n >> 24u64) & 0xff, x5 == (n >> 16u64) & 0xff, x6 == (n >> 8u64) & 0xff, x7 == (n >> 0u64) & 0xff;
    assert(b[0] == x0 as u8 && b[1] == x1 as u8 && b[2] == x2 as u8 && b[3] == x3 as u8);
    assert(b[4] == x4 as u8 && b[5] == x5 as u8 && b[6] == x6 as u8 && b[7] == x7 as u8);
}

/// The address `create` derives is the Keccak-256 digest of the deployer's bytes
/// followed by the nonce's eight big-endian bytes, without its first twelve
/// bytes: the digest is those twelve bytes and then the address.
pub proof fn lemma_create_address(deployer: Seq<u8>, nonce: u64)
    ensures
        ({
            let input = deployer + u64_be_bytes(nonce);
            let digest = keccak256_digest(input);
            &&& input.len() == deployer.len() + 8
            &&& input.subrange(0, deployer.len() as int) == deployer
            &&& input.subrange(deployer.len() as int, input.len() as int) == u64_be_bytes(nonce)
            &&& digest.len() == 32 ==> digest == digest.subrange(0, 12) + create_address_spec(deployer, nonce)
        }),
{
    lemma_u64_be_bytes(nonce);
    let input = deployer + u64_be_bytes(nonce);
    assert(input.subrange(0, deployer.len() as int) =~= deployer);
    assert(input.subrange(deployer.len() as int, input.len() as int) =~= u64_be_bytes(nonce));
    let digest = keccak256_digest(input);
    if digest.len() == 32 {
        assert(digest =~= digest.subrange(0, 12) + digest.subrange(12, 32));
    }
}

/// The address that `create2` derives from a deployer, a salt and a code hash.
pub open spec fn create2_address_spec(deployer: Seq<u8>, salt: Seq<u8>, code_hash: Seq<u8>) -> Seq<u8> {
    keccak256_digest(seq![0xffu8] + deployer + salt + code_hash).subrange(12, 32)
}

/// The address `create2` derives is the Keccak-256 digest of the byte 0xff, the
/// deployer, the salt and the code hash, without its first twelve bytes.
pub proof fn lemma_create2_address(deployer: Seq<u8>, salt: Seq<u8>, code_hash: Seq<u8>)
    ensures
        ({
            let input = seq![0xffu8] + deployer + salt + code_hash;
            let digest = keccak256_digest(input);
            let d = deployer.len() as int;
            let k = salt.len() as int;
            &&& input.len() == 1 + d + k + code_hash.len()
            &&& input[0] == 0xff
            &&& input.subrange(1, 1 + d) == deployer
            &&& input.subrange(1 + d, 1 + d + k) == salt
            &&& input.subrange(1 + d + k, input.len() as int) == code_hash
            &&& digest.len() == 32 ==> digest == digest.subrange(0, 12) + create2_address_spec(deployer, salt, code_hash)
        }),
{
    let input = seq![0xffu8] + deployer + salt + code_hash;
    let d = deployer.len() as int;
    let k = salt.len() as int;
    assert(input.subrange(1, 1 + d) =~= deployer);
    assert(input.subrange(1 + d, 1 + d + k) =~= salt);
    assert(input.subrange(1 + d + k, input.len() as int) =~= code_hash);
    let digest = keccak256_digest(input);
    if digest.len() == 32 {
        assert(digest =~= digest.subrange(0, 12) + digest.subrange(12, 32));
    }
}

/// The bytes of a string with one leading `0x` removed.
pub open spec fn strip_hex_prefix(b: Seq<u8>) -> Seq<u8> {
    if b.len() >= 2 && b[0] == 48 && b[1] == 120 {
        b.subrange(2, b.len() as int)
    } else {
        b
    }
}

/// Parsing an address from the UTF-8 bytes of a hex string.
pub open spec fn address_from_hex_spec(b: Seq<u8>) -> Result<Seq<u8>, HexError> {
    match hex_decode_spec(strip_hex_prefix(b)) {
        Ok(bytes) => if bytes.len() == 20 {
            Ok(bytes)
        } else {
            Err(HexError::InvalidStringLength)
        },
        Err(e) => Err(e),
    }
}

/// Copies the twenty bytes of a slice that start at `start` into an array.
fn copy_20(src: &[u8], start: usize) -> (r: [u8; 20])
    requires
        start + 20 <= src@.len(),
    ensures
        r@ == src@.subrange(start as int, start + 20),
{
    let mut out = [0u8; 20];
    let n = src.len();
    let mut i: usize = 0;
    while i < 20
        invariant
            i <= 20,
            n == src@.len(),
            start + 20 <= n,
            out@.len() == 20,
            forall|j: int| 0 <= j < i ==> out@[j] == src@[start + j],
        decreases 20 - i,
    {
        out[i] = src[start + i];
        i = i + 1;
    }
    assert(out@ =~= src@.subrange(start as int, start + 20));
    out
}

/// Appends the eight big-endian bytes of `n`.
fn push_u64_be(buf: &mut Vec<u8>, n: u64)
    ensures
        final(buf)@ == old(buf)@ + u64_be_bytes(n),
{
    let mut i: u64 = 0;
    while i < 8
        invariant
            i <= 8,
            buf@ == old(buf)@ + u64_be_bytes(n).subrange(0, i as int),
        decreases 8 - i,
    {
        let b = ((n >> (56 - 8 * i)) & 0xff) as u8;
        buf.push(b);
        assert(u64_be_bytes(n).subrange(0, i + 1) =~= u64_be_bytes(n).subrange(0, i as int).push(b));
        i = i + 1;
    }
    assert(u64_be_bytes(n).subrange(0, 8) =~= u64_be_bytes(n));
}

/// Appends all bytes of a slice.
pub fn push_all(buf: &mut Vec<u8>, data: &[u8])
    ensures
        final(buf)@ == old(buf)@ + data@,
{
    let mut i: usize = 0;
    while i < data.len()
        invariant
            i <= data@.len(),
            buf@ == old(buf)@ + data@.subrange(0, i as int),
        decreases data@.len() - i,
    {
        buf.push(data[i]);
        assert(data@.subrange(0, i + 1) =~= data@.subrange(0, i as int).push(data@[i as int]));
        i = i + 1;
    }
    assert(data@.subrange(0, data@.len() as int) =~= data@);
}

impl ContractAddress {
    /// Creates a new contract address from raw bytes.
    pub fn new(bytes: [u8; 20]) -> (r: Self)
        ensures
            r@ == bytes@,
    {
        ContractAddress(bytes)
    }

    /// Creates a contract address from a slice of exactly 20 bytes.
    pub fn from_slice(slice: &[u8]) -> (r: Option<Self>)
        ensures
            r is Some <==> slice@.len() == 20,
            r matches Some(a) ==> a@ == slice@,
    {
        if slice.len() != CONTRACT_ADDRESS_SIZE {
            return None;
        }
        let bytes = copy_20(slice, 0);
        assert(slice@.subrange(0, 20) =~= slice@);
        Some(ContractAddress(bytes))
    }

    /// The zero address (used for contract creation transactions).
    pub fn zero() -> (r: Self)
        ensures
            r@ == zero_bytes(20),
    {
        let r = ContractAddress([0u8; 20]);
        assert(r@ =~= zero_bytes(20));
        r
    }

    /// Whether this is the zero address.
    pub fn is_zero(&self) -> (r: bool)
        ensures
            r == (self@ == zero_bytes(20)),
    {
        let mut i: usize = 0;
        while i < 20
            invariant
                i <= 20,
                self@.len() == 20,
                forall|j: int| 0 <= j < i ==> self@[j] == 0,
            decreases 20 - i,
        {
            if self.0[i] != 0 {
                assert(self@[i as int] != zero_bytes(20)[i as int]);
                return false;
            }
            i = i + 1;
        }
        assert(self@ =~= zero_bytes(20));
        true
    }

    /// The raw bytes of the address.
    pub fn as_bytes(&self) -> (r: &[u8; 20])
        ensures
            r@ == self@,
    {
        &self.0
    }

    /// Derives a contract address from a deployer and a nonce:
    /// the last 20 bytes of keccak256(deployer || nonce as 8 big-endian bytes).
    pub fn create(deployer: &[u8], nonce: u64) -> (r: Self)
        ensures
            r@ == create_address_spec(deployer@, nonce),
    {
        let mut buf: Vec<u8> = Vec::new();
        push_all(&mut buf, deployer);
        push_u64_be(&mut buf, nonce);
        let digest = keccak256(buf.as_slice());
        ContractAddress(copy_20(&digest, 12))
    }

    /// Derives a contract address with CREATE2 semantics:
    /// the last 20 bytes of keccak256(0xff || deployer || salt || code_hash).
    pub fn create2(deployer: &ContractAddress, salt: &[u8; 32], code_hash: &crate::digest::Hash) -> (r: Self)
        ensures
            r@ == create2_address_spec(deployer@, salt@, code_hash@),
    {
        let mut buf: Vec<u8> = Vec::new();
        buf.push(0xffu8);
        push_all(&mut buf, deployer.as_bytes());
        push_all(&mut buf, salt);
        let h = code_hash.as_bytes();
        push_all(&mut buf, &h);
        assert(buf@ =~= seq![0xffu8] + deployer@ + salt@ + code_hash@);
        let digest = keccak256(buf.as_slice());
        ContractAddress(copy_20(&digest, 12))
    }

    /// The lower-case hex string of the address, without a `0x` prefix.
    pub fn to_hex(&self) -> (r: String)
        ensures
            r@ == hex_encode_spec(self@),
    {
        hex_encode(&self.0)
    }

    /// The address as `0x` followed by its hex string.
    pub fn to_string(&self) -> (r: String)
        ensures
            r@ == "0x"@ + hex_encode_spec(self@),
    {
        let mut s = String::from_str("0x");
        let h = self.to_hex();
        s.append(h.as_str());
        s
    }

    /// Parses an address from a hex string with or without a `0x` prefix.
    pub fn from_hex(s: &str) -> (r: Result<Self, HexError>)
        ensures
            match r {
                Ok(a) => address_from_hex_spec(s.spec_bytes()) == Ok::<Seq<u8>, HexError>(a@),
                Err(e) => address_from_hex_spec(s.spec_bytes()) == Err::<Seq<u8>, HexError>(e),
            },
    {
        let bytes = s.as_bytes();
        let body: &[u8] = if bytes.len() >= 2 && bytes[0] == 48u8 && bytes[1] == 120u8 {
            &bytes[2..bytes.len()]
        } else {
            bytes
        };
        assert(body@ == strip_hex_prefix(s.spec_bytes()));
        let decoded = hex_decode(body);
        match decoded {
            Ok(v) => {
                match Self::from_slice(v.as_slice()) {
                    Some(a) => Ok(a),
                    None => Err(HexError::InvalidStringLength),
                }
            },
            Err(e) => Err(e),
        }
    }

    /// Compares two addresses byte by byte.
    pub fn equals(&self, other: &Self) -> (r: bool)
        ensures
            r == (self@ == other@),
    {
        let mut i: usize = 0;
        while i < 20
            invariant
                i <= 20,
                self@.len() == 20,
                other@.len() == 20,
                forall|j: int| 0 <= j < i ==> self@[j] == other@[j],
            decreases 20 - i,
        {
            if self.0[i] != other.0[i] {
                return false;
            }
            i = i + 1;
        }
        assert(self@ =~= other@);
        true
    }
}

impl PartialEq for ContractAddress {
    fn eq(&self, other: &Self) -> (r: bool) {
        self.equals(other)
    }
}

impl vstd::std_specs::cmp::PartialEqSpecImpl for ContractAddress {
    open spec fn obeys_eq_spec() -> bool {
        true
    }

    open spec fn eq_spec(&self, other: &Self) -> bool {
        self@ == other@
    }
}

impl Eq for ContractAddress {}

impl Default for ContractAddress {
    fn default() -> (r: Self)
        ensures
            r@ == zero_bytes(20),
    {
        Self::zero()
    }
}

impl From<[u8; 20]> for ContractAddress {
    fn from(bytes: [u8; 20]) -> (r: Self)
        ensures
            r@ == bytes@,
    {
        ContractAddress(bytes)
    }
}

impl vstd::std_specs::convert::FromSpecImpl<[u8; 20]> for ContractAddress {
    open spec fn obeys_from_spec() -> bool {
        true
    }

    closed spec fn from_spec(bytes: [u8; 20]) -> Self {
        ContractAddress(bytes)
    }
}

/// Parsing the hex string of an address gives back the address.
pub proof fn lemma_address_hex_roundtrip(a: ContractAddress)
    ensures
        address_from_hex_spec(vstd::utf8::encode_utf8(hex_encode_spec(a@)))
            == Ok::<Seq<u8>, HexError>(a@),
{
    let s = hex_encode_spec(a@);
    crate::hexstr::lemma_hex_encode_ascii(a@);
    crate::hexstr::lemma_hex_roundtrip(a@);
    let b = vstd::utf8::encode_utf8(s);
    assert(b =~= Seq::new(s.len(), |i: int| s[i] as u8));
    // 'x' is not a hex digit, so no prefix is stripped.
    if b.len() >= 2 && b[0] == 48 && b[1] == 120 {
        assert(s[1] as u8 == 120);
        assert(false);
    }
    assert(strip_hex_prefix(b) == b);
}

} // verus!

//! Contract bytecode and its storage by address and by hash.

use vstd::prelude::*;
use crate::address::ContractAddress;
use crate::assoc::{assoc_put, assoc_remove, has_key, index_of, key_set, lemma_assoc_put, lemma_assoc_remove, lemma_index_of_absent, lemma_index_of_at, lemma_key_set_finite_len, lookup, unique_keys};
use crate::digest::keccak256_digest;
use crate::text::{decimal, push_decimal};

verus! {

broadcast use ContractAddress::lemma_view_len;

/// Maximum contract code size (24KB).
pub const MAX_CODE_SIZE: usize = 24 * 1024;

/// Contract bytecode with metadata.
#[derive(Debug)]
pub struct ContractCode {
    /// The WASM bytecode
    pub code: Vec<u8>,
    /// Hash of the code
    pub code_hash: crate::digest::Hash,
    /// Deployer address
    pub deployer: ContractAddress,
    /// Block height when deployed
    pub deployed_at: u64,
}

/// The abstract content of a code entry.
pub struct CodeView {
    pub code: Seq<u8>,
    pub code_hash: Seq<u8>,
    pub deployer: Seq<u8>,
    pub deployed_at: u64,
}

impl View for ContractCode {
    type V = CodeView;

    open spec fn view(&self) -> CodeView {
        CodeView {
            code: self.code@,
            code_hash: self.code_hash@,
            deployer: self.deployer@,
            deployed_at: self.deployed_at,
        }
    }
}

/// The four bytes that open every WASM module: `\0asm`.
pub open spec fn wasm_magic() -> Seq<u8> {
    seq![0x00u8, 0x61u8, 0x73u8, 0x6du8]
}

/// The four bytes of WASM version 1.
pub open spec fn wasm_version_one() -> Seq<u8> {
    seq![0x01u8, 0x00u8, 0x00u8, 0x00u8]
}

/// The outcome of validating bytecode: size first, then length, magic and version.
pub open spec fn code_validation(code: Seq<u8>) -> Result<(), Seq<char>> {
    if code.len() > MAX_CODE_SIZE {
        Err("Code size "@ + decimal(code.len()) + " exceeds maximum "@ + decimal(MAX_CODE_SIZE as nat))
    } else if code.len() < 8 {
        Err("Code too short"@)
    } else if code.subrange(0, 4) != wasm_magic() {
        Err("Invalid WASM magic bytes"@)
    } else if code.subrange(4, 8) != wasm_version_one() {
        Err("Unsupported WASM version"@)
    } else {
        Ok(())
    }
}

/// Whether `code[start..start + 4]` equals `expected`.
fn four_bytes_match(code: &[u8], start: usize, expected: [u8; 4]) -> (r: bool)
    requires
        start + 4 <= code@.len(),
    ensures
        r == (code@.subrange(start as int, start + 4) == expected@),
{
    let n = code.len();
    let mut i: usize = 0;
    while i < 4
        invariant
            i <= 4,
            n == code@.len(),
            start + 4 <= n,
            expected@.len() == 4,
            forall|j: int| 0 <= j < i ==> code@[start + j] == expected@[j],
        decreases 4 - i,
    {
        if code[start + i] != expected[i] {
            assert(code@.subrange(start as int, start + 4)[i as int] != expected@[i as int]);
            return false;
        }
        i = i + 1;
    }
    assert(code@.subrange(start as int, start + 4) =~= expected@);
    true
}

impl ContractCode {
    /// Creates a code entry; its hash is the Keccak-256 digest of the bytecode.
    pub fn new(code: Vec<u8>, deployer: ContractAddress, deployed_at: u64) -> (r: Self)
        ensures
            r@ == (CodeView { code: code@, code_hash: keccak256_digest(code@), deployer: deployer@, deployed_at }),
    {
        let code_hash = Self::compute_hash(code.as_slice());
        ContractCode { code, code_hash, deployer, deployed_at }
    }

    /// The Keccak-256 hash of bytecode.
    pub fn compute_hash(code: &[u8]) -> (r: crate::digest::Hash)
        ensures
            r@ == keccak256_digest(code@),
    {
        crate::digest::Hash::keccak(code)
    }

    /// The size of the code in bytes.
    pub fn size(&self) -> (r: usize)
        ensures
            r == self.code@.len(),
    {
        self.code.len()
    }

    /// Whether the code is empty.
    pub fn is_empty(&self) -> (r: bool)
        ensures
            r == (self.code@.len() == 0),
    {
        self.code.len() == 0
    }

    /// Checks the size limit and the WASM header (magic bytes and version 1).
    pub fn validate(&self) -> (r: Result<(), String>)
        ensures
            r is Ok <==> code_validation(self.code@) is Ok,
            r matches Err(m) ==> code_validation(self.code@) == Err::<(), Seq<char>>(m@),
    {
        let n = self.code.len();
        if n > MAX_CODE_SIZE {
            let mut m = String::from_str("Code size ");
            push_decimal(&mut m, n as u64);
            m.append(" exceeds maximum ");
            push_decimal(&mut m, MAX_CODE_SIZE as u64);
            return Err(m);
        }
        if n < 8 {
            return Err(String::from_str("Code too short"));
        }
        let magic: [u8; 4] = [0x00, 0x61, 0x73, 0x6d];
        assert(magic@ =~= wasm_magic());
        if !four_bytes_match(self.code.as_slice(), 0, magic) {
            return Err(String::from_str("Invalid WASM magic bytes"));
        }
        let version: [u8; 4] = [0x01, 0x00, 0x00, 0x00];
        assert(version@ =~= wasm_version_one());
        if !four_bytes_match(self.code.as_slice(), 4, version) {
            return Err(String::from_str("Unsupported WASM version"));
        }
        Ok(())
    }
}

impl Clone for ContractCode {
    fn clone(&self) -> (r: Self)
        ensures
            r@ == self@,
    {
        let code = self.code.clone();
        assert(code@ =~= self.code@);
        ContractCode { code, code_hash: self.code_hash, deployer: self.deployer, deployed_at: self.deployed_at }
    }
}

/// The views of the entries of a table of code.
pub open spec fn code_entries<K: View>(v: Seq<(K, ContractCode)>) -> Seq<(K::V, CodeView)> {
    v.map_values(|p: (K, ContractCode)| (p.0@, p.1@))
}

/// The view of an optional code entry.
pub open spec fn opt_code(c: Option<ContractCode>) -> Option<CodeView> {
    match c {
        Some(c) => Some(c@),
        None => None,
    }
}

/// Code storage: one table by contract address, one by code hash that keeps the
/// first code stored under each hash.
pub struct CodeStorage {
    by_address: Vec<(ContractAddress, ContractCode)>,
    by_hash: Vec<(crate::digest::Hash, ContractCode)>,
}

/// The position of `key` in a table of code by address.
fn find_address(v: &Vec<(ContractAddress, ContractCode)>, key: &ContractAddress) -> (r: Option<usize>)
    requires
        unique_keys(code_entries(v@)),
    ensures
        match r {
            Some(i) => i < v@.len() && index_of(code_entries(v@), key@) == i && has_key(code_entries(v@), key@),
            None => !has_key(code_entries(v@), key@) && index_of(code_entries(v@), key@) == -1,
        },
{
    let mut i: usize = 0;
    while i < v.len()
        invariant
            unique_keys(code_entries(v@)),
            i <= v@.len(),
            forall|j: int| 0 <= j < i ==> v@[j].0@ != key@,
        decreases v@.len() - i,
    {
        if v[i].0.equals(key) {
            proof {
                assert(code_entries(v@)[i as int].0 == key@);
                lemma_index_of_at(code_entries(v@), i as int);
            }
            return Some(i);
        }
        i = i + 1;
    }
    proof {
        assert forall|j: int| 0 <= j < code_entries(v@).len() implies code_entries(v@)[j].0 != key@ by {
            assert(code_entries(v@)[j].0 == v@[j].0@);
        }
        lemma_index_of_absent(code_entries(v@), key@);
    }
    None
}

/// The position of `key` in a table of code by hash.
fn find_hash(v: &Vec<(crate::digest::Hash, ContractCode)>, key: &crate::digest::Hash) -> (r: Option<usize>)
    requires
        unique_keys(code_entries(v@)),
    ensures
        match r {
            Some(i) => i < v@.len() && index_of(code_entries(v@), key@) == i && has_key(code_entries(v@), key@),
            None => !has_key(code_entries(v@), key@) && index_of(code_entries(v@), key@) == -1,
        },
{
    let mut i: usize = 0;
    while i < v.len()
        invariant
            unique_keys(code_entries(v@)),
            i <= v@.len(),
            forall|j: int| 0 <= j < i ==> v@[j].0@ != key@,
        decreases v@.len() - i,
    {
        if crate::digest::bytes32_eq(&v[i].0.0, &key.0) {
            proof {
                assert(code_entries(v@)[i as int].0 == key@);
                lemma_index_of_at(code_entries(v@), i as int);
            }
            return Some(i);
        }
        i = i + 1;
    }
    proof {
        assert forall|j: int| 0 <= j < code_entries(v@).len() implies code_entries(v@)[j].0 != key@ by {
            assert(code_entries(v@)[j].0 == v@[j].0@);
        }
        lemma_index_of_absent(code_entries(v@), key@);
    }
    None
}

/// The table of code by hash after storing `c`: a hash already present keeps its first code.
pub open spec fn hash_table_after(t: Seq<(Seq<u8>, CodeView)>, c: CodeView) -> Seq<(Seq<u8>, CodeView)> {
    if has_key(t, c.code_hash) {
        t
    } else {
        t.push((c.code_hash, c))
    }
}

impl CodeStorage {
    /// The code stored by address.
    pub closed spec fn address_table(&self) -> Seq<(Seq<u8>, CodeView)> {
        code_entries(self.by_address@)
    }

    /// The code stored by hash.
    pub closed spec fn hash_table(&self) -> Seq<(Seq<u8>, CodeView)> {
        code_entries(self.by_hash@)
    }

    /// Keys are distinct in both tables.
    pub closed spec fn wf(&self) -> bool {
        unique_keys(self.address_table()) && unique_keys(self.hash_table())
    }

    /// Creates an empty code storage.
    pub fn new() -> (r: Self)
        ensures
            r.wf(),
            r.address_table().len() == 0,
            r.hash_table().len() == 0,
    {
        let r = CodeStorage { by_address: Vec::new(), by_hash: Vec::new() };
        assert(r.address_table() =~= Seq::<(Seq<u8>, CodeView)>::empty());
        assert(r.hash_table() =~= Seq::<(Seq<u8>, CodeView)>::empty());
        r
    }

    /// The code deployed at `address`.
    pub fn get(&self, address: &ContractAddress) -> (r: Option<ContractCode>)
        requires
            self.wf(),
        ensures
            opt_code(r) == lookup(self.address_table(), address@),
    {
        match find_address(&self.by_address, address) {
            Some(i) => {
                proof {
                    lemma_index_of_at(self.address_table(), i as int);
                }
                Some(self.by_address[i].1.clone())
            },
            None => None,
        }
    }

    /// The first code stored with hash `hash`.
    pub fn get_by_hash(&self, hash: &crate::digest::Hash) -> (r: Option<ContractCode>)
        requires
            self.wf(),
        ensures
            opt_code(r) == lookup(self.hash_table(), hash@),
    {
        match find_hash(&self.by_hash, hash) {
            Some(i) => {
                proof {
                    lemma_index_of_at(self.hash_table(), i as int);
                }
                Some(self.by_hash[i].1.clone())
            },
            None => None,
        }
    }

    /// Stores code for a contract, replacing what the address had; the hash table
    /// gets the code only if its hash is new. Returns the stored code.
    pub fn store(&mut self, address: ContractAddress, code: ContractCode) -> (r: ContractCode)
        requires
            old(self).wf(),
        ensures
            final(self).wf(),
            r@ == code@,
            final(self).address_table() == assoc_put(old(self).address_table(), address@, code@),
            final(self).hash_table() == hash_table_after(old(self).hash_table(), code@),
            forall|a: Seq<u8>| #[trigger] lookup(final(self).address_table(), a)
                == if a == address@ { Some(code@) } else { lookup(old(self).address_table(), a) },
    {
        let ghost at = self.address_table();
        let ghost ht = self.hash_table();
        proof {
            lemma_assoc_put(at, address@, code@);
        }
        match find_address(&self.by_address, &address) {
            Some(i) => {
                self.by_address.set(i, (address, code.clone()));
                assert(self.address_table() =~= at.update(i as int, (address@, code@)));
            },
            None => {
                self.by_address.push((address, code.clone()));
                assert(self.address_table() =~= at.push((address@, code@)));
            },
        }
        let hash = code.code_hash;
        match find_hash(&self.by_hash, &hash) {
            Some(_) => {},
            None => {
                self.by_hash.push((hash, code.clone()));
                assert(self.hash_table() =~= ht.push((code@.code_hash, code@)));
                proof {
                    crate::assoc::lemma_push_new(ht, code@.code_hash, code@);
                }
            },
        }
        code
    }

    /// Whether a contract is deployed at `address`.
    pub fn code_exists(&self, address: &ContractAddress) -> (r: bool)
        requires
            self.wf(),
        ensures
            r == has_key(self.address_table(), address@),
    {
        find_address(&self.by_address, address).is_some()
    }

    /// Removes the contract at `address` and returns its code; the hash table keeps it.
    pub fn remove(&mut self, address: &ContractAddress) -> (r: Option<ContractCode>)
        requires
            old(self).wf(),
        ensures
            final(self).wf(),
            opt_code(r) == lookup(old(self).address_table(), address@),
            final(self).address_table() == assoc_remove(old(self).address_table(), address@),
            final(self).hash_table() == old(self).hash_table(),
            forall|a: Seq<u8>| #[trigger] lookup(final(self).address_table(), a)
                == if a == address@ { None } else { lookup(old(self).address_table(), a) },
    {
        let ghost at = self.address_table();
        proof {
            lemma_assoc_remove(at, address@);
        }
        match find_address(&self.by_address, address) {
            Some(i) => {
                proof {
                    lemma_index_of_at(at, i as int);
                }
                let (_, c) = self.by_address.remove(i);
                assert(self.address_table() =~= at.remove(i as int));
                Some(c)
            },
            None => None,
        }
    }

    /// The number of deployed contracts.
    pub fn count(&self) -> (r: usize)
        requires
            self.wf(),
        ensures
            r == key_set(self.address_table()).len(),
            r == self.address_table().len(),
    {
        proof {
            lemma_key_set_finite_len(self.address_table());
        }
        self.by_address.len()
    }

    /// The addresses of all deployed contracts, each once.
    pub fn addresses(&self) -> (r: Vec<ContractAddress>)
        requires
            self.wf(),
        ensures
            r@.len() == self.address_table().len(),
            forall|i: int| 0 <= i < r@.len() ==> #[trigger] r@[i]@ == self.address_table()[i].0,
    {
        let mut out: Vec<ContractAddress> = Vec::new();
        let mut i: usize = 0;
        while i < self.by_address.len()
            invariant
                i <= self.by_address@.len(),
                out@.len() == i,
                forall|j: int| 0 <= j < i ==> #[trigger] out@[j]@ == self.by_address@[j].0@,
            decreases self.by_address@.len() - i,
        {
            out.push(self.by_address[i].0);
            i = i + 1;
        }
        proof {
            assert forall|j: int| 0 <= j < out@.len() implies #[trigger] out@[j]@ == self.address_table()[j].0 by {
                assert(self.address_table()[j].0 == self.by_address@[j].0@);
            }
        }
        out
    }
}

impl Default for CodeStorage {
    fn default() -> (r: Self)
        ensures
            r.wf(),
            r.address_table().len() == 0,
            r.hash_table().len() == 0,
    {
        Self::new()
    }
}

} // verus!

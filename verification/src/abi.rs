//! Contract ABI definitions: parameter types, function selectors and ABI tables.

use vstd::prelude::*;
use vstd::string::StringSliceAdditionalSpecFns;
use crate::digest::{keccak256, keccak256_digest};
use crate::hexstr::{hex_encode, hex_encode_spec};
use crate::text::{all_digits, decimal, decimal_value, lemma_decimal_reads_back, push_decimal, str_equal};

verus! {

/// ABI type of a contract function parameter or return value.
#[derive(Debug, PartialEq, Eq)]
pub enum AbiType {
    /// Unsigned 8-bit integer
    Uint8,
    /// Unsigned 16-bit integer
    Uint16,
    /// Unsigned 32-bit integer
    Uint32,
    /// Unsigned 64-bit integer
    Uint64,
    /// Unsigned 128-bit integer
    Uint128,
    /// Unsigned 256-bit integer
    Uint256,
    /// Signed 8-bit integer
    Int8,
    /// Signed 16-bit integer
    Int16,
    /// Signed 32-bit integer
    Int32,
    /// Signed 64-bit integer
    Int64,
    /// Signed 128-bit integer
    Int128,
    /// Signed 256-bit integer
    Int256,
    /// Boolean
    Bool,
    /// Contract or user address (20 bytes)
    Address,
    /// Fixed-size byte array
    Bytes(usize),
    /// Dynamic byte array
    DynamicBytes,
    /// UTF-8 string
    String,
    /// Fixed-size array of a type
    Array(Box<AbiType>, usize),
    /// Dynamic array of a type
    DynamicArray(Box<AbiType>),
    /// Tuple of types, each given by its canonical name
    Tuple(Vec<String>),
}

/// The encoded size in bytes of a fixed-size type, `None` for a dynamic type.
pub open spec fn fixed_size_spec(t: AbiType) -> Option<nat>
    decreases t,
{
    match t {
            AbiType::Uint8 => Some(1nat),
            AbiType::Uint16 => Some(2nat),
            AbiType::Uint32 => Some(4nat),
            AbiType::Uint64 => Some(8nat),
            AbiType::Uint128 => Some(16nat),
            AbiType::Uint256 => Some(32nat),
            AbiType::Int8 => Some(1nat),
            AbiType::Int16 => Some(2nat),
            AbiType::Int32 => Some(4nat),
            AbiType::Int64 => Some(8nat),
            AbiType::Int128 => Some(16nat),
            AbiType::Int256 => Some(32nat),
            AbiType::Bool => Some(1nat),
            AbiType::Address => Some(20nat),
            AbiType::Bytes(n) => Some(n as nat),
            AbiType::Array(inner, count) => match fixed_size_spec(*inner) {
                Some(s) => Some(s * (count as nat)),
                None => None,
            },
            AbiType::DynamicBytes => None,
            AbiType::String => None,
            AbiType::DynamicArray(_) => None,
            AbiType::Tuple(types) => if types.len() == 0 { Some(0nat) } else { None },
    }
}

/// Whether every size that `fixed_size` multiplies out fits in a `usize`.
pub open spec fn size_fits(t: AbiType) -> bool
    decreases t,
{
    match t {
        AbiType::Array(inner, count) => size_fits(*inner) && match fixed_size_spec(*inner) {
            Some(s) => s * count <= usize::MAX,
            None => true,
        },
        _ => true,
    }
}

/// A sequence of strings joined by a separator.
pub open spec fn join(parts: Seq<Seq<char>>, sep: Seq<char>) -> Seq<char>
    decreases parts.len(),
{
    if parts.len() == 0 {
        Seq::empty()
    } else if parts.len() == 1 {
        parts[0]
    } else {
        join(parts.drop_last(), sep) + sep + parts.last()
    }
}

/// The views of a vector of strings.
pub open spec fn string_views(v: Seq<String>) -> Seq<Seq<char>> {
    v.map_values(|s: String| s@)
}

/// The canonical name of an ABI type, as used in function signatures.
pub open spec fn abi_type_name(t: AbiType) -> Seq<char>
    decreases t,
{
    match t {
            AbiType::Uint8 => "uint8"@,
            AbiType::Uint16 => "uint16"@,
            AbiType::Uint32 => "uint32"@,
            AbiType::Uint64 => "uint64"@,
            AbiType::Uint128 => "uint128"@,
            AbiType::Uint256 => "uint256"@,
            AbiType::Int8 => "int8"@,
            AbiType::Int16 => "int16"@,
            AbiType::Int32 => "int32"@,
            AbiType::Int64 => "int64"@,
            AbiType::Int128 => "int128"@,
            AbiType::Int256 => "int256"@,
            AbiType::Bool => "bool"@,
            AbiType::Address => "address"@,
        AbiType::Bytes(n) => "bytes"@ + decimal(n as nat),
        AbiType::DynamicBytes => "bytes"@,
        AbiType::String => "string"@,
        AbiType::Array(inner, count) => abi_type_name(*inner) + "["@ + decimal(count as nat) + "]"@,
        AbiType::DynamicArray(inner) => abi_type_name(*inner) + "[]"@,
        AbiType::Tuple(types) => "("@ + join(string_views(types@), ","@) + ")"@,
    }
}

/// The canonical name of a fixed-size array is its element type's name, an
/// opening bracket, the count in decimal digits and a closing bracket; so it
/// never equals the name of a dynamic array of the same element type, and
/// arrays of different counts have different names.
pub proof fn lemma_array_type_name(inner: AbiType, count: usize)
    ensures
        ({
            let s = abi_type_name(AbiType::Array(Box::new(inner), count));
            let p = abi_type_name(inner);
            let digits = s.subrange(p.len() + 1int, s.len() - 1);
            &&& s.len() >= p.len() + 3
            &&& s.subrange(0, p.len() as int) == p
            &&& s[p.len() as int] == '['
            &&& s[s.len() - 1] == ']'
            &&& all_digits(digits)
            &&& decimal_value(digits) == count
            &&& s != abi_type_name(AbiType::DynamicArray(Box::new(inner)))
        }),
{
    reveal_strlit("[");
    reveal_strlit("]");
    reveal_strlit("[]");
    lemma_decimal_reads_back(count as nat);
    let s = abi_type_name(AbiType::Array(Box::new(inner), count));
    let p = abi_type_name(inner);
    let d = decimal(count as nat);
    assert(s == p + "["@ + d + "]"@);
    assert(s.subrange(p.len() + 1int, s.len() - 1) =~= d);
    assert(s.subrange(0, p.len() as int) =~= p);
    assert(s[p.len() as int] == "["@[0]);
    assert(s[s.len() - 1] == "]"@[0]);
    assert(abi_type_name(AbiType::DynamicArray(Box::new(inner))).len() == p.len() + 2);
}

/// The canonical name of a fixed-size byte array is `bytes` followed by its
/// size in decimal digits.
pub proof fn lemma_bytes_type_name(n: usize)
    ensures
        ({
            let s = abi_type_name(AbiType::Bytes(n));
            &&& s.len() > 5
            &&& s.subrange(0, 5) == "bytes"@
            &&& all_digits(s.subrange(5, s.len() as int))
            &&& decimal_value(s.subrange(5, s.len() as int)) == n
        }),
{
    reveal_strlit("bytes");
    lemma_decimal_reads_back(n as nat);
    let s = abi_type_name(AbiType::Bytes(n));
    assert(s.subrange(5, s.len() as int) =~= decimal(n as nat));
    assert(s.subrange(0, 5) =~= "bytes"@);
}

/// The canonical signature of a function: `name(type,type,...)`.
pub open spec fn signature_spec(name: Seq<char>, inputs: Seq<AbiType>) -> Seq<char> {
    name + "("@ + join(inputs.map_values(|t: AbiType| abi_type_name(t)), ","@) + ")"@
}

/// The selector of a signature: the first four bytes of the Keccak-256 digest of its UTF-8 bytes.
pub open spec fn selector_spec(signature: Seq<char>) -> Seq<u8> {
    keccak256_digest(vstd::utf8::encode_utf8(signature)).subrange(0, 4)
}

impl Clone for AbiType {
    fn clone(&self) -> (r: Self)
        ensures
            fixed_size_spec(r) == fixed_size_spec(*self),
            size_fits(r) == size_fits(*self),
            abi_type_name(r) == abi_type_name(*self),
        decreases *self,
    {
        match self {
            AbiType::Uint8 => AbiType::Uint8,
            AbiType::Uint16 => AbiType::Uint16,
            AbiType::Uint32 => AbiType::Uint32,
            AbiType::Uint64 => AbiType::Uint64,
            AbiType::Uint128 => AbiType::Uint128,
            AbiType::Uint256 => AbiType::Uint256,
            AbiType::Int8 => AbiType::Int8,
            AbiType::Int16 => AbiType::Int16,
            AbiType::Int32 => AbiType::Int32,
            AbiType::Int64 => AbiType::Int64,
            AbiType::Int128 => AbiType::Int128,
            AbiType::Int256 => AbiType::Int256,
            AbiType::Bool => AbiType::Bool,
            AbiType::Address => AbiType::Address,
            AbiType::Bytes(n) => AbiType::Bytes(*n),
            AbiType::DynamicBytes => AbiType::DynamicBytes,
            AbiType::String => AbiType::String,
            AbiType::Array(inner, count) => AbiType::Array(Box::new((**inner).clone()), *count),
            AbiType::DynamicArray(inner) => AbiType::DynamicArray(Box::new((**inner).clone())),
            AbiType::Tuple(types) => {
                let t = types.clone();
                assert forall|i: int| 0 <= i < t@.len() implies t@[i] == types@[i] by {
                    assert(cloned::<String>(types[i], t[i]));
                }
                assert(t@ =~= types@);
                AbiType::Tuple(t)
            },
        }
    }
}

/// When every product fits, so does the size itself.
pub proof fn lemma_fixed_size_fits(t: AbiType)
    requires
        size_fits(t),
    ensures
        fixed_size_spec(t) matches Some(n) ==> n <= usize::MAX,
    decreases t,
{
    match t {
        AbiType::Array(inner, count) => {
            lemma_fixed_size_fits(*inner);
        },
        _ => {},
    }
}

impl AbiType {
    /// The size in bytes of a fixed-size type, `None` for a dynamic type.
    pub fn fixed_size(&self) -> (r: Option<usize>)
        requires
            size_fits(*self),
        ensures
            match fixed_size_spec(*self) {
                Some(n) => r == Some(n as usize),
                None => r is None,
            },
        decreases *self,
    {
        proof {
            lemma_fixed_size_fits(*self);
        }
        match self {
            AbiType::Uint8 => Some(1),
            AbiType::Uint16 => Some(2),
            AbiType::Uint32 => Some(4),
            AbiType::Uint64 => Some(8),
            AbiType::Uint128 => Some(16),
            AbiType::Uint256 => Some(32),
            AbiType::Int8 => Some(1),
            AbiType::Int16 => Some(2),
            AbiType::Int32 => Some(4),
            AbiType::Int64 => Some(8),
            AbiType::Int128 => Some(16),
            AbiType::Int256 => Some(32),
            AbiType::Bool => Some(1),
            AbiType::Address => Some(20),
            AbiType::Bytes(n) => Some(*n),
            AbiType::Array(inner, count) => {
                assert(size_fits(**inner));
                let sub = inner.fixed_size();
                assert(fixed_size_spec(*self) == match fixed_size_spec(**inner) { Some(s) => Some(s * (*count as nat)), None => None::<nat> });
                match sub {
                    Some(s) => {
                        assert(fixed_size_spec(**inner) == Some(s as nat));
                        assert(s * *count <= usize::MAX);
                        Some(s * *count)
                    },
                    None => None,
                }
            },
            AbiType::DynamicBytes => None,
            AbiType::String => None,
            AbiType::DynamicArray(_) => None,
            AbiType::Tuple(types) => {
                if types.len() == 0 {
                    Some(0)
                } else {
                    None
                }
            },
        }
    }

    /// Whether this is a dynamic type.
    pub fn is_dynamic(&self) -> (r: bool)
        requires
            size_fits(*self),
        ensures
            r == (fixed_size_spec(*self) is None),
    {
        self.fixed_size().is_none()
    }
}

/// 4-byte function selector (first 4 bytes of keccak256(signature)).
#[derive(Debug, Clone, Copy, Hash)]
pub struct FunctionSelector([u8; 4]);

impl View for FunctionSelector {
    type V = Seq<u8>;

    closed spec fn view(&self) -> Seq<u8> {
        self.0@
    }
}

impl FunctionSelector {
    /// Every selector view has exactly 4 bytes.
    pub broadcast proof fn lemma_view_len(s: FunctionSelector)
        ensures
            #[trigger] s@.len() == 4,
    {
    }

    /// Creates a selector from raw bytes.
    pub fn new(bytes: [u8; 4]) -> (r: Self)
        ensures
            r@ == bytes@,
    {
        FunctionSelector(bytes)
    }

    /// Computes the selector of a function signature such as `transfer(address,uint256)`.
    pub fn from_signature(signature: &str) -> (r: Self)
        ensures
            r@ == selector_spec(signature@),
    {
        let digest = keccak256(signature.as_bytes());
        let r = FunctionSelector([digest[0], digest[1], digest[2], digest[3]]);
        assert(r@ =~= digest@.subrange(0, 4));
        r
    }

    /// The raw bytes.
    pub fn as_bytes(&self) -> (r: &[u8; 4])
        ensures
            r@ == self@,
    {
        &self.0
    }

    /// The lower-case hex string of the selector.
    pub fn to_hex(&self) -> (r: String)
        ensures
            r@ == hex_encode_spec(self@),
    {
        hex_encode(&self.0)
    }

    /// The selector as `0x` followed by its hex string.
    pub fn to_string(&self) -> (r: String)
        ensures
            r@ == "0x"@ + hex_encode_spec(self@),
    {
        let mut s = String::from_str("0x");
        let h = self.to_hex();
        s.append(h.as_str());
        s
    }

    /// Compares two selectors byte by byte.
    pub fn equals(&self, other: &Self) -> (r: bool)
        ensures
            r == (self@ == other@),
    {
        let r = self.0[0] == other.0[0] && self.0[1] == other.0[1] && self.0[2] == other.0[2]
            && self.0[3] == other.0[3];
        if r {
            assert(self@ =~= other@);
        }
        r
    }
}

impl PartialEq for FunctionSelector {
    fn eq(&self, other: &Self) -> (r: bool) {
        self.equals(other)
    }
}

impl vstd::std_specs::cmp::PartialEqSpecImpl for FunctionSelector {
    open spec fn obeys_eq_spec() -> bool {
        true
    }

    open spec fn eq_spec(&self, other: &Self) -> bool {
        self@ == other@
    }
}

impl Eq for FunctionSelector {}

/// Joins strings with a separator.
pub fn join_strings(parts: &Vec<String>, sep: &str) -> (r: String)
    ensures
        r@ == join(string_views(parts@), sep@),
{
    let mut res = String::new();
    let ghost views = string_views(parts@);
    let mut i: usize = 0;
    while i < parts.len()
        invariant
            i <= parts@.len(),
            views == string_views(parts@),
            views.len() == parts@.len(),
            res@ == join(views.subrange(0, i as int), sep@),
        decreases parts@.len() - i,
    {
        assert(views[i as int] == parts@[i as int]@);
        if i != 0 {
            res.append(sep);
        }
        res.append(parts[i].as_str());
        assert(views.subrange(0, i + 1).drop_last() =~= views.subrange(0, i as int));
        if i == 0 {
            assert(res@ =~= join(views.subrange(0, 1), sep@));
        }
        i = i + 1;
    }
    assert(views.subrange(0, parts@.len() as int) =~= views);
    res
}

/// Represents a function in a contract's ABI.
#[derive(Debug, Clone, PartialEq, Eq)]
pub struct AbiFunction {
    /// Function name
    pub name: String,
    /// Function selector (computed from signature)
    pub selector: FunctionSelector,
    /// Input parameter types
    pub inputs: Vec<AbiType>,
    /// Output types
    pub outputs: Vec<AbiType>,
    /// Whether this function is payable
    pub payable: bool,
    /// Whether this function is view-only (doesn't modify state)
    pub view: bool,
}

impl AbiFunction {
    /// Creates a function definition; its selector is computed from the canonical signature.
    pub fn new(name: &str, inputs: Vec<AbiType>, outputs: Vec<AbiType>, payable: bool, view: bool) -> (r: Self)
        ensures
            r.name@ == name@,
            r.selector@ == selector_spec(signature_spec(name@, inputs@)),
            r.inputs@ == inputs@,
            r.outputs@ == outputs@,
            r.payable == payable,
            r.view == view,
    {
        let signature = Self::compute_signature(name, &inputs);
        let selector = FunctionSelector::from_signature(signature.as_str());
        AbiFunction { name: String::from_str(name), selector, inputs, outputs, payable, view }
    }

    /// Computes the function signature string.
    fn compute_signature(name: &str, inputs: &Vec<AbiType>) -> (r: String)
        ensures
            r@ == signature_spec(name@, inputs@),
    {
        let ghost names = inputs@.map_values(|t: AbiType| abi_type_name(t));
        let mut params = String::new();
        let mut i: usize = 0;
        while i < inputs.len()
            invariant
                i <= inputs@.len(),
                names == inputs@.map_values(|t: AbiType| abi_type_name(t)),
                names.len() == inputs@.len(),
                params@ == join(names.subrange(0, i as int), ","@),
            decreases inputs@.len() - i,
        {
            assert(names[i as int] == abi_type_name(inputs@[i as int]));
            if i != 0 {
                params.append(",");
            }
            let t = Self::type_to_string(&inputs[i]);
            params.append(t.as_str());
            assert(names.subrange(0, i + 1).drop_last() =~= names.subrange(0, i as int));
            if i == 0 {
                assert(params@ =~= join(names.subrange(0, 1), ","@));
            }
            i = i + 1;
        }
        assert(names.subrange(0, inputs@.len() as int) =~= names);
        let mut s = String::from_str(name);
        s.append("(");
        s.append(params.as_str());
        s.append(")");
        s
    }

    /// The canonical name of an ABI type.
    fn type_to_string(t: &AbiType) -> (r: String)
        ensures
            r@ == abi_type_name(*t),
        decreases *t,
    {
        match t {
            AbiType::Uint8 => String::from_str("uint8"),
            AbiType::Uint16 => String::from_str("uint16"),
            AbiType::Uint32 => String::from_str("uint32"),
            AbiType::Uint64 => String::from_str("uint64"),
            AbiType::Uint128 => String::from_str("uint128"),
            AbiType::Uint256 => String::from_str("uint256"),
            AbiType::Int8 => String::from_str("int8"),
            AbiType::Int16 => String::from_str("int16"),
            AbiType::Int32 => String::from_str("int32"),
            AbiType::Int64 => String::from_str("int64"),
            AbiType::Int128 => String::from_str("int128"),
            AbiType::Int256 => String::from_str("int256"),
            AbiType::Bool => String::from_str("bool"),
            AbiType::Address => String::from_str("address"),
            AbiType::Bytes(n) => {
                let mut s = String::from_str("bytes");
                push_decimal(&mut s, *n as u64);
                s
            },
            AbiType::DynamicBytes => String::from_str("bytes"),
            AbiType::String => String::from_str("string"),
            AbiType::Array(inner, count) => {
                let mut s = Self::type_to_string(inner);
                s.append("[");
                push_decimal(&mut s, *count as u64);
                s.append("]");
                s
            },
            AbiType::DynamicArray(inner) => {
                let mut s = Self::type_to_string(inner);
                s.append("[]");
                s
            },
            AbiType::Tuple(types) => {
                let mut s = String::from_str("(");
                let j = join_strings(types, ",");
                s.append(j.as_str());
                s.append(")");
                s
            },
        }
    }
}

/// Represents an event in a contract's ABI.
#[derive(Debug, Clone, PartialEq, Eq)]
pub struct AbiEvent {
    /// Event name
    pub name: String,
    /// Event topic (keccak256 of signature)
    pub topic: [u8; 32],
    /// Whether each parameter is indexed
    pub indexed: Vec<bool>,
    /// Parameter types
    pub inputs: Vec<AbiType>,
}

/// Complete contract ABI.
#[derive(Debug, Clone, PartialEq, Eq)]
pub struct ContractAbi {
    /// Contract functions
    pub functions: Vec<AbiFunction>,
    /// Contract events
    pub events: Vec<AbiEvent>,
    /// Constructor parameters (if any)
    pub constructor: Option<Vec<String>>,
}

impl Default for ContractAbi {
    fn default() -> (r: Self)
        ensures
            r.functions@.len() == 0,
            r.events@.len() == 0,
            r.constructor is None,
    {
        ContractAbi { functions: Vec::new(), events: Vec::new(), constructor: None }
    }
}

impl ContractAbi {
    /// Creates a new empty ABI.
    pub fn new() -> (r: Self)
        ensures
            r.functions@.len() == 0,
            r.events@.len() == 0,
            r.constructor is None,
    {
        Self::default()
    }

    /// Adds a function to the ABI.
    pub fn add_function(&mut self, func: AbiFunction)
        ensures
            final(self).functions@ == old(self).functions@.push(func),
            final(self).events@ == old(self).events@,
            final(self).constructor == old(self).constructor,
    {
        self.functions.push(func);
    }

    /// Adds an event to the ABI.
    pub fn add_event(&mut self, event: AbiEvent)
        ensures
            final(self).events@ == old(self).events@.push(event),
            final(self).functions@ == old(self).functions@,
            final(self).constructor == old(self).constructor,
    {
        self.events.push(event);
    }

    /// The first function with the given selector.
    pub fn find_function(&self, selector: &FunctionSelector) -> (r: Option<&AbiFunction>)
        ensures
            match r {
                Some(f) => exists|i: int|
                    0 <= i < self.functions@.len() && self.functions@[i] == *f
                        && self.functions@[i].selector@ == selector@
                        && forall|j: int| 0 <= j < i ==> self.functions@[j].selector@ != selector@,
                None => forall|j: int| 0 <= j < self.functions@.len() ==> self.functions@[j].selector@ != selector@,
            },
    {
        let mut i: usize = 0;
        while i < self.functions.len()
            invariant
                i <= self.functions@.len(),
                forall|j: int| 0 <= j < i ==> self.functions@[j].selector@ != selector@,
            decreases self.functions@.len() - i,
        {
            if self.functions[i].selector.equals(selector) {
                return Some(&self.functions[i]);
            }
            i = i + 1;
        }
        None
    }

    /// The first function with the given name.
    pub fn find_function_by_name(&self, name: &str) -> (r: Option<&AbiFunction>)
        ensures
            match r {
                Some(f) => exists|i: int|
                    0 <= i < self.functions@.len() && self.functions@[i] == *f
                        && self.functions@[i].name@ == name@
                        && forall|j: int| 0 <= j < i ==> self.functions@[j].name@ != name@,
                None => forall|j: int| 0 <= j < self.functions@.len() ==> self.functions@[j].name@ != name@,
            },
    {
        let mut i: usize = 0;
        while i < self.functions.len()
            invariant
                i <= self.functions@.len(),
                forall|j: int| 0 <= j < i ==> self.functions@[j].name@ != name@,
            decreases self.functions@.len() - i,
        {
            if str_equal(self.functions[i].name.as_str(), name) {
                return Some(&self.functions[i]);
            }
            i = i + 1;
        }
        None
    }
}

} // verus!

//! The bootstrap Move standard library: its modules, its natives' byte-level behaviour, the
//! framework address, and the store that collects events during a transaction.
use vstd::prelude::*;
use vstd::string::StringSliceAdditionalSpecFns;
use vstd::utf8::{is_char_boundary, valid_utf8};

use sha2::Digest;

verus! {

/// A module of the bootstrap standard library and its source file.
#[derive(Clone, Copy, Debug, Eq, PartialEq)]
pub struct StdlibModule {
    pub name: &'static str,
    pub relative_path: &'static str,
}

/// The names of the bootstrap modules, in order.
pub open spec fn bootstrap_module_names() -> Seq<Seq<char>> {
    seq![
        "ascii"@,
        "bcs"@,
        "bit_vector"@,
        "error"@,
        "event"@,
        "fixed_point32"@,
        "guid"@,
        "hash"@,
        "option"@,
        "signer"@,
        "string"@,
        "type_name"@,
        "vector"@,
    ]
}

/// The source files of the bootstrap modules, in order.
pub open spec fn bootstrap_module_paths() -> Seq<Seq<char>> {
    seq![
        "framework/ascii.move"@,
        "framework/bcs.move"@,
        "framework/bit_vector.move"@,
        "framework/error.move"@,
        "framework/event.move"@,
        "framework/fixed_point32.move"@,
        "framework/guid.move"@,
        "framework/hash.move"@,
        "framework/option.move"@,
        "framework/signer.move"@,
        "framework/string.move"@,
        "framework/type_name.move"@,
        "framework/vector.move"@,
    ]
}

/// The thirteen bootstrap modules, each with the path `framework/{name}.move`.
pub fn bootstrap_modules() -> (r: Vec<StdlibModule>)
    ensures
        r@.len() == 13,
        forall|i: int| 0 <= i < 13 ==> #[trigger] r@[i].name@ == bootstrap_module_names()[i],
        forall|i: int| 0 <= i < 13 ==> #[trigger] r@[i].relative_path@ == bootstrap_module_paths()[i],
{
    let r = vec![
        StdlibModule { name: "ascii", relative_path: "framework/ascii.move" },
        StdlibModule { name: "bcs", relative_path: "framework/bcs.move" },
        StdlibModule { name: "bit_vector", relative_path: "framework/bit_vector.move" },
        StdlibModule { name: "error", relative_path: "framework/error.move" },
        StdlibModule { name: "event", relative_path: "framework/event.move" },
        StdlibModule { name: "fixed_point32", relative_path: "framework/fixed_point32.move" },
        StdlibModule { name: "guid", relative_path: "framework/guid.move" },
        StdlibModule { name: "hash", relative_path: "framework/hash.move" },
        StdlibModule { name: "option", relative_path: "framework/option.move" },
        StdlibModule { name: "signer", relative_path: "framework/signer.move" },
        StdlibModule { name: "string", relative_path: "framework/string.move" },
        StdlibModule { name: "type_name", relative_path: "framework/type_name.move" },
        StdlibModule { name: "vector", relative_path: "framework/vector.move" },
    ];
    r
}

/// The qualified names of the bootstrap natives, in order.
pub open spec fn bootstrap_native_names() -> Seq<Seq<char>> {
    seq![
        "0x1::signer::borrow_address"@,
        "0x1::bcs::to_bytes"@,
        "0x1::hash::sha2_256"@,
        "0x1::hash::sha3_256"@,
        "0x1::type_name::get"@,
        "0x1::string::internal_check_utf8"@,
        "0x1::string::internal_sub_string"@,
        "0x1::string::internal_index_of"@,
        "0x1::string::internal_is_char_boundary"@,
        "0x1::event::write_to_event_store"@,
    ]
}

/// The natives the bootstrap library registers, by qualified name.
pub fn bootstrap_natives() -> (r: Vec<&'static str>)
    ensures
        r@.len() == 10,
        forall|i: int| 0 <= i < 10 ==> #[trigger] r@[i]@ == bootstrap_native_names()[i],
{
    vec![
        "0x1::signer::borrow_address",
        "0x1::bcs::to_bytes",
        "0x1::hash::sha2_256",
        "0x1::hash::sha3_256",
        "0x1::type_name::get",
        "0x1::string::internal_check_utf8",
        "0x1::string::internal_sub_string",
        "0x1::string::internal_index_of",
        "0x1::string::internal_is_char_boundary",
        "0x1::event::write_to_event_store",
    ]
}

/// The bootstrap standard library as shipped.
#[derive(Clone, Debug, Eq, PartialEq)]
pub struct StdlibSnapshot {
    pub source: &'static str,
    pub includes_precompiled_modules: bool,
    pub native_functions: Vec<&'static str>,
    pub modules: Vec<StdlibModule>,
}

/// The bootstrap snapshot: the library under `stdlib/` with precompiled modules, the
/// bootstrap natives and the bootstrap modules, in their order.
pub open spec fn is_bootstrap_snapshot(s: StdlibSnapshot) -> bool {
    &&& s.source@ == "stdlib/"@
    &&& s.includes_precompiled_modules
    &&& s.native_functions@.len() == 10
    &&& forall|i: int| 0 <= i < 10 ==> #[trigger] s.native_functions@[i]@ == bootstrap_native_names()[i]
    &&& s.modules@.len() == 13
    &&& forall|i: int| 0 <= i < 13 ==> #[trigger] s.modules@[i].name@ == bootstrap_module_names()[i]
    &&& forall|i: int| 0 <= i < 13 ==> #[trigger] s.modules@[i].relative_path@
        == bootstrap_module_paths()[i]
}

impl StdlibSnapshot {
    /// The library under `stdlib/`, with precompiled modules, the bootstrap natives and the
    /// bootstrap modules.
    pub fn bootstrap() -> (r: Self)
        ensures
            r.source@ == "stdlib/"@,
            r.includes_precompiled_modules,
            r.native_functions@.len() == 10,
            forall|i: int| 0 <= i < 10 ==> #[trigger] r.native_functions@[i]@ == bootstrap_native_names()[i],
            r.modules@.len() == 13,
            forall|i: int| 0 <= i < 13 ==> #[trigger] r.modules@[i].name@ == bootstrap_module_names()[i],
            forall|i: int| 0 <= i < 13 ==> #[trigger] r.modules@[i].relative_path@
                == bootstrap_module_paths()[i],
            is_bootstrap_snapshot(r),
    {
        StdlibSnapshot {
            source: "stdlib/",
            includes_precompiled_modules: true,
            native_functions: bootstrap_natives(),
            modules: bootstrap_modules(),
        }
    }
}

/// The bytes of the framework address `0x0…01`.
pub open spec fn framework_address_view() -> Seq<u8> {
    Seq::new(32, |i: int| if i == 31 {
        1u8
    } else {
        0u8
    })
}

/// The framework address `0x0…01`.
pub fn framework_address_bytes() -> (r: [u8; 32])
    ensures
        r@ == framework_address_view(),
{
    let mut bytes = [0u8; 32];
    bytes.set(31, 1);
    assert(bytes@ =~= framework_address_view());
    bytes
}

/// The position of a framework module in the bootstrap list, by name.
pub fn framework_module_index(module_name: &str) -> (r: Option<usize>)
    ensures
        r matches Some(i) ==> i < 13 && bootstrap_module_names()[i as int] == module_name@,
        r is None ==> forall|i: int| 0 <= i < 13 ==> #[trigger] bootstrap_module_names()[i]
            != module_name@,
{
    let modules = bootstrap_modules();
    let target = crate::text::chars_of(module_name);
    let mut i: usize = 0;
    while i < modules.len()
        invariant
            i <= 13,
            modules@.len() == 13,
            target@ == module_name@,
            forall|k: int| 0 <= k < 13 ==> #[trigger] modules@[k].name@ == bootstrap_module_names()[k],
            forall|k: int| 0 <= k < i ==> #[trigger] bootstrap_module_names()[k] != module_name@,
        decreases 13 - i,
    {
        let name = crate::text::chars_of(modules[i].name);
        if chars_eq(name.as_slice(), target.as_slice()) {
            return Some(i);
        }
        i += 1;
    }
    None
}

/// The framework module a module request is served from: only at the framework address,
/// and only for a bootstrap module name; anything else is read from storage.
pub fn framework_module_for(address: &crate::types::AccountAddress, module_name: &str) -> (r: Option<
    usize,
>)
    ensures
        r matches Some(i) ==> address@ == framework_address_view() && i < 13
            && bootstrap_module_names()[i as int] == module_name@,
        r is None ==> address@ != framework_address_view() || forall|i: int|
            0 <= i < 13 ==> #[trigger] bootstrap_module_names()[i] != module_name@,
{
    let framework = crate::types::AccountAddress(framework_address_bytes());
    if crate::write_set::address_eq(address, &framework) {
        framework_module_index(module_name)
    } else {
        None
    }
}

/// Character-wise equality of two slices.
fn chars_eq(a: &[char], b: &[char]) -> (r: bool)
    ensures
        r == (a@ == b@),
{
    if a.len() != b.len() {
        return false;
    }
    let mut i: usize = 0;
    while i < a.len()
        invariant
            i <= a@.len(),
            a@.len() == b@.len(),
            forall|j: int| 0 <= j < i ==> a@[j] == b@[j],
        decreases a@.len() - i,
    {
        if a[i] != b[i] {
            return false;
        }
        i += 1;
    }
    assert(a@ =~= b@);
    true
}

/// The number of embedded framework modules.
pub fn framework_module_count() -> (r: usize)
    ensures
        r == 13,
{
    bootstrap_modules().len()
}

// ── Natives ─────────────────────────────────────────────────────────────

/// `std::str::from_utf8`: the bytes as a string slice when they are valid UTF-8. Claimed:
/// `Some` exactly for valid UTF-8, and then the slice has those bytes.
#[verifier::external_body]
fn str_from_utf8(bytes: &[u8]) -> (r: Option<&str>)
    ensures
        r is Some <==> valid_utf8(bytes@),
        r matches Some(s) ==> s.spec_bytes() == bytes@,
{
    match std::str::from_utf8(bytes) {
        Ok(s) => Some(s),
        Err(_) => None,
    }
}

/// `string::internal_check_utf8`: whether the bytes are valid UTF-8.
pub fn native_check_utf8(bytes: &[u8]) -> (r: bool)
    ensures
        r == valid_utf8(bytes@),
{
    str_from_utf8(bytes).is_some()
}

/// `string::internal_is_char_boundary`: whether `i` is a character boundary of the bytes;
/// false when they are not valid UTF-8.
pub fn native_is_char_boundary(bytes: &[u8], i: u64) -> (r: bool)
    ensures
        r == (valid_utf8(bytes@) && is_char_boundary(bytes@, (i as usize) as int)),
{
    match str_from_utf8(bytes) {
        Some(s) => s.is_char_boundary(i as usize),
        None => false,
    }
}

/// `string::internal_sub_string`: the bytes from `i` up to `j`; error 1 when `j < i` or `j`
/// is past the end.
pub fn native_sub_string(bytes: &[u8], i: u64, j: u64) -> (r: Result<Vec<u8>, u64>)
    ensures
        ((j as usize) < (i as usize) || (j as usize) > bytes@.len()) ==> r == Err::<Vec<u8>, u64>(1),
        !((j as usize) < (i as usize) || (j as usize) > bytes@.len()) ==> (r matches Ok(v) && v@
            == bytes@.subrange((i as usize) as int, (j as usize) as int)),
{
    let j = j as usize;
    let i = i as usize;
    if j < i {
        return Err(1);
    }
    if j > bytes.len() {
        return Err(1);
    }
    let mut out: Vec<u8> = Vec::new();
    let mut k: usize = i;
    while k < j
        invariant
            i <= k <= j,
            j <= bytes@.len(),
            out@ == bytes@.subrange(i as int, k as int),
        decreases j - k,
    {
        out.push(bytes[k]);
        assert(bytes@.subrange(i as int, k as int + 1) =~= bytes@.subrange(i as int, k as int).push(
            bytes@[k as int],
        ));
        k += 1;
    }
    Ok(out)
}

/// Whether `r` occurs in `s` at position `p`.
pub open spec fn occurs_at(s: Seq<u8>, r: Seq<u8>, p: int) -> bool {
    0 <= p && p + r.len() <= s.len() && s.subrange(p, p + r.len()) == r
}

/// `string::internal_index_of`: the first position where `r` occurs in `s`; 0 for an empty
/// `r`, the length of `s` when it does not occur.
pub fn native_index_of(s: &[u8], r: &[u8]) -> (pos: u64)
    ensures
        r@.len() == 0 ==> pos == 0,
        r@.len() > 0 ==> {
            &&& pos <= s@.len()
            &&& pos < s@.len() ==> occurs_at(s@, r@, pos as int)
            &&& forall|p: int| 0 <= p < pos ==> !occurs_at(s@, r@, p)
            &&& pos == s@.len() ==> forall|p: int| 0 <= p <= s@.len() ==> !occurs_at(s@, r@, p)
        },
{
    if r.len() == 0 {
        return 0;
    }
    if r.len() > s.len() {
        assert forall|p: int| 0 <= p <= s@.len() implies !occurs_at(s@, r@, p) by {}
        return s.len() as u64;
    }
    let slen = s.len();
    let last = slen - r.len();
    let mut p: usize = 0;
    while p <= last
        invariant
            0 < r@.len() <= s@.len(),
            last == s@.len() - r@.len(),
            last < s@.len(),
            slen == s@.len(),
            p <= last + 1,
            forall|q: int| 0 <= q < p ==> !occurs_at(s@, r@, q),
        decreases last + 1 - p,
    {
        let mut k: usize = 0;
        let mut matched = true;
        while k < r.len()
            invariant
                p <= last,
                last == s@.len() - r@.len(),
                0 < r@.len() <= s@.len(),
                slen == s@.len(),
                k <= r@.len(),
                matched == (forall|t: int| 0 <= t < k ==> s@[p + t] == r@[t]),
            decreases r@.len() - k,
        {
            if s[p + k] != r[k] {
                matched = false;
            }
            k += 1;
        }
        if matched {
            assert(s@.subrange(p as int, p + r@.len()) =~= r@);
            return p as u64;
        }
        assert(!occurs_at(s@, r@, p as int)) by {
            if occurs_at(s@, r@, p as int) {
                assert forall|t: int| 0 <= t < r@.len() implies s@[p + t] == r@[t] by {
                    assert(s@.subrange(p as int, p + r@.len())[t] == s@[p + t]);
                }
            }
        }
        p += 1;
    }
    assert forall|q: int| 0 <= q <= s@.len() implies !occurs_at(s@, r@, q) by {
        if q > last {
        }
    }
    s.len() as u64
}

/// The SHA2-256 digest of a byte string.
pub uninterp spec fn sha2_256_digest(data: Seq<u8>) -> Seq<u8>;

/// The SHA3-256 digest of a byte string.
pub uninterp spec fn sha3_256_digest(data: Seq<u8>) -> Seq<u8>;

/// `sha2::Sha256::digest`: the SHA2-256 digest of `data` (32 bytes). Claimed: the result
/// is `sha2_256_digest` of the input bytes, 32 bytes long.
#[verifier::external_body]
fn sha2_256_bytes(data: &[u8]) -> (r: Vec<u8>)
    ensures
        r@ == sha2_256_digest(data@),
        r@.len() == 32,
{
    sha2::Sha256::digest(data).to_vec()
}

/// `sha3::Sha3_256::digest`: the SHA3-256 digest of `data` (32 bytes). Claimed: the result
/// is `sha3_256_digest` of the input bytes, 32 bytes long.
#[verifier::external_body]
fn sha3_256_bytes(data: &[u8]) -> (r: Vec<u8>)
    ensures
        r@ == sha3_256_digest(data@),
        r@.len() == 32,
{
    sha3::Sha3_256::digest(data).to_vec()
}

/// `hash::sha2_256`: the SHA2-256 digest of the argument.
pub fn native_sha2_256(data: &[u8]) -> (r: Vec<u8>)
    ensures
        r@ == sha2_256_digest(data@),
        r@.len() == 32,
{
    sha2_256_bytes(data)
}

/// `hash::sha3_256`: the SHA3-256 digest of the argument.
pub fn native_sha3_256(data: &[u8]) -> (r: Vec<u8>)
    ensures
        r@ == sha3_256_digest(data@),
        r@.len() == 32,
{
    sha3_256_bytes(data)
}

// ── Events ──────────────────────────────────────────────────────────────

/// An event captured during Move execution.
#[derive(Clone, Debug, Eq, PartialEq)]
pub struct ContractEvent {
    /// Event type tag (such as `0xCAFE::counter::IncrementEvent`).
    pub type_tag: String,
    /// GUID of the event stream.
    pub guid: Vec<u8>,
    /// Sequence number within the stream.
    pub sequence_number: u64,
    /// BCS-encoded payload.
    pub data: Vec<u8>,
}

/// The events produced during one transaction, in the order they were pushed.
pub struct NexusEventStore {
    events: Vec<ContractEvent>,
}

impl NexusEventStore {
    /// The events pushed so far, in order.
    pub closed spec fn events(&self) -> Seq<ContractEvent> {
        self.events@
    }

    pub fn new() -> (r: Self)
        ensures
            r.events() == Seq::<ContractEvent>::empty(),
    {
        NexusEventStore { events: Vec::new() }
    }

    /// Appends an event.
    pub fn push(&mut self, event: ContractEvent)
        ensures
            final(self).events() == old(self).events().push(event),
    {
        self.events.push(event);
    }

    /// All events, in the order they were pushed.
    pub fn drain(self) -> (r: Vec<ContractEvent>)
        ensures
            r@ == self.events(),
    {
        self.events
    }

    pub fn is_empty(&self) -> (r: bool)
        ensures
            r == (self.events().len() == 0),
    {
        self.events.len() == 0
    }

    pub fn len(&self) -> (r: usize)
        ensures
            r == self.events().len(),
    {
        self.events.len()
    }
}

impl Default for NexusEventStore {
    fn default() -> (r: Self)
        ensures
            r.events() == Seq::<ContractEvent>::empty(),
    {
        NexusEventStore::new()
    }
}

} // verus!

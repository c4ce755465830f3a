//! Storage keys and read access to account state.
use vstd::prelude::*;
use vstd::string::StringSliceAdditionalSpecFns;

use crate::text::extend_bytes;
use crate::types::AccountAddress;
use crate::vm_types::{VmError, VmResult};

verus! {

pub const BALANCE_KEY: [u8; 7] = [0x62, 0x61, 0x6c, 0x61, 0x6e, 0x63, 0x65];

pub const MODULE_CODE_KEY: [u8; 4] = [0x63, 0x6f, 0x64, 0x65];

pub const MODULE_CODE_HASH_KEY: [u8; 9] = [0x63, 0x6f, 0x64, 0x65, 0x5f, 0x68, 0x61, 0x73, 0x68];

pub const MODULE_DEPLOYER_KEY: [u8; 8] = [0x64, 0x65, 0x70, 0x6c, 0x6f, 0x79, 0x65, 0x72];

pub const MODULE_COUNT_KEY: [u8; 12] = [0x6d, 0x6f, 0x64, 0x75, 0x6c, 0x65, 0x5f, 0x63, 0x6f, 0x75, 0x6e, 0x74];

pub const MODULE_METADATA_KEY: [u8; 16] = [0x70, 0x61, 0x63, 0x6b, 0x61, 0x67, 0x65, 0x5f, 0x6d, 0x65, 0x74, 0x61, 0x64, 0x61, 0x74, 0x61];

/// Per-module key prefix; the full key is `code::{module_name}`.
pub const MODULE_CODE_PREFIX: [u8; 6] = [0x63, 0x6f, 0x64, 0x65, 0x3a, 0x3a];

/// `balance`
pub open spec fn balance_key() -> Seq<u8> {
    seq![0x62u8, 0x61, 0x6c, 0x61, 0x6e, 0x63, 0x65]
}

/// `code`
pub open spec fn code_key() -> Seq<u8> {
    seq![0x63u8, 0x6f, 0x64, 0x65]
}

/// `code_hash`
pub open spec fn code_hash_key() -> Seq<u8> {
    code_key() + seq![0x5fu8, 0x68, 0x61, 0x73, 0x68]
}

/// `deployer`
pub open spec fn deployer_key() -> Seq<u8> {
    seq![0x64u8, 0x65, 0x70, 0x6c, 0x6f, 0x79, 0x65, 0x72]
}

/// `module_count`
pub open spec fn module_count_key() -> Seq<u8> {
    seq![0x6du8, 0x6f, 0x64, 0x75, 0x6c, 0x65, 0x5f, 0x63, 0x6f, 0x75, 0x6e, 0x74]
}

/// `package_metadata`
pub open spec fn metadata_key() -> Seq<u8> {
    seq![0x70u8, 0x61, 0x63, 0x6b, 0x61, 0x67, 0x65, 0x5f, 0x6d, 0x65, 0x74, 0x61, 0x64, 0x61, 0x74, 0x61]
}

/// `code::`
pub open spec fn code_prefix() -> Seq<u8> {
    code_key() + seq![0x3au8, 0x3a]
}

/// The per-module storage key of a module name.
pub open spec fn spec_module_code_key(name: Seq<u8>) -> Seq<u8> {
    code_prefix() + name
}

pub fn balance_key_bytes() -> (r: Vec<u8>)
    ensures
        r@ == balance_key(),
{
    let r = vec![0x62u8, 0x61, 0x6c, 0x61, 0x6e, 0x63, 0x65];
    assert(r@ =~= balance_key());
    r
}

pub fn code_key_bytes() -> (r: Vec<u8>)
    ensures
        r@ == code_key(),
{
    let r = vec![0x63u8, 0x6f, 0x64, 0x65];
    assert(r@ =~= code_key());
    r
}

pub fn code_hash_key_bytes() -> (r: Vec<u8>)
    ensures
        r@ == code_hash_key(),
{
    let r = vec![0x63u8, 0x6f, 0x64, 0x65, 0x5f, 0x68, 0x61, 0x73, 0x68];
    assert(r@ =~= code_hash_key());
    r
}

pub fn deployer_key_bytes() -> (r: Vec<u8>)
    ensures
        r@ == deployer_key(),
{
    let r = vec![0x64u8, 0x65, 0x70, 0x6c, 0x6f, 0x79, 0x65, 0x72];
    assert(r@ =~= deployer_key());
    r
}

pub fn module_count_key_bytes() -> (r: Vec<u8>)
    ensures
        r@ == module_count_key(),
{
    let r = vec![0x6du8, 0x6f, 0x64, 0x75, 0x6c, 0x65, 0x5f, 0x63, 0x6f, 0x75, 0x6e, 0x74];
    assert(r@ =~= module_count_key());
    r
}

pub fn metadata_key_bytes() -> (r: Vec<u8>)
    ensures
        r@ == metadata_key(),
{
    let r = vec![
        0x70u8,
        0x61,
        0x63,
        0x6b,
        0x61,
        0x67,
        0x65,
        0x5f,
        0x6d,
        0x65,
        0x74,
        0x61,
        0x64,
        0x61,
        0x74,
        0x61,
    ];
    assert(r@ =~= metadata_key());
    r
}

/// Builds the per-module storage key `code::{module_name}`.
pub fn module_code_key(module_name: &str) -> (r: Vec<u8>)
    ensures
        r@ == spec_module_code_key(module_name.spec_bytes()),
{
    let mut key = vec![0x63u8, 0x6f, 0x64, 0x65, 0x3a, 0x3a];
    assert(key@ =~= code_prefix());
    extend_bytes(&mut key, module_name.as_bytes());
    key
}

/// What a read answers, in terms of plain values.
pub open spec fn read_view(r: VmResult<Option<Vec<u8>>>) -> Result<Option<Seq<u8>>, VmError> {
    match r {
        Ok(Some(v)) => Ok(Some(v@)),
        Ok(None) => Ok(None),
        Err(e) => Err(e),
    }
}

/// Read access to account storage, implemented by the host. What a read returns is the
/// host's to decide; `answers` says which answers a reader admits to a read of a key, and a
/// reader that says nothing admits every answer.
pub trait StateReader: Send + Sync {
    /// Whether `answer` is an answer this reader may give to a read of `key` at `account`.
    open spec fn answers(&self, account: AccountAddress, key: Seq<u8>, answer: Result<
        Option<Seq<u8>>,
        VmError,
    >) -> bool {
        true
    }

    fn get(&self, account: &AccountAddress, key: &[u8]) -> (r: VmResult<Option<Vec<u8>>>)
        ensures
            self.answers(*account, key@, read_view(r)),
    ;

    /// Whether a value is stored: a read that found something.
    fn contains(&self, account: &AccountAddress, key: &[u8]) -> (r: VmResult<bool>)
        ensures
            r matches Ok(found) ==> exists|v: Option<Seq<u8>>|
                #[trigger] self.answers(*account, key@, Ok(v)) && found == v is Some,
            r matches Err(e) ==> self.answers(*account, key@, Err(e)),
    {
        let v = self.get(account, key)?;
        Ok(v.is_some())
    }
}

/// A view of account state through a host-provided reader.
pub struct NexusStateView<'a> {
    state: &'a dyn StateReader,
}

impl<'a> NexusStateView<'a> {
    /// Whether the view's reader admits `answer` to a read of `key` at `account`.
    pub closed spec fn admits(&self, account: AccountAddress, key: Seq<u8>, answer: Result<
        Option<Seq<u8>>,
        VmError,
    >) -> bool {
        self.state.answers(account, key, answer)
    }

    pub fn new(state: &'a dyn StateReader) -> Self {
        NexusStateView { state }
    }

    /// The raw value under `key`: the reader's answer to that read.
    pub fn get_raw(&self, account: &AccountAddress, key: &[u8]) -> (r: VmResult<Option<Vec<u8>>>)
        ensures
            self.admits(*account, key@, read_view(r)),
    {
        self.state.get(account, key)
    }

    /// The single-module code stored at an address, under the legacy key `code`.
    pub fn get_module(&self, address: &AccountAddress) -> (r: VmResult<Option<Vec<u8>>>)
        ensures
            self.admits(*address, code_key(), read_view(r)),
    {
        let key = code_key_bytes();
        self.state.get(address, key.as_slice())
    }

    /// A named module: the per-module key `code::{module_name}` first, then the legacy key
    /// `code` when nothing is stored there.
    pub fn get_module_by_name(&self, address: &AccountAddress, module_name: &str) -> (r: VmResult<
        Option<Vec<u8>>,
    >)
        ensures
            exists|first: Result<Option<Seq<u8>>, VmError>|
                #[trigger] self.admits(*address, spec_module_code_key(module_name.spec_bytes()), first)
                    && if first == Ok::<Option<Seq<u8>>, VmError>(None) {
                    self.admits(*address, code_key(), read_view(r))
                } else {
                    read_view(r) == first
                },
    {
        let per_module_key = module_code_key(module_name);
        let first = self.state.get(address, per_module_key.as_slice());
        let ghost first_view = read_view(first);
        assert(self.admits(*address, spec_module_code_key(module_name.spec_bytes()), first_view));
        match first {
            Err(e) => Err(e),
            Ok(Some(bytes)) => Ok(Some(bytes)),
            Ok(None) => {
                let key = code_key_bytes();
                self.state.get(address, key.as_slice())
            },
        }
    }

    /// Whether code is stored under the legacy key `code`.
    pub fn has_module(&self, address: &AccountAddress) -> (r: VmResult<bool>)
        ensures
            r matches Ok(found) ==> exists|v: Option<Seq<u8>>|
                #[trigger] self.admits(*address, code_key(), Ok(v)) && found == v is Some,
            r matches Err(e) ==> self.admits(*address, code_key(), Err(e)),
    {
        let key = code_key_bytes();
        let r = self.state.contains(address, key.as_slice());
        proof {
            if r is Ok {
                let found = r->Ok_0;
                let v = choose|v: Option<Seq<u8>>|
                    #[trigger] self.state.answers(*address, code_key(), Ok(v)) && found == v is Some;
                assert(self.admits(*address, code_key(), Ok(v)));
            }
        }
        r
    }

    /// The balance under `balance`, read as a little-endian `u64`; 0 when absent or malformed.
    pub fn get_balance(&self, account: &AccountAddress) -> (r: VmResult<u64>)
        ensures
            r matches Ok(b) ==> exists|v: Option<Seq<u8>>|
                #[trigger] self.admits(*account, balance_key(), Ok(v)) && b == spec_parse_balance(v),
            r matches Err(e) ==> self.admits(*account, balance_key(), Err(e)),
    {
        let key = balance_key_bytes();
        let raw = self.state.get(account, key.as_slice());
        let ghost answer = read_view(raw);
        assert(self.admits(*account, balance_key(), answer));
        match raw {
            Err(e) => Err(e),
            Ok(Some(bytes)) => {
                Ok(parse_balance_bytes(Some(bytes.as_slice())))
            },
            Ok(None) => Ok(parse_balance_bytes(None)),
        }
    }

    /// The value of a resource under its key: the reader's answer to that read.
    pub fn get_resource(&self, account: &AccountAddress, resource_key: &[u8]) -> (r: VmResult<
        Option<Vec<u8>>,
    >)
        ensures
            self.admits(*account, resource_key@, read_view(r)),
    {
        self.state.get(account, resource_key)
    }
}

/// The little-endian value of eight bytes.
pub open spec fn le_u64(b: Seq<u8>) -> int {
    b[0] + 256 * b[1] + 65536 * b[2] + 16777216 * b[3] + 4294967296 * b[4] + 1099511627776 * b[5]
        + 281474976710656 * b[6] + 72057594037927936 * b[7]
}

/// Exactly eight bytes are a little-endian balance; anything else reads as zero.
pub open spec fn spec_parse_balance(raw: Option<Seq<u8>>) -> u64 {
    match raw {
        Some(b) => if b.len() == 8 {
            le_u64(b) as u64
        } else {
            0
        },
        None => 0,
    }
}

pub open spec fn opt_slice(raw: Option<&[u8]>) -> Option<Seq<u8>> {
    match raw {
        Some(b) => Some(b@),
        None => None,
    }
}

/// Reads a stored balance.
pub fn parse_balance_bytes(raw: Option<&[u8]>) -> (r: u64)
    ensures
        r == spec_parse_balance(opt_slice(raw)),
{
    match raw {
        Some(b) => {
            if b.len() == 8 {
                let v = b[0] as u64 + 256 * (b[1] as u64) + 65536 * (b[2] as u64) + 16777216 * (
                b[3] as u64) + 4294967296 * (b[4] as u64) + 1099511627776 * (b[5] as u64)
                    + 281474976710656 * (b[6] as u64) + 72057594037927936 * (b[7] as u64);
                v
            } else {
                0
            }
        },
        None => 0,
    }
}

} // verus!

//! The decisions of the interpreter-backed VM: how a call target is named, what a call,
//! a script or a view answers once the interpreter has run, which upgrades are refused,
//! and which writes a publish makes.
use vstd::prelude::*;
use vstd::string::StringSliceAdditionalSpecFns;

use crate::abi::{compute_module_abi_hash, spec_module_abi_hash, ModuleAbi};
use crate::config::VmConfig;
use crate::gas::{
    clamp_gas_to_limit, estimate_call_gas, estimate_publish_gas, estimate_script_gas, max_u64,
    min_u64, spec_estimate_call_gas, spec_estimate_publish_gas, spec_estimate_script_gas,
    GasSchedule,
};
use crate::package::{PackageMetadata, UpgradePolicy as PackagePolicy};
use crate::publisher::{blake3_digest, blake3_hash};
use crate::state::{
    code_hash_key, code_hash_key_bytes, code_key, code_key_bytes, metadata_key,
    metadata_key_bytes, module_code_key, spec_module_code_key, NexusStateView,
};
use crate::text::{bytes_to_vec, chars_of, push_chars};
use crate::stdlib::framework_address_view;
use crate::types::AccountAddress;
use crate::vm_types::{
    changes_model, ContractEvent, FunctionCall, ModulePublish, QueryRequest, QueryResult,
    ScriptExecution, StateChange, UpgradePolicy, VmError, VmOutput, VmResult, VmStatus,
};
use crate::write_set::{model_insert, opt_bytes, EntryModel, WriteSet};

verus! {

// ── Call targets ────────────────────────────────────────────────────────

/// Whether `::` starts at index `i`.
pub open spec fn separator_at(s: Seq<char>, i: int) -> bool {
    0 <= i && i + 1 < s.len() && s[i] == ':' && s[i + 1] == ':'
}

/// The first index at or after `i` where `::` starts.
pub open spec fn first_separator_from(s: Seq<char>, i: int) -> Option<int>
    decreases s.len() - i,
{
    if i < 0 || i + 1 >= s.len() {
        None
    } else if separator_at(s, i) {
        Some(i)
    } else {
        first_separator_from(s, i + 1)
    }
}

/// The message for a target without `::`.
pub open spec fn invalid_format_message(s: Seq<char>) -> Seq<char> {
    "invalid function format '"@ + s + "', expected 'module::function'"@
}

/// `module::function` split at the first `::`.
pub open spec fn spec_parse_function_name(s: Seq<char>) -> Result<(Seq<char>, Seq<char>), Seq<char>> {
    match first_separator_from(s, 0) {
        Some(i) => Ok((s.take(i), s.skip(i + 2))),
        None => Err(invalid_format_message(s)),
    }
}

pub open spec fn parse_result_view(r: Result<(String, String), String>) -> Result<
    (Seq<char>, Seq<char>),
    Seq<char>,
> {
    match r {
        Ok((m, f)) => Ok((m@, f@)),
        Err(e) => Err(e@),
    }
}

/// The characters of `chars` from `lo` up to `hi`, as a string.
fn string_from_range(chars: &Vec<char>, lo: usize, hi: usize) -> (r: String)
    requires
        lo <= hi <= chars@.len(),
    ensures
        r@ == chars@.subrange(lo as int, hi as int),
{
    let mut s = String::new();
    let mut i: usize = lo;
    while i < hi
        invariant
            lo <= i <= hi,
            hi <= chars@.len(),
            s@ == chars@.subrange(lo as int, i as int),
        decreases hi - i,
    {
        crate::text::push_char(&mut s, chars[i]);
        assert(chars@.subrange(lo as int, i as int + 1) =~= chars@.subrange(lo as int, i as int).push(
            chars@[i as int],
        ));
        i += 1;
    }
    s
}

/// Splits a call target `module::function` at the first `::`; a target without `::` is
/// refused with a message that quotes it.
pub fn parse_function_name(function: &str) -> (r: Result<(String, String), String>)
    ensures
        parse_result_view(r) == spec_parse_function_name(function@),
{
    let chars = chars_of(function);
    let ghost s = function@;
    let n = chars.len();
    if n >= 2 {
        let mut i: usize = 0;
        while i < n - 1
            invariant
                chars@ == s,
                s == function@,
                n == chars@.len(),
                n >= 2,
                i <= n - 1,
                first_separator_from(s, 0) == first_separator_from(s, i as int),
            decreases n - 1 - i,
        {
            if chars[i] == ':' && chars[i + 1] == ':' {
                assert(separator_at(s, i as int));
                assert(first_separator_from(s, i as int) == Some(i as int));
                let module = string_from_range(&chars, 0, i);
                let name = string_from_range(&chars, i + 2, n);
                assert(s.take(i as int) =~= s.subrange(0, i as int));
                assert(s.skip(i as int + 2) =~= s.subrange(i as int + 2, s.len() as int));
                assert(module@ == s.take(i as int));
                assert(name@ == s.skip(i as int + 2));
                return Ok((module, name));
            }
            i += 1;
        }
        assert(first_separator_from(s, i as int) is None);
    } else {
        assert(first_separator_from(s, 0) is None);
    }
    let mut msg = String::new();
    let head = chars_of("invalid function format '");
    let tail = chars_of("', expected 'module::function'");
    push_chars(&mut msg, head.as_slice());
    push_chars(&mut msg, chars.as_slice());
    push_chars(&mut msg, tail.as_slice());
    Err(msg)
}

/// `module::function`, the location of a call that could not be loaded.
pub fn qualified_name(module: &String, function: &String) -> (r: String)
    ensures
        r@ == module@ + "::"@ + function@,
{
    let mut s = String::new();
    push_chars(&mut s, chars_of(module.as_str()).as_slice());
    push_chars(&mut s, chars_of("::").as_slice());
    push_chars(&mut s, chars_of(function.as_str()).as_slice());
    s
}

/// The arguments of an entry function: the sender as a signer (variant byte 0, then its
/// address), then the caller's arguments.
pub fn signer_args(sender: &AccountAddress, args: &Vec<Vec<u8>>) -> (r: Vec<Vec<u8>>)
    ensures
        r@.len() == args@.len() + 1,
        r@[0]@ == seq![0u8] + sender@,
        forall|i: int| 0 <= i < args@.len() ==> #[trigger] r@[i + 1]@ == args@[i]@,
{
    let mut first: Vec<u8> = vec![0u8];
    crate::text::extend_bytes(&mut first, sender.0.as_slice());
    let mut out: Vec<Vec<u8>> = Vec::new();
    out.push(first);
    let mut i: usize = 0;
    while i < args.len()
        invariant
            i <= args@.len(),
            out@.len() == i + 1,
            out@[0]@ == seq![0u8] + sender@,
            forall|k: int| 0 <= k < i ==> #[trigger] out@[k + 1]@ == args@[k]@,
        decreases args@.len() - i,
    {
        out.push(bytes_to_vec(args[i].as_slice()));
        i += 1;
    }
    out
}

// ── Outputs ─────────────────────────────────────────────────────────────

/// The gas charged after running: what the interpreter consumed, at least the estimate,
/// at most the limit.
pub open spec fn charged_gas(consumed: u64, estimate: u64, limit: u64) -> u64 {
    min_u64(max_u64(consumed, estimate), limit)
}

/// The VM backed by the Move interpreter; this part holds its prices.
pub struct RealMoveVm {
    schedule: GasSchedule,
    config: VmConfig,
}

impl RealMoveVm {
    pub closed spec fn spec_schedule(&self) -> GasSchedule {
        self.schedule
    }

    pub closed spec fn spec_config(&self) -> VmConfig {
        self.config
    }

    /// A VM with the prices of the configuration.
    pub fn new(config: &VmConfig) -> (r: Self)
        ensures
            r.spec_config() == *config,
            r.spec_schedule().transfer_base == crate::gas::DEFAULT_TRANSFER_BASE,
            r.spec_schedule().call_base == config.call_base_gas,
            r.spec_schedule().publish_base == config.publish_base_gas,
            r.spec_schedule().publish_per_byte == config.publish_per_byte_gas,
            r.spec_schedule().read_per_byte == config.read_per_byte_gas,
            r.spec_schedule().write_per_byte == config.write_per_byte_gas,
    {
        RealMoveVm {
            schedule: GasSchedule::from_config(config),
            config: VmConfig {
                max_binary_size: config.max_binary_size,
                call_base_gas: config.call_base_gas,
                publish_base_gas: config.publish_base_gas,
                publish_per_byte_gas: config.publish_per_byte_gas,
                read_per_byte_gas: config.read_per_byte_gas,
                write_per_byte_gas: config.write_per_byte_gas,
            },
        }
    }

    pub fn schedule(&self) -> (r: &GasSchedule)
        ensures
            *r == self.spec_schedule(),
    {
        &self.schedule
    }

    /// A call whose target cannot be resolved: an abort at `location` charging the call
    /// base price, up to the limit.
    pub fn call_rejected(&self, location: String, gas_limit: u64) -> (r: VmOutput)
        ensures
            r.status == (VmStatus::MoveAbort { location, code: 4001 }),
            r.gas_used == min_u64(self.spec_schedule().call_base, gas_limit),
            r.is_empty_effect(),
    {
        VmOutput::abort(location, self.schedule.call_base, gas_limit)
    }

    /// A call that ran to the end: its effects, charged at least the call estimate.
    pub fn call_succeeded(
        &self,
        request: &FunctionCall,
        consumed: u64,
        state_changes: Vec<StateChange>,
        write_set: WriteSet,
        events: Vec<ContractEvent>,
        return_values: Vec<Vec<u8>>,
    ) -> (r: VmOutput)
        ensures
            r.status == VmStatus::Success,
            r.gas_used == charged_gas(
                consumed,
                spec_estimate_call_gas(
                    self.spec_schedule(),
                    request.type_args@,
                    request.args@,
                    state_changes@,
                ),
                request.gas_limit,
            ),
            r.state_changes == state_changes,
            r.write_set == write_set,
            r.events == events,
            r.return_values == return_values,
    {
        let estimate = estimate_call_gas(
            &self.schedule,
            request.type_args.as_slice(),
            request.args.as_slice(),
            state_changes.as_slice(),
        );
        let used = if consumed >= estimate {
            consumed
        } else {
            estimate
        };
        VmOutput {
            status: VmStatus::Success,
            gas_used: clamp_gas_to_limit(used, request.gas_limit),
            state_changes,
            write_set,
            events,
            return_values,
        }
    }

    /// A call the interpreter aborted: no effects, charged at least the estimate for the
    /// inputs alone.
    pub fn call_failed(&self, request: &FunctionCall, consumed: u64, location: String, code: u64) -> (r:
        VmOutput)
        ensures
            r.status == (VmStatus::MoveAbort { location, code }),
            r.gas_used == charged_gas(
                consumed,
                spec_estimate_call_gas(
                    self.spec_schedule(),
                    request.type_args@,
                    request.args@,
                    Seq::<StateChange>::empty(),
                ),
                request.gas_limit,
            ),
            r.is_empty_effect(),
    {
        let no_changes: Vec<StateChange> = Vec::new();
        let estimate = estimate_call_gas(
            &self.schedule,
            request.type_args.as_slice(),
            request.args.as_slice(),
            no_changes.as_slice(),
        );
        assert(no_changes@ =~= Seq::<StateChange>::empty());
        let used = if consumed >= estimate {
            consumed
        } else {
            estimate
        };
        VmOutput::without_effects(
            VmStatus::MoveAbort { location, code },
            clamp_gas_to_limit(used, request.gas_limit),
        )
    }

    /// A script that could not be loaded: an abort charging the call base price, up to the
    /// limit.
    pub fn script_load_failed(
        &self,
        request: &ScriptExecution,
        location: String,
        code: u64,
    ) -> (r: VmOutput)
        ensures
            r.status == (VmStatus::MoveAbort { location, code }),
            r.gas_used == min_u64(self.spec_schedule().call_base, request.gas_limit),
            r.is_empty_effect(),
    {
        VmOutput::without_effects(
            VmStatus::MoveAbort { location, code },
            clamp_gas_to_limit(self.schedule.call_base, request.gas_limit),
        )
    }

    /// A script that ran to the end: its effects, charged at least the script estimate.
    pub fn script_succeeded(
        &self,
        request: &ScriptExecution,
        consumed: u64,
        state_changes: Vec<StateChange>,
        write_set: WriteSet,
        events: Vec<ContractEvent>,
        return_values: Vec<Vec<u8>>,
    ) -> (r: VmOutput)
        ensures
            r.status == VmStatus::Success,
            r.gas_used == charged_gas(
                consumed,
                spec_estimate_script_gas(
                    self.spec_schedule(),
                    request.bytecode@,
                    request.type_args@,
                    request.args@,
                ),
                request.gas_limit,
            ),
            r.state_changes == state_changes,
            r.write_set == write_set,
            r.events == events,
            r.return_values == return_values,
    {
        let estimate = estimate_script_gas(
            &self.schedule,
            request.bytecode.as_slice(),
            request.type_args.as_slice(),
            request.args.as_slice(),
        );
        let used = if consumed >= estimate {
            consumed
        } else {
            estimate
        };
        VmOutput {
            status: VmStatus::Success,
            gas_used: clamp_gas_to_limit(used, request.gas_limit),
            state_changes,
            write_set,
            events,
            return_values,
        }
    }

    /// A script the interpreter aborted: no effects, charged at least the script estimate.
    pub fn script_failed(
        &self,
        request: &ScriptExecution,
        consumed: u64,
        location: String,
        code: u64,
    ) -> (r: VmOutput)
        ensures
            r.status == (VmStatus::MoveAbort { location, code }),
            r.gas_used == charged_gas(
                consumed,
                spec_estimate_script_gas(
                    self.spec_schedule(),
                    request.bytecode@,
                    request.type_args@,
                    request.args@,
                ),
                request.gas_limit,
            ),
            r.is_empty_effect(),
    {
        let estimate = estimate_script_gas(
            &self.schedule,
            request.bytecode.as_slice(),
            request.type_args.as_slice(),
            request.args.as_slice(),
        );
        let used = if consumed >= estimate {
            consumed
        } else {
            estimate
        };
        VmOutput::without_effects(
            VmStatus::MoveAbort { location, code },
            clamp_gas_to_limit(used, request.gas_limit),
        )
    }

    /// A publish refused at `nexus::publish` with `code`, charging the base publish price.
    pub fn publish_rejected(&self, code: u64) -> (r: VmOutput)
        ensures
            r.status matches VmStatus::MoveAbort { location, code: c } && location@
                == "nexus::publish"@ && c == code,
            r.gas_used == self.spec_schedule().publish_base,
            r.is_empty_effect(),
    {
        let location = "nexus::publish".to_owned();
        VmOutput::without_effects(VmStatus::MoveAbort { location, code }, self.schedule.publish_base)
    }

    /// A publish whose modules were all accepted: the writes, charged the publish estimate
    /// up to the limit.
    pub fn publish_succeeded(
        &self,
        request: &ModulePublish,
        state_changes: Vec<StateChange>,
        write_set: WriteSet,
    ) -> (r: VmOutput)
        ensures
            r.status == VmStatus::Success,
            r.gas_used == min_u64(
                spec_estimate_publish_gas(self.spec_schedule(), request.modules@, state_changes@),
                request.gas_limit,
            ),
            r.state_changes == state_changes,
            r.write_set == write_set,
            r.events@.len() == 0,
            r.return_values@.len() == 0,
    {
        let estimate = estimate_publish_gas(
            &self.schedule,
            request.modules.as_slice(),
            state_changes.as_slice(),
        );
        VmOutput {
            status: VmStatus::Success,
            gas_used: clamp_gas_to_limit(estimate, request.gas_limit),
            state_changes,
            write_set,
            events: Vec::new(),
            return_values: Vec::new(),
        }
    }
}

/// The answer to a view call that ran: its first return value, the gas consumed and the
/// budget.
pub fn query_succeeded(return_values: Vec<Vec<u8>>, consumed: u64, request: &QueryRequest) -> (r:
    QueryResult)
    ensures
        r.return_value == (if return_values@.len() > 0 {
            Some(return_values@[0])
        } else {
            None
        }),
        r.gas_used == consumed,
        r.gas_budget == request.gas_budget,
{
    let mut values = return_values;
    let first = if values.len() > 0 {
        Some(values.remove(0))
    } else {
        None
    };
    QueryResult { return_value: first, gas_used: consumed, gas_budget: request.gas_budget }
}

// ── Publishing ──────────────────────────────────────────────────────────

/// 32 zero bytes: the ABI hash of a package published before ABI hashes were recorded.
pub open spec fn zero_hash() -> Seq<u8> {
    Seq::new(32, |i: int| 0u8)
}

/// The code with which a publish over existing code aborts, if it does: 20 when the stored
/// package is immutable (or has no readable metadata), 21 when it needs governance, 22 when
/// it is upgradable only compatibly, records a non-zero ABI hash, and the new module's ABI
/// hash differs from it.
pub open spec fn spec_upgrade_verdict(stored: Option<PackageMetadata>, new_module: ModuleAbi) -> Option<
    u64,
> {
    let policy = match stored {
        Some(m) => m.upgrade_policy,
        None => PackagePolicy::Immutable,
    };
    let old_abi = match stored {
        Some(m) => m.abi_hash@,
        None => zero_hash(),
    };
    match policy {
        PackagePolicy::Immutable => Some(20),
        PackagePolicy::GovernanceOnly => Some(21),
        PackagePolicy::Compatible => if old_abi != zero_hash() && old_abi != spec_module_abi_hash(
            new_module,
        ) {
            Some(22)
        } else {
            None
        },
    }
}

/// Decides a publish over code already stored at the address, from the stored package
/// metadata (`None` when absent or unreadable) and the new module's ABI.
pub fn upgrade_verdict(stored: &Option<PackageMetadata>, new_module: &ModuleAbi) -> (r: Option<u64>)
    ensures
        r == spec_upgrade_verdict(*stored, *new_module),
{
    match stored {
        None => Some(20),
        Some(meta) => match meta.upgrade_policy {
            PackagePolicy::Immutable => Some(20),
            PackagePolicy::GovernanceOnly => Some(21),
            PackagePolicy::Compatible => {
                let zero = [0u8; 32];
                let old_is_zero = crate::text::bytes_eq(meta.abi_hash.as_slice(), zero.as_slice());
                assert(zero@ =~= zero_hash());
                if old_is_zero {
                    None
                } else {
                    let new_hash = compute_module_abi_hash(new_module);
                    if crate::abi::abi_is_compatible(&meta.abi_hash, &new_hash) {
                        None
                    } else {
                        Some(22)
                    }
                }
            },
        },
    }
}

/// A module must be published by the account it names.
pub fn check_module_address(module_address: &AccountAddress, sender: &AccountAddress) -> (r: Result<
    (),
    VmError,
>)
    ensures
        module_address@ == sender@ ==> r is Ok,
        module_address@ != sender@ ==> (r matches Err(VmError::InternalError(m)) && m@
            == "module address does not match sender"@),
{
    if crate::write_set::address_eq(module_address, sender) {
        Ok(())
    } else {
        Err(VmError::InternalError("module address does not match sender".to_owned()))
    }
}

/// The reads before one module of a publish is written, in order: the module's address must
/// be the sender's (else the error); then whether code is stored there (`None` when it is
/// not); and, when it is, the stored package metadata, raw, for `upgrade_verdict` to judge
/// once decoded. A failed read is the error.
pub fn publish_module_precheck(
    state: &NexusStateView<'_>,
    module_address: &AccountAddress,
    sender: &AccountAddress,
) -> (r: VmResult<Option<Option<Vec<u8>>>>)
    ensures
        module_address@ != sender@ ==> (r matches Err(VmError::InternalError(m)) && m@
            == "module address does not match sender"@),
        module_address@ == sender@ ==> match r {
            Ok(None) => state.admits(*module_address, code_key(), Ok(None)),
            Ok(Some(raw)) => {
                &&& exists|v: Seq<u8>| #[trigger] state.admits(*module_address, code_key(), Ok(Some(v)))
                &&& state.admits(*module_address, metadata_key(), Ok(opt_bytes(raw)))
            },
            Err(e) => {
                ||| state.admits(*module_address, code_key(), Err(e))
                ||| {
                    &&& exists|v: Seq<u8>| #[trigger] state.admits(*module_address, code_key(), Ok(Some(v)))
                    &&& state.admits(*module_address, metadata_key(), Err(e))
                }
            },
        },
{
    check_module_address(module_address, sender)?;
    let occupied = state.has_module(module_address);
    let found = match occupied {
        Err(e) => {
            return Err(e);
        },
        Ok(found) => found,
    };
    let ghost stored = choose|v: Option<Seq<u8>>|
        #[trigger] state.admits(*module_address, code_key(), Ok(v)) && found == v is Some;
    if !found {
        assert(stored == None::<Seq<u8>>);
        return Ok(None);
    }
    assert(state.admits(*module_address, code_key(), Ok(Some(stored->0))));
    let key = metadata_key_bytes();
    let raw = state.get_raw(module_address, key.as_slice());
    match raw {
        Ok(v) => Ok(Some(v)),
        Err(e) => Err(e),
    }
}

/// A missing dependency is an error unless it lives at the sender's address or at the
/// framework address.
pub fn dependency_must_exist(dep_address: &AccountAddress, sender: &AccountAddress) -> (r: bool)
    ensures
        r == (dep_address@ != sender@ && dep_address@ != framework_address_view()),
{
    let framework = AccountAddress(crate::stdlib::framework_address_bytes());
    !crate::write_set::address_eq(dep_address, sender) && !crate::write_set::address_eq(
        dep_address,
        &framework,
    )
}

/// What the last step of publishing one module found. The steps come in this order: the
/// stored package's verdict, the bytecode check, then each dependency in turn.
pub enum ModuleEvent {
    /// The verdict on code already stored at the module's address (`None`: it may be written).
    StoredChecked(Option<u64>),
    /// The bytecode verifier's finding (`None`: the module passed).
    BytecodeChecked(Option<String>),
    /// One dependency: its address, its full name, and whether it is published.
    DependencyChecked { address: AccountAddress, name: String, exists: bool },
}

/// What publishing one module does next.
#[derive(Debug, PartialEq, Eq)]
pub enum ModuleAction {
    /// Refuse the whole publish with this abort code.
    Abort(u64),
    /// Stop the publish with this error.
    Fail(VmError),
    /// Run the bytecode verifier on the module.
    VerifyBytecode,
    /// Check the next dependency; after the last one, write the module.
    CheckNextDependency,
}

/// The error of one module, `{prefix}{detail}`.
fn internal_error(prefix: &str, detail: &String) -> (r: VmError)
    ensures
        r matches VmError::InternalError(t) && t@ == prefix@ + detail@,
{
    let mut text = String::new();
    push_chars(&mut text, chars_of(prefix).as_slice());
    push_chars(&mut text, chars_of(detail.as_str()).as_slice());
    VmError::InternalError(text)
}

/// The next step of publishing one module, from what the last one found: a refused upgrade
/// aborts with its code, else the bytecode is verified; a failed verification is the error,
/// else the dependencies are checked one by one; a dependency that is not published is the
/// error unless it lives at the sender's or the framework address.
pub fn next_module_action(sender: &AccountAddress, event: &ModuleEvent) -> (r: ModuleAction)
    ensures
        match *event {
            ModuleEvent::StoredChecked(Some(code)) => r == ModuleAction::Abort(code),
            ModuleEvent::StoredChecked(None) => r == ModuleAction::VerifyBytecode,
            ModuleEvent::BytecodeChecked(Some(m)) => r matches ModuleAction::Fail(
                VmError::InternalError(t),
            ) && t@ == "bytecode verification failed: "@ + m@,
            ModuleEvent::BytecodeChecked(None) => r == ModuleAction::CheckNextDependency,
            ModuleEvent::DependencyChecked { address, name, exists } => if !exists && address@
                != sender@ && address@ != framework_address_view() {
                r matches ModuleAction::Fail(VmError::InternalError(t)) && t@ == "missing dependency: "@
                    + name@
            } else {
                r == ModuleAction::CheckNextDependency
            },
        },
{
    match event {
        ModuleEvent::StoredChecked(Some(code)) => ModuleAction::Abort(*code),
        ModuleEvent::StoredChecked(None) => ModuleAction::VerifyBytecode,
        ModuleEvent::BytecodeChecked(Some(m)) => ModuleAction::Fail(
            internal_error("bytecode verification failed: ", m),
        ),
        ModuleEvent::BytecodeChecked(None) => ModuleAction::CheckNextDependency,
        ModuleEvent::DependencyChecked { address, name, exists } => {
            if !*exists && dependency_must_exist(address, sender) {
                ModuleAction::Fail(internal_error("missing dependency: ", name))
            } else {
                ModuleAction::CheckNextDependency
            }
        },
    }
}

/// The code hash of a published module: the BLAKE3 hash of its bytecode.
pub fn module_code_hash(module_bytes: &[u8]) -> (r: [u8; 32])
    ensures
        r@ == blake3_digest(module_bytes@),
{
    blake3_hash(module_bytes)
}

/// The package policy a publish request asks for; no request means immutable.
pub open spec fn requested_policy(requested: Option<UpgradePolicy>) -> PackagePolicy {
    match requested {
        Some(UpgradePolicy::Compatible) => PackagePolicy::Compatible,
        Some(UpgradePolicy::GovernanceOnly) => PackagePolicy::GovernanceOnly,
        _ => PackagePolicy::Immutable,
    }
}

/// The metadata stored with a published module: the module is its own package, named after
/// it, at the contract address, with its code hash and ABI hash, version 1.
pub fn module_metadata(
    module_name: &String,
    code_hash: [u8; 32],
    contract_address: AccountAddress,
    abi_hash: [u8; 32],
    requested: Option<UpgradePolicy>,
    deployer: AccountAddress,
) -> (r: PackageMetadata)
    ensures
        r.name == *module_name,
        r.package_hash == code_hash,
        r.named_addresses@.len() == 1,
        r.named_addresses@[0] == (*module_name, contract_address),
        r.module_hashes@.len() == 1,
        r.module_hashes@[0] == (*module_name, code_hash),
        r.abi_hash == abi_hash,
        r.upgrade_policy == requested_policy(requested),
        r.deployer == deployer,
        r.version == 1,
{
    let policy = match requested {
        Some(UpgradePolicy::Compatible) => PackagePolicy::Compatible,
        Some(UpgradePolicy::GovernanceOnly) => PackagePolicy::GovernanceOnly,
        _ => PackagePolicy::Immutable,
    };
    PackageMetadata {
        name: module_name.clone(),
        package_hash: code_hash,
        named_addresses: vec![(module_name.clone(), contract_address)],
        module_hashes: vec![(module_name.clone(), code_hash)],
        abi_hash,
        upgrade_policy: policy,
        deployer,
        version: 1,
    }
}

/// The four writes of one published module, in the order they are listed as state
/// changes: the code under `code::{name}` and under `code`, its hash, and its metadata.
pub open spec fn module_writes(
    address: AccountAddress,
    name: Seq<u8>,
    code: Seq<u8>,
    code_hash: Seq<u8>,
    metadata: Seq<u8>,
) -> Seq<EntryModel> {
    seq![
        (address, spec_module_code_key(name), Some(code)),
        (address, code_key(), Some(code)),
        (address, code_hash_key(), Some(code_hash)),
        (address, metadata_key(), Some(metadata)),
    ]
}

/// Inserts a sequence of writes into a write set's entries, first to last.
pub open spec fn insert_all(m: Seq<EntryModel>, writes: Seq<EntryModel>) -> Seq<EntryModel>
    decreases writes.len(),
{
    if writes.len() == 0 {
        m
    } else {
        model_insert(insert_all(m, writes.drop_last()), writes.last().0, writes.last().1, writes.last().2)
    }
}

/// Records the writes of one published module, both as state changes (in order) and in the
/// write set.
pub fn record_module_writes(
    state_changes: &mut Vec<StateChange>,
    write_set: &mut WriteSet,
    contract_address: AccountAddress,
    module_name: &str,
    module_bytes: &Vec<u8>,
    code_hash: [u8; 32],
    metadata_bytes: Vec<u8>,
)
    ensures
        changes_model(final(state_changes)@) == changes_model(old(state_changes)@) + module_writes(
            contract_address,
            module_name.spec_bytes(),
            module_bytes@,
            code_hash@,
            metadata_bytes@,
        ),
        final(write_set).model() == insert_all(
            old(write_set).model(),
            module_writes(
                contract_address,
                module_name.spec_bytes(),
                module_bytes@,
                code_hash@,
                metadata_bytes@,
            ),
        ),
{
    let ghost writes = module_writes(
        contract_address,
        module_name.spec_bytes(),
        module_bytes@,
        code_hash@,
        metadata_bytes@,
    );
    let ghost before = state_changes@;
    let per_module_key = module_code_key(module_name);
    state_changes.push(
        StateChange {
            account: contract_address,
            key: bytes_to_vec(per_module_key.as_slice()),
            value: Some(bytes_to_vec(module_bytes.as_slice())),
        },
    );
    state_changes.push(
        StateChange {
            account: contract_address,
            key: code_key_bytes(),
            value: Some(bytes_to_vec(module_bytes.as_slice())),
        },
    );
    state_changes.push(
        StateChange {
            account: contract_address,
            key: code_hash_key_bytes(),
            value: Some(bytes_to_vec(code_hash.as_slice())),
        },
    );
    state_changes.push(
        StateChange {
            account: contract_address,
            key: metadata_key_bytes(),
            value: Some(bytes_to_vec(metadata_bytes.as_slice())),
        },
    );
    assert(changes_model(state_changes@) =~= changes_model(before) + writes);
    let ghost m0 = write_set.model();
    write_set.insert(contract_address, per_module_key, Some(bytes_to_vec(module_bytes.as_slice())));
    write_set.insert(contract_address, code_key_bytes(), Some(bytes_to_vec(module_bytes.as_slice())));
    write_set.insert(contract_address, code_hash_key_bytes(), Some(bytes_to_vec(code_hash.as_slice())));
    write_set.insert(contract_address, metadata_key_bytes(), Some(metadata_bytes));
    proof {
        assert(writes.drop_last().drop_last().drop_last().drop_last() =~= Seq::<EntryModel>::empty());
        assert(writes.drop_last().drop_last().drop_last() =~= seq![writes[0]]);
        assert(writes.drop_last().drop_last() =~= seq![writes[0], writes[1]]);
        assert(writes.drop_last() =~= seq![writes[0], writes[1], writes[2]]);
        reveal_with_fuel(insert_all, 5);
    }
}

// ── Interpreter effects ─────────────────────────────────────────────────

/// A change reported by the interpreter: a resource of an account, by its key, written
/// (`Some`) or deleted (`None`).
pub type ResourceChange = (AccountAddress, Vec<u8>, Option<Vec<u8>>);

pub open spec fn resource_change_model(c: ResourceChange) -> EntryModel {
    (c.0, c.1@, opt_bytes(c.2))
}

/// The interpreter's resource changes as state changes (in the order reported) and as a
/// write set.
pub fn changes_to_nexus(changes: Vec<ResourceChange>) -> (r: (Vec<StateChange>, WriteSet))
    ensures
        changes_model(r.0@) == changes@.map_values(|c: ResourceChange| resource_change_model(c)),
        r.1.model() == insert_all(
            Seq::<EntryModel>::empty(),
            changes@.map_values(|c: ResourceChange| resource_change_model(c)),
        ),
{
    let ghost cm = changes@.map_values(|c: ResourceChange| resource_change_model(c));
    let mut state_changes: Vec<StateChange> = Vec::new();
    let mut write_set = WriteSet::new();
    let mut i: usize = 0;
    while i < changes.len()
        invariant
            i <= changes@.len(),
            cm == changes@.map_values(|c: ResourceChange| resource_change_model(c)),
            changes_model(state_changes@) == cm.take(i as int),
            write_set.model() == insert_all(Seq::<EntryModel>::empty(), cm.take(i as int)),
        decreases changes@.len() - i,
    {
        let c = &changes[i];
        let ghost before = state_changes@;
        let value = crate::write_set::clone_opt_bytes(&c.2);
        let change = StateChange {
            account: c.0,
            key: bytes_to_vec(c.1.as_slice()),
            value: crate::write_set::clone_opt_bytes(&c.2),
        };
        state_changes.push(change);
        write_set.insert(c.0, bytes_to_vec(c.1.as_slice()), value);
        proof {
            assert(cm[i as int] == resource_change_model(changes@[i as int]));
            assert(changes_model(state_changes@) =~= changes_model(before).push(change.model()));
            assert(cm.take(i as int + 1) =~= cm.take(i as int).push(cm[i as int]));
            assert(cm.take(i as int + 1).drop_last() =~= cm.take(i as int));
        }
        i += 1;
    }
    assert(cm.take(changes@.len() as int) =~= cm);
    (state_changes, write_set)
}

// ── Laws ────────────────────────────────────────────────────────────────

proof fn lemma_separator_after_module(s: Seq<char>, m: Seq<char>, i: int)
    requires
        0 <= i <= m.len(),
        s.len() >= m.len() + 2,
        s.take(m.len() as int) == m,
        s[m.len() as int] == ':',
        s[m.len() as int + 1] == ':',
        forall|k: int| 0 <= k < m.len() ==> m[k] != ':',
    ensures
        first_separator_from(s, i) == Some(m.len() as int),
    decreases m.len() - i,
{
    if i < m.len() {
        assert(s[i] == s.take(m.len() as int)[i]);
        lemma_separator_after_module(s, m, i + 1);
    }
}

/// A target built from a module name without `:` and any function name splits back into
/// the two.
pub proof fn law_function_name_round_trip(module: Seq<char>, function: Seq<char>)
    requires
        forall|k: int| 0 <= k < module.len() ==> module[k] != ':',
    ensures
        spec_parse_function_name(module + "::"@ + function) == Ok::<
            (Seq<char>, Seq<char>),
            Seq<char>,
        >((module, function)),
{
    reveal_strlit("::");
    let s = module + "::"@ + function;
    assert(s.take(module.len() as int) =~= module);
    assert(s[module.len() as int] == ':');
    assert(s[module.len() as int + 1] == ':');
    lemma_separator_after_module(s, module, 0);
    assert(s.skip(module.len() as int + 2) =~= function);
}

/// What a call or script is charged never passes its limit, and is at least the estimate
/// when the limit allows it.
pub proof fn law_charged_gas_within_limit(consumed: u64, estimate: u64, limit: u64)
    ensures
        charged_gas(consumed, estimate, limit) <= limit,
        estimate <= limit ==> estimate <= charged_gas(consumed, estimate, limit),
        consumed <= limit ==> consumed <= charged_gas(consumed, estimate, limit),
{
}

} // verus!

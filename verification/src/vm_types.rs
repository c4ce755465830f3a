//! Requests to the VM and what it answers.
use vstd::prelude::*;

use crate::bytecode::VerificationError;
use crate::text::bytes_to_vec;
use crate::types::AccountAddress;
use crate::write_set::{clone_opt_bytes, opt_bytes, EntryModel, WriteEntry, WriteSet};

verus! {

/// How an execution ended.
#[derive(Clone, Debug, Eq, PartialEq)]
pub enum VmStatus {
    Success,
    MoveAbort { location: String, code: u64 },
    OutOfGas,
    Unsupported,
}

/// One storage write: `Some` stores a value, `None` deletes it.
#[derive(Clone, Debug, Eq, PartialEq)]
pub struct StateChange {
    pub account: AccountAddress,
    pub key: Vec<u8>,
    pub value: Option<Vec<u8>>,
}

impl StateChange {
    pub open spec fn model(&self) -> EntryModel {
        (self.account, self.key@, opt_bytes(self.value))
    }
}

/// The state changes of a sequence of changes, taken by value.
pub open spec fn changes_model(cs: Seq<StateChange>) -> Seq<EntryModel> {
    cs.map_values(|c: StateChange| c.model())
}

/// An event emitted during execution.
#[derive(Clone, Debug, Eq, PartialEq)]
pub struct ContractEvent {
    pub type_tag: String,
    pub guid: Vec<u8>,
    pub sequence_number: u64,
    pub data: Vec<u8>,
}

/// The result of an execution.
#[derive(Clone, Debug, Eq, PartialEq)]
pub struct VmOutput {
    pub status: VmStatus,
    pub gas_used: u64,
    pub state_changes: Vec<StateChange>,
    pub write_set: WriteSet,
    pub events: Vec<ContractEvent>,
    pub return_values: Vec<Vec<u8>>,
}

impl VmOutput {
    /// Nothing written, nothing emitted, nothing returned.
    pub open spec fn is_empty_effect(&self) -> bool {
        &&& self.state_changes@.len() == 0
        &&& self.write_set.model().len() == 0
        &&& self.events@.len() == 0
        &&& self.return_values@.len() == 0
    }

    /// The answer of a backend that cannot run the request.
    pub fn unsupported(gas_used: u64) -> (r: Self)
        ensures
            r.status == VmStatus::Unsupported,
            r.gas_used == gas_used,
            r.is_empty_effect(),
    {
        VmOutput {
            status: VmStatus::Unsupported,
            gas_used,
            state_changes: Vec::new(),
            write_set: WriteSet::new(),
            events: Vec::new(),
            return_values: Vec::new(),
        }
    }

    /// An abort at `location` with code 4001, charging `base_gas` up to the limit.
    pub fn abort(location: String, base_gas: u64, gas_limit: u64) -> (r: Self)
        ensures
            r.status == (VmStatus::MoveAbort { location, code: 4001 }),
            r.gas_used == if base_gas <= gas_limit {
                base_gas
            } else {
                gas_limit
            },
            r.is_empty_effect(),
    {
        VmOutput {
            status: VmStatus::MoveAbort { location, code: 4001 },
            gas_used: if base_gas <= gas_limit {
                base_gas
            } else {
                gas_limit
            },
            state_changes: Vec::new(),
            write_set: WriteSet::new(),
            events: Vec::new(),
            return_values: Vec::new(),
        }
    }

    /// An output with the given status and gas and no effects.
    pub fn without_effects(status: VmStatus, gas_used: u64) -> (r: Self)
        ensures
            r.status == status,
            r.gas_used == gas_used,
            r.is_empty_effect(),
    {
        VmOutput {
            status,
            gas_used,
            state_changes: Vec::new(),
            write_set: WriteSet::new(),
            events: Vec::new(),
            return_values: Vec::new(),
        }
    }
}

/// The output of a publish and the address the modules went to.
#[derive(Clone, Debug, Eq, PartialEq)]
pub struct PublishOutcome {
    pub vm_output: VmOutput,
    pub contract_address: AccountAddress,
}

/// Why the VM could not answer.
#[derive(Clone, Debug, Eq, PartialEq)]
pub enum VmError {
    Storage(String),
    Verification(Vec<VerificationError>),
    Unsupported(&'static str),
    InternalError(String),
}

pub type VmResult<T> = Result<T, VmError>;

/// A call of an entry function.
#[derive(Clone, Debug, Eq, PartialEq)]
pub struct FunctionCall {
    pub sender: AccountAddress,
    pub contract: AccountAddress,
    pub function: String,
    pub type_args: Vec<Vec<u8>>,
    pub args: Vec<Vec<u8>>,
    pub gas_limit: u64,
}

/// Whether published modules may be replaced.
#[derive(Clone, Copy, Debug, Eq, PartialEq)]
pub enum UpgradePolicy {
    /// Modules cannot be upgraded after initial deployment.
    Immutable,
    /// Modules may be upgraded with ABI-compatible changes.
    Compatible,
    /// Upgrades require governance approval.
    GovernanceOnly,
}

impl Default for UpgradePolicy {
    fn default() -> (r: Self)
        ensures
            r == UpgradePolicy::Immutable,
    {
        UpgradePolicy::Immutable
    }
}

/// A request to publish modules.
#[derive(Clone, Debug, Eq, PartialEq)]
pub struct ModulePublish {
    pub sender: AccountAddress,
    pub modules: Vec<Vec<u8>>,
    pub gas_limit: u64,
    /// Upgrade policy stored with the package; `None` means `Immutable`.
    pub upgrade_policy: Option<UpgradePolicy>,
}

/// A request to run a script.
#[derive(Clone, Debug, Eq, PartialEq)]
pub struct ScriptExecution {
    pub sender: AccountAddress,
    pub bytecode: Vec<u8>,
    pub type_args: Vec<Vec<u8>>,
    pub args: Vec<Vec<u8>>,
    pub gas_limit: u64,
}

/// A read-only call of a view function.
#[derive(Clone, Debug, Eq, PartialEq)]
pub struct QueryRequest {
    pub contract: AccountAddress,
    pub function: String,
    pub type_args: Vec<Vec<u8>>,
    pub args: Vec<Vec<u8>>,
    pub gas_budget: u64,
}

/// The answer to a view call.
#[derive(Clone, Debug, Eq, PartialEq)]
pub struct QueryResult {
    pub return_value: Option<Vec<u8>>,
    pub gas_used: u64,
    pub gas_budget: u64,
}

/// The state changes of a write set, one per entry, in key order.
pub fn write_set_changes(ws: &WriteSet) -> (r: Vec<StateChange>)
    ensures
        changes_model(r@) == ws.model(),
{
    let entries = ws.entries();
    let ghost em = entries@.map_values(|e: WriteEntry| e.model());
    let mut changes: Vec<StateChange> = Vec::new();
    let mut i: usize = 0;
    while i < entries.len()
        invariant
            i <= entries@.len(),
            em == entries@.map_values(|e: WriteEntry| e.model()),
            changes_model(changes@) == em.take(i as int),
        decreases entries@.len() - i,
    {
        let e = &entries[i];
        let c = StateChange {
            account: e.account,
            key: bytes_to_vec(e.key.as_slice()),
            value: clone_opt_bytes(&e.value),
        };
        let ghost before = changes@;
        changes.push(c);
        proof {
            assert(changes_model(changes@) =~= changes_model(before).push(c.model()));
            assert(em[i as int] == e.model());
            assert(em.take(i as int + 1) =~= em.take(i as int).push(em[i as int]));
        }
        i += 1;
    }
    assert(em.take(entries@.len() as int) =~= em);
    changes
}

} // verus!

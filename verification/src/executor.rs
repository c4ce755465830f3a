//! The VM interface, the planning backend and the executor that dispatches to a backend.
use vstd::prelude::*;

use crate::bytecode::{
    bootstrap_policy, spec_verify_bundle, total_len, verify_publish_bundle, BytecodePolicy,
};
use crate::config::VmConfig;
use crate::gas::min_u64;
use crate::publisher::{concat_modules, publish_answer, publish_verified_modules, spec_code_hash, spec_contract_address};
use crate::state::{code_key, NexusStateView};
use crate::types::AccountAddress;
use crate::vm_types::{
    FunctionCall, ModulePublish, QueryRequest, QueryResult, ScriptExecution, VmError, VmOutput,
    VmResult, VmStatus,
};

verus! {

/// A Move VM backend. What a backend answers is its own to decide; the `*_answer` spec
/// functions say which answers a backend admits, and a backend that says nothing admits
/// every answer.
pub trait MoveVm: Send + Sync {
    /// Whether `result` is an answer this backend may give to the call.
    open spec fn call_answer(&self, state: NexusStateView<'_>, request: FunctionCall, result: VmResult<
        VmOutput,
    >) -> bool {
        true
    }

    /// Whether `result` is an answer this backend may give to the publish.
    open spec fn publish_answer_of(
        &self,
        state: NexusStateView<'_>,
        request: ModulePublish,
        result: VmResult<VmOutput>,
    ) -> bool {
        true
    }

    /// Whether `result` is an answer this backend may give to the script.
    open spec fn script_answer(
        &self,
        state: NexusStateView<'_>,
        request: ScriptExecution,
        result: VmResult<VmOutput>,
    ) -> bool {
        true
    }

    /// Whether `result` is an answer this backend may give to the view call.
    open spec fn view_answer(&self, state: NexusStateView<'_>, request: QueryRequest, result: VmResult<
        QueryResult,
    >) -> bool {
        true
    }

    fn execute_function(&self, state: &NexusStateView<'_>, request: &FunctionCall) -> (r: VmResult<
        VmOutput,
    >)
        ensures
            self.call_answer(*state, *request, r),
    ;

    fn publish_modules(&self, state: &NexusStateView<'_>, request: &ModulePublish) -> (r: VmResult<
        VmOutput,
    >)
        requires
            total_len(request.modules@) <= usize::MAX,
        ensures
            self.publish_answer_of(*state, *request, r),
    ;

    fn execute_script(&self, state: &NexusStateView<'_>, request: &ScriptExecution) -> (r: VmResult<
        VmOutput,
    >)
        ensures
            self.script_answer(*state, *request, r),
    ;

    fn query_view(&self, state: &NexusStateView<'_>, request: &QueryRequest) -> (r: VmResult<
        QueryResult,
    >)
        ensures
            self.view_answer(*state, *request, r),
    ;
}

/// The gas a planning answer charges: the limit, at most 1000.
pub open spec fn planning_gas(gas_limit: u64) -> u64 {
    min_u64(gas_limit, 1000)
}

/// What the planning backend answers a publish: the bootstrap checks' findings as the error;
/// else, at the contract address of the sender and the code hash, the reader's answer to the
/// read of `code`: its error, or the publisher's answer with the default configuration for
/// whether code is stored there.
pub open spec fn planning_publish_answer(
    state: &NexusStateView<'_>,
    request: &ModulePublish,
    r: VmResult<VmOutput>,
) -> bool {
    &&& spec_verify_bundle(request.modules@, bootstrap_policy()) matches Err(errors) ==> r matches Err(
        VmError::Verification(found),
    ) && found@ == errors
    &&& spec_verify_bundle(request.modules@, bootstrap_policy()) is Ok ==> (r matches Ok(out)
        ==> exists|address: AccountAddress, stored: Option<Seq<u8>>|
        #![trigger state.admits(address, code_key(), Ok(stored))]
        {
            &&& address@ == spec_contract_address(
                request.sender,
                spec_code_hash(request.modules@),
            )
            &&& state.admits(address, code_key(), Ok(stored))
            &&& publish_answer(
                out,
                stored is Some,
                address,
                request.sender,
                concat_modules(request.modules@),
                spec_code_hash(request.modules@),
                request.modules@.len() as u32,
                request.gas_limit,
                default_config(),
            )
        })
    &&& spec_verify_bundle(request.modules@, bootstrap_policy()) is Ok ==> (r matches Err(e)
        ==> exists|address: AccountAddress|
        #![trigger state.admits(address, code_key(), Err(e))]
        address@ == spec_contract_address(request.sender, spec_code_hash(request.modules@))
            && state.admits(address, code_key(), Err(e)))
}

/// The default VM configuration.
pub open spec fn default_config() -> VmConfig {
    VmConfig {
        max_binary_size: 524_288,
        call_base_gas: 5_000,
        publish_base_gas: 10_000,
        publish_per_byte_gas: 1,
        read_per_byte_gas: 1,
        write_per_byte_gas: 5,
    }
}

/// A backend that checks and publishes bundles, answers calls and scripts with
/// `Unsupported`, and answers view calls with an empty budgeted result.
#[derive(Debug, Clone, Copy, PartialEq, Eq)]
pub struct PlanningMoveVm;

impl Default for PlanningMoveVm {
    fn default() -> (r: Self)
        ensures
            r == PlanningMoveVm,
    {
        PlanningMoveVm
    }
}

/// The planning answer to a call or a script: `Unsupported`, no effects, charging the limit
/// up to 1000.
pub open spec fn planning_unsupported_answer(gas_limit: u64, r: VmResult<VmOutput>) -> bool {
    r matches Ok(out) && out.status == VmStatus::Unsupported && out.gas_used == planning_gas(gas_limit)
        && out.is_empty_effect()
}

/// The planning answer to a view call: the reader's answer to the read of `code` at the
/// contract decides; its error is the error, else no value, charging the budget up to 1000.
pub open spec fn planning_view_answer(
    state: NexusStateView<'_>,
    request: QueryRequest,
    r: VmResult<QueryResult>,
) -> bool {
    &&& r matches Ok(q) ==> q == (QueryResult {
        return_value: None,
        gas_used: planning_gas(request.gas_budget),
        gas_budget: request.gas_budget,
    })
    &&& r matches Ok(_) ==> exists|stored: Option<Seq<u8>>|
        #[trigger] state.admits(request.contract, code_key(), Ok(stored))
    &&& r matches Err(e) ==> state.admits(request.contract, code_key(), Err(e))
}

impl MoveVm for PlanningMoveVm {
    open spec fn call_answer(&self, state: NexusStateView<'_>, request: FunctionCall, result: VmResult<
        VmOutput,
    >) -> bool {
        planning_unsupported_answer(request.gas_limit, result)
    }

    open spec fn publish_answer_of(
        &self,
        state: NexusStateView<'_>,
        request: ModulePublish,
        result: VmResult<VmOutput>,
    ) -> bool {
        planning_publish_answer(&state, &request, result)
    }

    open spec fn script_answer(
        &self,
        state: NexusStateView<'_>,
        request: ScriptExecution,
        result: VmResult<VmOutput>,
    ) -> bool {
        planning_unsupported_answer(request.gas_limit, result)
    }

    open spec fn view_answer(&self, state: NexusStateView<'_>, request: QueryRequest, result: VmResult<
        QueryResult,
    >) -> bool {
        planning_view_answer(state, request, result)
    }

    /// `Unsupported`, charging the limit up to 1000.
    fn execute_function(&self, state: &NexusStateView<'_>, request: &FunctionCall) -> (r: VmResult<
        VmOutput,
    >)
        ensures
            r matches Ok(out) && out.status == VmStatus::Unsupported && out.gas_used
                == planning_gas(request.gas_limit) && out.is_empty_effect(),
    {
        let gas = if request.gas_limit <= 1000 {
            request.gas_limit
        } else {
            1000
        };
        Ok(VmOutput::unsupported(gas))
    }

    /// Checks the bundle with the bootstrap policy, then publishes it with the default
    /// configuration and answers the publisher's output.
    fn publish_modules(&self, state: &NexusStateView<'_>, request: &ModulePublish) -> (r: VmResult<
        VmOutput,
    >)
        ensures
            planning_publish_answer(state, request, r),
    {
        let policy = BytecodePolicy::bootstrap();
        match verify_publish_bundle(request.modules.as_slice(), &policy) {
            Ok(()) => {},
            Err(errors) => {
                return Err(VmError::Verification(errors));
            },
        }
        let config = VmConfig::default();
        let outcome = publish_verified_modules(
            state,
            request.sender,
            request.modules.as_slice(),
            request.gas_limit,
            &config,
        )?;
        Ok(outcome.vm_output)
    }

    /// `Unsupported`, charging the limit up to 1000.
    fn execute_script(&self, state: &NexusStateView<'_>, request: &ScriptExecution) -> (r:
        VmResult<VmOutput>)
        ensures
            r matches Ok(out) && out.status == VmStatus::Unsupported && out.gas_used
                == planning_gas(request.gas_limit) && out.is_empty_effect(),
    {
        let gas = if request.gas_limit <= 1000 {
            request.gas_limit
        } else {
            1000
        };
        Ok(VmOutput::unsupported(gas))
    }

    /// Reads whether the contract has code (a failed read is the error), then answers no
    /// value, charging the budget up to 1000.
    fn query_view(&self, state: &NexusStateView<'_>, request: &QueryRequest) -> (r: VmResult<
        QueryResult,
    >)
        ensures
            r matches Ok(q) ==> q == (QueryResult {
                return_value: None,
                gas_used: planning_gas(request.gas_budget),
                gas_budget: request.gas_budget,
            }),
            r matches Ok(_) ==> exists|stored: Option<Seq<u8>>|
                #[trigger] state.admits(request.contract, code_key(), Ok(stored)),
            r matches Err(e) ==> state.admits(request.contract, code_key(), Err(e)),
    {
        let _ = state.has_module(&request.contract)?;
        let gas = if request.gas_budget <= 1000 {
            request.gas_budget
        } else {
            1000
        };
        Ok(QueryResult { return_value: None, gas_used: gas, gas_budget: request.gas_budget })
    }
}

/// The backend an executor dispatches to.
enum Backend {
    Planning(PlanningMoveVm),
    Custom(Box<dyn MoveVm>),
}

/// Runs requests on a backend under a configuration and the bootstrap bytecode policy.
pub struct MoveExecutor {
    vm: Backend,
    config: VmConfig,
    bytecode_policy: BytecodePolicy,
}

impl MoveExecutor {
    /// Whether requests go to the planning backend.
    pub closed spec fn is_planning(&self) -> bool {
        self.vm is Planning
    }

    pub closed spec fn spec_config(&self) -> VmConfig {
        self.config
    }

    /// Whether the backend admits `result` as its answer to the call.
    pub closed spec fn backend_call_answer(
        &self,
        state: NexusStateView<'_>,
        request: FunctionCall,
        result: VmResult<VmOutput>,
    ) -> bool {
        match &self.vm {
            Backend::Planning(vm) => vm.call_answer(state, request, result),
            Backend::Custom(vm) => vm.call_answer(state, request, result),
        }
    }

    /// Whether the backend admits `result` as its answer to the publish.
    pub closed spec fn backend_publish_answer(
        &self,
        state: NexusStateView<'_>,
        request: ModulePublish,
        result: VmResult<VmOutput>,
    ) -> bool {
        match &self.vm {
            Backend::Planning(vm) => vm.publish_answer_of(state, request, result),
            Backend::Custom(vm) => vm.publish_answer_of(state, request, result),
        }
    }

    /// Whether the backend admits `result` as its answer to the script.
    pub closed spec fn backend_script_answer(
        &self,
        state: NexusStateView<'_>,
        request: ScriptExecution,
        result: VmResult<VmOutput>,
    ) -> bool {
        match &self.vm {
            Backend::Planning(vm) => vm.script_answer(state, request, result),
            Backend::Custom(vm) => vm.script_answer(state, request, result),
        }
    }

    /// Whether the backend admits `result` as its answer to the view call.
    pub closed spec fn backend_view_answer(
        &self,
        state: NexusStateView<'_>,
        request: QueryRequest,
        result: VmResult<QueryResult>,
    ) -> bool {
        match &self.vm {
            Backend::Planning(vm) => vm.view_answer(state, request, result),
            Backend::Custom(vm) => vm.view_answer(state, request, result),
        }
    }

    pub closed spec fn spec_bytecode_policy(&self) -> BytecodePolicy {
        self.bytecode_policy
    }

    /// An executor on the planning backend.
    pub fn new(config: VmConfig) -> (r: Self)
        ensures
            r.is_planning(),
            r.spec_config() == config,
            r.spec_bytecode_policy() == bootstrap_policy(),
    {
        MoveExecutor {
            vm: Backend::Planning(PlanningMoveVm),
            config,
            bytecode_policy: BytecodePolicy::bootstrap(),
        }
    }

    /// An executor on the given backend.
    pub fn with_vm(vm: Box<dyn MoveVm>, config: VmConfig) -> (r: Self)
        ensures
            !r.is_planning(),
            r.spec_config() == config,
            r.spec_bytecode_policy() == bootstrap_policy(),
    {
        MoveExecutor { vm: Backend::Custom(vm), config, bytecode_policy: BytecodePolicy::bootstrap() }
    }

    pub fn config(&self) -> (r: &VmConfig)
        ensures
            *r == self.spec_config(),
    {
        &self.config
    }

    pub fn bytecode_policy(&self) -> (r: &BytecodePolicy)
        ensures
            *r == self.spec_bytecode_policy(),
    {
        &self.bytecode_policy
    }

    /// Runs an entry function on the backend.
    pub fn execute_function(&self, state: &NexusStateView<'_>, request: &FunctionCall) -> (r:
        VmResult<VmOutput>)
        ensures
            self.backend_call_answer(*state, *request, r),
            self.is_planning() ==> (r matches Ok(out) && out.status == VmStatus::Unsupported
                && out.gas_used == planning_gas(request.gas_limit) && out.is_empty_effect()),
    {
        match &self.vm {
            Backend::Planning(vm) => vm.execute_function(state, request),
            Backend::Custom(vm) => vm.execute_function(state, request),
        }
    }

    /// Publishes modules on the backend.
    pub fn publish_modules(&self, state: &NexusStateView<'_>, request: &ModulePublish) -> (r:
        VmResult<VmOutput>)
        requires
            total_len(request.modules@) <= usize::MAX,
        ensures
            self.backend_publish_answer(*state, *request, r),
            self.is_planning() ==> planning_publish_answer(state, request, r),
    {
        match &self.vm {
            Backend::Planning(vm) => vm.publish_modules(state, request),
            Backend::Custom(vm) => vm.publish_modules(state, request),
        }
    }

    /// Runs a script on the backend.
    pub fn execute_script(&self, state: &NexusStateView<'_>, request: &ScriptExecution) -> (r:
        VmResult<VmOutput>)
        ensures
            self.backend_script_answer(*state, *request, r),
            self.is_planning() ==> (r matches Ok(out) && out.status == VmStatus::Unsupported
                && out.gas_used == planning_gas(request.gas_limit) && out.is_empty_effect()),
    {
        match &self.vm {
            Backend::Planning(vm) => vm.execute_script(state, request),
            Backend::Custom(vm) => vm.execute_script(state, request),
        }
    }

    /// Answers a view call on the backend.
    pub fn query_view(&self, state: &NexusStateView<'_>, request: &QueryRequest) -> (r: VmResult<
        QueryResult,
    >)
        ensures
            self.backend_view_answer(*state, *request, r),
            self.is_planning() ==> (r matches Ok(q) ==> q == (QueryResult {
                return_value: None,
                gas_used: planning_gas(request.gas_budget),
                gas_budget: request.gas_budget,
            })),
            self.is_planning() ==> (r matches Ok(_) ==> exists|stored: Option<Seq<u8>>|
                #[trigger] state.admits(request.contract, code_key(), Ok(stored))),
            self.is_planning() ==> (r matches Err(e) ==> state.admits(
                request.contract,
                code_key(),
                Err(e),
            )),
    {
        match &self.vm {
            Backend::Planning(vm) => vm.query_view(state, request),
            Backend::Custom(vm) => vm.query_view(state, request),
        }
    }
}

/// A planning executor answers every request as the planning backend does: calls and
/// scripts with `Unsupported` and capped gas, publishes with the bundle check and the
/// publisher's answer for the reader's view of the contract address, and view calls with no
/// value after reading whether the contract has code.
pub proof fn law_planning_executor(
    e: MoveExecutor,
    state: NexusStateView<'_>,
    call: FunctionCall,
    call_result: VmResult<VmOutput>,
    publish: ModulePublish,
    publish_result: VmResult<VmOutput>,
    script: ScriptExecution,
    script_result: VmResult<VmOutput>,
    query: QueryRequest,
    query_result: VmResult<QueryResult>,
)
    requires
        e.is_planning(),
    ensures
        e.backend_call_answer(state, call, call_result) <==> planning_unsupported_answer(
            call.gas_limit,
            call_result,
        ),
        e.backend_publish_answer(state, publish, publish_result) <==> planning_publish_answer(
            &state,
            &publish,
            publish_result,
        ),
        e.backend_script_answer(state, script, script_result) <==> planning_unsupported_answer(
            script.gas_limit,
            script_result,
        ),
        e.backend_view_answer(state, query, query_result) <==> planning_view_answer(
            state,
            query,
            query_result,
        ),
{
}

/// What the runtime was set up with.
#[derive(Clone, Debug, Eq, PartialEq)]
pub struct RuntimeBootstrap {
    pub bytecode_policy: BytecodePolicy,
    pub supports_query_path: bool,
}

impl RuntimeBootstrap {
    /// A runtime with the given policy; the query path is supported.
    pub fn new(bytecode_policy: BytecodePolicy) -> (r: Self)
        ensures
            r.bytecode_policy == bytecode_policy,
            r.supports_query_path,
    {
        RuntimeBootstrap { bytecode_policy, supports_query_path: true }
    }
}

} // verus!

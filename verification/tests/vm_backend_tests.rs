use nexus_move::abi::{compute_module_abi_hash, FunctionAbi, ModuleAbi, SignatureToken};
use nexus_move::config::VmConfig;
use nexus_move::move_gas_meter::NexusGasMeter;
use nexus_move::package::{PackageMetadata, UpgradePolicy as PackagePolicy};
use nexus_move::types::AccountAddress;
use nexus_move::vm_backend::{
    changes_to_nexus, check_module_address, next_module_action, ModuleAction, ModuleEvent, dependency_must_exist, module_code_hash, module_metadata,
    parse_function_name, qualified_name, query_succeeded, record_module_writes, signer_args,
    upgrade_verdict, RealMoveVm,
};
use nexus_move::vm_types::{
    FunctionCall, ModulePublish, QueryRequest, ScriptExecution, StateChange, UpgradePolicy,
    VmError, VmStatus,
};
use nexus_move::write_set::WriteSet;

fn cafe_address() -> AccountAddress {
    let mut bytes = [0u8; 32];
    bytes[30] = 0xCA;
    bytes[31] = 0xFE;
    AccountAddress(bytes)
}

fn call(function: &str, address: AccountAddress) -> FunctionCall {
    FunctionCall {
        sender: address,
        contract: address,
        function: function.into(),
        type_args: Vec::new(),
        args: Vec::new(),
        gas_limit: 100_000,
    }
}

fn counter_abi() -> ModuleAbi {
    ModuleAbi {
        name: "counter".to_string(),
        functions: vec![FunctionAbi {
            name: "increment".to_string(),
            visibility: 1,
            is_entry: true,
            type_parameters: vec![],
            parameters: vec![SignatureToken::Reference(Box::new(SignatureToken::Signer))],
            returns: vec![],
        }],
        structs: vec![],
    }
}

fn stored_metadata(policy: PackagePolicy, abi_hash: [u8; 32]) -> PackageMetadata {
    PackageMetadata {
        name: "counter".into(),
        package_hash: [1; 32],
        named_addresses: vec![],
        module_hashes: vec![],
        abi_hash,
        upgrade_policy: policy,
        deployer: cafe_address(),
        version: 1,
    }
}

fn publish_request(policy: Option<UpgradePolicy>) -> ModulePublish {
    ModulePublish {
        sender: cafe_address(),
        modules: vec![vec![0xa1, 0x1c, 0xeb, 0x0b, 1, 0, 0, 0]],
        gas_limit: 100_000,
        upgrade_policy: policy,
    }
}

/// The writes of publishing the one module of `request` under the name `counter`.
fn publish_writes(vm: &RealMoveVm, request: &ModulePublish) -> nexus_move::vm_types::VmOutput {
    let mut changes: Vec<StateChange> = Vec::new();
    let mut ws = WriteSet::new();
    let bytes = &request.modules[0];
    let hash = module_code_hash(bytes);
    record_module_writes(&mut changes, &mut ws, cafe_address(), "counter", bytes, hash, vec![9, 9]);
    vm.publish_succeeded(request, changes, ws)
}

#[test]
fn execute_function_rejects_missing_separator() {
    let vm = RealMoveVm::new(&VmConfig::for_testing());
    let request = call("no_separator", cafe_address());
    let message = parse_function_name(&request.function).unwrap_err();
    assert_eq!(message, "invalid function format 'no_separator', expected 'module::function'");
    let output = vm.call_rejected(message, request.gas_limit);
    assert!(matches!(output.status, VmStatus::MoveAbort { .. }));
}

#[test]
fn execute_function_rejects_empty_function_name() {
    let vm = RealMoveVm::new(&VmConfig::for_testing());
    let request = call("counter::", cafe_address());
    let (module, function) = parse_function_name(&request.function).unwrap();
    assert_eq!(module, "counter");
    assert_eq!(function, "");
    let output = vm.call_rejected(qualified_name(&module, &function), request.gas_limit);
    assert!(matches!(output.status, VmStatus::MoveAbort { .. }));
}

#[test]
fn execute_function_rejects_nonexistent_function() {
    let vm = RealMoveVm::new(&VmConfig::for_testing());
    let request = call("counter::nonexistent_fn", cafe_address());
    let (module, function) = parse_function_name(&request.function).unwrap();
    assert_eq!(function, "nonexistent_fn");
    let output = vm.call_rejected(qualified_name(&module, &function), request.gas_limit);
    assert!(matches!(output.status, VmStatus::MoveAbort { .. }));
    assert_eq!(output.gas_used, 1_000);
}

#[test]
fn zero_address_publish_fails_gracefully() {
    let zero = AccountAddress([0u8; 32]);
    let result = check_module_address(&cafe_address(), &zero);
    assert!(result.is_err(), "publish with zero address should fail (address mismatch)");
}

#[test]
fn max_address_publish_fails_gracefully() {
    let max = AccountAddress([0xFF; 32]);
    let result = check_module_address(&cafe_address(), &max);
    assert_eq!(
        result,
        Err(VmError::InternalError("module address does not match sender".to_string()))
    );
}

#[test]
fn execute_on_nonexistent_module_aborts() {
    let vm = RealMoveVm::new(&VmConfig::for_testing());
    let addr = AccountAddress([0x42; 32]);
    let request = call("missing::call", addr);
    let (module, function) = parse_function_name(&request.function).unwrap();
    let output = vm.call_rejected(qualified_name(&module, &function), request.gas_limit);
    assert!(matches!(output.status, VmStatus::MoveAbort { .. }));
}

#[test]
fn immutable_module_rejects_redeploy() {
    let vm = RealMoveVm::new(&VmConfig::default());
    let stored = Some(stored_metadata(PackagePolicy::Immutable, [0; 32]));
    let code = upgrade_verdict(&stored, &counter_abi()).unwrap();
    assert_eq!(code, 20);
    let out2 = vm.publish_rejected(code);
    assert!(matches!(out2.status, VmStatus::MoveAbort { code: 20, .. }));
    assert!(out2.state_changes.is_empty(), "no state changes on rejection");
    assert_eq!(upgrade_verdict(&None, &counter_abi()), Some(20));
}

#[test]
fn compatible_module_allows_redeploy() {
    let vm = RealMoveVm::new(&VmConfig::default());
    let abi_hash = compute_module_abi_hash(&counter_abi());
    let stored = Some(stored_metadata(PackagePolicy::Compatible, abi_hash));
    assert_eq!(upgrade_verdict(&stored, &counter_abi()), None);
    let request = publish_request(Some(UpgradePolicy::Compatible));
    let out2 = publish_writes(&vm, &request);
    assert_eq!(out2.status, VmStatus::Success);
    assert!(!out2.state_changes.is_empty(), "should produce state changes");
}

#[test]
fn upgrade_verdicts_for_governance_and_changed_abi() {
    let governed = Some(stored_metadata(PackagePolicy::GovernanceOnly, [0; 32]));
    assert_eq!(upgrade_verdict(&governed, &counter_abi()), Some(21));
    let changed = Some(stored_metadata(PackagePolicy::Compatible, [3; 32]));
    assert_eq!(upgrade_verdict(&changed, &counter_abi()), Some(22));
    let untracked = Some(stored_metadata(PackagePolicy::Compatible, [0; 32]));
    assert_eq!(upgrade_verdict(&untracked, &counter_abi()), None);
}

#[test]
fn publish_writes_per_module_key() {
    let vm = RealMoveVm::new(&VmConfig::default());
    let request = publish_request(None);
    let out = publish_writes(&vm, &request);
    assert_eq!(out.status, VmStatus::Success);
    let per_module = out.state_changes.iter().find(|c| c.key == b"code::counter".to_vec()).unwrap();
    let legacy = out.state_changes.iter().find(|c| c.key == b"code".to_vec()).unwrap();
    assert_eq!(per_module.value, legacy.value);
    assert_eq!(out.write_set.len(), 4);
    assert!(out.write_set.contains_key(&(cafe_address(), b"package_metadata".to_vec())));
}

#[test]
fn publish_has_empty_events_and_return_values() {
    let vm = RealMoveVm::new(&VmConfig::default());
    let request = publish_request(None);
    let out = publish_writes(&vm, &request);
    assert_eq!(out.status, VmStatus::Success);
    assert!(out.events.is_empty(), "publish should have no events");
    assert!(out.return_values.is_empty(), "publish should have no return values");
}

#[test]
fn call_gas_is_at_least_the_estimate_and_at_most_the_limit() {
    let vm = RealMoveVm::new(&VmConfig::default());
    let mut request = call("counter::increment", cafe_address());
    request.args = vec![vec![1, 2, 3]];
    let out = vm.call_succeeded(&request, 10, Vec::new(), WriteSet::new(), Vec::new(), Vec::new());
    assert_eq!(out.gas_used, 5_000 + 3);
    let out = vm.call_succeeded(&request, 90_000, Vec::new(), WriteSet::new(), Vec::new(), Vec::new());
    assert_eq!(out.gas_used, 90_000);
    request.gas_limit = 100;
    let out = vm.call_failed(&request, 10, "0x1::m".to_string(), 4016);
    assert_eq!(out.gas_used, 100);
    assert_eq!(out.status, VmStatus::MoveAbort { location: "0x1::m".to_string(), code: 4016 });
}

#[test]
fn script_outputs_charge_script_estimate() {
    let vm = RealMoveVm::new(&VmConfig::default());
    let request = ScriptExecution {
        sender: cafe_address(),
        bytecode: vec![0; 100],
        type_args: vec![],
        args: vec![vec![1]],
        gas_limit: 100_000,
    };
    let out = vm.script_failed(&request, 0, "script".to_string(), 1);
    assert_eq!(out.gas_used, 5_000 + 101);
    let out = vm.script_load_failed(&request, "script".to_string(), 2);
    assert_eq!(out.gas_used, 5_000);
    let out = vm.script_succeeded(&request, 0, vec![], WriteSet::new(), vec![], vec![vec![7]]);
    assert_eq!(out.return_values, vec![vec![7]]);
}

#[test]
fn query_answer_takes_first_return_value() {
    let request = QueryRequest {
        contract: cafe_address(),
        function: "counter::get_count".into(),
        type_args: vec![],
        args: vec![],
        gas_budget: 77,
    };
    let r = query_succeeded(vec![vec![1], vec![2]], 33, &request);
    assert_eq!(r.return_value, Some(vec![1]));
    assert_eq!(r.gas_used, 33);
    assert_eq!(r.gas_budget, 77);
    assert_eq!(query_succeeded(vec![], 0, &request).return_value, None);
}

#[test]
fn signer_is_prepended_to_arguments() {
    let args = signer_args(&cafe_address(), &vec![vec![5]]);
    assert_eq!(args.len(), 2);
    assert_eq!(args[0].len(), 33);
    assert_eq!(args[0][0], 0);
    assert_eq!(args[0][32], 0xFE);
    assert_eq!(args[1], vec![5]);
}

#[test]
fn dependencies_outside_sender_and_framework_must_exist() {
    let sender = cafe_address();
    let mut framework = [0u8; 32];
    framework[31] = 1;
    assert!(!dependency_must_exist(&sender, &sender));
    assert!(!dependency_must_exist(&AccountAddress(framework), &sender));
    assert!(dependency_must_exist(&AccountAddress([0xBB; 32]), &sender));
}

#[test]
fn metadata_follows_requested_policy() {
    let m = module_metadata(&"counter".to_string(), [1; 32], cafe_address(), [2; 32], Some(UpgradePolicy::GovernanceOnly), cafe_address());
    assert_eq!(m.upgrade_policy, PackagePolicy::GovernanceOnly);
    assert_eq!(m.named_addresses, vec![("counter".to_string(), cafe_address())]);
    let m = module_metadata(&"counter".to_string(), [1; 32], cafe_address(), [2; 32], None, cafe_address());
    assert_eq!(m.upgrade_policy, PackagePolicy::Immutable);
    assert_eq!(m.version, 1);
}

#[test]
fn interpreter_changes_become_sorted_write_set() {
    let changes = vec![
        (AccountAddress([2; 32]), vec![1], Some(vec![10])),
        (AccountAddress([1; 32]), vec![9], None),
        (AccountAddress([2; 32]), vec![1], Some(vec![11])),
    ];
    let (state_changes, ws) = changes_to_nexus(changes);
    assert_eq!(state_changes.len(), 3);
    assert_eq!(ws.len(), 2);
    assert_eq!(ws.entries()[0].account, AccountAddress([1; 32]));
    assert_eq!(ws.entries()[1].value, Some(vec![11]));
}

#[test]
fn module_code_hash_is_blake3_of_the_bytecode() {
    let bytes = [0xa1u8, 0x1c, 0xeb, 0x0b, 7, 0, 0, 10];
    let hash = module_code_hash(&bytes);
    assert_eq!(hash, *blake3::hash(&bytes).as_bytes());
    assert_ne!(hash, module_code_hash(&bytes[..7]));
    assert_ne!(&hash[..8], &bytes[..]);
}

#[test]
fn publish_uses_legacy_code_key() {
    let vm = RealMoveVm::new(&VmConfig::default());
    let output = publish_writes(&vm, &publish_request(None));
    assert!(output.state_changes.iter().any(|c| c.key == b"code"), "must write legacy 'code' key");
    assert!(output.state_changes.iter().any(|c| c.key == b"code_hash"), "must write 'code_hash' key");
}

#[test]
fn publish_gas_matches_main_repo_convention() {
    let vm = RealMoveVm::new(&VmConfig::default());
    let output = publish_writes(&vm, &publish_request(None));
    assert!(output.gas_used > 0, "publish must report nonzero gas");
}

#[test]
fn execute_gas_matches_main_repo_convention() {
    let vm = RealMoveVm::new(&VmConfig::default());
    let request = call("counter::initialize", cafe_address());
    let output = vm.call_succeeded(&request, 0, Vec::new(), WriteSet::new(), Vec::new(), Vec::new());
    assert_eq!(output.status, VmStatus::Success);
    assert!(output.gas_used > 0, "call must report nonzero gas");
}

#[test]
fn script_execution_rejects_invalid_bytecode() {
    let vm = RealMoveVm::new(&VmConfig::default());
    let request = ScriptExecution {
        sender: cafe_address(),
        bytecode: vec![0xa1, 0x1c, 0xeb, 0x0b],
        type_args: Vec::new(),
        args: Vec::new(),
        gas_limit: 100_000,
    };
    let output = vm.script_load_failed(&request, "script".to_string(), 3);
    assert!(matches!(output.status, VmStatus::MoveAbort { .. }));
    assert!(output.state_changes.is_empty());
}

#[test]
fn gas_used_is_nonzero_for_function_call() {
    let vm = RealMoveVm::new(&VmConfig::default());
    let request = call("counter::increment", cafe_address());
    let out = vm.call_succeeded(&request, 0, Vec::new(), WriteSet::new(), Vec::new(), Vec::new());
    assert_eq!(out.status, VmStatus::Success);
    assert!(out.gas_used > 0);
}

#[test]
fn low_gas_limit_causes_out_of_gas() {
    let vm = RealMoveVm::new(&VmConfig::default());
    let mut request = call("counter::increment", cafe_address());
    request.gas_limit = 1;
    let mut meter = NexusGasMeter::with_limit(request.gas_limit);
    meter.charge_call().unwrap_err();
    let out = vm.call_failed(&request, meter.consumed(), "counter::increment".to_string(), 4002);
    assert!(matches!(out.status, VmStatus::MoveAbort { .. }));
    assert_eq!(out.gas_used, 1);
}

#[test]
fn module_publish_steps_in_order() {
    let sender = cafe_address();
    assert_eq!(next_module_action(&sender, &ModuleEvent::StoredChecked(Some(21))), ModuleAction::Abort(21));
    assert_eq!(next_module_action(&sender, &ModuleEvent::StoredChecked(None)), ModuleAction::VerifyBytecode);
    assert_eq!(
        next_module_action(&sender, &ModuleEvent::BytecodeChecked(Some("bad".to_string()))),
        ModuleAction::Fail(VmError::InternalError("bytecode verification failed: bad".to_string()))
    );
    assert_eq!(next_module_action(&sender, &ModuleEvent::BytecodeChecked(None)), ModuleAction::CheckNextDependency);
    let missing = ModuleEvent::DependencyChecked {
        address: AccountAddress([0x42; 32]),
        name: "0x42::coin".to_string(),
        exists: false,
    };
    assert_eq!(
        next_module_action(&sender, &missing),
        ModuleAction::Fail(VmError::InternalError("missing dependency: 0x42::coin".to_string()))
    );
    let own = ModuleEvent::DependencyChecked { address: sender, name: "x".to_string(), exists: false };
    assert_eq!(next_module_action(&sender, &own), ModuleAction::CheckNextDependency);
    let mut framework = [0u8; 32];
    framework[31] = 1;
    let std_dep = ModuleEvent::DependencyChecked { address: AccountAddress(framework), name: "0x1::signer".to_string(), exists: false };
    assert_eq!(next_module_action(&sender, &std_dep), ModuleAction::CheckNextDependency);
}

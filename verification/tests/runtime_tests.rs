use std::collections::BTreeMap;

use nexus_move::bytecode::VerificationError;
use nexus_move::config::VmConfig;
use nexus_move::executor::{MoveExecutor, MoveVm, PlanningMoveVm, RuntimeBootstrap};
use nexus_move::gas::{GasMeter, GasSchedule, SimpleGasMeter};
use nexus_move::publisher::{derive_contract_address, publish_verified_modules};
use nexus_move::resources::{resource_key, ResourceStore};
use nexus_move::session::{ExecuteSession, MoveGasSummary, SessionKind, WriteError};
use nexus_move::state::{
    NexusStateView, StateReader, BALANCE_KEY, MODULE_CODE_HASH_KEY, MODULE_CODE_KEY,
    MODULE_COUNT_KEY, MODULE_DEPLOYER_KEY,
};
use nexus_move::types::AccountAddress;
use nexus_move::vm_backend::publish_module_precheck;
use nexus_move::vm_types::{
    FunctionCall, ModulePublish, QueryRequest, ScriptExecution, VmError, VmResult, VmStatus,
};

struct MemState {
    data: BTreeMap<(AccountAddress, Vec<u8>), Vec<u8>>,
}

impl MemState {
    fn new() -> Self {
        Self { data: BTreeMap::new() }
    }

    fn set(&mut self, account: AccountAddress, key: &[u8], value: Vec<u8>) {
        self.data.insert((account, key.to_vec()), value);
    }
}

impl StateReader for MemState {
    fn get(&self, account: &AccountAddress, key: &[u8]) -> VmResult<Option<Vec<u8>>> {
        Ok(self.data.get(&(*account, key.to_vec())).cloned())
    }
}

fn address(byte: u8) -> AccountAddress {
    AccountAddress([byte; 32])
}

const EXPECTED_BALANCE_KEY: &[u8] = b"balance";
const EXPECTED_CODE_KEY: &[u8] = b"code";
const EXPECTED_CODE_HASH_KEY: &[u8] = b"code_hash";

#[test]
fn planning_backend_rejects_empty_publish_bundle() {
    let state = MemState::new();
    let view = NexusStateView::new(&state);
    let exec = MoveExecutor::new(VmConfig::for_testing());
    let request = ModulePublish {
        sender: address(0xAA),
        modules: Vec::new(),
        gas_limit: 10_000,
        upgrade_policy: None,
    };

    let error = exec.publish_modules(&view, &request).unwrap_err();
    assert_eq!(error, VmError::Verification(vec![VerificationError::EmptyModuleSet]));
}

#[test]
fn query_path_returns_budgeted_stub_result() {
    let mut state = MemState::new();
    state.set(address(0xBB), &MODULE_CODE_KEY, vec![1, 2, 3]);
    let view = NexusStateView::new(&state);
    let exec = MoveExecutor::new(VmConfig::default());
    let request = QueryRequest {
        contract: address(0xBB),
        function: "get_count".into(),
        type_args: Vec::new(),
        args: Vec::new(),
        gas_budget: 500,
    };

    let result = exec.query_view(&view, &request).unwrap();
    assert_eq!(result.gas_used, 500);
    assert_eq!(result.gas_budget, 500);
    assert_eq!(result.return_value, None);
}

#[test]
fn contract_address_derivation_is_deterministic() {
    let sender = address(0xAB);
    let bytecode_hash = *blake3::hash(&[1, 2, 3, 4]).as_bytes();

    let left = derive_contract_address(&sender, &bytecode_hash);
    let right = derive_contract_address(&sender, &bytecode_hash);

    assert_eq!(left, right);
}

#[test]
fn contract_address_is_blake3_of_sender_plus_hash() {
    let sender = address(0xAB);
    let code_hash = *blake3::hash(&[1, 2, 3]).as_bytes();

    let derived = derive_contract_address(&sender, &code_hash);
    assert_eq!(derived, derive_contract_address(&sender, &code_hash));
    assert_ne!(derived, sender);
    let other_hash = *blake3::hash(&[4, 5, 6]).as_bytes();
    assert_ne!(derived, derive_contract_address(&sender, &other_hash));
}

#[test]
fn contract_address_preimage_is_sender_then_hash() {
    let sender = address(0xAB);
    let code_hash = *blake3::hash(&[1, 2, 3]).as_bytes();
    let mut preimage = sender.0.to_vec();
    preimage.extend_from_slice(&code_hash);
    assert_eq!(derive_contract_address(&sender, &code_hash).0, *blake3::hash(&preimage).as_bytes());
}

#[test]
fn publish_verified_modules_writes_expected_keys() {
    let state = MemState::new();
    let view = NexusStateView::new(&state);
    let sender = address(0xCD);
    let modules = vec![vec![0xa1, 0x1c, 0xeb, 0x0b, 1, 0, 0, 0], vec![0xa1, 0x1c, 0xeb, 0x0b, 2, 0, 0, 0]];

    let outcome =
        publish_verified_modules(&view, sender, &modules, 50_000, &VmConfig::for_testing()).unwrap();

    assert_eq!(outcome.vm_output.status, VmStatus::Success);
    assert_eq!(outcome.vm_output.state_changes.len(), 4);
    let ws = &outcome.vm_output.write_set;
    assert!(ws.contains_key(&(outcome.contract_address, MODULE_CODE_KEY.to_vec())));
    assert!(ws.contains_key(&(outcome.contract_address, MODULE_CODE_HASH_KEY.to_vec())));
    assert!(ws.contains_key(&(outcome.contract_address, MODULE_DEPLOYER_KEY.to_vec())));
    assert!(ws.contains_key(&(outcome.contract_address, MODULE_COUNT_KEY.to_vec())));
}

#[test]
fn publish_writes_expected_storage_keys() {
    let state = MemState::new();
    let view = NexusStateView::new(&state);
    let sender = address(0xCD);
    let module = vec![0xa1, 0x1c, 0xeb, 0x0b, 0x01, 0x00, 0x00, 0x00];

    let outcome =
        publish_verified_modules(&view, sender, &[module], 50_000, &VmConfig::for_testing()).unwrap();
    let ws = &outcome.vm_output.write_set;
    assert!(ws.contains_key(&(outcome.contract_address, MODULE_CODE_KEY.to_vec())));
    assert!(ws.contains_key(&(outcome.contract_address, MODULE_CODE_HASH_KEY.to_vec())));
    let stored_hash = ws
        .get(&(outcome.contract_address, MODULE_CODE_HASH_KEY.to_vec()))
        .unwrap()
        .as_ref()
        .unwrap();
    assert_eq!(stored_hash.len(), 32);
}

#[test]
fn publish_records_code_hash_deployer_and_count() {
    let state = MemState::new();
    let view = NexusStateView::new(&state);
    let sender = address(0xCD);
    let modules = vec![vec![1, 2, 3], vec![4, 5]];
    let config = VmConfig::for_testing();
    let outcome = publish_verified_modules(&view, sender, &modules, 0, &config).unwrap();
    let code = vec![1u8, 2, 3, 4, 5];
    let hash = *blake3::hash(&code).as_bytes();
    assert_eq!(outcome.contract_address, derive_contract_address(&sender, &hash));
    assert_eq!(outcome.vm_output.gas_used, 2_000 + 5);
    let changes = &outcome.vm_output.state_changes;
    assert_eq!(changes[0].key, b"code".to_vec());
    assert_eq!(changes[0].value, Some(code));
    assert_eq!(changes[1].value, Some(hash.to_vec()));
    assert_eq!(changes[2].value, Some(sender.0.to_vec()));
    assert_eq!(changes[3].value, Some(vec![2, 0, 0, 0]));
    let entries = outcome.vm_output.write_set.entries();
    assert_eq!(entries.len(), 4);
    for (entry, change) in entries.iter().zip(changes.iter()) {
        assert_eq!(entry.key, change.key);
    }
}

#[test]
fn publish_runs_out_of_gas_at_the_estimate() {
    let state = MemState::new();
    let view = NexusStateView::new(&state);
    let config = VmConfig::for_testing();
    let outcome = publish_verified_modules(&view, address(1), &[vec![9; 10]], 2_010, &config).unwrap();
    assert_eq!(outcome.vm_output.status, VmStatus::OutOfGas);
    assert_eq!(outcome.vm_output.gas_used, 2_010);
    assert!(outcome.vm_output.state_changes.is_empty());
}

#[test]
fn publish_over_existing_code_aborts_with_code_20() {
    let sender = address(0x11);
    let module = vec![7u8, 7, 7];
    let hash = *blake3::hash(&module).as_bytes();
    let target = derive_contract_address(&sender, &hash);
    let mut state = MemState::new();
    state.set(target, b"code", vec![1]);
    let view = NexusStateView::new(&state);
    let config = VmConfig::for_testing();
    let outcome = publish_verified_modules(&view, sender, &[module], 100_000, &config).unwrap();
    assert_eq!(
        outcome.vm_output.status,
        VmStatus::MoveAbort { location: "nexus::publish".to_string(), code: 20 }
    );
    assert_eq!(outcome.vm_output.gas_used, 2_000);
}

#[test]
fn session_commit_produces_write_set() {
    let state = MemState::new();
    let view = NexusStateView::new(&state);
    let schedule = GasSchedule::default();
    let mut session = ExecuteSession::new(SessionKind::Execute, address(0xAA), 100_000, schedule, &view);

    session.write_resource(address(0xBB), "counter::Counter", vec![42]).unwrap();
    let output = session.commit(VmStatus::Success);

    assert_eq!(output.status, VmStatus::Success);
    assert_eq!(output.write_set.len(), 1);
    assert_eq!(output.state_changes.len(), 1);
}

#[test]
fn read_only_session_refuses_writes() {
    let state = MemState::new();
    let view = NexusStateView::new(&state);
    let mut session =
        ExecuteSession::new(SessionKind::ReadOnly, address(0xAA), 100_000, GasSchedule::default(), &view);
    assert_eq!(session.write_resource(address(1), "t", vec![1]), Err(WriteError::ReadOnly));
    assert_eq!(session.gas_summary, MoveGasSummary::default());
}

#[test]
fn session_write_charges_storage_and_can_run_out() {
    let state = MemState::new();
    let view = NexusStateView::new(&state);
    let mut session =
        ExecuteSession::new(SessionKind::Execute, address(0xAA), 12, GasSchedule::default(), &view);
    session.write_resource(address(1), "t", vec![1, 2]).unwrap();
    assert_eq!(session.meter.consumed(), 10);
    assert_eq!(session.write_resource(address(1), "u", vec![1]), Err(WriteError::OutOfGas));
    assert_eq!(session.gas_summary.storage_fee, 15);
    assert_eq!(session.meter.consumed(), 10);
    assert_eq!(session.gas_summary.total(), 15);
}

#[test]
fn session_reads_its_own_writes() {
    let mut state = MemState::new();
    let key = resource_key("coin::Coin");
    state.set(address(3), &key, vec![5, 5]);
    let view = NexusStateView::new(&state);
    let mut session =
        ExecuteSession::new(SessionKind::Execute, address(3), 1_000, GasSchedule::default(), &view);
    assert_eq!(session.read_resource(&address(3), "coin::Coin").unwrap(), Some(vec![5, 5]));
    assert_eq!(session.gas_summary.io_gas, 2);
    session.write_resource(address(3), "coin::Coin", vec![9]).unwrap();
    assert_eq!(session.read_resource(&address(3), "coin::Coin").unwrap(), Some(vec![9]));
    let aborted = session.abort(VmStatus::OutOfGas);
    assert!(aborted.state_changes.is_empty());
    assert_eq!(aborted.gas_used, 2 + 5 + 1);
}

#[test]
fn resource_store_overlays_and_removes() {
    let mut state = MemState::new();
    state.set(address(1), &resource_key("a::A"), vec![1]);
    let view = NexusStateView::new(&state);
    let mut store = ResourceStore::new(&view);
    assert_eq!(store.get(&address(1), "a::A").unwrap(), Some(vec![1]));
    store.remove(address(1), "a::A");
    assert_eq!(store.get(&address(1), "a::A").unwrap(), None);
    store.set(address(2), "b::B", vec![2]);
    assert_eq!(store.get(&address(2), "b::B").unwrap(), Some(vec![2]));
    let (ws, changes) = store.into_changes();
    assert_eq!(ws.len(), 2);
    assert_eq!(changes.len(), 2);
    assert_eq!(changes[0].value, None);
    assert_eq!(resource_key("a::A"), b"resource::a::A".to_vec());
}

#[test]
fn simple_meter_refuses_past_limit() {
    let mut meter = SimpleGasMeter::new(10);
    meter.charge(7).unwrap();
    let err = meter.charge(4).unwrap_err();
    assert_eq!(err.needed, 4);
    assert_eq!(err.available, 3);
    assert_eq!(meter.consumed(), 7);
    assert_eq!(meter.remaining(), 3);
}

#[test]
fn planning_backend_answers_unsupported_with_capped_gas() {
    let state = MemState::new();
    let view = NexusStateView::new(&state);
    let vm = PlanningMoveVm;
    let call = FunctionCall {
        sender: address(1),
        contract: address(2),
        function: "m::f".into(),
        type_args: vec![],
        args: vec![],
        gas_limit: 5_000,
    };
    let out = vm.execute_function(&view, &call).unwrap();
    assert_eq!(out.status, VmStatus::Unsupported);
    assert_eq!(out.gas_used, 1_000);
    let script = ScriptExecution {
        sender: address(1),
        bytecode: vec![1],
        type_args: vec![],
        args: vec![],
        gas_limit: 300,
    };
    let out = vm.execute_script(&view, &script).unwrap();
    assert_eq!(out.gas_used, 300);
    assert!(RuntimeBootstrap::new(nexus_move::bytecode::BytecodePolicy::bootstrap()).supports_query_path);
}

#[test]
fn storage_keys_match_main_repo() {
    assert_eq!(&MODULE_CODE_KEY[..], EXPECTED_CODE_KEY);
    assert_eq!(&MODULE_CODE_HASH_KEY[..], EXPECTED_CODE_HASH_KEY);
}

#[test]
fn balance_key_is_balance() {
    assert_eq!(&BALANCE_KEY[..], EXPECTED_BALANCE_KEY);
}

#[test]
fn v1_rejects_empty_module_set() {
    let state = MemState::new();
    let view = NexusStateView::new(&state);
    let exec = MoveExecutor::new(VmConfig::for_testing());
    let request = ModulePublish {
        sender: address(0xAA),
        modules: Vec::new(),
        gas_limit: 10_000,
        upgrade_policy: None,
    };
    let err = exec.publish_modules(&view, &request).unwrap_err();
    assert!(matches!(err, VmError::Verification(ref v) if v.contains(&VerificationError::EmptyModuleSet)));
}

#[test]
fn structural_verifier_catches_duplicate_modules() {
    let state = MemState::new();
    let view = NexusStateView::new(&state);
    let exec = MoveExecutor::new(VmConfig::for_testing());
    let module = vec![0xa1, 0x1c, 0xeb, 0x0b, 0x01, 0x00, 0x00, 0x00];
    let request = ModulePublish {
        sender: address(0xAA),
        modules: vec![module.clone(), module],
        gas_limit: 10_000,
        upgrade_policy: None,
    };
    let err = exec.publish_modules(&view, &request).unwrap_err();
    assert!(matches!(err, VmError::Verification(_)));
}

#[test]
fn default_gas_schedule_has_nonzero_base_costs() {
    let schedule = GasSchedule::default();
    assert!(schedule.call_base > 0, "call base cost should be > 0");
    assert!(schedule.publish_per_byte > 0, "publish per-byte cost should be > 0");
    assert!(schedule.write_per_byte > 0, "write per-byte cost should be > 0");
}

#[test]
fn publish_precheck_reads_code_then_metadata() {
    let mut state = MemState::new();
    let sender = address(0xCD);
    let view = NexusStateView::new(&state);
    assert_eq!(publish_module_precheck(&view, &sender, &sender), Ok(None));
    assert!(publish_module_precheck(&view, &address(0xCE), &sender).is_err());
    state.set(sender, EXPECTED_CODE_KEY, vec![1]);
    state.set(sender, b"package_metadata", vec![7, 7]);
    let view = NexusStateView::new(&state);
    assert_eq!(publish_module_precheck(&view, &sender, &sender), Ok(Some(Some(vec![7, 7]))));
}

#[test]
fn resource_writes_keep_only_the_last_per_resource() {
    let state = MemState::new();
    let view = NexusStateView::new(&state);
    let mut store = ResourceStore::new(&view);
    store.set(address(2), "b::B", vec![1]);
    store.set(address(1), "a::A", vec![2]);
    store.set(address(2), "b::B", vec![3]);
    store.remove(address(1), "a::A");
    let (ws, changes) = store.into_changes();
    assert_eq!(ws.len(), 2);
    assert_eq!(changes[0].account, address(1));
    assert_eq!(changes[0].value, None);
    assert_eq!(changes[1].account, address(2));
    assert_eq!(changes[1].value, Some(vec![3]));
}

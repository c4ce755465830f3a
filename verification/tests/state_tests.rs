use std::collections::BTreeMap;

use nexus_move::state::{NexusStateView, StateReader, BALANCE_KEY};
use nexus_move::types::AccountAddress;
use nexus_move::vm_types::VmResult;

struct MemState {
    data: BTreeMap<(AccountAddress, Vec<u8>), Vec<u8>>,
}

impl MemState {
    fn new() -> Self {
        Self { data: BTreeMap::new() }
    }

    fn set(&mut self, account: AccountAddress, key: &[u8], value: Vec<u8>) {
        self.data.insert((account, key.to_vec()), value);
    }
}

impl StateReader for MemState {
    fn get(&self, account: &AccountAddress, key: &[u8]) -> VmResult<Option<Vec<u8>>> {
        Ok(self.data.get(&(*account, key.to_vec())).cloned())
    }
}

fn address(byte: u8) -> AccountAddress {
    AccountAddress([byte; 32])
}

#[test]
fn reads_balance_through_state_view() {
    let mut state = MemState::new();
    state.set(address(0xAA), &BALANCE_KEY, 42u64.to_le_bytes().to_vec());
    let view = NexusStateView::new(&state);

    assert_eq!(view.get_balance(&address(0xAA)).unwrap(), 42);
}

fn cafe_address() -> AccountAddress {
    let mut bytes = [0u8; 32];
    bytes[30] = 0xCA;
    bytes[31] = 0xFE;
    AccountAddress(bytes)
}

#[test]
fn state_view_get_module_by_name_falls_back_to_legacy() {
    let deployer = cafe_address();
    let mut state = MemState::new();
    let fake_module = vec![0xA1, 0x1C, 0xEB, 0x0B];
    state.data.insert((deployer, b"code".to_vec()), fake_module.clone());

    let view = NexusStateView::new(&state);
    let result = view.get_module_by_name(&deployer, "anything").unwrap();
    assert_eq!(result.unwrap(), fake_module, "should fall back to legacy 'code' key");
}

#[test]
fn state_view_get_module_by_name_prefers_per_module_key() {
    let deployer = cafe_address();
    let mut state = MemState::new();
    let counter_bytes = vec![0xA1, 0x1C, 0xEB, 0x0B, 7];
    state.data.insert((deployer, b"code::counter".to_vec()), counter_bytes.clone());
    state.data.insert((deployer, b"code".to_vec()), vec![1]);

    let view = NexusStateView::new(&state);
    let module_bytes = view.get_module_by_name(&deployer, "counter").unwrap();
    assert!(module_bytes.is_some(), "get_module_by_name should find 'counter'");
    assert_eq!(module_bytes.unwrap(), counter_bytes);
    assert!(view.has_module(&deployer).unwrap());
    assert_eq!(view.get_module(&deployer).unwrap(), Some(vec![1]));
}

#[test]
fn malformed_balance_reads_as_zero() {
    let mut state = MemState::new();
    state.set(address(1), &BALANCE_KEY, vec![1, 2, 3]);
    let view = NexusStateView::new(&state);
    assert_eq!(view.get_balance(&address(1)).unwrap(), 0);
    assert_eq!(view.get_balance(&address(2)).unwrap(), 0);
    assert_eq!(nexus_move::state::module_code_key("counter"), b"code::counter".to_vec());
}

use sha2::Digest;

use nexus_move::stdlib::{
    bootstrap_modules, framework_address_bytes, framework_module_count, framework_module_index,
    native_check_utf8, native_index_of, native_is_char_boundary, native_sha2_256, native_sha3_256,
    native_sub_string, ContractEvent, NexusEventStore, StdlibSnapshot,
};

#[test]
fn bootstrap_snapshot_exposes_all_modules() {
    let snapshot = StdlibSnapshot::bootstrap();
    assert_eq!(snapshot.modules.len(), 13);
    let names: Vec<&str> = snapshot.modules.iter().map(|m| m.name).collect();
    assert!(names.contains(&"signer"));
    assert!(names.contains(&"vector"));
    assert!(names.contains(&"option"));
    assert!(names.contains(&"error"));
}

#[test]
fn framework_module_count_matches() {
    assert_eq!(framework_module_count(), 13);
    assert_eq!(bootstrap_modules().len(), framework_module_count());
}

#[test]
fn nonexistent_module_returns_none() {
    assert!(framework_module_index("nonexistent").is_none());
}

#[test]
fn framework_address_is_0x1() {
    let addr = framework_address_bytes();
    assert_eq!(addr[31], 1);
    assert!(addr[..31].iter().all(|&b| b == 0));
}

#[test]
fn stdlib_framework_address_is_standard_0x1() {
    let addr = framework_address_bytes();
    let expected = {
        let mut a = [0u8; 32];
        a[31] = 1;
        a
    };
    assert_eq!(addr, expected);
}

#[test]
fn stdlib_has_13_framework_modules() {
    assert_eq!(framework_module_count(), 13);
}

#[test]
fn stdlib_includes_required_modules_for_counter_contract() {
    let required = ["signer", "vector", "option", "error", "string", "bcs"];
    for name in required {
        assert!(framework_module_index(name).is_some(), "missing required framework module: {name}");
    }
    assert_eq!(framework_module_index("signer"), Some(9));
}

#[test]
fn event_store_accumulates_events() {
    let mut store = NexusEventStore::new();
    assert!(store.is_empty());
    assert_eq!(store.len(), 0);

    store.push(ContractEvent {
        type_tag: "0xCAFE::counter::Increment".into(),
        guid: vec![1, 2, 3],
        sequence_number: 0,
        data: vec![42],
    });
    store.push(ContractEvent {
        type_tag: "0xCAFE::counter::Increment".into(),
        guid: vec![1, 2, 3],
        sequence_number: 1,
        data: vec![43],
    });

    assert_eq!(store.len(), 2);
    let events = store.drain();
    assert_eq!(events.len(), 2);
    assert_eq!(events[0].sequence_number, 0);
    assert_eq!(events[1].sequence_number, 1);
}

#[test]
fn string_natives_work_on_bytes() {
    assert!(native_check_utf8("héllo".as_bytes()));
    assert!(!native_check_utf8(&[0xff, 0xfe]));
    assert!(native_is_char_boundary("héllo".as_bytes(), 1));
    assert!(!native_is_char_boundary("héllo".as_bytes(), 2));
    assert!(!native_is_char_boundary(&[0xff], 0));
    assert_eq!(native_sub_string(b"hello", 1, 3), Ok(b"el".to_vec()));
    assert_eq!(native_sub_string(b"hello", 3, 1), Err(1));
    assert_eq!(native_sub_string(b"hello", 1, 9), Err(1));
    assert_eq!(native_index_of(b"hello", b"ll"), 2);
    assert_eq!(native_index_of(b"hello", b""), 0);
    assert_eq!(native_index_of(b"hello", b"xyz"), 5);
    assert_eq!(native_index_of(b"hi", b"hello"), 2);
}

#[test]
fn hash_natives_match_the_digests() {
    assert_eq!(native_sha2_256(b"abc"), sha2::Sha256::digest(b"abc").to_vec());
    assert_eq!(native_sha3_256(b"abc"), sha3::Sha3_256::digest(b"abc").to_vec());
    assert_ne!(native_sha2_256(b"abc"), b"abc".to_vec());
}

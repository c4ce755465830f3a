use nexus_move::abi::{
    abi_is_compatible, compute_module_abi_hash, compute_package_abi_hash, encode_token,
    module_abi_preimage, FieldAbi, FunctionAbi, ModuleAbi, SignatureToken, StructAbi,
    StructFieldsAbi,
};

fn function(name: &str, visibility: u8, params: Vec<SignatureToken>) -> FunctionAbi {
    FunctionAbi {
        name: name.to_string(),
        visibility,
        is_entry: true,
        type_parameters: vec![],
        parameters: params,
        returns: vec![SignatureToken::U64],
    }
}

fn counter_abi(extra_private: bool) -> ModuleAbi {
    let mut functions = vec![
        function("increment", 1, vec![SignatureToken::Reference(Box::new(SignatureToken::Signer))]),
        function("get_count", 1, vec![SignatureToken::Address]),
    ];
    if extra_private {
        functions.insert(1, function("helper", 0, vec![]));
    }
    ModuleAbi {
        name: "counter".to_string(),
        functions,
        structs: vec![StructAbi {
            name: "Counter".to_string(),
            abilities: 0x08,
            fields: StructFieldsAbi::Declared(vec![FieldAbi {
                name: "value".to_string(),
                signature: SignatureToken::U64,
            }]),
        }],
    }
}

#[test]
fn abi_compatible_same_hash() {
    let hash = [0xAA; 32];
    assert!(abi_is_compatible(&hash, &hash));
}

#[test]
fn abi_incompatible_different_hash() {
    let old = [0xAA; 32];
    let new = [0xBB; 32];
    assert!(!abi_is_compatible(&old, &new));
}

#[test]
fn package_abi_hash_empty_is_zero() {
    let hash = compute_package_abi_hash(&[]);
    assert_eq!(hash, [0u8; 32]);
}

#[test]
fn token_encoding_is_tagged_and_little_endian() {
    let mut out = Vec::new();
    encode_token(
        &SignatureToken::StructInstantiation(
            0x0102,
            vec![SignatureToken::Vector(Box::new(SignatureToken::U8)), SignatureToken::TypeParameter(3)],
        ),
        &mut out,
    );
    assert_eq!(out, vec![0x0C, 0x02, 0x01, 2, 0x0A, 0x02, 0x0F, 3, 0]);
    let mut f = Vec::new();
    encode_token(
        &SignatureToken::Function(vec![SignatureToken::Bool], vec![], 0x03),
        &mut f,
    );
    assert_eq!(f, vec![0x10, 1, 0x01, 0, 0x03]);
}

#[test]
fn preimage_orders_functions_by_name_and_skips_private() {
    let pre = module_abi_preimage(&counter_abi(true));
    let mut expected: Vec<u8> = b"functions:".to_vec();
    expected.extend_from_slice(&2u32.to_le_bytes());
    // get_count sorts before increment
    expected.extend_from_slice(b"get_count");
    expected.extend_from_slice(&[1, 1]);
    expected.extend_from_slice(&0u32.to_le_bytes());
    expected.extend_from_slice(&1u32.to_le_bytes());
    expected.push(0x08);
    expected.extend_from_slice(&1u32.to_le_bytes());
    expected.push(0x05);
    expected.extend_from_slice(b"increment");
    expected.extend_from_slice(&[1, 1]);
    expected.extend_from_slice(&0u32.to_le_bytes());
    expected.extend_from_slice(&2u32.to_le_bytes());
    expected.extend_from_slice(&[0x0D, 0x09]);
    expected.extend_from_slice(&1u32.to_le_bytes());
    expected.push(0x05);
    expected.extend_from_slice(b"structs:");
    expected.extend_from_slice(&1u32.to_le_bytes());
    expected.extend_from_slice(b"Counter");
    expected.push(0x08);
    let mut fields = Vec::new();
    fields.extend_from_slice(&5u32.to_le_bytes());
    fields.extend_from_slice(b"value");
    fields.extend_from_slice(&1u32.to_le_bytes());
    fields.push(0x05);
    expected.extend_from_slice(&(fields.len() as u32).to_le_bytes());
    expected.extend_from_slice(&fields);
    assert_eq!(pre, expected);
}

#[test]
fn private_functions_do_not_change_the_abi_hash() {
    let a = compute_module_abi_hash(&counter_abi(false));
    let b = compute_module_abi_hash(&counter_abi(true));
    assert_eq!(a, b);
    assert_eq!(a, *blake3::hash(&module_abi_preimage(&counter_abi(false))).as_bytes());
    assert_ne!(a, [0u8; 32]);
}

#[test]
fn package_hash_combines_module_hashes_by_name() {
    let m = counter_abi(false);
    let hash = compute_package_abi_hash(&[counter_abi(false)]);
    let mut pre = b"package_abi:".to_vec();
    pre.extend_from_slice(&1u32.to_le_bytes());
    pre.extend_from_slice(b"counter");
    pre.extend_from_slice(&compute_module_abi_hash(&m));
    assert_eq!(hash, *blake3::hash(&pre).as_bytes());
}

#[test]
fn abi_hash_ignores_definition_order() {
    let a = counter_abi(false);
    let mut b = counter_abi(false);
    b.functions.reverse();
    b.structs.push(StructAbi { name: "Aardvark".to_string(), abilities: 0, fields: StructFieldsAbi::Native });
    let mut c = counter_abi(false);
    c.structs.insert(0, StructAbi { name: "Aardvark".to_string(), abilities: 0, fields: StructFieldsAbi::Native });
    assert_eq!(compute_module_abi_hash(&a), compute_module_abi_hash(&{
        let mut r = counter_abi(false);
        r.functions.reverse();
        r
    }));
    assert_eq!(compute_module_abi_hash(&b), compute_module_abi_hash(&c));
    assert_ne!(compute_module_abi_hash(&a), compute_module_abi_hash(&b));
}

#[test]
fn abi_hash_covers_type_parameters() {
    let plain = counter_abi(false);
    let mut generic = counter_abi(false);
    generic.functions[1].type_parameters = vec![0x02];
    let mut stronger = counter_abi(false);
    stronger.functions[1].type_parameters = vec![0x03];
    assert_ne!(compute_module_abi_hash(&plain), compute_module_abi_hash(&generic));
    assert_ne!(compute_module_abi_hash(&generic), compute_module_abi_hash(&stronger));
    let pre = module_abi_preimage(&generic);
    let mut record: Vec<u8> = b"get_count".to_vec();
    record.extend_from_slice(&[1, 1]);
    record.extend_from_slice(&1u32.to_le_bytes());
    record.push(0x02);
    assert!(pre.windows(record.len()).any(|w| w == record.as_slice()));
}

//! Publishing a verified bundle: the contract address, the gas decision and the writes.
use vstd::prelude::*;

use crate::bytecode::{bootstrap_policy, spec_verify_bundle, total_len, verify_publish_bundle, BytecodePolicy};
use crate::config::VmConfig;
use crate::gas::{sat_add, sat_mul};
use crate::state::{
    code_hash_key, code_hash_key_bytes, code_key, code_key_bytes, deployer_key,
    deployer_key_bytes, module_count_key, module_count_key_bytes, NexusStateView,
};
use crate::text::{bytes_to_vec, extend_bytes};
use crate::types::AccountAddress;
use crate::vm_types::{changes_model, PublishOutcome, StateChange, VmError, VmOutput, VmResult, VmStatus};
use crate::write_set::{
    bytes_lt, lemma_bytes_lt_irreflexive, model_insert, EntryModel, WriteSet,
};

verus! {

/// The BLAKE3 hash of a byte string, as the `blake3` crate computes it.
pub uninterp spec fn blake3_digest(data: Seq<u8>) -> Seq<u8>;

/// `blake3::hash`: the 32-byte BLAKE3 hash of `data`. Claimed: the result is `blake3_digest`
/// of the input bytes, so equal inputs hash equally. (An incremental `blake3::Hasher` fed the
/// same bytes in pieces gives the same hash, as the crate documents.)
#[verifier::external_body]
pub(crate) fn blake3_hash(data: &[u8]) -> (r: [u8; 32])
    ensures
        r@ == blake3_digest(data@),
{
    *blake3::hash(data).as_bytes()
}

/// The address of a contract: the hash of the deployer's address followed by the code hash.
pub open spec fn spec_contract_address(deployer: AccountAddress, code_hash: Seq<u8>) -> Seq<u8> {
    blake3_digest(deployer@ + code_hash)
}

/// The address a deployer's code of the given hash is published at.
pub fn derive_contract_address(deployer: &AccountAddress, bytecode_hash: &[u8; 32]) -> (r:
    AccountAddress)
    ensures
        r@ == spec_contract_address(*deployer, bytecode_hash@),
{
    let mut preimage: Vec<u8> = Vec::new();
    extend_bytes(&mut preimage, deployer.0.as_slice());
    extend_bytes(&mut preimage, bytecode_hash.as_slice());
    assert(preimage@ =~= deployer@ + bytecode_hash@);
    AccountAddress(blake3_hash(preimage.as_slice()))
}

/// The modules' bytes, one after the other.
pub open spec fn concat_modules(ms: Seq<Vec<u8>>) -> Seq<u8>
    decreases ms.len(),
{
    if ms.len() == 0 {
        Seq::empty()
    } else {
        concat_modules(ms.drop_last()) + ms.last()@
    }
}

proof fn lemma_concat_len(ms: Seq<Vec<u8>>)
    ensures
        concat_modules(ms).len() == total_len(ms),
    decreases ms.len(),
{
    if ms.len() > 0 {
        lemma_concat_len(ms.drop_last());
    }
}

/// Concatenates the modules.
fn concat_bytes(modules: &[Vec<u8>]) -> (r: Vec<u8>)
    ensures
        r@ == concat_modules(modules@),
{
    let mut out: Vec<u8> = Vec::new();
    let mut i: usize = 0;
    while i < modules.len()
        invariant
            i <= modules@.len(),
            out@ == concat_modules(modules@.take(i as int)),
        decreases modules@.len() - i,
    {
        extend_bytes(&mut out, modules[i].as_slice());
        assert(modules@.take(i as int + 1).drop_last() =~= modules@.take(i as int));
        i += 1;
    }
    assert(modules@.take(modules@.len() as int) =~= modules@);
    out
}

/// A `u32` as four little-endian bytes.
pub open spec fn u32_le(n: u32) -> Seq<u8> {
    seq![(n % 256) as u8, ((n / 256) % 256) as u8, ((n / 65536) % 256) as u8, (n / 16777216) as u8]
}

pub(crate) fn u32_le_bytes(n: u32) -> (r: Vec<u8>)
    ensures
        r@ == u32_le(n),
{
    let r = vec![(n % 256) as u8, ((n / 256) % 256) as u8, ((n / 65536) % 256) as u8, (n
        / 16777216) as u8];
    assert(r@ =~= u32_le(n));
    r
}

/// Where a publish that finds code already at the address aborts.
pub open spec fn publish_abort_location() -> Seq<char> {
    "nexus::publish"@
}

/// The publish price of `size` bytes of code.
pub open spec fn publish_estimate(config: VmConfig, size: nat) -> u64 {
    sat_add(config.publish_base_gas, sat_mul(size as u64, config.publish_per_byte_gas))
}

/// The four writes of a publish, in the order they are made (which is also key order):
/// the code, its hash, the deployer and the module count.
pub open spec fn publish_writes(
    address: AccountAddress,
    sender: AccountAddress,
    code: Seq<u8>,
    code_hash: Seq<u8>,
    module_count: u32,
) -> Seq<EntryModel> {
    seq![
        (address, code_key(), Some(code)),
        (address, code_hash_key(), Some(code_hash)),
        (address, deployer_key(), Some(sender@)),
        (address, module_count_key(), Some(u32_le(module_count))),
    ]
}

/// What a publish at a known address answers, given whether code is already stored there.
pub open spec fn publish_answer(
    out: VmOutput,
    occupied: bool,
    address: AccountAddress,
    sender: AccountAddress,
    code: Seq<u8>,
    code_hash: Seq<u8>,
    module_count: u32,
    gas_limit: u64,
    config: VmConfig,
) -> bool {
    let estimated = publish_estimate(config, code.len());
    if occupied {
        &&& out.status matches VmStatus::MoveAbort { location, code } && location@
            == publish_abort_location() && code == 20
        &&& out.gas_used == config.publish_base_gas
        &&& out.is_empty_effect()
    } else if gas_limit != 0 && estimated >= gas_limit {
        &&& out.status == VmStatus::OutOfGas
        &&& out.gas_used == gas_limit
        &&& out.is_empty_effect()
    } else {
        &&& out.status == VmStatus::Success
        &&& out.gas_used == estimated
        &&& changes_model(out.state_changes@) == publish_writes(
            address,
            sender,
            code,
            code_hash,
            module_count,
        )
        &&& out.write_set.model() == publish_writes(address, sender, code, code_hash, module_count)
        &&& out.events@.len() == 0
        &&& out.return_values@.len() == 0
    }
}

/// A proper prefix comes before the longer string, never after it.
proof fn lemma_prefix_lt(a: Seq<u8>, rest: Seq<u8>)
    requires
        rest.len() > 0,
    ensures
        bytes_lt(a, a + rest),
        !bytes_lt(a + rest, a),
    decreases a.len(),
{
    if a.len() > 0 {
        assert((a + rest).drop_first() =~= a.drop_first() + rest);
        lemma_prefix_lt(a.drop_first(), rest);
    }
}

proof fn lemma_publish_keys_ordered()
    ensures
        bytes_lt(code_key(), code_hash_key()),
        bytes_lt(code_hash_key(), deployer_key()),
        bytes_lt(code_key(), deployer_key()),
        bytes_lt(deployer_key(), module_count_key()),
        bytes_lt(code_key(), module_count_key()),
        bytes_lt(code_hash_key(), module_count_key()),
        !bytes_lt(code_hash_key(), code_key()),
        !bytes_lt(deployer_key(), code_hash_key()),
        !bytes_lt(deployer_key(), code_key()),
        !bytes_lt(module_count_key(), deployer_key()),
        !bytes_lt(module_count_key(), code_key()),
        !bytes_lt(module_count_key(), code_hash_key()),
{
    let suffix = code_hash_key().skip(4);
    assert(code_hash_key() =~= code_key() + suffix);
    lemma_prefix_lt(code_key(), suffix);
    assert(code_key()[0] < deployer_key()[0]);
    assert(code_hash_key()[0] < deployer_key()[0]);
    assert(code_key()[0] < module_count_key()[0]);
    assert(code_hash_key()[0] < module_count_key()[0]);
    assert(deployer_key()[0] < module_count_key()[0]);
}

/// Inserting the four publish writes one by one into an empty write set leaves them in the
/// order they were made.
proof fn lemma_publish_write_set(
    address: AccountAddress,
    sender: AccountAddress,
    code: Seq<u8>,
    code_hash: Seq<u8>,
    module_count: u32,
)
    ensures
        model_insert(
            model_insert(
                model_insert(
                    model_insert(Seq::<EntryModel>::empty(), address, code_key(), Some(code)),
                    address,
                    code_hash_key(),
                    Some(code_hash),
                ),
                address,
                deployer_key(),
                Some(sender@),
            ),
            address,
            module_count_key(),
            Some(u32_le(module_count)),
        ) == publish_writes(address, sender, code, code_hash, module_count),
{
    lemma_publish_keys_ordered();
    lemma_bytes_lt_irreflexive(address@);
    reveal_with_fuel(model_insert, 3);
    let e0 = (address, code_key(), Some(code));
    let e1 = (address, code_hash_key(), Some(code_hash));
    let e2 = (address, deployer_key(), Some(sender@));
    let e3 = (address, module_count_key(), Some(u32_le(module_count)));
    let m0 = model_insert(Seq::<EntryModel>::empty(), address, code_key(), Some(code));
    assert(m0 == seq![e0]);
    assert(code_hash_key() != code_key());
    let m1 = model_insert(m0, address, code_hash_key(), Some(code_hash));
    assert(m0.drop_first() =~= Seq::<EntryModel>::empty());
    assert(m1 =~= seq![e0, e1]);
    assert(deployer_key() != code_key());
    assert(deployer_key() != code_hash_key());
    let m2 = model_insert(m1, address, deployer_key(), Some(sender@));
    assert(m1.drop_first() =~= seq![e1]);
    assert(seq![e1].drop_first() =~= Seq::<EntryModel>::empty());
    assert(model_insert(seq![e1], address, deployer_key(), Some(sender@)) =~= seq![e1, e2]);
    assert(m2 =~= seq![e0, e1, e2]);
    assert(module_count_key() != code_key());
    assert(module_count_key() != code_hash_key());
    assert(module_count_key() != deployer_key());
    let m3 = model_insert(m2, address, module_count_key(), Some(u32_le(module_count)));
    assert(seq![e2].drop_first() =~= Seq::<EntryModel>::empty());
    assert(model_insert(seq![e2], address, module_count_key(), Some(u32_le(module_count)))
        =~= seq![e2, e3]);
    assert(seq![e1, e2].drop_first() =~= seq![e2]);
    assert(model_insert(seq![e1, e2], address, module_count_key(), Some(u32_le(module_count)))
        =~= seq![e1, e2, e3]);
    assert(m2.drop_first() =~= seq![e1, e2]);
    assert(m3 =~= seq![e0, e1, e2, e3]);
}

/// Records one write in both the write set and the list of state changes.
fn push_write(
    write_set: &mut WriteSet,
    state_changes: &mut Vec<StateChange>,
    account: AccountAddress,
    key: Vec<u8>,
    value: Vec<u8>,
)
    ensures
        final(write_set).model() == model_insert(old(write_set).model(), account, key@, Some(value@)),
        changes_model(final(state_changes)@) == changes_model(old(state_changes)@).push(
            (account, key@, Some(value@)),
        ),
{
    write_set.insert(account, bytes_to_vec(key.as_slice()), Some(bytes_to_vec(value.as_slice())));
    let ghost before = state_changes@;
    let change = StateChange { account, key, value: Some(value) };
    state_changes.push(change);
    assert(changes_model(state_changes@) =~= changes_model(before).push(change.model()));
}

/// The answer of a publish once the code, its hash and the contract address are known,
/// and whether code is already stored there: refuse when it is (abort code 20, charging
/// the base price), run out of gas when the estimate reaches a non-zero limit, and
/// otherwise write the code, its hash, the deployer and the module count.
pub fn publish_decision(
    occupied: bool,
    sender: AccountAddress,
    module_count: usize,
    bytecode: Vec<u8>,
    code_hash: [u8; 32],
    contract_address: AccountAddress,
    gas_limit: u64,
    config: &VmConfig,
) -> (r: PublishOutcome)
    ensures
        r.contract_address == contract_address,
        publish_answer(
            r.vm_output,
            occupied,
            contract_address,
            sender,
            bytecode@,
            code_hash@,
            module_count as u32,
            gas_limit,
            *config,
        ),
{
    if occupied {
        let location = "nexus::publish".to_owned();
        return PublishOutcome {
            vm_output: VmOutput::without_effects(
                VmStatus::MoveAbort { location, code: 20 },
                config.publish_base_gas,
            ),
            contract_address,
        };
    }
    let size = bytecode.len() as u64;
    let estimated = config.publish_base_gas.saturating_add(
        crate::gas::saturating_mul(size, config.publish_per_byte_gas),
    );
    if gas_limit != 0 && estimated >= gas_limit {
        return PublishOutcome {
            vm_output: VmOutput::without_effects(VmStatus::OutOfGas, gas_limit),
            contract_address,
        };
    }
    let ghost code = bytecode@;
    let mut write_set = WriteSet::new();
    let mut state_changes: Vec<StateChange> = Vec::new();
    assert(changes_model(state_changes@) =~= Seq::<EntryModel>::empty());
    push_write(&mut write_set, &mut state_changes, contract_address, code_key_bytes(), bytecode);
    push_write(
        &mut write_set,
        &mut state_changes,
        contract_address,
        code_hash_key_bytes(),
        bytes_to_vec(code_hash.as_slice()),
    );
    push_write(
        &mut write_set,
        &mut state_changes,
        contract_address,
        deployer_key_bytes(),
        bytes_to_vec(sender.0.as_slice()),
    );
    push_write(
        &mut write_set,
        &mut state_changes,
        contract_address,
        module_count_key_bytes(),
        u32_le_bytes(module_count as u32),
    );
    proof {
        lemma_publish_write_set(contract_address, sender, code, code_hash@, module_count as u32);
        assert(changes_model(state_changes@) =~= publish_writes(
            contract_address,
            sender,
            code,
            code_hash@,
            module_count as u32,
        ));
    }
    PublishOutcome {
        vm_output: VmOutput {
            status: VmStatus::Success,
            gas_used: estimated,
            state_changes,
            write_set,
            events: Vec::new(),
            return_values: Vec::new(),
        },
        contract_address,
    }
}

/// The answer of a publish at a known address, for one of the two possible states of the
/// address.
pub open spec fn publish_answered(
    out: PublishOutcome,
    address: AccountAddress,
    sender: AccountAddress,
    code: Seq<u8>,
    code_hash: Seq<u8>,
    module_count: u32,
    gas_limit: u64,
    config: VmConfig,
) -> bool {
    &&& out.contract_address == address
    &&& (publish_answer(out.vm_output, true, address, sender, code, code_hash, module_count, gas_limit, config)
        || publish_answer(out.vm_output, false, address, sender, code, code_hash, module_count, gas_limit, config))
}

/// Asks the state view whether code is stored at the address (a failed read is the error),
/// then decides with `publish_decision`.
pub fn publish_prepared(
    state: &NexusStateView<'_>,
    sender: AccountAddress,
    module_count: usize,
    bytecode: Vec<u8>,
    code_hash: [u8; 32],
    contract_address: AccountAddress,
    gas_limit: u64,
    config: &VmConfig,
) -> (r: VmResult<PublishOutcome>)
    ensures
        r matches Ok(out) ==> publish_answered(
            out,
            contract_address,
            sender,
            bytecode@,
            code_hash@,
            module_count as u32,
            gas_limit,
            *config,
        ),
        r matches Ok(out) ==> exists|stored: Option<Seq<u8>>|
            #[trigger] state.admits(contract_address, code_key(), Ok(stored)) && publish_answer(
                out.vm_output,
                stored is Some,
                contract_address,
                sender,
                bytecode@,
                code_hash@,
                module_count as u32,
                gas_limit,
                *config,
            ),
        r matches Err(e) ==> state.admits(contract_address, code_key(), Err(e)),
{
    let occupied = state.has_module(&contract_address)?;
    Ok(
        publish_decision(
            occupied,
            sender,
            module_count,
            bytecode,
            code_hash,
            contract_address,
            gas_limit,
            config,
        ),
    )
}

/// The hash of the concatenated modules.
pub open spec fn spec_code_hash(modules: Seq<Vec<u8>>) -> Seq<u8> {
    blake3_digest(concat_modules(modules))
}

/// Publishes a bundle: it must pass the bootstrap structural checks (else the findings are
/// the error); the code is the modules concatenated, the contract address is derived from
/// the sender and the code's hash, and `publish_prepared` decides the rest.
pub fn publish_verified_modules(
    state: &NexusStateView<'_>,
    sender: AccountAddress,
    modules: &[Vec<u8>],
    gas_limit: u64,
    config: &VmConfig,
) -> (r: VmResult<PublishOutcome>)
    requires
        total_len(modules@) <= usize::MAX,
    ensures
        spec_verify_bundle(modules@, bootstrap_policy()) matches Err(errors) ==> r matches Err(
            VmError::Verification(found),
        ) && found@ == errors,
        spec_verify_bundle(modules@, bootstrap_policy()) is Ok ==> (r matches Ok(out) ==> {
            &&& out.contract_address@ == spec_contract_address(sender, spec_code_hash(modules@))
            &&& publish_answered(
                out,
                out.contract_address,
                sender,
                concat_modules(modules@),
                spec_code_hash(modules@),
                modules@.len() as u32,
                gas_limit,
                *config,
            )
        }),
        spec_verify_bundle(modules@, bootstrap_policy()) is Ok ==> (r matches Ok(out) ==> exists|
            stored: Option<Seq<u8>>,
        |
            #[trigger] state.admits(out.contract_address, code_key(), Ok(stored)) && publish_answer(
                out.vm_output,
                stored is Some,
                out.contract_address,
                sender,
                concat_modules(modules@),
                spec_code_hash(modules@),
                modules@.len() as u32,
                gas_limit,
                *config,
            )),
        spec_verify_bundle(modules@, bootstrap_policy()) is Ok ==> (r matches Err(e) ==> exists|
            address: AccountAddress,
        |
            address@ == spec_contract_address(sender, spec_code_hash(modules@))
                && #[trigger] state.admits(address, code_key(), Err(e))),
{
    let policy = BytecodePolicy::bootstrap();
    match verify_publish_bundle(modules, &policy) {
        Ok(()) => {},
        Err(errors) => {
            return Err(VmError::Verification(errors));
        },
    }
    let bytecode = concat_bytes(modules);
    proof {
        lemma_concat_len(modules@);
    }
    let code_hash = blake3_hash(bytecode.as_slice());
    let contract_address = derive_contract_address(&sender, &code_hash);
    publish_prepared(
        state,
        sender,
        modules.len(),
        bytecode,
        code_hash,
        contract_address,
        gas_limit,
        config,
    )
}

} // verus!

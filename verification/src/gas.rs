//! Gas metering and the I/O-based gas estimates.
use vstd::prelude::*;

use crate::config::VmConfig;
use crate::vm_types::StateChange;
use crate::write_set::opt_bytes;

verus! {

/// `a + b`, capped at `u64::MAX`.
pub open spec fn sat_add(a: u64, b: u64) -> u64 {
    if a + b > u64::MAX {
        u64::MAX
    } else {
        (a + b) as u64
    }
}

/// `a * b`, capped at `u64::MAX`.
pub open spec fn sat_mul(a: u64, b: u64) -> u64 {
    if a * b > u64::MAX {
        u64::MAX
    } else {
        (a * b) as u64
    }
}

/// `a - b`, floored at zero.
pub open spec fn sat_sub(a: u64, b: u64) -> u64 {
    if a < b {
        0
    } else {
        (a - b) as u64
    }
}

pub open spec fn min_u64(a: u64, b: u64) -> u64 {
    if a <= b {
        a
    } else {
        b
    }
}

pub open spec fn max_u64(a: u64, b: u64) -> u64 {
    if a >= b {
        a
    } else {
        b
    }
}

/// Multiplication that stops at `u64::MAX` instead of overflowing.
pub fn saturating_mul(a: u64, b: u64) -> (r: u64)
    ensures
        r == sat_mul(a, b),
{
    match a.checked_mul(b) {
        Some(v) => v,
        None => u64::MAX,
    }
}

/// Addition that stops at `u64::MAX` instead of overflowing.
pub fn saturating_add(a: u64, b: u64) -> (r: u64)
    ensures
        r == sat_add(a, b),
{
    a.saturating_add(b)
}

/// Not enough gas left for a charge.
#[derive(Debug, Clone, PartialEq, Eq)]
pub struct GasExhausted {
    pub needed: u64,
    pub available: u64,
}

/// A meter that is charged as work is done.
pub trait GasMeter: Send + Sync {
    fn charge(&mut self, amount: u64) -> Result<(), GasExhausted>;

    fn remaining(&self) -> u64;

    fn consumed(&self) -> u64;

    fn limit(&self) -> u64;
}

/// A gas meter that counts up to a fixed limit.
pub struct SimpleGasMeter {
    limit: u64,
    consumed: u64,
}

impl SimpleGasMeter {
    pub closed spec fn spec_limit(&self) -> u64 {
        self.limit
    }

    pub closed spec fn spec_consumed(&self) -> u64 {
        self.consumed
    }

    #[verifier::type_invariant]
    closed spec fn within_limit(&self) -> bool {
        self.consumed <= self.limit
    }

    pub fn new(limit: u64) -> (r: Self)
        ensures
            r.spec_limit() == limit,
            r.spec_consumed() == 0,
    {
        SimpleGasMeter { limit, consumed: 0 }
    }
}

impl GasMeter for SimpleGasMeter {
    /// Charges `amount`; fails, leaving the meter as it was, when the total would pass the limit.
    fn charge(&mut self, amount: u64) -> (r: Result<(), GasExhausted>)
        ensures
            final(self).spec_limit() == old(self).spec_limit(),
            final(self).spec_consumed() <= final(self).spec_limit(),
            sat_add(old(self).spec_consumed(), amount) <= old(self).spec_limit() ==> {
                &&& r is Ok
                &&& final(self).spec_consumed() == sat_add(old(self).spec_consumed(), amount)
            },
            sat_add(old(self).spec_consumed(), amount) > old(self).spec_limit() ==> {
                &&& r == Err::<(), GasExhausted>(
                    GasExhausted {
                        needed: amount,
                        available: sat_sub(old(self).spec_limit(), old(self).spec_consumed()),
                    },
                )
                &&& final(self).spec_consumed() == old(self).spec_consumed()
            },
    {
        proof {
            use_type_invariant(&*self);
        }
        let next = self.consumed.saturating_add(amount);
        if next > self.limit {
            Err(GasExhausted { needed: amount, available: self.remaining() })
        } else {
            self.consumed = next;
            Ok(())
        }
    }

    fn remaining(&self) -> (r: u64)
        ensures
            r == sat_sub(self.spec_limit(), self.spec_consumed()),
    {
        self.limit.saturating_sub(self.consumed)
    }

    fn consumed(&self) -> (r: u64)
        ensures
            r == self.spec_consumed(),
            r <= self.spec_limit(),
    {
        proof {
            use_type_invariant(self);
        }
        self.consumed
    }

    fn limit(&self) -> (r: u64)
        ensures
            r == self.spec_limit(),
    {
        self.limit
    }
}

/// Gas prices for the I/O-based estimates.
#[derive(Debug, Clone, Eq, PartialEq)]
pub struct GasSchedule {
    pub transfer_base: u64,
    pub call_base: u64,
    pub publish_base: u64,
    pub publish_per_byte: u64,
    pub read_per_byte: u64,
    pub write_per_byte: u64,
}

pub const DEFAULT_TRANSFER_BASE: u64 = 1_000;

impl GasSchedule {
    /// Prices taken from a VM configuration, with the default transfer base.
    pub fn from_config(config: &VmConfig) -> (r: Self)
        ensures
            r.transfer_base == DEFAULT_TRANSFER_BASE,
            r.call_base == config.call_base_gas,
            r.publish_base == config.publish_base_gas,
            r.publish_per_byte == config.publish_per_byte_gas,
            r.read_per_byte == config.read_per_byte_gas,
            r.write_per_byte == config.write_per_byte_gas,
    {
        GasSchedule {
            transfer_base: DEFAULT_TRANSFER_BASE,
            call_base: config.call_base_gas,
            publish_base: config.publish_base_gas,
            publish_per_byte: config.publish_per_byte_gas,
            read_per_byte: config.read_per_byte_gas,
            write_per_byte: config.write_per_byte_gas,
        }
    }
}

impl Default for GasSchedule {
    fn default() -> (r: Self)
        ensures
            r.transfer_base == 1_000,
            r.call_base == 5_000,
            r.publish_base == 10_000,
            r.publish_per_byte == 1,
            r.read_per_byte == 1,
            r.write_per_byte == 5,
    {
        GasSchedule::from_config(&VmConfig::default())
    }
}

pub open spec fn spec_publish_gas_cost(schedule: GasSchedule, total_bytes: u64) -> u64 {
    sat_add(schedule.publish_base, sat_mul(total_bytes, schedule.publish_per_byte))
}

/// Base publish price plus the per-byte price.
pub fn publish_gas_cost(schedule: &GasSchedule, total_bytes: u64) -> (r: u64)
    ensures
        r == spec_publish_gas_cost(*schedule, total_bytes),
{
    schedule.publish_base.saturating_add(saturating_mul(total_bytes, schedule.publish_per_byte))
}

/// Price of writing `size` bytes.
pub fn write_gas_cost(schedule: &GasSchedule, size: u64) -> (r: u64)
    ensures
        r == sat_mul(size, schedule.write_per_byte),
{
    saturating_mul(size, schedule.write_per_byte)
}

/// Price of reading `size` bytes.
pub fn read_gas_cost(schedule: &GasSchedule, size: u64) -> (r: u64)
    ensures
        r == sat_mul(size, schedule.read_per_byte),
{
    saturating_mul(size, schedule.read_per_byte)
}

/// Total length of byte chunks, summed with saturation from the front.
pub open spec fn chunks_len(chunks: Seq<Vec<u8>>) -> u64
    decreases chunks.len(),
{
    if chunks.len() == 0 {
        0
    } else {
        sat_add(chunks_len(chunks.drop_last()), chunks.last()@.len() as u64)
    }
}

/// Bytes written by a state change: key plus value.
pub open spec fn change_bytes(total: u64, c: StateChange) -> u64 {
    sat_add(
        sat_add(total, c.key@.len() as u64),
        match opt_bytes(c.value) {
            Some(v) => v.len() as u64,
            None => 0,
        },
    )
}

/// Bytes written by a sequence of state changes, summed with saturation from the front.
pub open spec fn changes_bytes(cs: Seq<StateChange>) -> u64
    decreases cs.len(),
{
    if cs.len() == 0 {
        0
    } else {
        change_bytes(changes_bytes(cs.drop_last()), cs.last())
    }
}

fn encoded_chunks_len(chunks: &[Vec<u8>]) -> (r: u64)
    ensures
        r == chunks_len(chunks@),
{
    let mut total: u64 = 0;
    let mut i: usize = 0;
    while i < chunks.len()
        invariant
            i <= chunks@.len(),
            total == chunks_len(chunks@.take(i as int)),
        decreases chunks@.len() - i,
    {
        assert(chunks@.take(i as int + 1).drop_last() =~= chunks@.take(i as int));
        total = total.saturating_add(chunks[i].len() as u64);
        i += 1;
    }
    assert(chunks@.take(chunks@.len() as int) =~= chunks@);
    total
}

fn state_change_bytes(state_changes: &[StateChange]) -> (r: u64)
    ensures
        r == changes_bytes(state_changes@),
{
    let mut total: u64 = 0;
    let mut i: usize = 0;
    while i < state_changes.len()
        invariant
            i <= state_changes@.len(),
            total == changes_bytes(state_changes@.take(i as int)),
        decreases state_changes@.len() - i,
    {
        assert(state_changes@.take(i as int + 1).drop_last() =~= state_changes@.take(i as int));
        let change = &state_changes[i];
        let key_len = change.key.len() as u64;
        let value_len: u64 = match &change.value {
            Some(value) => value.len() as u64,
            None => 0,
        };
        total = total.saturating_add(key_len).saturating_add(value_len);
        i += 1;
    }
    assert(state_changes@.take(state_changes@.len() as int) =~= state_changes@);
    total
}

/// The estimate, capped at the limit.
pub fn clamp_gas_to_limit(estimated: u64, gas_limit: u64) -> (r: u64)
    ensures
        r == min_u64(estimated, gas_limit),
{
    if estimated <= gas_limit {
        estimated
    } else {
        gas_limit
    }
}

pub open spec fn spec_estimate_call_gas(
    schedule: GasSchedule,
    type_args: Seq<Vec<u8>>,
    args: Seq<Vec<u8>>,
    state_changes: Seq<StateChange>,
) -> u64 {
    let input_bytes = sat_add(chunks_len(type_args), chunks_len(args));
    sat_add(
        sat_add(schedule.call_base, sat_mul(input_bytes, schedule.read_per_byte)),
        sat_mul(changes_bytes(state_changes), schedule.write_per_byte),
    )
}

/// Call base price, plus reading the arguments, plus writing the state changes.
pub fn estimate_call_gas(
    schedule: &GasSchedule,
    type_args: &[Vec<u8>],
    args: &[Vec<u8>],
    state_changes: &[StateChange],
) -> (r: u64)
    ensures
        r == spec_estimate_call_gas(*schedule, type_args@, args@, state_changes@),
{
    let input_bytes = encoded_chunks_len(type_args).saturating_add(encoded_chunks_len(args));
    schedule.call_base.saturating_add(read_gas_cost(schedule, input_bytes)).saturating_add(
        write_gas_cost(schedule, state_change_bytes(state_changes)),
    )
}

pub open spec fn spec_estimate_publish_gas(
    schedule: GasSchedule,
    modules: Seq<Vec<u8>>,
    state_changes: Seq<StateChange>,
) -> u64 {
    sat_add(
        spec_publish_gas_cost(schedule, chunks_len(modules)),
        sat_mul(changes_bytes(state_changes), schedule.write_per_byte),
    )
}

/// Publish price of the module bytes plus writing the state changes.
pub fn estimate_publish_gas(
    schedule: &GasSchedule,
    modules: &[Vec<u8>],
    state_changes: &[StateChange],
) -> (r: u64)
    ensures
        r == spec_estimate_publish_gas(*schedule, modules@, state_changes@),
{
    let module_bytes = encoded_chunks_len(modules);
    publish_gas_cost(schedule, module_bytes).saturating_add(
        write_gas_cost(schedule, state_change_bytes(state_changes)),
    )
}

pub open spec fn spec_estimate_script_gas(
    schedule: GasSchedule,
    bytecode: Seq<u8>,
    type_args: Seq<Vec<u8>>,
    args: Seq<Vec<u8>>,
) -> u64 {
    let input_bytes = sat_add(sat_add(bytecode.len() as u64, chunks_len(type_args)), chunks_len(args));
    sat_add(schedule.call_base, sat_mul(input_bytes, schedule.read_per_byte))
}

/// Call base price plus reading the script and its arguments.
pub fn estimate_script_gas(
    schedule: &GasSchedule,
    bytecode: &[u8],
    type_args: &[Vec<u8>],
    args: &[Vec<u8>],
) -> (r: u64)
    ensures
        r == spec_estimate_script_gas(*schedule, bytecode@, type_args@, args@),
{
    let input_bytes = (bytecode.len() as u64).saturating_add(encoded_chunks_len(type_args)).saturating_add(
        encoded_chunks_len(args),
    );
    schedule.call_base.saturating_add(read_gas_cost(schedule, input_bytes))
}

// ── Laws ────────────────────────────────────────────────────────────────

/// The total length of byte chunks, as an integer.
pub open spec fn total_chunk_bytes(chunks: Seq<Vec<u8>>) -> int
    decreases chunks.len(),
{
    if chunks.len() == 0 {
        0
    } else {
        total_chunk_bytes(chunks.drop_last()) + chunks.last()@.len()
    }
}

/// The number of bytes a state change writes: its key and its value (none for a deletion).
pub open spec fn written_bytes(c: StateChange) -> int {
    c.key@.len() + match c.value {
        Some(v) => v@.len() as int,
        None => 0,
    }
}

/// The bytes written by all the state changes, as an integer.
pub open spec fn total_written_bytes(cs: Seq<StateChange>) -> int
    decreases cs.len(),
{
    if cs.len() == 0 {
        0
    } else {
        total_written_bytes(cs.drop_last()) + written_bytes(cs.last())
    }
}

proof fn lemma_chunks_len_exact(chunks: Seq<Vec<u8>>)
    ensures
        total_chunk_bytes(chunks) >= 0,
        total_chunk_bytes(chunks) <= u64::MAX ==> chunks_len(chunks) == total_chunk_bytes(chunks),
    decreases chunks.len(),
{
    if chunks.len() > 0 {
        lemma_chunks_len_exact(chunks.drop_last());
    }
}

proof fn lemma_changes_bytes_exact(cs: Seq<StateChange>)
    ensures
        total_written_bytes(cs) >= 0,
        total_written_bytes(cs) <= u64::MAX ==> changes_bytes(cs) == total_written_bytes(cs),
    decreases cs.len(),
{
    if cs.len() > 0 {
        lemma_changes_bytes_exact(cs.drop_last());
        let c = cs.last();
        assert(opt_bytes(c.value) == match c.value {
            Some(v) => Some(v@),
            None => None::<Seq<u8>>,
        });
    }
}

proof fn lemma_product_bounds(a: int, b: int, rest: int)
    requires
        a >= 0,
        b >= 0,
        rest >= 0,
        a * b + rest <= u64::MAX,
    ensures
        0 <= a * b <= u64::MAX,
        b > 0 ==> a <= u64::MAX,
{
    assert(0 <= a * b) by (nonlinear_arith)
        requires
            a >= 0,
            b >= 0,
    ;
    assert(b > 0 ==> a <= a * b) by (nonlinear_arith)
        requires
            a >= 0,
            b >= 0,
    ;
}

/// The call estimate is the call base price, plus `read_per_byte` for every byte of the
/// type arguments and arguments, plus `write_per_byte` for every key and value byte of the
/// state changes, whenever that total fits in a `u64`.
pub proof fn law_call_estimate(
    schedule: GasSchedule,
    type_args: Seq<Vec<u8>>,
    args: Seq<Vec<u8>>,
    state_changes: Seq<StateChange>,
)
    requires
        schedule.call_base + schedule.read_per_byte * (total_chunk_bytes(type_args)
            + total_chunk_bytes(args)) + schedule.write_per_byte * total_written_bytes(state_changes)
            <= u64::MAX,
    ensures
        spec_estimate_call_gas(schedule, type_args, args, state_changes) == schedule.call_base
            + schedule.read_per_byte * (total_chunk_bytes(type_args) + total_chunk_bytes(args))
            + schedule.write_per_byte * total_written_bytes(state_changes),
{
    lemma_chunks_len_exact(type_args);
    lemma_chunks_len_exact(args);
    lemma_changes_bytes_exact(state_changes);
    let input = total_chunk_bytes(type_args) + total_chunk_bytes(args);
    let written = total_written_bytes(state_changes);
    let reads = input * schedule.read_per_byte;
    let writes = written * schedule.write_per_byte;
    assert(schedule.read_per_byte * input == reads) by (nonlinear_arith)
        requires
            reads == input * schedule.read_per_byte,
    ;
    assert(schedule.write_per_byte * written == writes) by (nonlinear_arith)
        requires
            writes == written * schedule.write_per_byte,
    ;
    lemma_product_bounds(written, schedule.write_per_byte as int, schedule.call_base + reads);
    lemma_product_bounds(input, schedule.read_per_byte as int, schedule.call_base + writes);
    if schedule.read_per_byte == 0 {
        assert(reads == 0);
        assert(sat_mul(sat_add(chunks_len(type_args), chunks_len(args)), schedule.read_per_byte) == 0);
    } else {
        assert(input <= u64::MAX);
    }
    if schedule.write_per_byte == 0 {
        assert(writes == 0);
        assert(sat_mul(changes_bytes(state_changes), schedule.write_per_byte) == 0);
    } else {
        assert(written <= u64::MAX);
    }
}

/// Each state change a call writes raises its estimate by `write_per_byte` times the bytes
/// of its key and value, as long as the estimate fits in a `u64`.
pub proof fn law_call_estimate_per_change(
    schedule: GasSchedule,
    type_args: Seq<Vec<u8>>,
    args: Seq<Vec<u8>>,
    state_changes: Seq<StateChange>,
    change: StateChange,
)
    requires
        schedule.call_base + schedule.read_per_byte * (total_chunk_bytes(type_args)
            + total_chunk_bytes(args)) + schedule.write_per_byte * total_written_bytes(
            state_changes.push(change),
        ) <= u64::MAX,
    ensures
        spec_estimate_call_gas(schedule, type_args, args, state_changes.push(change))
            == spec_estimate_call_gas(schedule, type_args, args, state_changes)
            + schedule.write_per_byte * written_bytes(change),
{
    let more = state_changes.push(change);
    assert(more.drop_last() =~= state_changes);
    lemma_chunks_len_exact(type_args);
    lemma_chunks_len_exact(args);
    lemma_changes_bytes_exact(state_changes);
    let w = schedule.write_per_byte as int;
    let t = total_written_bytes(state_changes);
    assert(w * (t + written_bytes(change)) == w * t + w * written_bytes(change)) by (nonlinear_arith);
    assert(0 <= w * written_bytes(change)) by (nonlinear_arith)
        requires
            w >= 0,
            written_bytes(change) >= 0,
    ;
    law_call_estimate(schedule, type_args, args, more);
    law_call_estimate(schedule, type_args, args, state_changes);
}

/// The publish estimate is the publish base price, plus `publish_per_byte` for every byte
/// of the modules, plus `write_per_byte` for every key and value byte of the state changes,
/// whenever that total fits in a `u64`.
pub proof fn law_publish_estimate(
    schedule: GasSchedule,
    modules: Seq<Vec<u8>>,
    state_changes: Seq<StateChange>,
)
    requires
        schedule.publish_base + schedule.publish_per_byte * total_chunk_bytes(modules)
            + schedule.write_per_byte * total_written_bytes(state_changes) <= u64::MAX,
    ensures
        spec_estimate_publish_gas(schedule, modules, state_changes) == schedule.publish_base
            + schedule.publish_per_byte * total_chunk_bytes(modules) + schedule.write_per_byte
            * total_written_bytes(state_changes),
{
    lemma_chunks_len_exact(modules);
    lemma_changes_bytes_exact(state_changes);
    let code = total_chunk_bytes(modules);
    let written = total_written_bytes(state_changes);
    let pubs = code * schedule.publish_per_byte;
    let writes = written * schedule.write_per_byte;
    assert(schedule.publish_per_byte * code == pubs) by (nonlinear_arith)
        requires
            pubs == code * schedule.publish_per_byte,
    ;
    assert(schedule.write_per_byte * written == writes) by (nonlinear_arith)
        requires
            writes == written * schedule.write_per_byte,
    ;
    lemma_product_bounds(written, schedule.write_per_byte as int, schedule.publish_base + pubs);
    lemma_product_bounds(code, schedule.publish_per_byte as int, schedule.publish_base + writes);
    if schedule.publish_per_byte == 0 {
        assert(pubs == 0);
        assert(sat_mul(chunks_len(modules), schedule.publish_per_byte) == 0);
    } else {
        assert(code <= u64::MAX);
    }
    if schedule.write_per_byte == 0 {
        assert(writes == 0);
        assert(sat_mul(changes_bytes(state_changes), schedule.write_per_byte) == 0);
    } else {
        assert(written <= u64::MAX);
    }
}

/// Each state change a publish writes raises its estimate by `write_per_byte` times the
/// bytes of its key and value, as long as the estimate fits in a `u64`.
pub proof fn law_publish_estimate_per_change(
    schedule: GasSchedule,
    modules: Seq<Vec<u8>>,
    state_changes: Seq<StateChange>,
    change: StateChange,
)
    requires
        schedule.publish_base + schedule.publish_per_byte * total_chunk_bytes(modules)
            + schedule.write_per_byte * total_written_bytes(state_changes.push(change))
            <= u64::MAX,
    ensures
        spec_estimate_publish_gas(schedule, modules, state_changes.push(change))
            == spec_estimate_publish_gas(schedule, modules, state_changes) + schedule.write_per_byte
            * written_bytes(change),
{
    let more = state_changes.push(change);
    assert(more.drop_last() =~= state_changes);
    lemma_chunks_len_exact(modules);
    lemma_changes_bytes_exact(state_changes);
    let w = schedule.write_per_byte as int;
    let t = total_written_bytes(state_changes);
    assert(w * (t + written_bytes(change)) == w * t + w * written_bytes(change)) by (nonlinear_arith);
    assert(0 <= w * written_bytes(change)) by (nonlinear_arith)
        requires
            w >= 0,
            written_bytes(change) >= 0,
    ;
    law_publish_estimate(schedule, modules, more);
    law_publish_estimate(schedule, modules, state_changes);
}

} // verus!

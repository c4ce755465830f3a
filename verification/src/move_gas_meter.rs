//! Flat-cost gas metering of interpreter events: every instruction kind has a fixed price,
//! a few are priced per byte, and the meter never passes its limit.
use vstd::prelude::*;

use crate::gas::{sat_add, sat_mul, sat_sub};

verus! {

/// Flat prices of interpreter events, in internal gas units.
#[derive(Debug, Clone, PartialEq, Eq, Structural)]
pub struct NexusGasParameters {
    /// Cost per simple instruction (arithmetic, comparison, branch, ...).
    pub instruction_base: u64,
    /// Cost per function call.
    pub call_base: u64,
    /// Per-byte cost of loading a constant.
    pub load_const_per_byte: u64,
    /// Per-byte cost of loading a resource from storage.
    pub load_resource_per_byte: u64,
    /// Cost per struct pack or unpack.
    pub pack_unpack_base: u64,
    /// Cost per global storage operation.
    pub global_op_base: u64,
    /// Cost per reference read or write.
    pub ref_op_base: u64,
    /// Cost per vector operation.
    pub vec_op_base: u64,
    /// Flat cost per native call, on top of what the native charges.
    pub native_call_base: u64,
    /// Per-byte cost of loading a dependency.
    pub dependency_per_byte: u64,
}

impl Default for NexusGasParameters {
    fn default() -> (r: Self)
        ensures
            r == (NexusGasParameters {
                instruction_base: 1,
                call_base: 10,
                load_const_per_byte: 1,
                load_resource_per_byte: 2,
                pack_unpack_base: 3,
                global_op_base: 5,
                ref_op_base: 2,
                vec_op_base: 3,
                native_call_base: 10,
                dependency_per_byte: 1,
            }),
    {
        NexusGasParameters {
            instruction_base: 1,
            call_base: 10,
            load_const_per_byte: 1,
            load_resource_per_byte: 2,
            pack_unpack_base: 3,
            global_op_base: 5,
            ref_op_base: 2,
            vec_op_base: 3,
            native_call_base: 10,
            dependency_per_byte: 1,
        }
    }
}

/// An event the interpreter reports to the meter.
#[derive(Debug, Clone, Copy, PartialEq, Eq, Structural)]
pub enum GasEvent {
    SimpleInstr,
    BrTrue,
    BrFalse,
    Branch,
    Pop,
    Call,
    CallGeneric,
    /// Loading a constant of the given size in bytes.
    LdConst(u64),
    LdConstAfterDeserialization,
    CopyLoc,
    MoveLoc,
    StoreLoc,
    Pack,
    Unpack,
    ReadRef,
    WriteRef,
    Eq,
    Neq,
    BorrowGlobal,
    Exists,
    MoveFrom,
    MoveTo,
    VecPack,
    VecLen,
    VecBorrow,
    VecPushBack,
    VecPopBack,
    VecUnpack,
    VecSwap,
    /// Loading a resource of the given size in bytes.
    LoadResource(u64),
    /// A native call that charged the given amount itself.
    NativeFunction(u64),
    NativeFunctionBeforeExecution,
    DropFrame,
    CreateTy,
    /// Loading a dependency of the given size in bytes.
    Dependency(u64),
    /// Heap memory of the given amount.
    HeapMemory(u64),
}

/// The price of an event under the parameters.
pub open spec fn event_cost(p: NexusGasParameters, e: GasEvent) -> u64 {
    match e {
        GasEvent::SimpleInstr | GasEvent::BrTrue | GasEvent::BrFalse | GasEvent::Branch
        | GasEvent::Pop | GasEvent::CopyLoc | GasEvent::MoveLoc | GasEvent::StoreLoc
        | GasEvent::Eq | GasEvent::Neq | GasEvent::DropFrame
        | GasEvent::CreateTy => p.instruction_base,
        GasEvent::Call | GasEvent::CallGeneric => p.call_base,
        GasEvent::LdConst(size) => sat_add(p.instruction_base, sat_mul(size, p.load_const_per_byte)),
        GasEvent::LdConstAfterDeserialization | GasEvent::NativeFunctionBeforeExecution => 0,
        GasEvent::Pack | GasEvent::Unpack => p.pack_unpack_base,
        GasEvent::ReadRef | GasEvent::WriteRef => p.ref_op_base,
        GasEvent::BorrowGlobal | GasEvent::Exists | GasEvent::MoveFrom
        | GasEvent::MoveTo => p.global_op_base,
        GasEvent::VecPack | GasEvent::VecLen | GasEvent::VecBorrow | GasEvent::VecPushBack
        | GasEvent::VecPopBack | GasEvent::VecUnpack | GasEvent::VecSwap => p.vec_op_base,
        GasEvent::LoadResource(bytes) => sat_mul(bytes, p.load_resource_per_byte),
        GasEvent::NativeFunction(amount) => sat_add(p.native_call_base, amount),
        GasEvent::Dependency(size) => sat_mul(size, p.dependency_per_byte),
        GasEvent::HeapMemory(amount) => amount,
    }
}

/// Whether an event goes through the meter at all (two are free and never fail).
pub open spec fn event_is_metered(e: GasEvent) -> bool {
    !(e is LdConstAfterDeserialization || e is NativeFunctionBeforeExecution)
}

/// A charge that would pass the limit.
#[derive(Debug, Clone, Copy, PartialEq, Eq, Structural)]
pub struct OutOfGas;

/// A gas meter with flat event prices; what it has consumed never passes its limit.
pub struct NexusGasMeter {
    params: NexusGasParameters,
    limit: u64,
    consumed: u64,
}

/// The meter after a charge of `amount`: charged when the total stays within the limit,
/// unchanged otherwise.
pub open spec fn meter_after(
    before: NexusGasMeter,
    after: NexusGasMeter,
    amount: u64,
    r: Result<(), OutOfGas>,
) -> bool {
    &&& after.spec_params() == before.spec_params()
    &&& after.spec_limit() == before.spec_limit()
    &&& (r is Ok) == (sat_add(before.spec_consumed(), amount) <= before.spec_limit())
    &&& after.spec_consumed() == if r is Ok {
        sat_add(before.spec_consumed(), amount)
    } else {
        before.spec_consumed()
    }
}

impl NexusGasMeter {
    pub closed spec fn spec_params(&self) -> NexusGasParameters {
        self.params
    }

    pub closed spec fn spec_limit(&self) -> u64 {
        self.limit
    }

    pub closed spec fn spec_consumed(&self) -> u64 {
        self.consumed
    }

    #[verifier::type_invariant]
    closed spec fn within_limit(&self) -> bool {
        self.consumed <= self.limit
    }

    /// A meter with nothing consumed.
    pub fn new(limit: u64, params: NexusGasParameters) -> (r: Self)
        ensures
            r.spec_params() == params,
            r.spec_limit() == limit,
            r.spec_consumed() == 0,
    {
        NexusGasMeter { params, limit, consumed: 0 }
    }

    /// A meter with the default prices.
    pub fn with_limit(limit: u64) -> (r: Self)
        ensures
            r.spec_params() == NexusGasParameters::default_params(),
            r.spec_limit() == limit,
            r.spec_consumed() == 0,
    {
        NexusGasMeter::new(limit, NexusGasParameters::default())
    }

    /// Gas consumed so far; never more than the limit.
    pub fn consumed(&self) -> (r: u64)
        ensures
            r == self.spec_consumed(),
            r <= self.spec_limit(),
    {
        proof {
            use_type_invariant(self);
        }
        self.consumed
    }

    pub fn limit(&self) -> (r: u64)
        ensures
            r == self.spec_limit(),
    {
        self.limit
    }

    /// Gas left before the limit.
    pub fn remaining(&self) -> (r: u64)
        ensures
            r == sat_sub(self.spec_limit(), self.spec_consumed()),
            r == self.spec_limit() - self.spec_consumed(),
    {
        proof {
            use_type_invariant(self);
        }
        self.limit.saturating_sub(self.consumed)
    }

    /// The balance the interpreter sees: the gas left.
    pub fn balance_internal(&self) -> (r: u64)
        ensures
            r == self.spec_limit() - self.spec_consumed(),
    {
        self.remaining()
    }

    /// Charges `amount`; fails, leaving the meter as it was, when the total would pass the
    /// limit.
    pub fn charge(&mut self, amount: u64) -> (r: Result<(), OutOfGas>)
        ensures
            meter_after(*old(self), *final(self), amount, r),
    {
        proof {
            use_type_invariant(&*self);
        }
        let next = self.consumed.saturating_add(amount);
        if next > self.limit {
            Err(OutOfGas)
        } else {
            self.consumed = next;
            Ok(())
        }
    }

    /// The price of an event under this meter's parameters.
    pub fn event_cost(&self, event: GasEvent) -> (r: u64)
        ensures
            r == event_cost(self.spec_params(), event),
    {
        let p = &self.params;
        match event {
            GasEvent::SimpleInstr | GasEvent::BrTrue | GasEvent::BrFalse | GasEvent::Branch
            | GasEvent::Pop | GasEvent::CopyLoc | GasEvent::MoveLoc | GasEvent::StoreLoc
            | GasEvent::Eq | GasEvent::Neq | GasEvent::DropFrame
            | GasEvent::CreateTy => p.instruction_base,
            GasEvent::Call | GasEvent::CallGeneric => p.call_base,
            GasEvent::LdConst(size) => p.instruction_base.saturating_add(
                crate::gas::saturating_mul(size, p.load_const_per_byte),
            ),
            GasEvent::LdConstAfterDeserialization | GasEvent::NativeFunctionBeforeExecution => 0,
            GasEvent::Pack | GasEvent::Unpack => p.pack_unpack_base,
            GasEvent::ReadRef | GasEvent::WriteRef => p.ref_op_base,
            GasEvent::BorrowGlobal | GasEvent::Exists | GasEvent::MoveFrom
            | GasEvent::MoveTo => p.global_op_base,
            GasEvent::VecPack | GasEvent::VecLen | GasEvent::VecBorrow | GasEvent::VecPushBack
            | GasEvent::VecPopBack | GasEvent::VecUnpack | GasEvent::VecSwap => p.vec_op_base,
            GasEvent::LoadResource(bytes) => crate::gas::saturating_mul(
                bytes,
                p.load_resource_per_byte,
            ),
            GasEvent::NativeFunction(amount) => p.native_call_base.saturating_add(amount),
            GasEvent::Dependency(size) => crate::gas::saturating_mul(size, p.dependency_per_byte),
            GasEvent::HeapMemory(amount) => amount,
        }
    }

    /// Charges the price of an event; the two free events succeed without touching the
    /// meter.
    pub fn charge_event(&mut self, event: GasEvent) -> (r: Result<(), OutOfGas>)
        ensures
            event_is_metered(event) ==> meter_after(
                *old(self),
                *final(self),
                event_cost(old(self).spec_params(), event),
                r,
            ),
            !event_is_metered(event) ==> r is Ok && *final(self) == *old(self),
    {
        match event {
            GasEvent::LdConstAfterDeserialization | GasEvent::NativeFunctionBeforeExecution => {
                Ok(())
            },
            _ => {
                let cost = self.event_cost(event);
                self.charge(cost)
            },
        }
    }

    /// Charges one simple instruction.
    pub fn charge_simple_instr(&mut self) -> (r: Result<(), OutOfGas>)
        ensures
            meter_after(*old(self), *final(self), old(self).spec_params().instruction_base, r),
    {
        self.charge_event(GasEvent::SimpleInstr)
    }

    /// Charges one function call.
    pub fn charge_call(&mut self) -> (r: Result<(), OutOfGas>)
        ensures
            meter_after(*old(self), *final(self), old(self).spec_params().call_base, r),
    {
        self.charge_event(GasEvent::Call)
    }
}

impl NexusGasParameters {
    /// The default prices.
    pub open spec fn default_params() -> NexusGasParameters {
        NexusGasParameters {
            instruction_base: 1,
            call_base: 10,
            load_const_per_byte: 1,
            load_resource_per_byte: 2,
            pack_unpack_base: 3,
            global_op_base: 5,
            ref_op_base: 2,
            vec_op_base: 3,
            native_call_base: 10,
            dependency_per_byte: 1,
        }
    }
}

/// A charge never takes the meter past its limit, and a refused charge changes nothing.
pub proof fn law_charge_stays_within_limit(
    before: NexusGasMeter,
    after: NexusGasMeter,
    amount: u64,
    r: Result<(), OutOfGas>,
)
    requires
        before.spec_consumed() <= before.spec_limit(),
        meter_after(before, after, amount, r),
    ensures
        after.spec_consumed() <= after.spec_limit(),
        after.spec_consumed() >= before.spec_consumed(),
        r is Err ==> after.spec_consumed() == before.spec_consumed(),
{
}

/// Under the default prices, a charged event adds its flat cost: 1 for a simple
/// instruction, a branch, a pop, a local copy, move or store, and a comparison; 10 for a
/// call; 5 for a global storage operation; and 2 per byte for loading a resource (sums and
/// products saturate at `u64::MAX`). A refused charge adds nothing.
pub proof fn law_default_flat_costs(
    before: NexusGasMeter,
    after: NexusGasMeter,
    event: GasEvent,
    r: Result<(), OutOfGas>,
)
    requires
        before.spec_params() == NexusGasParameters::default_params(),
        before.spec_consumed() <= before.spec_limit(),
        meter_after(before, after, event_cost(before.spec_params(), event), r),
    ensures
        r is Err ==> after.spec_consumed() == before.spec_consumed(),
        r is Ok ==> match event {
            GasEvent::SimpleInstr | GasEvent::BrTrue | GasEvent::BrFalse | GasEvent::Branch
            | GasEvent::Pop | GasEvent::CopyLoc | GasEvent::MoveLoc | GasEvent::StoreLoc
            | GasEvent::Eq | GasEvent::Neq => after.spec_consumed() == sat_add(before.spec_consumed(), 1),
            GasEvent::Call | GasEvent::CallGeneric => after.spec_consumed() == sat_add(
                before.spec_consumed(),
                10,
            ),
            GasEvent::BorrowGlobal | GasEvent::Exists | GasEvent::MoveFrom
            | GasEvent::MoveTo => after.spec_consumed() == sat_add(before.spec_consumed(), 5),
            GasEvent::LoadResource(bytes) => after.spec_consumed() == sat_add(
                before.spec_consumed(),
                sat_mul(bytes, 2),
            ),
            _ => true,
        },
{
}

/// What each interpreter event costs under the parameters `p`: simple instructions,
/// branches, pops, local copies, moves and stores, comparisons, frame drops and type
/// creations cost `instruction_base`; calls `call_base`; struct packs and unpacks
/// `pack_unpack_base`; reference reads and writes `ref_op_base`; global storage operations
/// `global_op_base`; vector operations `vec_op_base`; a constant `instruction_base` plus
/// `load_const_per_byte` per byte; a resource `load_resource_per_byte` per byte; a native
/// call `native_call_base` plus what the native charged; a dependency `dependency_per_byte`
/// per byte; heap memory its amount; the two free events nothing. Sums and products that
/// would pass `u64::MAX` stop there.
pub proof fn law_event_prices(p: NexusGasParameters, e: GasEvent)
    ensures
        match e {
            GasEvent::SimpleInstr | GasEvent::BrTrue | GasEvent::BrFalse | GasEvent::Branch
            | GasEvent::Pop | GasEvent::CopyLoc | GasEvent::MoveLoc | GasEvent::StoreLoc
            | GasEvent::Eq | GasEvent::Neq | GasEvent::DropFrame
            | GasEvent::CreateTy => event_cost(p, e) == p.instruction_base,
            GasEvent::Call | GasEvent::CallGeneric => event_cost(p, e) == p.call_base,
            GasEvent::Pack | GasEvent::Unpack => event_cost(p, e) == p.pack_unpack_base,
            GasEvent::ReadRef | GasEvent::WriteRef => event_cost(p, e) == p.ref_op_base,
            GasEvent::BorrowGlobal | GasEvent::Exists | GasEvent::MoveFrom
            | GasEvent::MoveTo => event_cost(p, e) == p.global_op_base,
            GasEvent::VecPack | GasEvent::VecLen | GasEvent::VecBorrow | GasEvent::VecPushBack
            | GasEvent::VecPopBack | GasEvent::VecUnpack
            | GasEvent::VecSwap => event_cost(p, e) == p.vec_op_base,
            GasEvent::LdConst(size) => p.instruction_base + size * p.load_const_per_byte
                <= u64::MAX ==> event_cost(p, e) == p.instruction_base + size
                * p.load_const_per_byte,
            GasEvent::LoadResource(bytes) => bytes * p.load_resource_per_byte <= u64::MAX
                ==> event_cost(p, e) == bytes * p.load_resource_per_byte,
            GasEvent::NativeFunction(amount) => p.native_call_base + amount <= u64::MAX
                ==> event_cost(p, e) == p.native_call_base + amount,
            GasEvent::Dependency(size) => size * p.dependency_per_byte <= u64::MAX ==> event_cost(
                p,
                e,
            ) == size * p.dependency_per_byte,
            GasEvent::HeapMemory(amount) => event_cost(p, e) == amount,
            GasEvent::LdConstAfterDeserialization
            | GasEvent::NativeFunctionBeforeExecution => event_cost(p, e) == 0,
        },
{
    if let GasEvent::LdConst(size) = e {
        assert(0 <= size * p.load_const_per_byte) by (nonlinear_arith);
    }
}

/// A charged event adds exactly its price to what the meter has consumed (short of the
/// sum passing `u64::MAX`, where it stops there); a refused one adds nothing. With `law_event_prices`: a struct pack adds `pack_unpack_base`, a call
/// `call_base`, and so on.
pub proof fn law_charge_adds_event_price(
    before: NexusGasMeter,
    after: NexusGasMeter,
    event: GasEvent,
    r: Result<(), OutOfGas>,
)
    requires
        before.spec_consumed() <= before.spec_limit(),
        meter_after(before, after, event_cost(before.spec_params(), event), r),
    ensures
        r is Ok && before.spec_consumed() + event_cost(before.spec_params(), event) <= u64::MAX
            ==> after.spec_consumed() == before.spec_consumed() + event_cost(
            before.spec_params(),
            event,
        ),
        r is Err ==> after.spec_consumed() == before.spec_consumed(),
        r is Ok && (event is Pack || event is Unpack) && before.spec_consumed()
            + before.spec_params().pack_unpack_base <= u64::MAX ==> after.spec_consumed()
            == before.spec_consumed() + before.spec_params().pack_unpack_base,
{
}

} // verus!

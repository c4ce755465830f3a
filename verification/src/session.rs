//! An execution session: a gas meter, its summary by kind of charge, and pending resource
//! writes.
use vstd::prelude::*;
use vstd::string::StringSliceAdditionalSpecFns;

use crate::gas::{sat_add, sat_mul, GasMeter, GasSchedule, SimpleGasMeter};
use crate::resources::{pending_read, resource_answer, spec_resource_key, ResourceStore};
use crate::state::{read_view, NexusStateView};
use crate::types::AccountAddress;
use crate::vm_types::{changes_model, VmOutput, VmResult, VmStatus};
use crate::write_set::{model_insert, opt_bytes, EntryModel};

verus! {

/// Gas charged in a session, by kind of charge.
#[derive(Debug, Clone, PartialEq, Eq, Structural)]
pub struct MoveGasSummary {
    pub execution_gas: u64,
    pub io_gas: u64,
    pub storage_fee: u64,
}

impl Default for MoveGasSummary {
    fn default() -> (r: Self)
        ensures
            r.execution_gas == 0,
            r.io_gas == 0,
            r.storage_fee == 0,
    {
        MoveGasSummary { execution_gas: 0, io_gas: 0, storage_fee: 0 }
    }
}

impl MoveGasSummary {
    pub open spec fn spec_total(&self) -> u64 {
        sat_add(sat_add(self.execution_gas, self.io_gas), self.storage_fee)
    }

    /// The three kinds summed, with saturation.
    pub fn total(&self) -> (r: u64)
        ensures
            r == self.spec_total(),
    {
        self.execution_gas.saturating_add(self.io_gas).saturating_add(self.storage_fee)
    }
}

/// What a session may do.
#[derive(Debug, Clone, Copy, PartialEq, Eq, Structural)]
pub enum SessionKind {
    Publish,
    Execute,
    ReadOnly,
}

/// Why a write was refused.
#[derive(Debug, Clone, Copy, PartialEq, Eq, Structural)]
pub enum WriteError {
    ReadOnly,
    OutOfGas,
}

/// The meter after a charge of `amount`: charged when the total stays within the limit
/// (then `ok`), unchanged otherwise.
pub open spec fn meter_charged(
    before: SimpleGasMeter,
    after: SimpleGasMeter,
    amount: u64,
    ok: bool,
) -> bool {
    &&& after.spec_limit() == before.spec_limit()
    &&& ok == (sat_add(before.spec_consumed(), amount) <= before.spec_limit())
    &&& after.spec_consumed() == if ok {
        sat_add(before.spec_consumed(), amount)
    } else {
        before.spec_consumed()
    }
}

/// The price of reading a resource: the bytes read at the read price, nothing for a miss.
pub open spec fn read_cost(schedule: GasSchedule, value: Option<Seq<u8>>) -> u64 {
    match value {
        Some(b) => sat_mul(b.len() as u64, schedule.read_per_byte),
        None => 0,
    }
}

/// One execution against a state view.
pub struct ExecuteSession<'a> {
    pub kind: SessionKind,
    pub sender: AccountAddress,
    pub meter: SimpleGasMeter,
    pub schedule: GasSchedule,
    pub resources: ResourceStore<'a>,
    pub gas_summary: MoveGasSummary,
}

impl<'a> ExecuteSession<'a> {
    /// A session with a fresh meter, nothing pending and nothing charged.
    pub fn new(
        kind: SessionKind,
        sender: AccountAddress,
        gas_limit: u64,
        schedule: GasSchedule,
        view: &'a NexusStateView<'a>,
    ) -> (r: Self)
        ensures
            r.kind == kind,
            r.sender == sender,
            r.meter.spec_limit() == gas_limit,
            r.meter.spec_consumed() == 0,
            r.schedule == schedule,
            r.resources.pending() == Seq::<EntryModel>::empty(),
            r.resources.spec_view() == *view,
            r.gas_summary.spec_total() == 0,
            r.gas_summary == (MoveGasSummary { execution_gas: 0, io_gas: 0, storage_fee: 0 }),
    {
        ExecuteSession {
            kind,
            sender,
            meter: SimpleGasMeter::new(gas_limit),
            schedule,
            resources: ResourceStore::new(view),
            gas_summary: MoveGasSummary::default(),
        }
    }

    /// Adds `amount` to the execution gas of the summary, then charges the meter.
    pub fn charge_execution(&mut self, amount: u64) -> (r: Result<(), WriteError>)
        ensures
            final(self).gas_summary == (MoveGasSummary {
                execution_gas: sat_add(old(self).gas_summary.execution_gas, amount),
                ..old(self).gas_summary
            }),
            meter_charged(old(self).meter, final(self).meter, amount, r is Ok),
            r matches Err(e) ==> e == WriteError::OutOfGas,
            final(self).kind == old(self).kind,
            final(self).sender == old(self).sender,
            final(self).schedule == old(self).schedule,
            final(self).resources == old(self).resources,
    {
        self.gas_summary.execution_gas = self.gas_summary.execution_gas.saturating_add(amount);
        match self.meter.charge(amount) {
            Ok(()) => Ok(()),
            Err(_) => Err(WriteError::OutOfGas),
        }
    }

    /// Adds `amount` to the I/O gas of the summary, then charges the meter.
    pub fn charge_io(&mut self, amount: u64) -> (r: Result<(), WriteError>)
        ensures
            final(self).gas_summary == (MoveGasSummary {
                io_gas: sat_add(old(self).gas_summary.io_gas, amount),
                ..old(self).gas_summary
            }),
            meter_charged(old(self).meter, final(self).meter, amount, r is Ok),
            r matches Err(e) ==> e == WriteError::OutOfGas,
            final(self).kind == old(self).kind,
            final(self).sender == old(self).sender,
            final(self).schedule == old(self).schedule,
            final(self).resources == old(self).resources,
    {
        self.gas_summary.io_gas = self.gas_summary.io_gas.saturating_add(amount);
        match self.meter.charge(amount) {
            Ok(()) => Ok(()),
            Err(_) => Err(WriteError::OutOfGas),
        }
    }

    /// Adds `amount` to the storage fee of the summary, then charges the meter.
    pub fn charge_storage(&mut self, amount: u64) -> (r: Result<(), WriteError>)
        ensures
            final(self).gas_summary == (MoveGasSummary {
                storage_fee: sat_add(old(self).gas_summary.storage_fee, amount),
                ..old(self).gas_summary
            }),
            meter_charged(old(self).meter, final(self).meter, amount, r is Ok),
            r matches Err(e) ==> e == WriteError::OutOfGas,
            final(self).kind == old(self).kind,
            final(self).sender == old(self).sender,
            final(self).schedule == old(self).schedule,
            final(self).resources == old(self).resources,
    {
        self.gas_summary.storage_fee = self.gas_summary.storage_fee.saturating_add(amount);
        match self.meter.charge(amount) {
            Ok(()) => Ok(()),
            Err(_) => Err(WriteError::OutOfGas),
        }
    }

    /// Reads a resource and charges the bytes read as I/O; a read the meter cannot pay for
    /// still succeeds (the I/O summary counts it, the meter stays as it was).
    pub fn read_resource(&mut self, account: &AccountAddress, type_tag: &str) -> (r: VmResult<
        Option<Vec<u8>>,
    >)
        ensures
            pending_read(old(self).resources.pending(), *account, type_tag.spec_bytes()) matches Some(
                p,
            ) ==> (r matches Ok(v) && opt_bytes(v) == p),
            resource_answer(
                old(self).resources.pending(),
                old(self).resources.spec_view(),
                *account,
                type_tag.spec_bytes(),
                read_view(r),
            ),
            final(self).kind == old(self).kind,
            final(self).sender == old(self).sender,
            final(self).schedule == old(self).schedule,
            final(self).resources == old(self).resources,
            match r {
                Ok(v) => {
                    let cost = read_cost(old(self).schedule, opt_bytes(v));
                    &&& final(self).gas_summary == (MoveGasSummary {
                        io_gas: sat_add(old(self).gas_summary.io_gas, cost),
                        ..old(self).gas_summary
                    })
                    &&& meter_charged(
                        old(self).meter,
                        final(self).meter,
                        cost,
                        sat_add(old(self).meter.spec_consumed(), cost)
                            <= old(self).meter.spec_limit(),
                    )
                },
                Err(_) => {
                    &&& final(self).gas_summary == old(self).gas_summary
                    &&& final(self).meter == old(self).meter
                },
            },
    {
        let value = self.resources.get(account, type_tag)?;
        let cost: u64 = match &value {
            Some(bytes) => crate::gas::saturating_mul(bytes.len() as u64, self.schedule.read_per_byte),
            None => 0,
        };
        let _ = self.charge_io(cost);
        Ok(value)
    }

    /// Writes a resource, charging its bytes as storage; refused in a read-only session, and
    /// when the meter cannot pay (the storage summary still counts the charge then).
    pub fn write_resource(&mut self, account: AccountAddress, type_tag: &str, value: Vec<u8>) -> (r:
        Result<(), WriteError>)
        ensures
            final(self).kind == old(self).kind,
            final(self).sender == old(self).sender,
            final(self).schedule == old(self).schedule,
            old(self).kind == SessionKind::ReadOnly ==> {
                &&& r == Err::<(), WriteError>(WriteError::ReadOnly)
                &&& *final(self) == *old(self)
            },
            old(self).kind != SessionKind::ReadOnly ==> {
                let cost = sat_mul(value@.len() as u64, old(self).schedule.write_per_byte);
                &&& final(self).gas_summary == (MoveGasSummary {
                    storage_fee: sat_add(old(self).gas_summary.storage_fee, cost),
                    ..old(self).gas_summary
                })
                &&& meter_charged(old(self).meter, final(self).meter, cost, r is Ok)
                &&& r matches Err(e) ==> e == WriteError::OutOfGas
                &&& final(self).resources.spec_view() == old(self).resources.spec_view()
                &&& final(self).resources.pending() == if r is Ok {
                    model_insert(
                        old(self).resources.pending(),
                        account,
                        spec_resource_key(type_tag.spec_bytes()),
                        Some(value@),
                    )
                } else {
                    old(self).resources.pending()
                }
            },
    {
        if let SessionKind::ReadOnly = self.kind {
            return Err(WriteError::ReadOnly);
        }
        let cost = crate::gas::saturating_mul(value.len() as u64, self.schedule.write_per_byte);
        self.charge_storage(cost)?;
        self.resources.set(account, type_tag, value);
        Ok(())
    }

    /// Ends the session keeping its writes: they become the output's write set and state
    /// changes, in key order.
    pub fn commit(self, status: VmStatus) -> (r: VmOutput)
        ensures
            r.status == status,
            r.gas_used == self.meter.spec_consumed(),
            r.write_set.model() == self.resources.pending(),
            changes_model(r.state_changes@) == self.resources.pending(),
            r.events@.len() == 0,
            r.return_values@.len() == 0,
    {
        let gas_used = self.meter.consumed();
        let (write_set, state_changes) = self.resources.into_changes();
        VmOutput {
            status,
            gas_used,
            state_changes,
            write_set,
            events: Vec::new(),
            return_values: Vec::new(),
        }
    }

    /// Ends the session dropping its writes; the gas used stays charged.
    pub fn abort(self, status: VmStatus) -> (r: VmOutput)
        ensures
            r.status == status,
            r.gas_used == self.meter.spec_consumed(),
            r.is_empty_effect(),
    {
        let gas_used = self.meter.consumed();
        VmOutput::without_effects(status, gas_used)
    }
}

} // verus!

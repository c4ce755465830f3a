use nexus_move::move_gas_meter::{GasEvent, NexusGasMeter, NexusGasParameters, OutOfGas};

#[test]
fn charges_until_exhausted() {
    let mut meter = NexusGasMeter::with_limit(100);
    assert_eq!(meter.remaining(), 100);
    assert_eq!(meter.consumed(), 0);

    meter.charge(50).unwrap();
    assert_eq!(meter.remaining(), 50);
    assert_eq!(meter.consumed(), 50);

    meter.charge(50).unwrap();
    assert_eq!(meter.remaining(), 0);
    assert_eq!(meter.consumed(), 100);

    let err = meter.charge(1).unwrap_err();
    assert_eq!(err, OutOfGas);
    assert_eq!(meter.consumed(), 100);
}

#[test]
fn simple_instr_costs_default_1() {
    let mut meter = NexusGasMeter::with_limit(1000);
    meter.charge_simple_instr().unwrap();
    assert_eq!(meter.consumed(), 1);
}

#[test]
fn call_costs_default_10() {
    let mut meter = NexusGasMeter::with_limit(1000);
    meter.charge_call().unwrap();
    assert_eq!(meter.consumed(), 10);
}

#[test]
fn balance_internal_reflects_remaining() {
    let meter = NexusGasMeter::with_limit(500);
    assert_eq!(meter.balance_internal(), 500);
}

#[test]
fn zero_limit_reject_any_charge() {
    let mut meter = NexusGasMeter::with_limit(0);
    assert!(meter.charge(1).is_err());
    assert_eq!(meter.consumed(), 0);
}

#[test]
fn event_prices_follow_parameters() {
    let mut meter = NexusGasMeter::with_limit(10_000);
    meter.charge_event(GasEvent::LdConst(4)).unwrap();
    assert_eq!(meter.consumed(), 5);
    meter.charge_event(GasEvent::LoadResource(10)).unwrap();
    assert_eq!(meter.consumed(), 25);
    meter.charge_event(GasEvent::NativeFunction(7)).unwrap();
    assert_eq!(meter.consumed(), 42);
    meter.charge_event(GasEvent::MoveTo).unwrap();
    assert_eq!(meter.consumed(), 47);
    meter.charge_event(GasEvent::LdConstAfterDeserialization).unwrap();
    assert_eq!(meter.consumed(), 47);
    meter.charge_event(GasEvent::Dependency(3)).unwrap();
    assert_eq!(meter.consumed(), 50);
}

#[test]
fn refused_event_leaves_meter_unchanged() {
    let mut meter = NexusGasMeter::with_limit(12);
    meter.charge_event(GasEvent::Call).unwrap();
    assert!(meter.charge_event(GasEvent::BorrowGlobal).is_err());
    assert_eq!(meter.consumed(), 10);
    assert_eq!(meter.remaining(), 2);
}

#[test]
fn default_parameters() {
    let p = NexusGasParameters::default();
    assert_eq!(p.instruction_base, 1);
    assert_eq!(p.call_base, 10);
    assert_eq!(p.load_resource_per_byte, 2);
    assert_eq!(p.native_call_base, 10);
}

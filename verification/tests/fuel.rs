use wasm_preparse::fuel::{FuelExhausted, FuelMeter};

#[test]
fn consume_pays_from_the_budget() {
    let mut meter = FuelMeter::new(1000);
    assert_eq!(meter.consume(1), Ok(999));
    assert_eq!(meter.consume(0), Ok(999));
    assert_eq!(meter.consume(900), Ok(99));
    assert_eq!(meter.remaining(), 99);
    assert_eq!(meter.consume(99), Ok(0));
    assert_eq!(meter.remaining(), 0);
}

#[test]
fn consume_beyond_the_budget_drains_it() {
    let mut meter = FuelMeter::new(10);
    assert_eq!(meter.consume(11), Err(FuelExhausted));
    assert_eq!(meter.remaining(), 0);
    assert_eq!(meter.consume(1), Err(FuelExhausted));
    assert_eq!(meter.consume(0), Ok(0));
}

#[test]
fn exhausted_meter_is_refilled_and_used_again() {
    let mut meter = FuelMeter::new(5);
    assert_eq!(meter.consume(6), Err(FuelExhausted));
    meter.set_fuel(20);
    assert_eq!(meter.remaining(), 20);
    assert_eq!(meter.consume(6), Ok(14));
}

#[test]
fn set_fuel_replaces_what_was_left() {
    let mut meter = FuelMeter::new(u64::MAX);
    assert_eq!(meter.consume(u64::MAX), Ok(0));
    meter.set_fuel(7);
    meter.set_fuel(3);
    assert_eq!(meter.remaining(), 3);
}

#[test]
fn same_budget_and_same_payments_leave_the_same_fuel() {
    let payments = [3u64, 40, 0, 500, 7];
    let mut left = Vec::new();
    for _ in 0..2 {
        let mut meter = FuelMeter::new(1000);
        for payment in payments {
            let before = meter.remaining();
            let _ = meter.consume(payment);
            assert!(meter.remaining() <= before);
        }
        left.push(meter.remaining());
    }
    assert_eq!(left, vec![450, 450]);
}

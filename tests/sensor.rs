use inclinometer::bus::{BusError, RawBus, Reading, TracedBus};
use inclinometer::driver::AccelerometerDriver;
use inclinometer::orchestrator::{Orchestrator, Phase, PowerState, SAMPLE_INTERVAL_MS};

#[derive(Debug, Clone, PartialEq)]
enum Op {
    Write(u8, u8, u8),
    Read(u8, u8),
}

/// A bus that records every transaction and fails the ones whose index
/// (counted from zero over all transactions) is listed.
#[derive(Default)]
struct MockBus {
    ops: Vec<Op>,
    fail_at: Vec<usize>,
    readings: Vec<Reading>,
    next_reading: usize,
    write_error: Option<BusError>,
}

impl MockBus {
    fn failing_at(fail_at: Vec<usize>) -> Self {
        MockBus { fail_at, ..Default::default() }
    }

    fn with_readings(readings: Vec<Reading>, fail_at: Vec<usize>) -> Self {
        MockBus { readings, fail_at, ..Default::default() }
    }

    fn fails_now(&self) -> bool {
        self.fail_at.contains(&self.ops.len())
    }
}

impl RawBus for MockBus {
    fn write(&mut self, address: u8, register: u8, value: u8) -> Result<(), BusError> {
        let fail = self.fails_now();
        self.ops.push(Op::Write(address, register, value));
        if fail {
            Err(self.write_error.unwrap_or(BusError::NoAcknowledge))
        } else {
            Ok(())
        }
    }

    fn write_read(&mut self, address: u8, register: u8) -> Result<Reading, BusError> {
        let fail = self.fails_now();
        self.ops.push(Op::Read(address, register));
        let r = self.readings.get(self.next_reading).copied().unwrap_or([0xAA; 6]);
        self.next_reading += 1;
        if fail {
            Err(BusError::ArbitrationLoss)
        } else {
            Ok(r)
        }
    }
}

const SLEEP: Op = Op::Write(0x4c, 0x07, 0x00);
const WAKE: Op = Op::Write(0x4c, 0x07, 0x01);
const FILTER: Op = Op::Write(0x4c, 0x20, 0b0000_1101);
const RATE: Op = Op::Write(0x4c, 0x08, 0x00);
const DECIMATION: Op = Op::Write(0x4c, 0x30, 0x00);
const READ: Op = Op::Read(0x4c, 0x0d);

fn driver(bus: MockBus) -> AccelerometerDriver<TracedBus<MockBus>> {
    AccelerometerDriver::new(TracedBus::new(bus))
}

fn reading(n: u8) -> Reading {
    [n, n + 1, n + 2, n + 3, n + 4, n + 5]
}

#[test]
fn sleep_writes_power_register_zero() {
    let mut d = driver(MockBus::default());
    assert_eq!(d.sleep(), Ok(()));
    assert_eq!(d.bus().raw().ops, vec![SLEEP]);
}

#[test]
fn wake_writes_power_register_one() {
    let mut d = driver(MockBus::default());
    assert_eq!(d.wake(), Ok(()));
    assert_eq!(d.release().raw().ops, vec![WAKE]);
}

#[test]
fn configure_writes_filter_rate_decimation_in_order() {
    let mut d = driver(MockBus::default());
    assert_eq!(d.configure(), Ok(()));
    assert_eq!(d.bus().raw().ops, vec![FILTER, RATE, DECIMATION]);
}

#[test]
fn configure_stops_at_failed_write() {
    let mut d = driver(MockBus::failing_at(vec![1]));
    assert_eq!(d.configure(), Err(BusError::NoAcknowledge));
    assert_eq!(d.bus().raw().ops, vec![FILTER, RATE]);
}

#[test]
fn reset_sleeps_configures_then_wakes() {
    let mut d = driver(MockBus::default());
    assert_eq!(d.reset(), Ok(()));
    assert_eq!(d.bus().raw().ops, vec![SLEEP, FILTER, RATE, DECIMATION, WAKE]);
}

#[test]
fn reset_failing_sleep_attempts_nothing_more() {
    let mut d = driver(MockBus::failing_at(vec![0]));
    assert_eq!(d.reset(), Err(BusError::NoAcknowledge));
    assert_eq!(d.bus().raw().ops, vec![SLEEP]);
}

#[test]
fn reset_failing_configure_does_not_wake() {
    let mut d = driver(MockBus::failing_at(vec![3]));
    assert_eq!(d.reset(), Err(BusError::NoAcknowledge));
    assert_eq!(d.bus().raw().ops, vec![SLEEP, FILTER, RATE, DECIMATION]);
}

#[test]
fn reset_failing_wake_reports_once() {
    let mut d = driver(MockBus::failing_at(vec![4]));
    assert_eq!(d.reset(), Err(BusError::NoAcknowledge));
    assert_eq!(d.bus().raw().ops, vec![SLEEP, FILTER, RATE, DECIMATION, WAKE]);
}

#[test]
fn read_xyz_returns_the_six_bytes() {
    let mut d = driver(MockBus::with_readings(vec![reading(10)], vec![]));
    assert_eq!(d.read_xyz(), Ok(reading(10)));
    assert_eq!(d.bus().raw().ops, vec![READ]);
}

#[test]
fn read_xyz_surfaces_bus_error() {
    let mut d = driver(MockBus::with_readings(vec![reading(10)], vec![0]));
    assert_eq!(d.read_xyz(), Err(BusError::ArbitrationLoss));
    assert_eq!(d.bus().raw().ops, vec![READ]);
}

fn serving(bus: MockBus) -> Orchestrator<TracedBus<MockBus>> {
    let mut o = Orchestrator::new(driver(bus));
    o.start();
    assert_eq!(o.connected(), Ok(()));
    o
}

#[test]
fn boot_state_is_idle_and_asleep() {
    let o = Orchestrator::new(driver(MockBus::default()));
    assert_eq!(o.phase(), Phase::Idle);
    assert_eq!(o.power(), PowerState::Asleep);
    assert_eq!(SAMPLE_INTERVAL_MS, 33);
}

#[test]
fn connection_resets_sensor_and_serves() {
    let mut o = Orchestrator::new(driver(MockBus::default()));
    o.start();
    assert_eq!(o.phase(), Phase::Advertising);
    assert_eq!(o.power(), PowerState::Asleep);
    assert_eq!(o.connected(), Ok(()));
    assert_eq!(o.phase(), Phase::Serving);
    assert_eq!(o.power(), PowerState::ConfiguredAwake);
    assert_eq!(o.driver().bus().raw().ops, vec![SLEEP, FILTER, RATE, DECIMATION, WAKE]);
}

#[test]
fn failed_reset_on_connection_halts() {
    let mut o = Orchestrator::new(driver(MockBus::failing_at(vec![2])));
    o.start();
    assert_eq!(o.connected(), Err(BusError::NoAcknowledge));
    assert_eq!(o.phase(), Phase::Halted);
    assert_eq!(o.sample(), None);
    assert_eq!(o.driver().bus().raw().ops, vec![SLEEP, FILTER, RATE]);
}

#[test]
fn failed_read_publishes_sentinel_and_keeps_serving() {
    let mut o = serving(MockBus::with_readings(vec![reading(1)], vec![5]));
    assert_eq!(o.sample(), Some([0; 6]));
    assert_eq!(o.phase(), Phase::Serving);
    assert_eq!(o.power(), PowerState::ConfiguredAwake);
    assert_eq!(o.sample(), Some([0xAA; 6]));
}

#[test]
fn error_on_second_of_five_samples() {
    let readings = vec![reading(1), reading(11), reading(21), reading(31), reading(41)];
    // transactions 0..=4 are the reset; the reads are 5..=9
    let mut o = serving(MockBus::with_readings(readings, vec![6]));
    let published: Vec<Reading> = (0..5).map(|_| o.sample().unwrap()).collect();
    assert_eq!(published, vec![reading(1), [0; 6], reading(21), reading(31), reading(41)]);
    assert_eq!(o.phase(), Phase::Serving);
}

#[test]
fn disconnect_mid_cycle_sleeps_and_readvertises() {
    let mut o = serving(MockBus::with_readings(vec![reading(1), reading(2)], vec![]));
    assert_eq!(o.sample(), Some(reading(1)));
    assert_eq!(o.disconnected(), Ok(()));
    assert_eq!(o.phase(), Phase::Advertising);
    assert_eq!(o.power(), PowerState::Asleep);
    assert_eq!(o.sample(), None);
    let ops = &o.driver().bus().raw().ops;
    assert_eq!(ops.len(), 7);
    assert_eq!(ops[5], READ);
    assert_eq!(ops[6], SLEEP);
}

#[test]
fn failed_sleep_on_disconnect_halts() {
    let mut o = serving(MockBus::failing_at(vec![5]));
    assert_eq!(o.disconnected(), Err(BusError::NoAcknowledge));
    assert_eq!(o.phase(), Phase::Halted);
    assert_eq!(o.sample(), None);
}

#[test]
fn advertising_failure_halts_before_any_connection() {
    let mut o = Orchestrator::new(driver(MockBus::default()));
    o.start();
    o.advertising_failed();
    assert_eq!(o.phase(), Phase::Halted);
    assert_eq!(o.power(), PowerState::Asleep);
    assert_eq!(o.sample(), None);
    assert!(o.driver().bus().raw().ops.is_empty());
}

#[test]
fn power_follows_many_connection_cycles() {
    let mut o = Orchestrator::new(driver(MockBus::default()));
    assert_eq!(o.power(), PowerState::Asleep);
    o.start();
    for _ in 0..4 {
        assert_eq!(o.phase(), Phase::Advertising);
        assert_eq!(o.power(), PowerState::Asleep);
        assert_eq!(o.connected(), Ok(()));
        assert_eq!(o.power(), PowerState::ConfiguredAwake);
        assert!(o.sample().is_some());
        assert_eq!(o.disconnected(), Ok(()));
    }
    assert_eq!(o.power(), PowerState::Asleep);
    assert_eq!(o.driver().bus().raw().ops.len(), 4 * 7);
}

#[test]
fn sample_before_connection_touches_no_bus() {
    let mut o = Orchestrator::new(driver(MockBus::default()));
    assert_eq!(o.sample(), None);
    o.start();
    assert_eq!(o.sample(), None);
    assert!(o.driver().bus().raw().ops.is_empty());
}

#[test]
fn reset_returns_the_failing_writes_own_error() {
    let bus = MockBus { fail_at: vec![2], write_error: Some(BusError::Transport), ..Default::default() };
    let mut d = driver(bus);
    assert_eq!(d.reset(), Err(BusError::Transport));
    assert_eq!(d.bus().raw().ops, vec![SLEEP, FILTER, RATE]);
}

#[test]
fn sleep_returns_the_writes_own_error() {
    let bus = MockBus { fail_at: vec![0], write_error: Some(BusError::ArbitrationLoss), ..Default::default() };
    let mut d = driver(bus);
    assert_eq!(d.sleep(), Err(BusError::ArbitrationLoss));
    assert_eq!(d.bus().raw().ops, vec![SLEEP]);
}

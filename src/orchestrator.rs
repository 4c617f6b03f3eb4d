//! The connection lifecycle: advertise, accept one peer, power the sensor up,
//! sample while the peer stays, power the sensor down, advertise again.
//!
//! The waiting (for a peer, for the next sample time, for protocol events)
//! happens outside; each method here is the decision taken on one event.
use vstd::prelude::*;

use crate::bus::{BusError, Reading, RegisterBus, Transfer};
use crate::driver::{
    extends_by_plan, reset_plan, sleep_plan, write_transfer, AccelerometerDriver, ADDRESS,
    REG_OUTPUT,
};

verus! {

/// Milliseconds between two samples while a peer is connected.
pub const SAMPLE_INTERVAL_MS: u64 = 33;

/// Where the lifecycle stands.
#[derive(Clone, Copy, Debug, PartialEq, Eq, Structural)]
pub enum Phase {
    /// Not yet advertising.
    Idle,
    /// Advertising, waiting for a peer.
    Advertising,
    /// A peer is connected and the sensor is running.
    Serving,
    /// A fatal failure stopped the lifecycle.
    Halted,
}

/// Power state of the accelerometer.
#[derive(Clone, Copy, Debug, PartialEq, Eq, Structural)]
pub enum PowerState {
    Asleep,
    ConfiguredAwake,
}

/// The abstract state of the lifecycle.
pub struct Status {
    pub phase: Phase,
    pub power: PowerState,
}

/// What happens to the lifecycle from outside.
pub enum Event {
    /// The device starts advertising.
    Start,
    /// Advertising could not be set up.
    AdvertisingFailed,
    /// A peer connected; `sensor_ok` is whether powering the sensor up succeeded.
    Connect { sensor_ok: bool },
    /// The peer went away; `sensor_ok` is whether putting the sensor to sleep succeeded.
    Disconnect { sensor_ok: bool },
}

/// State at boot: idle, sensor asleep.
pub open spec fn initial_status() -> Status {
    Status { phase: Phase::Idle, power: PowerState::Asleep }
}

/// The state after event `e` in state `s`; an event that does not apply to
/// the current phase leaves the state as it is.
pub open spec fn next_status(s: Status, e: Event) -> Status {
    match e {
        Event::Start => if s.phase is Idle {
            Status { phase: Phase::Advertising, ..s }
        } else {
            s
        },
        Event::AdvertisingFailed => if s.phase is Advertising {
            Status { phase: Phase::Halted, ..s }
        } else {
            s
        },
        Event::Connect { sensor_ok } => if s.phase is Advertising {
            if sensor_ok {
                Status { phase: Phase::Serving, power: PowerState::ConfiguredAwake }
            } else {
                Status { phase: Phase::Halted, ..s }
            }
        } else {
            s
        },
        Event::Disconnect { sensor_ok } => if s.phase is Serving {
            if sensor_ok {
                Status { phase: Phase::Advertising, power: PowerState::Asleep }
            } else {
                Status { phase: Phase::Halted, ..s }
            }
        } else {
            s
        },
    }
}

/// The state after the events `es`, in order, starting from `s`.
pub open spec fn run_events(s: Status, es: Seq<Event>) -> Status
    decreases es.len(),
{
    if es.len() == 0 {
        s
    } else {
        run_events(next_status(s, es[0]), es.drop_first())
    }
}

/// The sensor is awake exactly while a peer is connected: awake when
/// serving, asleep when idle or advertising.
pub open spec fn power_matches_connection(s: Status) -> bool {
    &&& s.phase is Serving ==> s.power is ConfiguredAwake
    &&& (s.phase is Idle || s.phase is Advertising) ==> s.power is Asleep
}

/// The all-zero reading published in place of one that could not be read.
pub open spec fn is_sentinel(r: Reading) -> bool {
    forall|i: int| 0 <= i < 6 ==> r[i] == 0
}

/// The reading published for a read with outcome `outcome`: the bytes read,
/// or the sentinel when the read failed.
pub open spec fn publishes(outcome: Result<Reading, BusError>, r: Reading) -> bool {
    match outcome {
        Ok(x) => r == x,
        Err(_) => is_sentinel(r),
    }
}

/// Whether `t` is the six-byte read of the output registers, as `sample` issues it.
pub open spec fn is_output_read(t: Transfer) -> bool {
    t matches Transfer::Read { address, register, .. } && address == ADDRESS && register == REG_OUTPUT
}

/// The records of the writes of `plan`, each of them successful.
pub open spec fn successful_writes(plan: Seq<(u8, u8)>) -> Seq<Transfer> {
    plan.map_values(|w: (u8, u8)| write_transfer(w, Ok(())))
}

/// Owner of the sensor driver across connection cycles.
pub struct Orchestrator<B: RegisterBus> {
    driver: AccelerometerDriver<B>,
    phase: Phase,
    power: PowerState,
}

impl<B: RegisterBus> Orchestrator<B> {
    /// The abstract state.
    pub closed spec fn status(&self) -> Status {
        Status { phase: self.phase, power: self.power }
    }

    /// Every bus transaction that the sensor driver has issued.
    pub closed spec fn transfers(&self) -> Seq<Transfer> {
        self.driver.transfers()
    }

    /// The power state follows the connection (outside a halt).
    pub open spec fn wf(&self) -> bool {
        power_matches_connection(self.status())
    }

    /// A lifecycle at boot over `driver`.
    pub fn new(driver: AccelerometerDriver<B>) -> (o: Self)
        ensures
            o.status() == initial_status(),
            o.transfers() == driver.transfers(),
            o.wf(),
    {
        Orchestrator { driver, phase: Phase::Idle, power: PowerState::Asleep }
    }

    /// Current phase.
    pub fn phase(&self) -> (r: Phase)
        ensures
            r == self.status().phase,
    {
        self.phase
    }

    /// Current power state of the sensor.
    pub fn power(&self) -> (r: PowerState)
        ensures
            r == self.status().power,
    {
        self.power
    }

    /// The sensor driver.
    pub fn driver(&self) -> (r: &AccelerometerDriver<B>)
        ensures
            r.transfers() == self.transfers(),
    {
        &self.driver
    }

    /// Leaves `Idle` for `Advertising`.
    pub fn start(&mut self)
        requires
            old(self).status().phase is Idle,
        ensures
            final(self).status() == next_status(old(self).status(), Event::Start),
            final(self).transfers() == old(self).transfers(),
            old(self).wf() ==> final(self).wf(),
    {
        self.phase = Phase::Advertising;
    }

    /// Advertising could not be set up: the lifecycle halts.
    pub fn advertising_failed(&mut self)
        requires
            old(self).status().phase is Advertising,
        ensures
            final(self).status() == next_status(old(self).status(), Event::AdvertisingFailed),
            final(self).transfers() == old(self).transfers(),
            old(self).wf() ==> final(self).wf(),
    {
        self.phase = Phase::Halted;
    }

    /// A peer connected: the sensor is reset (sleep, configure, wake). On
    /// success the lifecycle serves the peer with the sensor awake; a bus
    /// failure halts it and is returned.
    pub fn connected(&mut self) -> (r: Result<(), BusError>)
        requires
            old(self).status().phase is Advertising,
        ensures
            final(self).status() == next_status(old(self).status(), Event::Connect { sensor_ok: r is Ok }),
            extends_by_plan(old(self).transfers(), final(self).transfers(), reset_plan(), r),
            old(self).wf() ==> final(self).wf(),
    {
        let r = self.driver.reset();
        match r {
            Ok(()) => {
                self.phase = Phase::Serving;
                self.power = PowerState::ConfiguredAwake;
            },
            Err(_) => {
                self.phase = Phase::Halted;
            },
        }
        r
    }

    /// One sample while serving: reads the sensor and returns the reading to
    /// publish, the all-zero sentinel if the read failed. A failed read
    /// changes nothing else. Outside `Serving` nothing is read and nothing
    /// is returned.
    pub fn sample(&mut self) -> (r: Option<Reading>)
        ensures
            final(self).status() == old(self).status(),
            old(self).status().phase is Serving ==> {
                &&& final(self).transfers().len() == old(self).transfers().len() + 1
                &&& final(self).transfers().drop_last() == old(self).transfers()
                &&& final(self).transfers().last() matches Transfer::Read { address, register, outcome }
                &&& address == ADDRESS
                &&& register == REG_OUTPUT
                &&& r matches Some(v)
                &&& publishes(outcome, v)
            },
            old(self).status().phase !is Serving ==> r is None && final(self).transfers() == old(self).transfers(),
    {
        if self.phase == Phase::Serving {
            let outcome = self.driver.read_xyz();
            let reading = match outcome {
                Ok(x) => x,
                Err(_) => [0u8; 6],
            };
            proof {
                assert(self.transfers().drop_last() =~= old(self).transfers());
            }
            Some(reading)
        } else {
            None
        }
    }

    /// The peer went away: the sensor is put to sleep. On success the
    /// lifecycle advertises again with the sensor asleep; a bus failure halts
    /// it and is returned.
    pub fn disconnected(&mut self) -> (r: Result<(), BusError>)
        requires
            old(self).status().phase is Serving,
        ensures
            final(self).status() == next_status(old(self).status(), Event::Disconnect { sensor_ok: r is Ok }),
            extends_by_plan(old(self).transfers(), final(self).transfers(), sleep_plan(), r),
            old(self).wf() ==> final(self).wf(),
    {
        let r = self.driver.sleep();
        match r {
            Ok(()) => {
                self.phase = Phase::Advertising;
                self.power = PowerState::Asleep;
            },
            Err(_) => {
                self.phase = Phase::Halted;
            },
        }
        r
    }
}

} // verus!

verus! {

/// Keeping the power state in step with the connection survives any one event.
proof fn lemma_step_keeps_power_matched(s: Status, e: Event)
    requires
        power_matches_connection(s),
    ensures
        power_matches_connection(next_status(s, e)),
{
}

/// Across any number of connect and disconnect cycles, starting from any
/// state in which it holds, the sensor stays awake exactly while a peer is
/// connected: never awake while idle or advertising, never asleep while
/// serving.
pub proof fn lemma_power_follows_connection(s: Status, events: Seq<Event>)
    requires
        power_matches_connection(s),
    ensures
        power_matches_connection(run_events(s, events)),
    decreases events.len(),
{
    if events.len() > 0 {
        lemma_step_keeps_power_matched(s, events[0]);
        lemma_power_follows_connection(next_status(s, events[0]), events.drop_first());
    }
}

/// From boot, whatever events follow, the sensor is awake exactly while a
/// peer is connected.
pub proof fn lemma_power_follows_connection_from_boot(events: Seq<Event>)
    ensures
        power_matches_connection(run_events(initial_status(), events)),
{
    lemma_power_follows_connection(initial_status(), events);
}

/// Once the peer is gone, whether or not the sensor went to sleep, the
/// lifecycle does not serve again until a new peer connects; `sample` outside
/// `Serving` reads and publishes nothing.
pub proof fn lemma_no_sample_after_disconnect(s: Status, sensor_ok: bool, events: Seq<Event>)
    requires
        s.phase is Serving,
        forall|i: int| 0 <= i < events.len() ==> !(#[trigger] events[i] is Connect),
    ensures
        !(run_events(next_status(s, Event::Disconnect { sensor_ok }), events).phase is Serving),
{
    lemma_never_serves_without_connect(next_status(s, Event::Disconnect { sensor_ok }), events);
}

proof fn lemma_never_serves_without_connect(s: Status, events: Seq<Event>)
    requires
        !(s.phase is Serving),
        forall|i: int| 0 <= i < events.len() ==> !(#[trigger] events[i] is Connect),
    ensures
        !(run_events(s, events).phase is Serving),
    decreases events.len(),
{
    if events.len() > 0 {
        assert(!(events[0] is Connect));
        let rest = events.drop_first();
        assert forall|i: int| 0 <= i < rest.len() implies !(#[trigger] rest[i] is Connect) by {
            assert(rest[i] == events[i + 1]);
        }
        lemma_never_serves_without_connect(next_status(s, events[0]), rest);
    }
}

/// A halt is final: no later event, a connecting peer included, moves the
/// lifecycle out of it.
pub proof fn lemma_halt_is_final(s: Status, events: Seq<Event>)
    requires
        s.phase is Halted,
    ensures
        run_events(s, events) == s,
    decreases events.len(),
{
    if events.len() > 0 {
        lemma_halt_is_final(next_status(s, events[0]), events.drop_first());
    }
}

} // verus!

verus! {

/// The bus traffic of a connection cycle whose writes all succeeded (a
/// successful `connected`, any number of `sample` calls, a successful
/// `disconnected`) is the reset writes, then only output reads, then the
/// sleep write: no power-register write comes between the wake and the
/// closing sleep, so the sensor is awake for the whole time it is sampled.
pub proof fn lemma_cycle_traffic(t0: Seq<Transfer>, t1: Seq<Transfer>, t2: Seq<Transfer>, t3: Seq<Transfer>)
    requires
        extends_by_plan(t0, t1, reset_plan(), Ok(())),
        t1.len() <= t2.len(),
        t2.subrange(0, t1.len() as int) == t1,
        forall|i: int| t1.len() <= i < t2.len() ==> is_output_read(#[trigger] t2[i]),
        extends_by_plan(t2, t3, sleep_plan(), Ok(())),
    ensures
        t3.subrange(t0.len() as int, t3.len() as int) == successful_writes(reset_plan()) + t2.subrange(
            t1.len() as int,
            t2.len() as int,
        ) + successful_writes(sleep_plan()),
{
    let a = successful_writes(reset_plan());
    let b = t2.subrange(t1.len() as int, t2.len() as int);
    let c = successful_writes(sleep_plan());
    let d = t3.subrange(t0.len() as int, t3.len() as int);
    let d1 = t1.subrange(t0.len() as int, t1.len() as int);
    let d3 = t3.subrange(t2.len() as int, t3.len() as int);
    assert(reset_plan().len() == 5);
    assert(d1.len() == 5);
    assert forall|i: int| 0 <= i < 5 implies d1[i] == #[trigger] a[i] by {
        if i < 4 {
            assert(d1[i] == write_transfer(reset_plan()[i], Ok(())));
        }
    }
    assert(d3.len() == 1);
    assert(d3[0] == c[0]);
    assert forall|i: int| 0 <= i < d.len() implies d[i] == #[trigger] (a + b + c)[i] by {
        if i < 5 {
            assert(d[i] == t1[t0.len() + i]);
            assert(d[i] == d1[i]);
        } else if i < 5 + b.len() {
            assert(d[i] == t2[t0.len() + i]);
        } else {
            assert(d[i] == d3[0]);
        }
    }
    assert(d =~= a + b + c);
}

} // verus!

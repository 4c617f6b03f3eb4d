//! Command wrapper for the accelerometer at a fixed two-wire bus address.
use vstd::prelude::*;

use crate::bus::{BusError, Reading, RegisterBus, Transfer};

verus! {

/// Bus address of the accelerometer.
pub const ADDRESS: u8 = 0x4c;
/// Power-mode register: 0 puts the device to sleep, 1 wakes it.
pub const REG_POWER: u8 = 0x07;
/// Low-pass filter register.
pub const REG_LOW_PASS: u8 = 0x20;
/// Internal sample-rate register.
pub const REG_SAMPLE_RATE: u8 = 0x08;
/// Decimation register.
pub const REG_DECIMATION: u8 = 0x30;
/// First of the six output registers.
pub const REG_OUTPUT: u8 = 0x0d;

/// Power-register value that stops sampling.
pub const POWER_SLEEP: u8 = 0x00;
/// Power-register value that resumes sampling.
pub const POWER_WAKE: u8 = 0x01;
/// Low-pass filter setting.
pub const LOW_PASS_FILTER: u8 = 0b0000_1101;
/// Fastest internal sample rate.
pub const SAMPLE_RATE_FASTEST: u8 = 0x00;
/// No decimation.
pub const DECIMATION_NONE: u8 = 0b00;

/// The writes of `sleep`.
pub open spec fn sleep_plan() -> Seq<(u8, u8)> {
    seq![(REG_POWER, POWER_SLEEP)]
}

/// The writes of `wake`.
pub open spec fn wake_plan() -> Seq<(u8, u8)> {
    seq![(REG_POWER, POWER_WAKE)]
}

/// The writes of `configure`, in order: filter, sample rate, decimation.
pub open spec fn configure_plan() -> Seq<(u8, u8)> {
    seq![
        (REG_LOW_PASS, LOW_PASS_FILTER),
        (REG_SAMPLE_RATE, SAMPLE_RATE_FASTEST),
        (REG_DECIMATION, DECIMATION_NONE),
    ]
}

/// The writes of `reset`: sleep, then configure, then wake.
pub open spec fn reset_plan() -> Seq<(u8, u8)> {
    sleep_plan() + configure_plan() + wake_plan()
}

/// The transfer record of writing `w` to the accelerometer with result `outcome`.
pub open spec fn write_transfer(w: (u8, u8), outcome: Result<(), BusError>) -> Transfer {
    Transfer::Write { address: ADDRESS, register: w.0, value: w.1, outcome }
}

/// `done` is what running the writes of `plan` in order, stopping at the
/// first failure, issued on the bus; `r` is the result of the run. Every
/// write before the last one issued succeeded; the result is the last write's
/// own result, and a successful run issued the whole plan.
pub open spec fn runs_plan(plan: Seq<(u8, u8)>, done: Seq<Transfer>, r: Result<(), BusError>) -> bool {
    &&& 0 < done.len() <= plan.len()
    &&& forall|i: int| 0 <= i < done.len() - 1 ==> done[i] == write_transfer(#[trigger] plan[i], Ok(()))
    &&& done.last() == write_transfer(plan[done.len() - 1], r)
    &&& r is Ok ==> done.len() == plan.len()
}

/// `after` extends `before` by exactly the transfers that running `plan` issues.
pub open spec fn extends_by_plan(
    before: Seq<Transfer>,
    after: Seq<Transfer>,
    plan: Seq<(u8, u8)>,
    r: Result<(), BusError>,
) -> bool {
    &&& before.len() < after.len()
    &&& after.subrange(0, before.len() as int) == before
    &&& runs_plan(plan, after.subrange(before.len() as int, after.len() as int), r)
}

/// Driver for the accelerometer behind a two-wire bus.
///
/// It holds no device state of its own: what it has done is the record of
/// the bus it talks through.
pub struct AccelerometerDriver<B: RegisterBus> {
    bus: B,
}

impl<B: RegisterBus> AccelerometerDriver<B> {
    /// Every transaction carried out on the bus so far, oldest first.
    pub closed spec fn transfers(&self) -> Seq<Transfer> {
        self.bus.transfers()
    }

    /// The bus that the driver talks through.
    pub closed spec fn bus_spec(&self) -> B {
        self.bus
    }

    /// A driver over `bus` that has issued nothing yet.
    pub fn new(bus: B) -> (d: Self)
        ensures
            d.transfers() == bus.transfers(),
            d.bus_spec() == bus,
    {
        AccelerometerDriver { bus }
    }

    /// The bus that the driver talks through.
    pub fn bus(&self) -> (r: &B)
        ensures
            *r == self.bus_spec(),
    {
        &self.bus
    }

    /// Gives the bus back.
    pub fn release(self) -> (r: B)
        ensures
            r == self.bus_spec(),
    {
        self.bus
    }

    fn write(&mut self, register: u8, value: u8) -> (r: Result<(), BusError>)
        ensures
            final(self).transfers() == old(self).transfers().push(write_transfer((register, value), r)),
    {
        self.bus.write_register(ADDRESS, register, value)
    }

    /// Puts the device to sleep (power register = 0).
    pub fn sleep(&mut self) -> (r: Result<(), BusError>)
        ensures
            extends_by_plan(old(self).transfers(), final(self).transfers(), sleep_plan(), r),
    {
        let r = self.write(REG_POWER, POWER_SLEEP);
        proof { lemma_single_write(old(self).transfers(), self.transfers(), sleep_plan(), r); }
        r
    }

    /// Wakes the device (power register = 1).
    pub fn wake(&mut self) -> (r: Result<(), BusError>)
        ensures
            extends_by_plan(old(self).transfers(), final(self).transfers(), wake_plan(), r),
    {
        let r = self.write(REG_POWER, POWER_WAKE);
        proof { lemma_single_write(old(self).transfers(), self.transfers(), wake_plan(), r); }
        r
    }

    /// Writes the low-pass filter, sample-rate and decimation registers, in
    /// that order, stopping at the first write that fails.
    pub fn configure(&mut self) -> (r: Result<(), BusError>)
        ensures
            extends_by_plan(old(self).transfers(), final(self).transfers(), configure_plan(), r),
    {
        let ghost t0 = self.transfers();
        let ghost p1 = seq![(REG_LOW_PASS, LOW_PASS_FILTER)];
        let ghost p2 = seq![(REG_SAMPLE_RATE, SAMPLE_RATE_FASTEST)];
        let ghost p3 = seq![(REG_DECIMATION, DECIMATION_NONE)];
        proof { assert(configure_plan() =~= p1 + p2 + p3); }
        let r1 = self.write(REG_LOW_PASS, LOW_PASS_FILTER);
        let ghost t1 = self.transfers();
        proof { lemma_single_write(t0, t1, p1, r1); }
        if let Err(_) = r1 {
            proof { lemma_plan_stops(t0, t1, p1, p2 + p3, r1); assert(p1 + (p2 + p3) =~= configure_plan()); }
            return r1;
        }
        let r2 = self.write(REG_SAMPLE_RATE, SAMPLE_RATE_FASTEST);
        let ghost t2 = self.transfers();
        proof {
            assert(r1->Ok_0 == ());
            assert(r1 == Ok::<(), BusError>(()));
            lemma_single_write(t1, t2, p2, r2);
            lemma_plans_chain(t0, t1, t2, p1, p2, r2);
        }
        if let Err(_) = r2 {
            proof { lemma_plan_stops(t0, t2, p1 + p2, p3, r2); }
            return r2;
        }
        let r3 = self.write(REG_DECIMATION, DECIMATION_NONE);
        proof {
            assert(r2->Ok_0 == ());
            assert(r2 == Ok::<(), BusError>(()));
            lemma_single_write(t2, self.transfers(), p3, r3);
            lemma_plans_chain(t0, t2, self.transfers(), p1 + p2, p3, r3);
        }
        r3
    }

    /// Puts the device to sleep, configures it, then wakes it, in that order;
    /// the first step that fails ends the sequence and its error is returned.
    pub fn reset(&mut self) -> (r: Result<(), BusError>)
        ensures
            extends_by_plan(old(self).transfers(), final(self).transfers(), reset_plan(), r),
    {
        let ghost t0 = self.transfers();
        let r1 = self.sleep();
        let ghost t1 = self.transfers();
        if let Err(_) = r1 {
            proof { lemma_plan_stops(t0, t1, sleep_plan(), configure_plan() + wake_plan(), r1); }
            assert(sleep_plan() + (configure_plan() + wake_plan()) =~= reset_plan());
            return r1;
        }
        let r2 = self.configure();
        let ghost t2 = self.transfers();
        proof {
            assert(r1->Ok_0 == ());
            assert(r1 == Ok::<(), BusError>(()));
            lemma_plans_chain(t0, t1, t2, sleep_plan(), configure_plan(), r2);
        }
        if let Err(_) = r2 {
            proof { lemma_plan_stops(t0, t2, sleep_plan() + configure_plan(), wake_plan(), r2); }
            return r2;
        }
        let r3 = self.wake();
        proof {
            assert(r2->Ok_0 == ());
            assert(r2 == Ok::<(), BusError>(()));
            lemma_plans_chain(t0, t2, self.transfers(), sleep_plan() + configure_plan(), wake_plan(), r3);
        }
        r3
    }

    /// Reads the six output registers in one write-then-read transaction.
    pub fn read_xyz(&mut self) -> (r: Result<Reading, BusError>)
        ensures
            final(self).transfers() == old(self).transfers().push(
                Transfer::Read { address: ADDRESS, register: REG_OUTPUT, outcome: r },
            ),
    {
        self.bus.read_registers(ADDRESS, REG_OUTPUT)
    }
}

/// A plan that stopped on a failure is also a failed run of any longer plan
/// that starts with it.
proof fn lemma_plan_stops(
    before: Seq<Transfer>,
    after: Seq<Transfer>,
    plan: Seq<(u8, u8)>,
    rest: Seq<(u8, u8)>,
    r: Result<(), BusError>,
)
    requires
        r is Err,
        extends_by_plan(before, after, plan, r),
    ensures
        extends_by_plan(before, after, plan + rest, r),
{
    let done = after.subrange(before.len() as int, after.len() as int);
    assert forall|i: int| 0 <= i < done.len() implies (plan + rest)[i] == plan[i] by {}
}

/// A successful run of `p1` followed by a run of `p2` is a run of `p1 + p2`.
proof fn lemma_plans_chain(
    t0: Seq<Transfer>,
    t1: Seq<Transfer>,
    t2: Seq<Transfer>,
    p1: Seq<(u8, u8)>,
    p2: Seq<(u8, u8)>,
    r: Result<(), BusError>,
)
    requires
        extends_by_plan(t0, t1, p1, Ok(())),
        extends_by_plan(t1, t2, p2, r),
    ensures
        extends_by_plan(t0, t2, p1 + p2, r),
{
    let d1 = t1.subrange(t0.len() as int, t1.len() as int);
    let d2 = t2.subrange(t1.len() as int, t2.len() as int);
    let d = t2.subrange(t0.len() as int, t2.len() as int);
    assert(d =~= d1 + d2);
    assert(t2.subrange(0, t0.len() as int) =~= t1.subrange(0, t0.len() as int));
    let p = p1 + p2;
    assert(d1.len() == p1.len());
    assert forall|i: int| 0 <= i < d.len() - 1 implies d[i] == write_transfer(#[trigger] p[i], Ok(())) by {
        if i < d1.len() {
            if i < d1.len() - 1 {
                assert(d1[i] == write_transfer(p1[i], Ok(())));
            } else {
                assert(d1[i] == d1.last());
            }
        } else {
            assert(d[i] == d2[i - d1.len()]);
            assert(p[i] == p2[i - p1.len()]);
        }
    }
    assert(d.last() == d2.last());
}

proof fn lemma_single_write(before: Seq<Transfer>, after: Seq<Transfer>, plan: Seq<(u8, u8)>, r: Result<(), BusError>)
    requires
        plan.len() == 1,
        after == before.push(write_transfer(plan[0], r)),
    ensures
        extends_by_plan(before, after, plan, r),
{
    assert(after.subrange(0, before.len() as int) =~= before);
    assert(after.subrange(before.len() as int, after.len() as int) =~= seq![write_transfer(plan[0], r)]);
}

} // verus!

//! The two-wire bus as the sensor driver sees it.
use vstd::prelude::*;

verus! {

/// Six raw output-register bytes of the accelerometer (X, Y and Z as
/// little-endian pairs, undecoded).
pub type Reading = [u8; 6];

/// A transport-level failure on the two-wire bus.
#[derive(Clone, Copy, Debug, PartialEq, Eq, Structural)]
pub enum BusError {
    /// The addressed device (or one of the bytes sent to it) was not acknowledged.
    NoAcknowledge,
    /// Another bus master won arbitration.
    ArbitrationLoss,
    /// Any other transport failure (bus fault, overrun, ...).
    Transport,
}

/// A register-addressed two-wire bus master, as the hardware layer provides it.
///
/// Nothing is assumed about what an implementation returns.
pub trait RawBus {
    /// Writes the two bytes `[register, value]` to the device at `address`.
    fn write(&mut self, address: u8, register: u8, value: u8) -> Result<(), BusError>;

    /// Writes `[register]` to the device at `address`, then reads six bytes back.
    fn write_read(&mut self, address: u8, register: u8) -> Result<Reading, BusError>;
}

/// A register-addressed two-wire bus that keeps a record of its transactions:
/// each call appends exactly what was sent, with the result it returns. What
/// the bus answers is not constrained.
pub trait RegisterBus {
    /// Every transaction carried out on this bus, oldest first.
    spec fn transfers(&self) -> Seq<Transfer>;

    /// Writes the two bytes `[register, value]` to the device at `address`.
    fn write_register(&mut self, address: u8, register: u8, value: u8) -> (r: Result<(), BusError>)
        ensures
            final(self).transfers() == old(self).transfers().push(
                Transfer::Write { address, register, value, outcome: r },
            ),
    ;

    /// Writes `[register]` to the device at `address`, then reads six bytes back.
    fn read_registers(&mut self, address: u8, register: u8) -> (r: Result<Reading, BusError>)
        ensures
            final(self).transfers() == old(self).transfers().push(
                Transfer::Read { address, register, outcome: r },
            ),
    ;
}

/// A raw bus with the record of every transaction passed through it.
pub struct TracedBus<R: RawBus> {
    raw: R,
    transfers: Ghost<Seq<Transfer>>,
}

impl<R: RawBus> TracedBus<R> {
    /// A traced bus over `raw` with nothing recorded yet.
    pub fn new(raw: R) -> (b: Self)
        ensures
            b.transfers() == Seq::<Transfer>::empty(),
            b.raw_spec() == raw,
    {
        TracedBus { raw, transfers: Ghost(Seq::empty()) }
    }

    /// The underlying bus.
    pub closed spec fn raw_spec(&self) -> R {
        self.raw
    }

    /// The underlying bus.
    pub fn raw(&self) -> (r: &R)
        ensures
            *r == self.raw_spec(),
    {
        &self.raw
    }
}

impl<R: RawBus> RegisterBus for TracedBus<R> {
    closed spec fn transfers(&self) -> Seq<Transfer> {
        self.transfers@
    }

    fn write_register(&mut self, address: u8, register: u8, value: u8) -> (r: Result<(), BusError>) {
        let r = self.raw.write(address, register, value);
        proof {
            self.transfers@ = self.transfers@.push(Transfer::Write { address, register, value, outcome: r });
        }
        r
    }

    fn read_registers(&mut self, address: u8, register: u8) -> (r: Result<Reading, BusError>) {
        let r = self.raw.write_read(address, register);
        proof {
            self.transfers@ = self.transfers@.push(Transfer::Read { address, register, outcome: r });
        }
        r
    }
}

/// One bus transaction, with what the bus answered.
#[derive(Clone, Copy, Debug)]
#[allow(inconsistent_fields)]
pub enum Transfer {
    /// A single-register write of `[register, value]` to `address`, and its outcome.
    Write { address: u8, register: u8, value: u8, outcome: Result<(), BusError> },
    /// A write of `[register]` then a read of six bytes from `address`, and its outcome.
    Read { address: u8, register: u8, outcome: Result<Reading, BusError> },
}

} // verus!

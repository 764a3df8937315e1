//! The 14 HUB75 signals and the sequences in which the driver sets them.
//!
//! - **R1, G1, B1**: RGB data for the top half of the panel (rows 0–31)
//! - **R2, G2, B2**: RGB data for the bottom half (rows 32–63)
//! - **A, B, C, D, E**: row address lines (0–31 for 1/32 scan)
//! - **CLK** (clock): each rising edge shifts data one column forward into the
//!   panel's shift registers; a short spin between edges gives the hold time.
//! - **LAT** (latch): transfers the shift-register contents to the output
//!   latches; it needs a longer pulse than CLK.
//! - **OE** (output enable): master LED switch, active low — low turns the LEDs
//!   on, high turns them off.
//!
//! A [`Hub75Pins`] does not own the GPIO lines: it records, in order, each level
//! to drive and each busy-wait to make, and the code that owns the lines performs
//! them (see [`Hub75Pins::take_steps`]).
pub mod panel;

use vstd::prelude::*;

verus! {

/// Number of spin-loop iterations that CLK is held at each level.
pub const CLK_HOLD_SPINS: u32 = 30;

/// Number of spin-loop iterations that LAT is held high.
pub const LATCH_HOLD_SPINS: u32 = 100;

/// One of the 14 HUB75 output signals.
#[derive(Clone, Copy, PartialEq, Eq, Structural, Debug, Hash)]
pub enum Signal {
    R1,
    G1,
    B1,
    R2,
    G2,
    B2,
    A,
    B,
    C,
    D,
    E,
    Clk,
    Lat,
    Oe,
}

/// One thing to do on the GPIO lines: drive a signal high (`true`) or low
/// (`false`), or busy-wait for a number of spin-loop iterations.
#[derive(Clone, Copy, PartialEq, Eq, Structural, Debug)]
pub enum PinStep {
    Drive(Signal, bool),
    Spin(u32),
}

/// The steps that select row pair `row`: address lines A–E take bits 0–4 of `row`.
pub open spec fn address_steps(row: u8) -> Seq<PinStep> {
    Seq::empty().push(PinStep::Drive(Signal::A, row & 0x01 != 0)).push(
        PinStep::Drive(Signal::B, row & 0x02 != 0),
    ).push(PinStep::Drive(Signal::C, row & 0x04 != 0)).push(
        PinStep::Drive(Signal::D, row & 0x08 != 0),
    ).push(PinStep::Drive(Signal::E, row & 0x10 != 0))
}

/// The steps that set the six data lines.
pub open spec fn data_steps(r1: bool, g1: bool, b1: bool, r2: bool, g2: bool, b2: bool) -> Seq<
    PinStep,
> {
    Seq::empty().push(PinStep::Drive(Signal::R1, r1)).push(PinStep::Drive(Signal::G1, g1)).push(
        PinStep::Drive(Signal::B1, b1),
    ).push(PinStep::Drive(Signal::R2, r2)).push(PinStep::Drive(Signal::G2, g2)).push(
        PinStep::Drive(Signal::B2, b2),
    )
}

/// The steps of one CLK pulse: rising edge, hold, falling edge, hold.
pub open spec fn clock_pulse_steps() -> Seq<PinStep> {
    Seq::empty().push(PinStep::Drive(Signal::Clk, true)).push(PinStep::Spin(CLK_HOLD_SPINS)).push(
        PinStep::Drive(Signal::Clk, false),
    ).push(PinStep::Spin(CLK_HOLD_SPINS))
}

/// The steps of one LAT pulse: rising edge, hold, falling edge.
pub open spec fn latch_steps() -> Seq<PinStep> {
    Seq::empty().push(PinStep::Drive(Signal::Lat, true)).push(PinStep::Spin(LATCH_HOLD_SPINS)).push(
        PinStep::Drive(Signal::Lat, false),
    )
}

/// The steps that shift one pixel pair: set the data lines, then pulse CLK.
pub open spec fn pixel_steps(r1: bool, g1: bool, b1: bool, r2: bool, g2: bool, b2: bool) -> Seq<
    PinStep,
> {
    data_steps(r1, g1, b1, r2, g2, b2) + clock_pulse_steps()
}

/// Driver for the 14 HUB75 signals of an RGB LED matrix.
///
/// It holds, in order, the steps that its methods have asked for and that have
/// not yet been taken out to be performed on the GPIO lines.
pub struct Hub75Pins {
    pending: Vec<PinStep>,
}

impl View for Hub75Pins {
    type V = Seq<PinStep>;

    closed spec fn view(&self) -> Seq<PinStep> {
        self.pending@
    }
}

impl Hub75Pins {
    /// Creates a driver with no step pending.
    pub fn new() -> (pins: Self)
        ensures
            pins@ == Seq::<PinStep>::empty(),
    {
        Hub75Pins { pending: Vec::new() }
    }

    /// Hands out the pending steps, in order, and leaves none pending.
    pub fn take_steps(&mut self) -> (steps: Vec<PinStep>)
        ensures
            steps@ == old(self)@,
            final(self)@ == Seq::<PinStep>::empty(),
    {
        let mut steps: Vec<PinStep> = Vec::new();
        core::mem::swap(&mut steps, &mut self.pending);
        steps
    }

    fn drive(&mut self, signal: Signal, high: bool)
        ensures
            final(self)@ == old(self)@.push(PinStep::Drive(signal, high)),
    {
        self.pending.push(PinStep::Drive(signal, high));
    }

    /// Busy-waits for `iterations` spin-loop iterations, to meet the hold times
    /// of CLK and LAT or to keep a row lit. The actual delay depends on the CPU
    /// clock speed.
    pub fn delay_spin(&mut self, iterations: u32)
        ensures
            final(self)@ == old(self)@.push(PinStep::Spin(iterations)),
    {
        self.pending.push(PinStep::Spin(iterations));
    }

    /// Sets the 5 address lines (A–E) to select row pair `row`.
    /// For a 1/32 scan panel `row` ranges from 0 to 31.
    pub fn set_row(&mut self, row: u8)
        ensures
            final(self)@ == old(self)@ + address_steps(row),
    {
        self.drive(Signal::A, row & 0x01 != 0);
        self.drive(Signal::B, row & 0x02 != 0);
        self.drive(Signal::C, row & 0x04 != 0);
        self.drive(Signal::D, row & 0x08 != 0);
        self.drive(Signal::E, row & 0x10 != 0);
        assert(self@ =~= old(self)@ + address_steps(row));
    }

    /// Sets the 6 data lines (R1, G1, B1, R2, G2, B2).
    pub fn set_data(&mut self, r1: bool, g1: bool, b1: bool, r2: bool, g2: bool, b2: bool)
        ensures
            final(self)@ == old(self)@ + data_steps(r1, g1, b1, r2, g2, b2),
    {
        self.drive(Signal::R1, r1);
        self.drive(Signal::G1, g1);
        self.drive(Signal::B1, b1);
        self.drive(Signal::R2, r2);
        self.drive(Signal::G2, g2);
        self.drive(Signal::B2, b2);
        assert(self@ =~= old(self)@ + data_steps(r1, g1, b1, r2, g2, b2));
    }

    /// Generates a CLK pulse (rising then falling edge), holding each level for a
    /// short spin so that the panel's shift register sees the data.
    pub fn pulse_clk(&mut self)
        ensures
            final(self)@ == old(self)@ + clock_pulse_steps(),
    {
        self.drive(Signal::Clk, true);
        self.delay_spin(CLK_HOLD_SPINS);
        self.drive(Signal::Clk, false);
        self.delay_spin(CLK_HOLD_SPINS);
        assert(self@ =~= old(self)@ + clock_pulse_steps());
    }

    /// Generates a LAT pulse that transfers the shift-register contents to the
    /// output latches; the spin is longer than for CLK.
    pub fn latch(&mut self)
        ensures
            final(self)@ == old(self)@ + latch_steps(),
    {
        self.drive(Signal::Lat, true);
        self.delay_spin(LATCH_HOLD_SPINS);
        self.drive(Signal::Lat, false);
        assert(self@ =~= old(self)@ + latch_steps());
    }

    /// Shifts one pixel pair (6 bits) into the shift registers: sets the data
    /// lines, then pulses CLK.
    pub fn shift_pixel(&mut self, r1: bool, g1: bool, b1: bool, r2: bool, g2: bool, b2: bool)
        ensures
            final(self)@ == old(self)@ + pixel_steps(r1, g1, b1, r2, g2, b2),
    {
        self.set_data(r1, g1, b1, r2, g2, b2);
        self.pulse_clk();
        assert(self@ =~= old(self)@ + pixel_steps(r1, g1, b1, r2, g2, b2));
    }

    /// Turns the LEDs off (OE high).
    pub fn oe_off(&mut self)
        ensures
            final(self)@ == old(self)@.push(PinStep::Drive(Signal::Oe, true)),
    {
        self.drive(Signal::Oe, true);
    }

    /// Turns the LEDs on (OE low).
    pub fn oe_on(&mut self)
        ensures
            final(self)@ == old(self)@.push(PinStep::Drive(Signal::Oe, false)),
    {
        self.drive(Signal::Oe, false);
    }
}

} // verus!

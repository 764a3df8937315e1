//! A model of what a HUB75 panel does with the levels driven on its inputs,
//! and what each driver operation does to it.
use vstd::prelude::*;

use crate::hub75::{
    address_steps, clock_pulse_steps, data_steps, latch_steps, pixel_steps, PinStep, Signal,
};

verus! {

/// What one column receives on a clock edge: the (red, green, blue) bits for the
/// top row and for the bottom row of the selected row pair.
pub type PixelBits = ((bool, bool, bool), (bool, bool, bool));

/// A HUB75 panel as its inputs drive it.
pub struct Panel {
    /// The level last driven on each signal; a signal never driven reads low.
    pub lines: Map<Signal, bool>,
    /// Every pixel pair clocked into the shift registers, oldest first.
    pub shifted: Seq<PixelBits>,
    /// For each row address, the pixel pairs last latched for it.
    pub latched: Map<int, Seq<PixelBits>>,
}

/// The last `n` items of `s` (all of them where there are fewer): what a chain
/// of `n` shift registers holds after `s` was clocked in.
pub open spec fn last_n(s: Seq<PixelBits>, n: nat) -> Seq<PixelBits> {
    if s.len() <= n {
        s
    } else {
        s.subrange(s.len() - n, s.len() as int)
    }
}

/// Whether `s` is one of the address lines A–E.
pub open spec fn is_address_signal(s: Signal) -> bool {
    s == Signal::A || s == Signal::B || s == Signal::C || s == Signal::D || s == Signal::E
}

/// Whether `s` is one of the six data lines.
pub open spec fn is_data_signal(s: Signal) -> bool {
    s == Signal::R1 || s == Signal::G1 || s == Signal::B1 || s == Signal::R2 || s == Signal::G2
        || s == Signal::B2
}

impl Panel {
    /// The level of signal `s`.
    pub open spec fn level(self, s: Signal) -> bool {
        self.lines.contains_key(s) && self.lines[s]
    }

    /// The pixel pairs latched for row address `address`, if any were.
    pub open spec fn latched_row(self, address: int) -> Option<Seq<PixelBits>> {
        if self.latched.contains_key(address) {
            Some(self.latched[address])
        } else {
            None
        }
    }

    /// The pixel pair that the data lines present.
    pub open spec fn data(self) -> PixelBits {
        (
            (self.level(Signal::R1), self.level(Signal::G1), self.level(Signal::B1)),
            (self.level(Signal::R2), self.level(Signal::G2), self.level(Signal::B2)),
        )
    }

    /// The row address that lines A (bit 0) to E (bit 4) select.
    pub open spec fn address(self) -> int {
        (if self.level(Signal::A) { 1int } else { 0int }) + (if self.level(Signal::B) {
            2int
        } else {
            0int
        }) + (if self.level(Signal::C) { 4int } else { 0int }) + (if self.level(Signal::D) {
            8int
        } else {
            0int
        }) + (if self.level(Signal::E) { 16int } else { 0int })
    }

    /// The panel after one step, for a chain of `width` columns: a rising edge on
    /// CLK clocks in the pixel pair on the data lines, a rising edge on LAT copies
    /// the shift registers into the row that the address lines select.
    pub open spec fn step(self, step: PinStep, width: nat) -> Panel {
        match step {
            PinStep::Spin(_) => self,
            PinStep::Drive(s, high) => Panel {
                lines: self.lines.insert(s, high),
                shifted: if s == Signal::Clk && high && !self.level(Signal::Clk) {
                    self.shifted.push(self.data())
                } else {
                    self.shifted
                },
                latched: if s == Signal::Lat && high && !self.level(Signal::Lat) {
                    self.latched.insert(self.address(), last_n(self.shifted, width))
                } else {
                    self.latched
                },
            },
        }
    }

    /// The panel after the steps, in order.
    pub open spec fn run(self, steps: Seq<PinStep>, width: nat) -> Panel
        decreases steps.len(),
    {
        if steps.len() == 0 {
            self
        } else {
            self.run(steps.drop_last(), width).step(steps.last(), width)
        }
    }
}

/// Running one more step: the earlier steps first, the new one last.
pub broadcast proof fn lemma_run_push(p: Panel, steps: Seq<PinStep>, step: PinStep, width: nat)
    ensures
        #[trigger] p.run(steps.push(step), width) == p.run(steps, width).step(step, width),
{
    assert(steps.push(step).drop_last() =~= steps);
}

/// Running two sequences of steps one after the other runs their concatenation.
pub proof fn lemma_run_concat(p: Panel, first: Seq<PinStep>, second: Seq<PinStep>, width: nat)
    ensures
        p.run(first + second, width) == p.run(first, width).run(second, width),
    decreases second.len(),
{
    if second.len() == 0 {
        assert(first + second =~= first);
    } else {
        lemma_run_concat(p, first, second.drop_last(), width);
        assert(first + second =~= (first + second.drop_last()).push(second.last()));
        assert(second =~= second.drop_last().push(second.last()));
        lemma_run_push(p, first + second.drop_last(), second.last(), width);
        lemma_run_push(p.run(first, width), second.drop_last(), second.last(), width);
    }
}

proof fn lemma_address_bits(row: u8)
    by (bit_vector)
    ensures
        (if row & 0x01u8 != 0u8 { 1u8 } else { 0u8 }) + (if row & 0x02u8 != 0u8 {
            2u8
        } else {
            0u8
        }) + (if row & 0x04u8 != 0u8 { 4u8 } else { 0u8 }) + (if row & 0x08u8 != 0u8 {
            8u8
        } else {
            0u8
        }) + (if row & 0x10u8 != 0u8 { 16u8 } else { 0u8 }) == row % 32u8,
{
}

/// After `set_row(row)` the address lines select row `row % 32`; nothing is
/// shifted or latched and no other line changes.
pub proof fn lemma_set_row_selects(p: Panel, row: u8, width: nat)
    ensures
        p.run(address_steps(row), width).address() == row as int % 32,
        p.run(address_steps(row), width).shifted == p.shifted,
        p.run(address_steps(row), width).latched == p.latched,
        forall|s: Signal|
            !is_address_signal(s) ==> #[trigger] p.run(address_steps(row), width).level(s)
                == p.level(s),
{
    broadcast use lemma_run_push;

    lemma_address_bits(row);
}

/// After `set_data(r1, g1, b1, r2, g2, b2)` the data lines present that pixel
/// pair; nothing is shifted or latched and no other line changes.
pub proof fn lemma_set_data_presents(
    p: Panel,
    r1: bool,
    g1: bool,
    b1: bool,
    r2: bool,
    g2: bool,
    b2: bool,
    width: nat,
)
    ensures
        p.run(data_steps(r1, g1, b1, r2, g2, b2), width).data() == ((r1, g1, b1), (r2, g2, b2)),
        p.run(data_steps(r1, g1, b1, r2, g2, b2), width).shifted == p.shifted,
        p.run(data_steps(r1, g1, b1, r2, g2, b2), width).latched == p.latched,
        forall|s: Signal|
            !is_data_signal(s) ==> #[trigger] p.run(
                data_steps(r1, g1, b1, r2, g2, b2),
                width,
            ).level(s) == p.level(s),
{
    broadcast use lemma_run_push;

}

/// With CLK low, `pulse_clk` clocks the pixel pair on the data lines into the
/// shift registers exactly once and leaves CLK low; nothing is latched and no
/// other line changes.
pub proof fn lemma_pulse_clk_shifts(p: Panel, width: nat)
    requires
        !p.level(Signal::Clk),
    ensures
        p.run(clock_pulse_steps(), width).shifted == p.shifted.push(p.data()),
        p.run(clock_pulse_steps(), width).latched == p.latched,
        !p.run(clock_pulse_steps(), width).level(Signal::Clk),
        forall|s: Signal|
            s != Signal::Clk ==> #[trigger] p.run(clock_pulse_steps(), width).level(s) == p.level(
                s,
            ),
{
    broadcast use lemma_run_push;

}

/// With LAT low, `latch` copies the last `width` pixel pairs shifted in into the
/// row that the address lines select, and leaves LAT low; nothing is shifted and
/// no other line changes.
pub proof fn lemma_latch_stores(p: Panel, width: nat)
    requires
        !p.level(Signal::Lat),
    ensures
        p.run(latch_steps(), width).latched == p.latched.insert(
            p.address(),
            last_n(p.shifted, width),
        ),
        p.run(latch_steps(), width).shifted == p.shifted,
        !p.run(latch_steps(), width).level(Signal::Lat),
        forall|s: Signal|
            s != Signal::Lat ==> #[trigger] p.run(latch_steps(), width).level(s) == p.level(s),
{
    broadcast use lemma_run_push;

}

/// With CLK low, `shift_pixel(r1, g1, b1, r2, g2, b2)` clocks exactly that pixel
/// pair into the shift registers and leaves CLK low; nothing is latched and only
/// the data lines change.
pub proof fn lemma_shift_pixel_shifts(
    p: Panel,
    r1: bool,
    g1: bool,
    b1: bool,
    r2: bool,
    g2: bool,
    b2: bool,
    width: nat,
)
    requires
        !p.level(Signal::Clk),
    ensures
        p.run(pixel_steps(r1, g1, b1, r2, g2, b2), width).shifted == p.shifted.push(
            ((r1, g1, b1), (r2, g2, b2)),
        ),
        p.run(pixel_steps(r1, g1, b1, r2, g2, b2), width).latched == p.latched,
        p.run(pixel_steps(r1, g1, b1, r2, g2, b2), width).data() == ((r1, g1, b1), (r2, g2, b2)),
        forall|s: Signal|
            !is_data_signal(s) ==> #[trigger] p.run(
                pixel_steps(r1, g1, b1, r2, g2, b2),
                width,
            ).level(s) == p.level(s),
{
    let q = p.run(data_steps(r1, g1, b1, r2, g2, b2), width);
    lemma_set_data_presents(p, r1, g1, b1, r2, g2, b2, width);
    lemma_pulse_clk_shifts(q, width);
    lemma_run_concat(p, data_steps(r1, g1, b1, r2, g2, b2), clock_pulse_steps(), width);
}

/// `oe_off` drives OE high, turning the LEDs off; `oe_on` drives it low, turning
/// them on. Neither shifts, latches or changes another line.
pub proof fn lemma_output_enable(p: Panel, width: nat)
    ensures
        p.step(PinStep::Drive(Signal::Oe, true), width).level(Signal::Oe),
        !p.step(PinStep::Drive(Signal::Oe, false), width).level(Signal::Oe),
        p.step(PinStep::Drive(Signal::Oe, true), width).shifted == p.shifted,
        p.step(PinStep::Drive(Signal::Oe, true), width).latched == p.latched,
        p.step(PinStep::Drive(Signal::Oe, false), width).shifted == p.shifted,
        p.step(PinStep::Drive(Signal::Oe, false), width).latched == p.latched,
        forall|s: Signal|
            s != Signal::Oe ==> #[trigger] p.step(PinStep::Drive(Signal::Oe, true), width).level(s)
                == p.level(s) && p.step(PinStep::Drive(Signal::Oe, false), width).level(s)
                == p.level(s),
{
}

} // verus!

use driver_64x64_pixel_matrix::framebuffer::ROW_DISPLAY_CYCLES;
use driver_64x64_pixel_matrix::hub75::{PinStep, Signal};
use driver_64x64_pixel_matrix::{display_frame, Hub75Pins, PixelMap, Rgb565};
use std::collections::HashMap;

type Bits = ((bool, bool, bool), (bool, bool, bool));

/// A plain model of a HUB75 panel fed with the steps, for a chain of `width` columns.
struct PanelSim {
    lines: HashMap<Signal, bool>,
    shifted: Vec<Bits>,
    latched: HashMap<usize, Vec<Bits>>,
    width: usize,
}

impl PanelSim {
    fn new(width: usize) -> Self {
        PanelSim { lines: HashMap::new(), shifted: Vec::new(), latched: HashMap::new(), width }
    }

    fn level(&self, s: Signal) -> bool {
        *self.lines.get(&s).unwrap_or(&false)
    }

    fn address(&self) -> usize {
        let mut a = 0;
        for (i, s) in [Signal::A, Signal::B, Signal::C, Signal::D, Signal::E].iter().enumerate() {
            if self.level(*s) {
                a |= 1 << i;
            }
        }
        a
    }

    fn run(&mut self, steps: &[PinStep]) {
        for step in steps {
            if let PinStep::Drive(s, high) = *step {
                if s == Signal::Clk && high && !self.level(Signal::Clk) {
                    let bits = (
                        (self.level(Signal::R1), self.level(Signal::G1), self.level(Signal::B1)),
                        (self.level(Signal::R2), self.level(Signal::G2), self.level(Signal::B2)),
                    );
                    self.shifted.push(bits);
                }
                if s == Signal::Lat && high && !self.level(Signal::Lat) {
                    let n = self.shifted.len();
                    let start = n.saturating_sub(self.width);
                    self.latched.insert(self.address(), self.shifted[start..].to_vec());
                }
                self.lines.insert(s, high);
            }
        }
    }
}

fn expected_row<const W: usize, const H: usize>(fb: &PixelMap<W, H>, row: usize) -> Vec<Bits> {
    (0..W).map(|c| (fb.read(c, row).to_1bit(), fb.read(c, row + H / 2).to_1bit())).collect()
}

#[test]
fn frame_step_count() {
    let fb = PixelMap::<2, 4>::new();
    let mut pins = Hub75Pins::new();
    display_frame(&mut pins, &fb);
    let steps = pins.take_steps();
    // per row pair: OE off, 5 address lines, 10 steps per column, 3 latch steps, OE on, spin
    assert_eq!(steps.len(), 2 * (1 + 5 + 2 * 10 + 3 + 2) + 1);
    assert_eq!(steps[0], PinStep::Drive(Signal::Oe, true));
    assert_eq!(*steps.last().unwrap(), PinStep::Drive(Signal::Oe, true));
    assert_eq!(steps[steps.len() - 2], PinStep::Spin(ROW_DISPLAY_CYCLES));
    assert_eq!(ROW_DISPLAY_CYCLES, 20_000);
}

#[test]
fn frame_appends_after_pending_steps() {
    let fb = PixelMap::<1, 2>::new();
    let mut pins = Hub75Pins::new();
    pins.oe_on();
    display_frame(&mut pins, &fb);
    let steps = pins.take_steps();
    assert_eq!(steps[0], PinStep::Drive(Signal::Oe, false));
    assert_eq!(steps[1], PinStep::Drive(Signal::Oe, true));
}

#[test]
fn frame_latches_every_row_pair() {
    let mut fb = PixelMap::<3, 6>::new();
    fb.write_color_at(0, 0, Rgb565::red());
    fb.write_color_at(1, 1, Rgb565::cyan());
    fb.write_color_at(2, 2, Rgb565::white());
    fb.write_color_at(0, 3, Rgb565::blue());
    fb.write_color_at(2, 5, Rgb565::yellow());
    let mut pins = Hub75Pins::new();
    display_frame(&mut pins, &fb);
    let mut panel = PanelSim::new(3);
    panel.run(&pins.take_steps());
    assert_eq!(panel.latched.len(), 3);
    for row in 0..3 {
        assert_eq!(panel.latched[&row], expected_row(&fb, row));
    }
    assert_eq!(panel.latched[&0][0], ((true, false, false), (false, false, true)));
    assert_eq!(panel.latched[&2][2], ((true, true, true), (true, true, false)));
    assert!(panel.level(Signal::Oe));
    assert!(!panel.level(Signal::Clk));
    assert!(!panel.level(Signal::Lat));
}

#[test]
fn checkerboard_frame_on_full_panel() {
    let mut fb = PixelMap::<64, 64>::new();
    for y in 0..64 {
        for x in 0..64 {
            let white = (x / 8 + y / 8) % 2 == 0;
            fb.write_color_at(x, y, if white { Rgb565::white() } else { Rgb565::black() });
        }
    }
    let mut pins = Hub75Pins::new();
    display_frame(&mut pins, &fb);
    let mut panel = PanelSim::new(64);
    panel.run(&pins.take_steps());
    assert_eq!(panel.latched.len(), 32);
    for row in 0..32 {
        assert_eq!(panel.latched[&row], expected_row(&fb, row));
    }
    assert_eq!(panel.latched[&0][0], ((true, true, true), (true, true, true)));
    assert_eq!(panel.latched[&0][8], ((false, false, false), (false, false, false)));
}

#[test]
fn tall_panel_keeps_last_32_row_pairs() {
    let mut fb = PixelMap::<1, 80>::new();
    for y in 0..80 {
        fb.write_color_at(0, y, if y % 3 == 0 { Rgb565::green() } else { Rgb565::black() });
    }
    let mut pins = Hub75Pins::new();
    display_frame(&mut pins, &fb);
    let mut panel = PanelSim::new(1);
    panel.run(&pins.take_steps());
    for row in 8..40 {
        assert_eq!(panel.latched[&(row % 32)], expected_row(&fb, row));
    }
}

#[test]
fn single_pixel_row_and_empty_width() {
    let fb = PixelMap::<0, 2>::new();
    let mut pins = Hub75Pins::new();
    display_frame(&mut pins, &fb);
    let mut panel = PanelSim::new(0);
    panel.run(&pins.take_steps());
    assert_eq!(panel.latched[&0], Vec::<Bits>::new());

    let fb = PixelMap::<4, 1>::new();
    let mut pins = Hub75Pins::new();
    display_frame(&mut pins, &fb);
    assert_eq!(pins.take_steps(), vec![PinStep::Drive(Signal::Oe, true)]);
}

pub mod color;

use vstd::prelude::*;

use crate::hub75::panel::{
    is_address_signal, is_data_signal, last_n, lemma_latch_stores, lemma_output_enable,
    lemma_run_concat, lemma_run_push, lemma_set_row_selects, lemma_shift_pixel_shifts, Panel,
    PixelBits,
};
use crate::hub75::{address_steps, latch_steps, pixel_steps, Hub75Pins, PinStep, Signal};
use color::one_bit;

pub use color::Rgb565;

verus! {

/// Frame buffer storing a `W × H` image in RGB565 format.
///
/// Storage is a 2D array indexed as `pixels[y][x]`.
/// Out-of-bounds accesses are ignored (clipped).
pub struct PixelMap<const W: usize, const H: usize> {
    pixels: [[Rgb565; W]; H],
}

impl<const W: usize, const H: usize> View for PixelMap<W, H> {
    /// Row by row, the raw RGB565 value of each pixel: `v[y][x]`.
    type V = Seq<Seq<u16>>;

    closed spec fn view(&self) -> Seq<Seq<u16>> {
        Seq::new(H as nat, |y: int| Seq::new(W as nat, |x: int| self.pixels[y][x]@))
    }
}

impl<const W: usize, const H: usize> PixelMap<W, H> {
    /// Whether `(x, y)` lies on the image.
    pub open spec fn in_bounds(x: int, y: int) -> bool {
        0 <= x < W && 0 <= y < H
    }

    /// Whether `v` has `H` rows of `W` pixels each.
    pub open spec fn well_shaped(v: Seq<Seq<u16>>) -> bool {
        &&& v.len() == H
        &&& forall|y: int| 0 <= y < H ==> #[trigger] v[y].len() == W
    }

    /// The pixel at `(x, y)` of image `v`; black (0) off the image.
    pub open spec fn pixel(v: Seq<Seq<u16>>, x: int, y: int) -> u16 {
        if Self::in_bounds(x, y) {
            v[y][x]
        } else {
            0
        }
    }

    /// Image `v` with the pixel at `(x, y)` set to `c`; `v` itself off the image.
    pub open spec fn store(v: Seq<Seq<u16>>, x: int, y: int, c: u16) -> Seq<Seq<u16>> {
        if Self::in_bounds(x, y) {
            v.update(y, v[y].update(x, c))
        } else {
            v
        }
    }

    /// The image of colour `c` everywhere.
    pub open spec fn filled(c: u16) -> Seq<Seq<u16>> {
        Seq::new(H as nat, |y: int| Seq::new(W as nat, |x: int| c))
    }

    /// The image of every frame buffer has `H` rows of `W` pixels each.
    pub proof fn lemma_view_well_shaped(&self)
        ensures
            Self::well_shaped(self@),
    {
    }

    /// Every pixel with `0 <= x < W` and `0 <= y < H` lies on the image and reads
    /// as stored; every other one reads as black.
    pub proof fn lemma_pixel_on_image(v: Seq<Seq<u16>>, x: int, y: int)
        ensures
            Self::in_bounds(x, y) <==> (0 <= x < W && 0 <= y < H),
            0 <= x < W && 0 <= y < H ==> Self::pixel(v, x, y) == v[y][x],
            !(0 <= x < W && 0 <= y < H) ==> Self::pixel(v, x, y) == 0,
    {
    }

    /// Reading a pixel gives back the colour just written there, for every
    /// `0 <= x < W` and `0 <= y < H` (and black off the image).
    pub proof fn lemma_read_after_write(v: Seq<Seq<u16>>, x: int, y: int, c: u16)
        requires
            Self::well_shaped(v),
        ensures
            0 <= x < W && 0 <= y < H ==> Self::pixel(Self::store(v, x, y, c), x, y) == c,
            !(0 <= x < W && 0 <= y < H) ==> Self::pixel(Self::store(v, x, y, c), x, y) == 0,
    {
    }

    /// Writing a pixel leaves every other pixel as it was.
    pub proof fn lemma_write_keeps_other_pixels(
        v: Seq<Seq<u16>>,
        x: int,
        y: int,
        c: u16,
        other_x: int,
        other_y: int,
    )
        requires
            Self::well_shaped(v),
            other_x != x || other_y != y,
        ensures
            Self::pixel(Self::store(v, x, y, c), other_x, other_y) == Self::pixel(
                v,
                other_x,
                other_y,
            ),
    {
    }

    /// Writing off the image changes nothing.
    pub proof fn lemma_write_off_image(v: Seq<Seq<u16>>, x: int, y: int, c: u16)
        requires
            !Self::in_bounds(x, y),
        ensures
            Self::store(v, x, y, c) == v,
    {
    }

    /// A second write to a pixel replaces the first.
    pub proof fn lemma_last_write_wins(v: Seq<Seq<u16>>, x: int, y: int, first: u16, second: u16)
        requires
            Self::well_shaped(v),
        ensures
            Self::store(Self::store(v, x, y, first), x, y, second) == Self::store(v, x, y, second),
    {
        if Self::in_bounds(x, y) {
            assert(Self::store(Self::store(v, x, y, first), x, y, second)[y] =~= Self::store(
                v,
                x,
                y,
                second,
            )[y]);
            assert(Self::store(Self::store(v, x, y, first), x, y, second) =~= Self::store(
                v,
                x,
                y,
                second,
            ));
        }
    }

    /// Writing a pixel keeps the image's shape.
    pub proof fn lemma_write_keeps_shape(v: Seq<Seq<u16>>, x: int, y: int, c: u16)
        requires
            Self::well_shaped(v),
        ensures
            Self::well_shaped(Self::store(v, x, y, c)),
    {
    }

    /// After a fill every pixel on the image reads as the fill colour (and black
    /// off the image).
    pub proof fn lemma_read_after_fill(c: u16, x: int, y: int)
        ensures
            Self::well_shaped(Self::filled(c)),
            Self::pixel(Self::filled(c), x, y) == if Self::in_bounds(x, y) {
                c
            } else {
                0
            },
    {
    }

    /// Creates a new frame buffer, black everywhere.
    pub fn new() -> (m: Self)
        ensures
            m@ == Self::filled(0),
    {
        let black = Rgb565::black();
        let row: [Rgb565; W] = [black; W];
        let m = PixelMap { pixels: [row; H] };
        proof {
            broadcast use vstd::array::group_array_axioms;

            assert forall|y: int, x: int| 0 <= y < H && 0 <= x < W implies m.pixels[y][x]@ == 0 by {
                assert(m.pixels[y] == row);
                assert(row[x] == black);
            }
            assert forall|y: int| 0 <= y < H implies #[trigger] m@[y] =~= Self::filled(0)[y] by {}
            assert(m@ =~= Self::filled(0));
        }
        m
    }

    /// Writes a pixel at coordinates `(x, y)`.
    /// Out-of-bounds coordinates are ignored.
    pub fn write_color_at(&mut self, x: usize, y: usize, color: Rgb565)
        ensures
            final(self)@ == Self::store(old(self)@, x as int, y as int, color@),
            x < W && y < H ==> final(self)@ == old(self)@.update(
                y as int,
                old(self)@[y as int].update(x as int, color@),
            ),
            !(x < W && y < H) ==> final(self)@ == old(self)@,
    {
        if x < W && y < H {
            self.pixels[y][x] = color;
            proof {
                broadcast use vstd::array::group_array_axioms;

                let v = Self::store(old(self)@, x as int, y as int, color@);
                assert forall|yy: int| 0 <= yy < H implies #[trigger] self@[yy] =~= v[yy] by {}
                assert(self@ =~= v);
            }
        }
    }

    /// Reads the pixel at coordinates `(x, y)`.
    /// Returns black if out of bounds.
    pub fn read(&self, x: usize, y: usize) -> (c: Rgb565)
        ensures
            c@ == Self::pixel(self@, x as int, y as int),
            x < W && y < H ==> c@ == self@[y as int][x as int],
            !(x < W && y < H) ==> c@ == 0,
    {
        if x < W && y < H {
            self.pixels[y][x]
        } else {
            Rgb565::black()
        }
    }

    /// Fills the entire frame buffer with a uniform colour.
    pub fn fill(&mut self, color: Rgb565)
        ensures
            final(self)@ == Self::filled(color@),
    {
        let mut y: usize = 0;
        while y < H
            invariant
                0 <= y <= H,
                forall|yy: int, xx: int|
                    0 <= yy < y && 0 <= xx < W ==> #[trigger] self.pixels[yy][xx]@ == color@,
            decreases H - y,
        {
            let mut x: usize = 0;
            while x < W
                invariant
                    0 <= y < H,
                    0 <= x <= W,
                    forall|yy: int, xx: int|
                        0 <= yy < y && 0 <= xx < W ==> #[trigger] self.pixels[yy][xx]@ == color@,
                    forall|xx: int| 0 <= xx < x ==> #[trigger] self.pixels[y as int][xx]@ == color@,
                decreases W - x,
            {
                self.pixels[y][x] = color;
                x = x + 1;
            }
            y = y + 1;
        }
        proof {
            let v = Self::filled(color@);
            assert forall|yy: int| 0 <= yy < H implies #[trigger] self@[yy] =~= v[yy] by {}
            assert(self@ =~= v);
        }
    }

    /// Clears the entire frame buffer to black.
    pub fn clear(&mut self)
        ensures
            final(self)@ == Self::filled(0),
    {
        self.fill(Rgb565::black());
    }

    /// The raw pixel array, indexed as `pixels[y][x]`.
    pub fn pixels(&self) -> (pixels: &[[Rgb565; W]; H])
        ensures
            forall|x: int, y: int|
                Self::in_bounds(x, y) ==> #[trigger] pixels@[y]@[x]@ == Self::pixel(self@, x, y),
    {
        &self.pixels
    }
}

impl<const W: usize, const H: usize> Default for PixelMap<W, H> {
    /// A frame buffer black everywhere, as [`PixelMap::new`] makes it.
    fn default() -> (m: Self)
        ensures
            m@ == Self::filled(0),
    {
        Self::new()
    }
}

/// Number of busy-wait iterations that each row pair stays lit, which sets the
/// brightness. CPU-speed dependent: at 240 MHz this gives roughly the right
/// on-time for 1/32 scan panels.
pub const ROW_DISPLAY_CYCLES: u32 = 20_000;

/// The steps that shift the pixel pair of column `col` for row pair `row`: the
/// 1-bit form of pixel `(col, row)` on R1, G1, B1 and of pixel
/// `(col, row + H / 2)` on R2, G2, B2.
pub open spec fn column_steps<const W: usize, const H: usize>(
    v: Seq<Seq<u16>>,
    row: int,
    col: int,
) -> Seq<PinStep> {
    let top = one_bit(PixelMap::<W, H>::pixel(v, col, row));
    let bottom = one_bit(PixelMap::<W, H>::pixel(v, col, row + H / 2));
    pixel_steps(top.0, top.1, top.2, bottom.0, bottom.1, bottom.2)
}

/// The steps that shift columns `0..n` of row pair `row`, in order.
pub open spec fn row_shift_steps<const W: usize, const H: usize>(
    v: Seq<Seq<u16>>,
    row: int,
    n: int,
) -> Seq<PinStep>
    decreases n,
{
    if n <= 0 {
        Seq::empty()
    } else {
        row_shift_steps::<W, H>(v, row, n - 1) + column_steps::<W, H>(v, row, n - 1)
    }
}

/// The steps that show row pair `row`: LEDs off, select the row pair, shift its
/// `W` pixel pairs, latch them, LEDs on, and keep them lit for
/// `ROW_DISPLAY_CYCLES` spins.
pub open spec fn row_steps<const W: usize, const H: usize>(v: Seq<Seq<u16>>, row: int) -> Seq<
    PinStep,
> {
    Seq::empty().push(PinStep::Drive(Signal::Oe, true)) + address_steps(row as u8)
        + row_shift_steps::<W, H>(v, row, W as int) + latch_steps() + Seq::empty().push(
        PinStep::Drive(Signal::Oe, false),
    ).push(PinStep::Spin(ROW_DISPLAY_CYCLES))
}

/// The steps that show row pairs `0..n`, in order.
pub open spec fn rows_steps<const W: usize, const H: usize>(v: Seq<Seq<u16>>, n: int) -> Seq<
    PinStep,
>
    decreases n,
{
    if n <= 0 {
        Seq::empty()
    } else {
        rows_steps::<W, H>(v, n - 1) + row_steps::<W, H>(v, n - 1)
    }
}

/// The steps that show one frame of image `v`: each of the `H / 2` row pairs in
/// turn, then the LEDs off.
pub open spec fn frame_steps<const W: usize, const H: usize>(v: Seq<Seq<u16>>) -> Seq<PinStep> {
    rows_steps::<W, H>(v, H as int / 2).push(PinStep::Drive(Signal::Oe, true))
}

/// Renders one full frame to the HUB75 panel.
///
/// Goes through all `H / 2` row pairs, shifting `W` pixel pairs per row pair,
/// latching, and lighting each row pair for a short while (busy-wait).
///
/// `W` is the panel width in columns, `H` the panel height in rows.
pub fn display_frame<const W: usize, const H: usize>(pins: &mut Hub75Pins, fb: &PixelMap<W, H>)
    ensures
        final(pins)@ == old(pins)@ + frame_steps::<W, H>(fb@),
{
    let scan_pairs = H / 2;
    let mut row: usize = 0;
    while row < scan_pairs
        invariant
            scan_pairs == H / 2,
            row <= scan_pairs,
            pins@ == old(pins)@ + rows_steps::<W, H>(fb@, row as int),
        decreases scan_pairs - row,
    {
        let ghost before = pins@;
        pins.oe_off();
        pins.set_row(row as u8);
        let ghost head = pins@;
        let mut col: usize = 0;
        while col < W
            invariant
                scan_pairs == H / 2,
                row < scan_pairs,
                col <= W,
                pins@ == head + row_shift_steps::<W, H>(fb@, row as int, col as int),
            decreases W - col,
        {
            let (r1, g1, b1) = fb.read(col, row).to_1bit();
            let (r2, g2, b2) = fb.read(col, row + scan_pairs).to_1bit();
            pins.shift_pixel(r1, g1, b1, r2, g2, b2);
            assert(pins@ =~= head + row_shift_steps::<W, H>(fb@, row as int, col + 1));
            col = col + 1;
        }
        pins.latch();
        pins.oe_on();
        pins.delay_spin(ROW_DISPLAY_CYCLES);
        assert(pins@ =~= before + row_steps::<W, H>(fb@, row as int));
        assert(pins@ =~= old(pins)@ + rows_steps::<W, H>(fb@, row + 1));
        row = row + 1;
    }
    pins.oe_off();
    assert(pins@ =~= old(pins)@ + frame_steps::<W, H>(fb@));
}

/// The pixel pair that column `col` of row pair `row` shows in 1-bit form: pixel
/// `(col, row)` on top, pixel `(col, row + H / 2)` below.
pub open spec fn column_bits<const W: usize, const H: usize>(
    v: Seq<Seq<u16>>,
    row: int,
    col: int,
) -> PixelBits {
    (
        one_bit(PixelMap::<W, H>::pixel(v, col, row)),
        one_bit(PixelMap::<W, H>::pixel(v, col, row + H / 2)),
    )
}

/// The `W` pixel pairs of row pair `row`, column 0 first.
pub open spec fn row_bits<const W: usize, const H: usize>(v: Seq<Seq<u16>>, row: int) -> Seq<
    PixelBits,
> {
    Seq::new(W as nat, |col: int| column_bits::<W, H>(v, row, col))
}

proof fn lemma_row_shift<const W: usize, const H: usize>(
    v: Seq<Seq<u16>>,
    row: int,
    n: int,
    p: Panel,
)
    requires
        0 <= n,
        !p.level(Signal::Clk),
    ensures
        p.run(row_shift_steps::<W, H>(v, row, n), W as nat).shifted == p.shifted + Seq::new(
            n as nat,
            |col: int| column_bits::<W, H>(v, row, col),
        ),
        p.run(row_shift_steps::<W, H>(v, row, n), W as nat).latched == p.latched,
        forall|s: Signal|
            !is_data_signal(s) ==> #[trigger] p.run(
                row_shift_steps::<W, H>(v, row, n),
                W as nat,
            ).level(s) == p.level(s),
    decreases n,
{
    if n == 0 {
        assert(p.shifted + Seq::new(0, |col: int| column_bits::<W, H>(v, row, col)) =~= p.shifted);
    } else {
        let first = row_shift_steps::<W, H>(v, row, n - 1);
        lemma_row_shift::<W, H>(v, row, n - 1, p);
        let q = p.run(first, W as nat);
        let top = one_bit(PixelMap::<W, H>::pixel(v, n - 1, row));
        let bottom = one_bit(PixelMap::<W, H>::pixel(v, n - 1, row + H / 2));
        lemma_shift_pixel_shifts(q, top.0, top.1, top.2, bottom.0, bottom.1, bottom.2, W as nat);
        lemma_run_concat(p, first, column_steps::<W, H>(v, row, n - 1), W as nat);
        assert(q.shifted.push(((top.0, top.1, top.2), (bottom.0, bottom.1, bottom.2)))
            =~= p.shifted + Seq::new(n as nat, |col: int| column_bits::<W, H>(v, row, col)));
    }
}

proof fn lemma_row_address(row: usize)
    by (bit_vector)
    ensures
        ((row as u8) % 32u8) as usize == row % 32usize,
{
}

proof fn lemma_row<const W: usize, const H: usize>(v: Seq<Seq<u16>>, row: usize, p: Panel)
    requires
        !p.level(Signal::Clk),
        !p.level(Signal::Lat),
    ensures
        p.run(row_steps::<W, H>(v, row as int), W as nat).latched == p.latched.insert(
            row as int % 32,
            row_bits::<W, H>(v, row as int),
        ),
        !p.run(row_steps::<W, H>(v, row as int), W as nat).level(Signal::Clk),
        !p.run(row_steps::<W, H>(v, row as int), W as nat).level(Signal::Lat),
        ({
            let lit = p.run(
                row_steps::<W, H>(v, row as int).take(row_steps::<W, H>(v, row as int).len() - 1),
                W as nat,
            );
            &&& !lit.level(Signal::Oe)
            &&& lit.address() == row as int % 32
            &&& lit.latched_row(row as int % 32) == Some(row_bits::<W, H>(v, row as int))
        }),
{
    broadcast use lemma_run_push;

    let w = W as nat;
    let a = Seq::empty().push(PinStep::Drive(Signal::Oe, true));
    let b = address_steps(row as u8);
    let c = row_shift_steps::<W, H>(v, row as int, W as int);
    let d = latch_steps();
    let e = Seq::empty().push(PinStep::Drive(Signal::Oe, false)).push(
        PinStep::Spin(ROW_DISPLAY_CYCLES),
    );
    lemma_run_concat(p, a, b, w);
    lemma_run_concat(p, a + b, c, w);
    lemma_run_concat(p, a + b + c, d, w);
    lemma_run_concat(p, a + b + c + d, e, w);
    let p1 = p.run(a, w);
    lemma_output_enable(p, w);
    assert(p1 == p.step(PinStep::Drive(Signal::Oe, true), w));
    let p2 = p1.run(b, w);
    lemma_set_row_selects(p1, row as u8, w);
    lemma_row_address(row);
    let p3 = p2.run(c, w);
    lemma_row_shift::<W, H>(v, row as int, W as int, p2);
    assert(p3.address() == p2.address());
    let p4 = p3.run(d, w);
    lemma_latch_stores(p3, w);
    assert(last_n(p3.shifted, w) =~= row_bits::<W, H>(v, row as int));
    assert(p2.address() == row as int % 32);
    assert(!p1.level(Signal::Clk) && !p1.level(Signal::Lat));
    assert(!p2.level(Signal::Clk) && !p2.level(Signal::Lat));
    assert(!p3.level(Signal::Clk) && !p3.level(Signal::Lat));
    assert(!p4.level(Signal::Clk) && !p4.level(Signal::Lat));
    assert(p4.latched == p.latched.insert(row as int % 32, row_bits::<W, H>(v, row as int)));
    let p5 = p4.run(e, w);
    assert(p5.latched == p4.latched);
    assert(!p5.level(Signal::Clk) && !p5.level(Signal::Lat));
    assert(p.run(row_steps::<W, H>(v, row as int), w) == p5);
    let steps = row_steps::<W, H>(v, row as int);
    assert(steps.take(steps.len() - 1) =~= (a + b + c + d).push(
        PinStep::Drive(Signal::Oe, false),
    ));
    assert(p4.address() == p3.address());
    let lit = p4.step(PinStep::Drive(Signal::Oe, false), w);
    lemma_output_enable(p4, w);
    assert(lit.address() == p4.address());
    assert(p.run(steps.take(steps.len() - 1), w) == lit);
}

proof fn lemma_row_shape<const W: usize, const H: usize>(v: Seq<Seq<u16>>, row: int)
    ensures
        row_steps::<W, H>(v, row).len() >= 3,
        row_steps::<W, H>(v, row)[0] == PinStep::Drive(Signal::Oe, true),
        row_steps::<W, H>(v, row)[row_steps::<W, H>(v, row).len() - 2] == PinStep::Drive(
            Signal::Oe,
            false,
        ),
        row_steps::<W, H>(v, row)[row_steps::<W, H>(v, row).len() - 1] == PinStep::Spin(
            ROW_DISPLAY_CYCLES,
        ),
{
}

proof fn lemma_rows_prefix<const W: usize, const H: usize>(v: Seq<Seq<u16>>, n: int, m: int)
    requires
        0 <= n <= m,
    ensures
        rows_steps::<W, H>(v, n).len() <= rows_steps::<W, H>(v, m).len(),
        n < m ==> rows_steps::<W, H>(v, n).len() < rows_steps::<W, H>(v, m).len(),
        forall|j: int|
            0 <= j < rows_steps::<W, H>(v, n).len() ==> #[trigger] rows_steps::<W, H>(v, m)[j]
                == rows_steps::<W, H>(v, n)[j],
    decreases m,
{
    if n < m {
        lemma_rows_prefix::<W, H>(v, n, m - 1);
        lemma_row_shape::<W, H>(v, m - 1);
    }
}

/// Whether, for row pair `r`, step `i` of `steps` turns the LEDs on while the
/// address lines select `r % 32` and that address holds the pixel pairs of row
/// pair `r`, the next step keeps them lit for `ROW_DISPLAY_CYCLES` spins, and
/// the step after turns them off again.
pub open spec fn lights_row_pair<const W: usize, const H: usize>(
    v: Seq<Seq<u16>>,
    p: Panel,
    steps: Seq<PinStep>,
    r: int,
    i: int,
) -> bool {
    &&& 0 <= i
    &&& i + 2 < steps.len()
    &&& steps[i] == PinStep::Drive(Signal::Oe, false)
    &&& steps[i + 1] == PinStep::Spin(ROW_DISPLAY_CYCLES)
    &&& steps[i + 2] == PinStep::Drive(Signal::Oe, true)
    &&& !p.run(steps.take(i + 1), W as nat).level(Signal::Oe)
    &&& p.run(steps.take(i + 1), W as nat).address() == r % 32
    &&& p.run(steps.take(i + 1), W as nat).latched_row(r % 32) == Some(row_bits::<W, H>(v, r))
}

/// Showing a frame lights every row pair in turn: on a panel whose CLK and LAT
/// start low, for each row pair `r` (in increasing order of `r`) there is a step
/// that drives OE low, turning the LEDs on, while the address lines select
/// `r % 32` and that address holds the 1-bit pixel pairs of rows `r` and
/// `r + H / 2`; the LEDs then stay on for `ROW_DISPLAY_CYCLES` spins and are
/// turned off by the next step.
pub proof fn lemma_frame_lights_each_row_pair<const W: usize, const H: usize>(
    v: Seq<Seq<u16>>,
    p: Panel,
)
    requires
        !p.level(Signal::Clk),
        !p.level(Signal::Lat),
    ensures
        exists|at: Seq<int>|
            {
                &&& at.len() == H / 2
                &&& forall|r1: int, r2: int|
                    0 <= r1 < r2 < H / 2 ==> #[trigger] at[r1] < #[trigger] at[r2]
                &&& forall|r: int|
                    0 <= r < H / 2 ==> lights_row_pair::<W, H>(v, p, frame_steps::<W, H>(v), r, #[trigger] at[r])
            },
{
    let half = H as int / 2;
    let frame = frame_steps::<W, H>(v);
    let at = Seq::new(half as nat, |r: int| rows_steps::<W, H>(v, r + 1).len() - 2);
    assert forall|r1: int, r2: int| 0 <= r1 < r2 < half implies #[trigger] at[r1] < #[trigger] at[r2] by {
        lemma_rows_prefix::<W, H>(v, r1 + 1, r2 + 1);
    }
    assert forall|r: int| 0 <= r < half implies lights_row_pair::<W, H>(
        v,
        p,
        frame,
        r,
        #[trigger] at[r],
    ) by {
        let before = rows_steps::<W, H>(v, r);
        let row = row_steps::<W, H>(v, r);
        let upto = rows_steps::<W, H>(v, r + 1);
        let all = rows_steps::<W, H>(v, half);
        assert((r as usize) as int == r);
        lemma_rows::<W, H>(v, r, p);
        let q = p.run(before, W as nat);
        lemma_row::<W, H>(v, r as usize, q);
        lemma_row_shape::<W, H>(v, r);
        lemma_rows_prefix::<W, H>(v, r + 1, half);
        assert(upto == before + row);
        let i = at[r];
        assert(i == before.len() + row.len() - 2);
        assert(frame[i] == all[i]);
        assert(frame[i] == upto[i]);
        assert(frame[i] == row[row.len() - 2]);
        assert(frame[i + 1] == all[i + 1]);
        assert(frame[i + 1] == row[row.len() - 1]);
        if r + 1 < half {
            lemma_rows_prefix::<W, H>(v, r + 2, half);
            lemma_row_shape::<W, H>(v, r + 1);
            assert(rows_steps::<W, H>(v, r + 2) == upto + row_steps::<W, H>(v, r + 1));
            assert(frame[i + 2] == all[i + 2]);
            assert(frame[i + 2] == rows_steps::<W, H>(v, r + 2)[i + 2]);
        } else {
            assert(all == upto);
        }
        assert(frame.take(i + 1) =~= before + row.take(row.len() - 1));
        lemma_run_concat(p, before, row.take(row.len() - 1), W as nat);
    }
    assert(at.len() == half);
}

proof fn lemma_rows<const W: usize, const H: usize>(v: Seq<Seq<u16>>, k: int, p: Panel)
    requires
        0 <= k <= H / 2,
        !p.level(Signal::Clk),
        !p.level(Signal::Lat),
    ensures
        !p.run(rows_steps::<W, H>(v, k), W as nat).level(Signal::Clk),
        !p.run(rows_steps::<W, H>(v, k), W as nat).level(Signal::Lat),
        forall|r: int|
            #![trigger row_bits::<W, H>(v, r)]
            0 <= r < k && k <= r + 32 ==> p.run(rows_steps::<W, H>(v, k), W as nat).latched_row(
                r % 32,
            ) == Some(row_bits::<W, H>(v, r)),
        forall|a: int|
            !(0 <= a < 32 && a < k) ==> #[trigger] p.run(
                rows_steps::<W, H>(v, k),
                W as nat,
            ).latched_row(a) == p.latched_row(a),
    decreases k,
{
    if k > 0 {
        lemma_rows::<W, H>(v, k - 1, p);
        let q = p.run(rows_steps::<W, H>(v, k - 1), W as nat);
        lemma_row::<W, H>(v, (k - 1) as usize, q);
        lemma_run_concat(p, rows_steps::<W, H>(v, k - 1), row_steps::<W, H>(v, k - 1), W as nat);
        let q2 = p.run(rows_steps::<W, H>(v, k), W as nat);
        assert(((k - 1) as usize) as int == k - 1);
        assert(q2 == q.run(row_steps::<W, H>(v, k - 1), W as nat));
        assert(q2.latched == q.latched.insert((k - 1) % 32, row_bits::<W, H>(v, k - 1)));
        assert forall|r: int|
            #![trigger row_bits::<W, H>(v, r)]
            0 <= r < k && k <= r + 32 implies q2.latched_row(r % 32) == Some(
                row_bits::<W, H>(v, r),
            ) by {
            if r != k - 1 {
                assert(r % 32 != (k - 1) % 32);
                assert(q.latched_row(r % 32) == Some(row_bits::<W, H>(v, r)));
            }
        }
        assert forall|a: int| !(0 <= a < 32 && a < k) implies #[trigger] q2.latched_row(a)
            == p.latched_row(a) by {
            assert(a != (k - 1) % 32);
            assert(q.latched_row(a) == p.latched_row(a));
        }
    } else {
        assert(p.run(rows_steps::<W, H>(v, k), W as nat) == p);
    }
}

/// Showing a frame latches every row pair of the image: once the steps of
/// `display_frame` have run on a panel whose CLK and LAT start low, the row at
/// address `r % 32` holds the `W` pixel pairs of row pair `r` in 1-bit form
/// (rows `r` and `r + H / 2`), for each of the last 32 row pairs `r` (all of
/// them on a panel of up to 64 rows); no other row address is touched, and the
/// LEDs are left off with CLK and LAT low.
pub proof fn lemma_frame_latches_each_row_pair<const W: usize, const H: usize>(
    v: Seq<Seq<u16>>,
    p: Panel,
)
    requires
        !p.level(Signal::Clk),
        !p.level(Signal::Lat),
    ensures
        forall|r: int|
            #![trigger row_bits::<W, H>(v, r)]
            0 <= r < H / 2 && H / 2 <= r + 32 ==> p.run(frame_steps::<W, H>(v), W as nat).latched_row(
                r % 32,
            ) == Some(row_bits::<W, H>(v, r)),
        forall|a: int|
            !(0 <= a < 32 && a < H / 2) ==> #[trigger] p.run(frame_steps::<W, H>(v), W as nat).latched_row(
                a,
            ) == p.latched_row(a),
        p.run(frame_steps::<W, H>(v), W as nat).level(Signal::Oe),
        !p.run(frame_steps::<W, H>(v), W as nat).level(Signal::Clk),
        !p.run(frame_steps::<W, H>(v), W as nat).level(Signal::Lat),
{
    lemma_rows::<W, H>(v, H as int / 2, p);
    lemma_run_push(p, rows_steps::<W, H>(v, H as int / 2), PinStep::Drive(Signal::Oe, true), W as nat);
    let q = p.run(rows_steps::<W, H>(v, H as int / 2), W as nat);
    let last = p.run(frame_steps::<W, H>(v), W as nat);
    assert(last.latched == q.latched);
    assert forall|a: int| !(0 <= a < 32 && a < H / 2) implies #[trigger] last.latched_row(a)
        == p.latched_row(a) by {
        assert(q.latched_row(a) == p.latched_row(a));
    }
}

} // verus!

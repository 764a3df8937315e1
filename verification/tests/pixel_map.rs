use driver_64x64_pixel_matrix::{PixelMap, Rgb565};

#[test]
fn new_map_is_black() {
    let fb = PixelMap::<4, 3>::new();
    for y in 0..3 {
        for x in 0..4 {
            assert_eq!(fb.read(x, y).get_raw_color(), 0);
        }
    }
}

#[test]
fn default_map_is_black() {
    let fb: PixelMap<2, 2> = Default::default();
    assert_eq!(fb.read(1, 1).get_raw_color(), 0);
    assert_eq!(fb.pixels()[0][0].get_raw_color(), 0);
}

#[test]
fn read_after_write() {
    let mut fb = PixelMap::<4, 3>::new();
    fb.write_color_at(3, 2, Rgb565::cyan());
    assert_eq!(fb.read(3, 2).get_raw_color(), 0x07FF);
}

#[test]
fn write_keeps_other_pixels() {
    let mut fb = PixelMap::<4, 3>::new();
    fb.write_color_at(1, 1, Rgb565::red());
    fb.write_color_at(2, 1, Rgb565::blue());
    assert_eq!(fb.read(1, 1).get_raw_color(), 0xF800);
    assert_eq!(fb.read(2, 1).get_raw_color(), 0x001F);
    assert_eq!(fb.read(1, 2).get_raw_color(), 0);
    assert_eq!(fb.read(0, 0).get_raw_color(), 0);
}

#[test]
fn last_write_wins() {
    let mut fb = PixelMap::<4, 3>::new();
    fb.write_color_at(0, 0, Rgb565::red());
    fb.write_color_at(0, 0, Rgb565::green());
    assert_eq!(fb.read(0, 0).get_raw_color(), 0x07E0);
}

#[test]
fn write_off_image_is_ignored() {
    let mut fb = PixelMap::<4, 3>::new();
    fb.write_color_at(4, 0, Rgb565::white());
    fb.write_color_at(0, 3, Rgb565::white());
    fb.write_color_at(usize::MAX, usize::MAX, Rgb565::white());
    for y in 0..3 {
        for x in 0..4 {
            assert_eq!(fb.read(x, y).get_raw_color(), 0);
        }
    }
}

#[test]
fn read_off_image_is_black() {
    let mut fb = PixelMap::<4, 3>::new();
    fb.fill(Rgb565::white());
    assert_eq!(fb.read(4, 0).get_raw_color(), 0);
    assert_eq!(fb.read(0, 3).get_raw_color(), 0);
    assert_eq!(fb.read(100, 100).get_raw_color(), 0);
}

#[test]
fn fill_sets_every_pixel() {
    let mut fb = PixelMap::<4, 3>::new();
    fb.write_color_at(1, 1, Rgb565::red());
    fb.fill(Rgb565::yellow());
    for y in 0..3 {
        for x in 0..4 {
            assert_eq!(fb.read(x, y).get_raw_color(), 0xFFE0);
        }
    }
}

#[test]
fn clear_makes_every_pixel_black() {
    let mut fb = PixelMap::<4, 3>::new();
    fb.fill(Rgb565::magenta());
    fb.clear();
    for y in 0..3 {
        for x in 0..4 {
            assert_eq!(fb.read(x, y).get_raw_color(), 0);
        }
    }
}

#[test]
fn pixels_are_indexed_row_first() {
    let mut fb = PixelMap::<4, 3>::new();
    fb.write_color_at(3, 1, Rgb565::green());
    let pixels = fb.pixels();
    assert_eq!(pixels.len(), 3);
    assert_eq!(pixels[0].len(), 4);
    assert_eq!(pixels[1][3].get_raw_color(), 0x07E0);
    assert_eq!(pixels[3 - 2][0].get_raw_color(), 0);
}

#[test]
fn full_size_panel_map() {
    let mut fb = PixelMap::<64, 64>::new();
    for y in 0..64 {
        for x in 0..64 {
            let white = (x / 8 + y / 8) % 2 == 0;
            fb.write_color_at(x, y, if white { Rgb565::white() } else { Rgb565::black() });
        }
    }
    assert_eq!(fb.read(0, 0).get_raw_color(), 0xFFFF);
    assert_eq!(fb.read(8, 0).get_raw_color(), 0);
    assert_eq!(fb.read(8, 8).get_raw_color(), 0xFFFF);
    assert_eq!(fb.read(63, 63).get_raw_color(), 0xFFFF);
}

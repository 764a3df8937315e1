use driver_64x64_pixel_matrix::Rgb565;

#[test]
fn new_keeps_high_bits_of_each_component() {
    assert_eq!(Rgb565::new(255, 255, 255).get_raw_color(), 0xFFFF);
    assert_eq!(Rgb565::new(0, 0, 0).get_raw_color(), 0x0000);
    assert_eq!(Rgb565::new(0x12, 0x34, 0x56).get_raw_color(), (2 << 11) | (13 << 5) | 10);
    assert_eq!(Rgb565::new(8, 4, 8).get_raw_color(), 0x0821);
}

#[test]
fn new_drops_low_bits() {
    assert_eq!(Rgb565::new(7, 3, 7).get_raw_color(), 0);
    assert!(!Rgb565::new(7, 3, 7).non_zero());
    assert_eq!(Rgb565::new(7, 3, 7).to_1bit(), (false, false, false));
}

#[test]
fn new_places_each_channel() {
    assert_eq!(Rgb565::new(255, 0, 0).get_raw_color(), 0xF800);
    assert_eq!(Rgb565::new(0, 255, 0).get_raw_color(), 0x07E0);
    assert_eq!(Rgb565::new(0, 0, 255).get_raw_color(), 0x001F);
}

#[test]
fn named_colors_have_their_raw_values() {
    assert_eq!(Rgb565::black().get_raw_color(), 0x0000);
    assert_eq!(Rgb565::red().get_raw_color(), 0xF800);
    assert_eq!(Rgb565::green().get_raw_color(), 0x07E0);
    assert_eq!(Rgb565::blue().get_raw_color(), 0x001F);
    assert_eq!(Rgb565::white().get_raw_color(), 0xFFFF);
    assert_eq!(Rgb565::yellow().get_raw_color(), 0xFFE0);
    assert_eq!(Rgb565::cyan().get_raw_color(), 0x07FF);
    assert_eq!(Rgb565::magenta().get_raw_color(), 0xF81F);
}

#[test]
fn named_colors_equal_saturated_components() {
    assert_eq!(Rgb565::red().get_raw_color(), Rgb565::new(255, 0, 0).get_raw_color());
    assert_eq!(Rgb565::yellow().get_raw_color(), Rgb565::new(255, 255, 0).get_raw_color());
    assert_eq!(Rgb565::cyan().get_raw_color(), Rgb565::new(0, 255, 255).get_raw_color());
    assert_eq!(Rgb565::magenta().get_raw_color(), Rgb565::new(255, 0, 255).get_raw_color());
}

#[test]
fn secondary_colors_mix_primaries() {
    let r = Rgb565::red().get_raw_color();
    let g = Rgb565::green().get_raw_color();
    let b = Rgb565::blue().get_raw_color();
    assert_eq!(Rgb565::yellow().get_raw_color(), r | g);
    assert_eq!(Rgb565::cyan().get_raw_color(), g | b);
    assert_eq!(Rgb565::magenta().get_raw_color(), r | b);
    assert_eq!(Rgb565::white().get_raw_color(), r | g | b);
}

#[test]
fn to_1bit_of_named_colors() {
    assert_eq!(Rgb565::black().to_1bit(), (false, false, false));
    assert_eq!(Rgb565::red().to_1bit(), (true, false, false));
    assert_eq!(Rgb565::green().to_1bit(), (false, true, false));
    assert_eq!(Rgb565::blue().to_1bit(), (false, false, true));
    assert_eq!(Rgb565::white().to_1bit(), (true, true, true));
    assert_eq!(Rgb565::yellow().to_1bit(), (true, true, false));
    assert_eq!(Rgb565::cyan().to_1bit(), (false, true, true));
    assert_eq!(Rgb565::magenta().to_1bit(), (true, false, true));
}

#[test]
fn to_1bit_thresholds_of_new() {
    assert_eq!(Rgb565::new(8, 4, 8).to_1bit(), (true, true, true));
    assert_eq!(Rgb565::new(7, 4, 0).to_1bit(), (false, true, false));
    assert_eq!(Rgb565::new(0, 3, 8).to_1bit(), (false, false, true));
    assert_eq!(Rgb565::new(128, 0, 0).to_1bit(), (true, false, false));
}

#[test]
fn non_zero_iff_some_channel_lit() {
    for raw_source in [(0u8, 0u8, 0u8), (8, 0, 0), (0, 4, 0), (0, 0, 8), (7, 3, 7), (255, 255, 255)] {
        let c = Rgb565::new(raw_source.0, raw_source.1, raw_source.2);
        let (r, g, b) = c.to_1bit();
        assert_eq!(c.non_zero(), r || g || b);
    }
    assert!(Rgb565::blue().non_zero());
    assert!(!Rgb565::black().non_zero());
}

#[test]
fn lowest_green_bit_is_lit() {
    let c = Rgb565::new(0, 4, 0);
    assert_eq!(c.get_raw_color(), 0x0020);
    assert!(c.non_zero());
    assert_eq!(c.to_1bit(), (false, true, false));
}

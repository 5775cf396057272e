use embedded_graphics::pixelcolor::{IntoStorage, Rgb565};
use smartknob::peripherals::display::graphics::color::unpack_rgb565;
use smartknob::peripherals::display::graphics::Color;

#[test]
fn white_packs_to_all_ones() {
    assert_eq!(Color(255, 255, 255).to_rgb565(), 0xFFFF);
    assert_eq!(Color::white().to_rgb565(), 0xFFFF);
}

#[test]
fn black_packs_to_zero() {
    assert_eq!(Color(0, 0, 0).to_rgb565(), 0x0000);
    assert_eq!(Color::black().to_rgb565(), 0x0000);
}

#[test]
fn primaries_pack_to_their_fields() {
    assert_eq!(Color(255, 0, 0).to_rgb565(), 0xF800);
    assert_eq!(Color(0, 255, 0).to_rgb565(), 0x07E0);
    assert_eq!(Color(0, 0, 255).to_rgb565(), 0x001F);
}

#[test]
fn packing_drops_the_low_bits() {
    assert_eq!(Color(7, 3, 7).to_rgb565(), 0x0000);
    assert_eq!(Color(8, 4, 8).to_rgb565(), 0x0821);
    assert_eq!(Color(0x12, 0x34, 0x56).to_rgb565(), (2 << 11) | (13 << 5) | 10);
}

#[test]
fn packing_matches_the_shift_formula_for_every_colour_sampled() {
    for r in (0..=255u16).step_by(5) {
        for g in (0..=255u16).step_by(3) {
            for b in (0..=255u16).step_by(7) {
                let expected = ((r >> 3) << 11) | ((g >> 2) << 5) | (b >> 3);
                assert_eq!(Color(r as u8, g as u8, b as u8).to_rgb565(), expected);
            }
        }
    }
}

#[test]
fn conversion_into_u16_is_the_packed_value() {
    let packed: u16 = Color(255, 128, 0).into();
    assert_eq!(packed, 0xFC00);
}

#[test]
fn unpacking_splits_five_six_five() {
    assert_eq!(unpack_rgb565(0xFFFF), (31, 63, 31));
    assert_eq!(unpack_rgb565(0x0000), (0, 0, 0));
    assert_eq!(unpack_rgb565(0xF800), (31, 0, 0));
    assert_eq!(unpack_rgb565(0x07E0), (0, 63, 0));
    assert_eq!(unpack_rgb565(0x001F), (0, 0, 31));
    assert_eq!(unpack_rgb565(0x1234), (2, 17, 20));
}

#[test]
fn every_packed_value_survives_unpacking_and_packing() {
    for packed in 0..=u16::MAX {
        assert_eq!(Color::from_rgb565(packed).to_rgb565(), packed);
    }
}

#[test]
fn unpacked_colour_has_zero_low_bits() {
    assert_eq!(Color::from_rgb565(0xFFFF), Color(248, 252, 248));
    assert_eq!(Color::from_rgb565(0x1234), Color(16, 68, 160));
}

#[test]
fn library_colour_holds_the_packed_value() {
    let color = Color(200, 100, 50);
    assert_eq!(color.to_embedded_rgb565().into_storage(), color.to_rgb565());
    let converted: Rgb565 = color.into();
    assert_eq!(converted.into_storage(), color.to_rgb565());
}

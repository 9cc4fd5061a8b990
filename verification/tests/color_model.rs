use st7735::color::{Color, DefaultColor};

#[test]
fn from_hex_keeps_the_packed_value() {
    assert_eq!(Color::from_hex(0x07E0).hex, 0x07E0);
    assert_eq!(Color::from_hex(0x0000).hex, 0x0000);
    assert_eq!(Color::from_hex(0xFFFF).hex, 0xFFFF);
}

#[test]
fn from_rgb_packs_masked_components() {
    assert_eq!(Color::from_rgb(0x1F, 0, 0).hex, 0xF800);
    assert_eq!(Color::from_rgb(0, 0x3F, 0).hex, 0x07E0);
    assert_eq!(Color::from_rgb(0, 0, 0x1F).hex, 0x001F);
    assert_eq!(Color::from_rgb(0x1F, 0x3F, 0x1F).hex, 0xFFFF);
    assert_eq!(Color::from_rgb(0, 0, 0).hex, 0x0000);
    // components beyond the field widths are masked, not saturated
    assert_eq!(Color::from_rgb(0xFF, 0xFF, 0xFF).hex, 0xFFFF);
    assert_eq!(Color::from_rgb(0x20, 0x40, 0x20).hex, 0x0000);
    assert_eq!(Color::from_rgb(0x35, 0x47, 0x22).hex, Color::from_rgb(0x15, 0x07, 0x02).hex);
}

#[test]
fn rgb_round_trip_recovers_masked_fields() {
    for &(r, g, b) in &[(0u16, 0u16, 0u16), (31, 63, 31), (0xAB, 0xCD, 0xEF), (17, 42, 9)] {
        let hex = Color::from_rgb(r, g, b).hex;
        assert_eq!((hex >> 11) & 0x1F, r & 0x1F);
        assert_eq!((hex >> 5) & 0x3F, g & 0x3F);
        assert_eq!(hex & 0x1F, b & 0x1F);
    }
}

#[test]
fn named_colors_have_their_fixed_values() {
    assert_eq!(Color::from_default(DefaultColor::Black).hex, 0x0000);
    assert_eq!(Color::from_default(DefaultColor::White).hex, 0xFFFF);
    assert_eq!(Color::from_default(DefaultColor::Red).hex, 0xF800);
    assert_eq!(Color::from_default(DefaultColor::Green).hex, 0x0400);
    assert_eq!(Color::from_default(DefaultColor::Blue).hex, 0x001F);
    assert_eq!(Color::from_default(DefaultColor::Lime).hex, 0x07E0);
    assert_eq!(Color::from_default(DefaultColor::Cyan).hex, 0x07FF);
    assert_eq!(Color::from_default(DefaultColor::Magenta).hex, 0xF81F);
    assert_eq!(Color::from_default(DefaultColor::Yellow).hex, 0xFFE0);
    assert_eq!(Color::from_default(DefaultColor::Purple).hex, 0x8010);
    assert_eq!(Color::from_default(DefaultColor::Navy).hex, 0x0010);
    assert_eq!(Color::from_default(DefaultColor::Teal).hex, 0x0410);
    assert_eq!(Color::from_default(DefaultColor::Olive).hex, 0x8400);
    assert_eq!(Color::from_default(DefaultColor::Gray).hex, 0x8410);
}

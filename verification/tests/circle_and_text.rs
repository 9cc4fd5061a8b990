use st7735::color::Color;
use st7735::fonts::Font;
use st7735::transport::{Event, Line};
use st7735::{DriverError, ST7734};

fn opcodes(events: &[Event]) -> Vec<u8> {
    let mut dc_high = true;
    let mut out = Vec::new();
    for e in events {
        match e {
            Event::PinState(Line::DataCommand, high) => dc_high = *high,
            Event::SerialWrite(bytes) => {
                if !dc_high {
                    out.extend_from_slice(bytes);
                }
            }
            _ => {}
        }
    }
    out
}

fn data_bytes(events: &[Event]) -> Vec<u8> {
    let mut dc_high = true;
    let mut out = Vec::new();
    for e in events {
        match e {
            Event::PinState(Line::DataCommand, high) => dc_high = *high,
            Event::SerialWrite(bytes) => {
                if dc_high {
                    out.extend_from_slice(bytes);
                }
            }
            _ => {}
        }
    }
    out
}

fn payload_lens(events: &[Event]) -> Vec<usize> {
    events
        .iter()
        .filter_map(|e| match e {
            Event::SerialWrite(bytes) if bytes.len() > 1 => Some(bytes.len()),
            _ => None,
        })
        .collect()
}

#[test]
fn circle_of_radius_zero_plots_exactly_the_center() {
    let color = Color::from_hex(0xFFFF);
    let mut display = ST7734::new_with_spi();
    display.clear_events();
    assert_eq!(display.draw_circle(10, 10, 0, &color), Ok(()));
    let events = display.events();
    // eight pixel writes, all at the center
    assert_eq!(events.len(), 8 * 24);
    let data = data_bytes(events);
    assert_eq!(data.len(), 8 * 10);
    for pixel in data.chunks(10) {
        assert_eq!(pixel, [0, 10, 0, 10, 0, 10, 0, 10, 0xFF, 0xFF]);
    }
}

#[test]
fn small_circle_octants_follow_the_square_root_extents() {
    let color = Color::from_hex(0x0001);
    let mut display = ST7734::new_with_spi();
    display.clear_events();
    // radius 2: the iteration stops after floor(2/sqrt(2)) + 1 = 2 columns
    assert_eq!(display.draw_circle(10, 10, 2, &color), Ok(()));
    let data = data_bytes(display.events());
    // 16 pixels of 10 data bytes each
    assert_eq!(data.len(), 16 * 10);
    // column 0: y = floor(sqrt(4)) = 2; first octant point is (10, 12)
    assert_eq!(data[..10], [0, 10, 0, 10, 0, 12, 0, 12, 0x00, 0x01]);
    // column 1: y = floor(sqrt(3)) = 1; ninth pixel is (11, 11)
    assert_eq!(data[80..90], [0, 11, 0, 11, 0, 11, 0, 11, 0x00, 0x01]);
}

#[test]
fn circle_rejects_out_of_range_inputs() {
    let color = Color::from_hex(0x0001);
    let mut display = ST7734::new_with_spi();
    display.clear_events();
    // radius exceeding a center coordinate would underflow
    assert_eq!(display.draw_circle(10, 200, 11, &color), Err(DriverError::RadiusOutOfBounds));
    assert_eq!(display.draw_circle(200, 10, 11, &color), Err(DriverError::RadiusOutOfBounds));
    // squared radius beyond the 16-bit range
    assert_eq!(display.draw_circle(300, 300, 256, &color), Err(DriverError::RadiusOutOfBounds));
    // a plotted point beyond the coordinate limit
    assert_eq!(display.draw_circle(65530, 100, 10, &color), Err(DriverError::RadiusOutOfBounds));
    assert!(display.events().is_empty());
}

#[test]
fn filled_circle_draws_mirrored_columns_with_equal_extents() {
    let color = Color::from_hex(0x0001);
    let mut display = ST7734::new_with_spi();
    display.clear_events();
    assert_eq!(display.draw_filled_circle(10, 10, 2, &color), Ok(()));
    let events = display.events();
    assert_eq!(opcodes(events), vec![0x2A, 0x2B, 0x2C, 0x2A, 0x2B, 0x2C, 0x2A, 0x2B, 0x2C, 0x2A,
        0x2B, 0x2C]);
    // x = 0: extent floor(sqrt(4)) = 2, lines of 5 pixels at columns 10, 10;
    // x = 1: extent floor(sqrt(3)) = 1, lines of 3 pixels at columns 11, 9
    assert_eq!(payload_lens(events), vec![10, 10, 6, 6]);
    let data = data_bytes(events);
    assert_eq!(data[..8], [0, 10, 0, 10, 0, 8, 0, 12]);
    assert_eq!(data[18..26], [0, 10, 0, 10, 0, 8, 0, 12]);
    assert_eq!(data[36..44], [0, 11, 0, 11, 0, 9, 0, 11]);
    assert_eq!(data[50..58], [0, 9, 0, 9, 0, 9, 0, 11]);
}

#[test]
fn filled_circle_rejects_radius_beyond_center() {
    let color = Color::from_hex(0x0001);
    let mut display = ST7734::new_with_spi();
    display.clear_events();
    assert_eq!(
        display.draw_filled_circle(5, 100, 6, &color),
        Err(DriverError::RadiusOutOfBounds)
    );
    assert!(display.events().is_empty());
}

struct SparseFont;

impl Font for SparseFont {
    // the glyph description exists only for specifications and is never
    // called at run time
    fn glyph(_c: char) -> vstd::prelude::Seq<u8> {
        unreachable!()
    }

    fn get_char(_c: char) -> Vec<u8> {
        // one set bit per column: rows 0, 1, 2, none, 6
        vec![0x01, 0x02, 0x04, 0x00, 0x40]
    }
}

#[test]
fn character_pixels_are_mirrored_from_the_anchor() {
    let color = Color::from_hex(0xFFFF);
    let mut display = ST7734::new_with_spi();
    display.clear_events();
    assert_eq!(display.draw_character('A', 10, 10, &color, SparseFont), Ok(()));
    let data = data_bytes(display.events());
    // scanning rows outward, the set cells plot at (x - col, y - row)
    let expected_pixels = [(10u8, 10u8), (9, 9), (8, 8), (6, 4)];
    assert_eq!(data.len(), expected_pixels.len() * 10);
    for (i, (x, y)) in expected_pixels.iter().enumerate() {
        assert_eq!(
            data[10 * i..10 * (i + 1)],
            [0, *x, 0, *x, 0, *y, 0, *y, 0xFF, 0xFF]
        );
    }
}

#[test]
fn character_crossing_the_origin_is_rejected_before_any_output() {
    let color = Color::from_hex(0xFFFF);
    let mut display = ST7734::new_with_spi();
    display.clear_events();
    assert_eq!(
        display.draw_character('A', 0, 0, &color, SparseFont),
        Err(DriverError::CharacterOutOfBounds)
    );
    assert!(display.events().is_empty());
}

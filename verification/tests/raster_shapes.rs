use st7735::color::Color;
use st7735::transport::{Event, Line};
use st7735::{DriverError, ST7734};

fn opcodes(events: &[Event]) -> Vec<u8> {
    let mut dc_high = true;
    let mut out = Vec::new();
    for e in events {
        match e {
            Event::PinState(Line::DataCommand, high) => dc_high = *high,
            Event::SerialWrite(bytes) => {
                if !dc_high {
                    out.extend_from_slice(bytes);
                }
            }
            _ => {}
        }
    }
    out
}

fn data_bytes(events: &[Event]) -> Vec<u8> {
    let mut dc_high = true;
    let mut out = Vec::new();
    for e in events {
        match e {
            Event::PinState(Line::DataCommand, high) => dc_high = *high,
            Event::SerialWrite(bytes) => {
                if dc_high {
                    out.extend_from_slice(bytes);
                }
            }
            _ => {}
        }
    }
    out
}

/// The lengths of the bulk color payloads: serial writes longer than one
/// byte (single bytes are opcode or window-coordinate writes).
fn payload_lens(events: &[Event]) -> Vec<usize> {
    events
        .iter()
        .filter_map(|e| match e {
            Event::SerialWrite(bytes) if bytes.len() > 1 => Some(bytes.len()),
            _ => None,
        })
        .collect()
}

#[test]
fn draw_pixel_sets_a_degenerate_window_and_one_color_word() {
    let mut display = ST7734::new_with_spi();
    display.clear_events();
    display.draw_pixel(3, 7, &Color::from_hex(0xF800));
    let events = display.events();
    assert_eq!(events.len(), 24);
    assert_eq!(opcodes(events), vec![0x2A, 0x2B, 0x2C]);
    assert_eq!(data_bytes(events), vec![0, 3, 0, 3, 0, 7, 0, 7, 0xF8, 0x00]);
}

#[test]
fn set_address_window_sends_column_then_row_bounds_big_endian() {
    let mut display = ST7734::new_with_spi();
    display.clear_events();
    assert_eq!(display.set_address_window(0x0102, 0x0304, 0x0506, 0x0708), Ok(()));
    let events = display.events();
    assert_eq!(opcodes(events), vec![0x2A, 0x2B]);
    assert_eq!(data_bytes(events), vec![0x01, 0x02, 0x05, 0x06, 0x03, 0x04, 0x07, 0x08]);
}

#[test]
fn set_address_window_rejects_reversed_bounds() {
    let mut display = ST7734::new_with_spi();
    display.clear_events();
    assert_eq!(display.set_address_window(5, 0, 4, 0), Err(DriverError::InvalidWindow));
    assert_eq!(display.set_address_window(0, 9, 4, 8), Err(DriverError::InvalidWindow));
    assert!(display.events().is_empty());
}

#[test]
fn axis_aligned_line_plots_five_pixels() {
    let color = Color::from_hex(0x07E0);
    let mut display = ST7734::new_with_spi();
    display.clear_events();
    assert_eq!(display.draw_line(0, 0, 4, 0, &color), Ok(()));
    let events = display.events();
    assert_eq!(opcodes(events), vec![0x2A, 0x2B, 0x2C]);
    assert_eq!(
        data_bytes(events),
        vec![0, 0, 0, 4, 0, 0, 0, 0, 0x07, 0xE0, 0x07, 0xE0, 0x07, 0xE0, 0x07, 0xE0, 0x07, 0xE0]
    );
}

#[test]
fn vertical_line_delegation_and_rejection() {
    let color = Color::from_hex(0x0001);
    let mut display = ST7734::new_with_spi();
    display.clear_events();
    assert_eq!(display.draw_line(3, 2, 3, 5, &color), Ok(()));
    let events = display.events();
    assert_eq!(opcodes(events), vec![0x2A, 0x2B, 0x2C]);
    assert_eq!(data_bytes(events)[..8], [0, 3, 0, 3, 0, 2, 0, 5]);
    assert_eq!(payload_lens(events), vec![8]);

    display.clear_events();
    assert_eq!(display.draw_line(3, 5, 3, 2, &color), Err(DriverError::InvalidWindow));
    assert_eq!(display.draw_line(5, 2, 1, 2, &color), Err(DriverError::InvalidWindow));
    assert!(display.events().is_empty());
}

#[test]
fn shallow_diagonal_line_steps_one_pixel_per_column() {
    let color = Color::from_hex(0xFFFF);
    let mut display = ST7734::new_with_spi();
    display.clear_events();
    // dy = 2, dx = 4: y = y0 + (i * 2) / 4, truncated
    assert_eq!(display.draw_line(10, 20, 14, 22, &color), Ok(()));
    let events = display.events();
    assert_eq!(opcodes(events), vec![0x2A, 0x2B, 0x2C, 0x2A, 0x2B, 0x2C, 0x2A, 0x2B, 0x2C, 0x2A,
        0x2B, 0x2C, 0x2A, 0x2B, 0x2C]);
    let data = data_bytes(events);
    let expected_pixels = [(10u8, 20u8), (11, 20), (12, 21), (13, 21), (14, 22)];
    for (i, (x, y)) in expected_pixels.iter().enumerate() {
        assert_eq!(
            data[10 * i..10 * (i + 1)],
            [0, *x, 0, *x, 0, *y, 0, *y, 0xFF, 0xFF]
        );
    }
}

#[test]
fn steep_diagonal_line_steps_one_pixel_per_row() {
    let color = Color::from_hex(0xFFFF);
    let mut display = ST7734::new_with_spi();
    display.clear_events();
    // dy = 4, dx = 2: x = x0 + (i * 2) / 4, truncated
    assert_eq!(display.draw_line(10, 20, 12, 24, &color), Ok(()));
    let data = data_bytes(display.events());
    let expected_pixels = [(10u8, 20u8), (10, 21), (11, 22), (11, 23), (12, 24)];
    for (i, (x, y)) in expected_pixels.iter().enumerate() {
        assert_eq!(
            data[10 * i..10 * (i + 1)],
            [0, *x, 0, *x, 0, *y, 0, *y, 0xFF, 0xFF]
        );
    }
}

#[test]
fn horizontal_line_includes_both_endpoints() {
    let color = Color::from_hex(0x00FF);
    let mut display = ST7734::new_with_spi();
    display.clear_events();
    assert_eq!(display.draw_horizontal_line(2, 6, 9, &color), Ok(()));
    let events = display.events();
    assert_eq!(data_bytes(events)[..8], [0, 2, 0, 6, 0, 9, 0, 9]);
    assert_eq!(payload_lens(events), vec![2 * 5]);

    display.clear_events();
    assert_eq!(display.draw_horizontal_line(6, 2, 9, &color), Err(DriverError::InvalidWindow));
    assert!(display.events().is_empty());
}

#[test]
fn vertical_line_includes_both_endpoints() {
    let color = Color::from_hex(0x00FF);
    let mut display = ST7734::new_with_spi();
    display.clear_events();
    assert_eq!(display.draw_vertical_line(9, 2, 6, &color), Ok(()));
    let events = display.events();
    assert_eq!(data_bytes(events)[..8], [0, 9, 0, 9, 0, 2, 0, 6]);
    assert_eq!(payload_lens(events), vec![2 * 5]);

    display.clear_events();
    assert_eq!(display.draw_vertical_line(9, 6, 2, &color), Err(DriverError::InvalidWindow));
    assert!(display.events().is_empty());
}

#[test]
fn filled_rect_streams_exactly_width_times_height_pixels() {
    let color = Color::from_hex(0xABCD);
    let mut display = ST7734::new_with_spi();
    display.clear_events();
    assert_eq!(display.draw_filled_rect(1, 2, 3, 4, &color), Ok(()));
    let events = display.events();
    assert_eq!(opcodes(events), vec![0x2A, 0x2B, 0x2C]);
    let payloads = payload_lens(events);
    assert_eq!(payloads, vec![2 * 9]);
    let data = data_bytes(events);
    assert_eq!(data[..8], [0, 1, 0, 3, 0, 2, 0, 4]);
    for pixel in data[8..].chunks(2) {
        assert_eq!(pixel, [0xAB, 0xCD]);
    }
}

#[test]
fn filled_rect_rejects_reversed_bounds() {
    let color = Color::from_hex(0xABCD);
    let mut display = ST7734::new_with_spi();
    display.clear_events();
    assert_eq!(display.draw_filled_rect(3, 2, 1, 4, &color), Err(DriverError::InvalidWindow));
    assert!(display.events().is_empty());
}

#[test]
fn rect_outline_draws_two_horizontal_then_two_vertical_edges() {
    let color = Color::from_hex(0x1234);
    let mut display = ST7734::new_with_spi();
    display.clear_events();
    assert_eq!(display.draw_rect(1, 2, 4, 6, &color), Ok(()));
    let events = display.events();
    assert_eq!(opcodes(events), vec![0x2A, 0x2B, 0x2C, 0x2A, 0x2B, 0x2C, 0x2A, 0x2B, 0x2C, 0x2A,
        0x2B, 0x2C]);
    // edge pixel counts: two rows of 4, two columns of 5
    assert_eq!(payload_lens(events), vec![8, 8, 10, 10]);

    display.clear_events();
    assert_eq!(display.draw_rect(4, 2, 1, 6, &color), Err(DriverError::InvalidWindow));
    assert!(display.events().is_empty());
}

#[test]
fn fill_screen_covers_the_full_panel_extent() {
    let color = Color::from_hex(0x5555);
    let mut display = ST7734::new_with_spi();
    display.clear_events();
    display.fill_screen(&color);
    let events = display.events();
    assert_eq!(data_bytes(events)[..8], [0, 0, 0, 127, 0, 0, 0, 159]);
    assert_eq!(payload_lens(events), vec![2 * 128 * 160]);
}

#[test]
fn clear_screen_fills_the_panel_black() {
    let mut display = ST7734::new_with_spi();
    display.clear_events();
    display.clear_screen();
    let events = display.events();
    let payload: Vec<u8> = events
        .iter()
        .filter_map(|e| match e {
            Event::SerialWrite(bytes) if bytes.len() > 1 => Some(bytes.clone()),
            _ => None,
        })
        .flatten()
        .collect();
    assert_eq!(payload.len(), 2 * 128 * 160);
    assert!(payload.iter().all(|b| *b == 0));
}

#[test]
fn software_transport_streams_pixels_as_independent_writes() {
    let color = Color::from_hex(0xA55A);
    let mut display = ST7734::new_with_gpio(false);
    display.clear_events();
    assert_eq!(display.draw_filled_rect(0, 0, 1, 1, &color), Ok(()));
    let events = display.events();
    // no serial channel on the bit-banged transport: pins only
    assert!(events.iter().all(|e| matches!(e, Event::PinState(..))));
    // every byte costs a data/command assertion plus eight clocked bits;
    // the window is ten bytes, the memory-write opcode one more, and the
    // four streamed pixels two bytes each
    let byte_cost = 25;
    assert_eq!(events.len(), 11 * byte_cost + 4 * 2 * byte_cost);
}

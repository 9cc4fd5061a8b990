use st7735::command::{Command, Instruction};
use st7735::transport::{Event, Line, Transport};
use st7735::{Orientation, ST7734};

/// The opcode bytes: serial writes made while the data/command line is low.
fn opcodes(events: &[Event]) -> Vec<u8> {
    let mut dc_high = true;
    let mut out = Vec::new();
    for e in events {
        match e {
            Event::PinState(Line::DataCommand, high) => dc_high = *high,
            Event::SerialWrite(bytes) => {
                if !dc_high {
                    out.extend_from_slice(bytes);
                }
            }
            _ => {}
        }
    }
    out
}

/// The data bytes: serial writes made while the data/command line is high.
fn data_bytes(events: &[Event]) -> Vec<u8> {
    let mut dc_high = true;
    let mut out = Vec::new();
    for e in events {
        match e {
            Event::PinState(Line::DataCommand, high) => dc_high = *high,
            Event::SerialWrite(bytes) => {
                if dc_high {
                    out.extend_from_slice(bytes);
                }
            }
            _ => {}
        }
    }
    out
}

fn sleeps(events: &[Event]) -> Vec<u64> {
    events
        .iter()
        .filter_map(|e| match e {
            Event::SleepMs(ms) => Some(*ms),
            _ => None,
        })
        .collect()
}

#[test]
fn init_sequence_issues_opcodes_in_order_with_exact_arguments() {
    let display = ST7734::new_with_spi();
    let events = display.events();
    assert_eq!(
        opcodes(events),
        vec![
            0x01, 0x11, 0x3A, 0xB1, 0xB2, 0xB3, 0xB4, 0xC0, 0xC1, 0xC2, 0xC3, 0xC4, 0xC5, 0x20,
            0x36, 0x29
        ]
    );
    assert_eq!(
        data_bytes(events),
        vec![
            0x05, 0x01, 0x2C, 0x2D, 0x01, 0x2C, 0x2D, 0x01, 0x2C, 0x2D, 0x01, 0x2C, 0x2D, 0x07,
            0xA2, 0x02, 0x84, 0xC5, 0x0A, 0x00, 0x8A, 0x2A, 0x8A, 0xEE, 0x0E, 0x00
        ]
    );
}

#[test]
fn init_delays_do_not_fire_without_arguments() {
    // the software-reset and sleep-out entries carry a delay but no
    // argument bytes, so the whole script issues no sleep at all
    let display = ST7734::new_with_spi();
    assert_eq!(sleeps(display.events()), Vec::<u64>::new());
}

#[test]
fn init_over_gpio_with_reset_starts_with_a_reset_pulse() {
    let display = ST7734::new_with_gpio(true);
    let events = display.events();
    assert_eq!(events[0], Event::PinState(Line::Reset, true));
    assert_eq!(events[1], Event::PinState(Line::Reset, false));
    assert_eq!(display.transport_kind(), Transport::SoftwareBitBang { has_reset: true });
}

#[test]
fn init_over_gpio_without_reset_has_no_reset_pulse() {
    let display = ST7734::new_with_gpio(false);
    let events = display.events();
    assert!(!events.iter().any(|e| matches!(e, Event::PinState(Line::Reset, _))));
}

#[test]
fn execute_writes_opcode_then_arguments() {
    let mut display = ST7734::new_with_spi();
    display.clear_events();
    display.execute(&Command {
        instruction: Instruction::COLMOD,
        arguments: vec![0x05],
        delay: None,
    });
    let events = display.events();
    assert_eq!(opcodes(events), vec![0x3A]);
    assert_eq!(data_bytes(events), vec![0x05]);
    assert_eq!(sleeps(events), Vec::<u64>::new());
}

#[test]
fn execute_delay_replaces_the_argument_stream() {
    let mut display = ST7734::new_with_spi();
    display.clear_events();
    display.execute(&Command {
        instruction: Instruction::SWRESET,
        arguments: vec![0x05],
        delay: Some(150),
    });
    let events = display.events();
    assert_eq!(opcodes(events), vec![0x01]);
    assert_eq!(data_bytes(events), Vec::<u8>::new());
    assert_eq!(sleeps(events), vec![150]);
}

#[test]
fn execute_with_delay_and_no_arguments_never_sleeps() {
    let mut display = ST7734::new_with_spi();
    display.clear_events();
    display.execute(&Command {
        instruction: Instruction::SWRESET,
        arguments: vec![],
        delay: Some(200),
    });
    let events = display.events();
    assert_eq!(events.len(), 2);
    assert_eq!(events[0], Event::PinState(Line::DataCommand, false));
    assert_eq!(events[1], Event::SerialWrite(vec![0x01]));
    assert_eq!(sleeps(events), Vec::<u64>::new());
}

#[test]
fn set_orientation_sends_the_single_orientation_byte() {
    let mut display = ST7734::new_with_spi();
    for (orientation, byte) in [
        (Orientation::Portrait, 0x00u8),
        (Orientation::Landscape, 0x60),
        (Orientation::PortraitSwapped, 0xC0),
        (Orientation::LandScapeSwapped, 0xA0),
    ] {
        display.clear_events();
        display.set_orientation(&orientation);
        let events = display.events();
        assert_eq!(opcodes(events), vec![0x36]);
        assert_eq!(data_bytes(events), vec![byte]);
    }
}

#[test]
fn orientation_byte_codes() {
    assert_eq!(Orientation::Portrait.madctl(), 0x00);
    assert_eq!(Orientation::Landscape.madctl(), 0x60);
    assert_eq!(Orientation::PortraitSwapped.madctl(), 0xC0);
    assert_eq!(Orientation::LandScapeSwapped.madctl(), 0xA0);
}

#[test]
fn instruction_opcode_table() {
    assert_eq!(Instruction::NOP.opcode(), 0x00);
    assert_eq!(Instruction::SWRESET.opcode(), 0x01);
    assert_eq!(Instruction::SLPOUT.opcode(), 0x11);
    assert_eq!(Instruction::INVOFF.opcode(), 0x20);
    assert_eq!(Instruction::DISPON.opcode(), 0x29);
    assert_eq!(Instruction::CASET.opcode(), 0x2A);
    assert_eq!(Instruction::RASET.opcode(), 0x2B);
    assert_eq!(Instruction::RAMWR.opcode(), 0x2C);
    assert_eq!(Instruction::MADCTL.opcode(), 0x36);
    assert_eq!(Instruction::COLMOD.opcode(), 0x3A);
    assert_eq!(Instruction::FRMCTR1.opcode(), 0xB1);
    assert_eq!(Instruction::PWCTR6.opcode(), 0xFC);
    assert_eq!(Instruction::GMCTRP1.opcode(), 0xE0);
    assert_eq!(Instruction::GMCTRN1.opcode(), 0xE1);
}

#[test]
fn hard_reset_pulses_only_an_owned_reset_line() {
    let mut with_reset = ST7734::new_with_gpio(true);
    with_reset.clear_events();
    with_reset.hard_reset();
    assert_eq!(
        with_reset.events().as_slice(),
        &[Event::PinState(Line::Reset, true), Event::PinState(Line::Reset, false)]
    );

    let mut without = ST7734::new_with_spi();
    without.clear_events();
    without.hard_reset();
    assert!(without.events().is_empty());
}

#[test]
fn software_transport_clocks_bytes_out_msb_first() {
    let mut display = ST7734::new_with_gpio(false);
    display.clear_events();
    display.write_byte(0xA5, false);
    let events = display.events();
    assert_eq!(events.len(), 25);
    assert_eq!(events[0], Event::PinState(Line::DataCommand, false));
    let expected_bits = [true, false, true, false, false, true, false, true];
    for (i, bit) in expected_bits.iter().enumerate() {
        assert_eq!(events[1 + 3 * i], Event::PinState(Line::DataOut, *bit));
        assert_eq!(events[2 + 3 * i], Event::PinState(Line::Clock, true));
        assert_eq!(events[3 + 3 * i], Event::PinState(Line::Clock, false));
    }
}

#[test]
fn clear_events_empties_the_log() {
    let mut display = ST7734::new_with_spi();
    assert!(!display.events().is_empty());
    display.clear_events();
    assert!(display.events().is_empty());
}

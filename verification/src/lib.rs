//! Driver core for an ST7735-class TFT display controller.
//!
//! The driver encodes controller instructions, addressing-window updates and
//! pixel streams into a log of primitive transport effects: setting a digital
//! output line, writing bytes over the hardware serial channel, or blocking
//! for a settle delay. An embedder drains that log and drives the physical
//! pins or serial device; everything up to that boundary is verified.

pub mod addressing;
pub mod circle;
pub mod color;
pub mod command;
pub mod fonts;
pub mod raster;
pub mod text;
pub mod transport;

use vstd::prelude::*;
use crate::transport::{Event, EventModel, Line, Transport};

verus! {

/// ST7735 driver handle. It owns exactly one transport — the two-variant
/// [`Transport`] makes a handle with both a serial channel and bit-banged
/// pins, or neither, unrepresentable — and the log of primitive effects it
/// has issued; an embedder drains the log with [`ST7734::events`] and
/// [`ST7734::clear_events`] and performs each effect on the physical lines
/// or serial channel.
pub struct ST7734 {
    transport: Transport,
    log: Vec<Event>,
}

impl ST7734 {
    /// Creates a driver that uses the hardware serial channel and the
    /// data/command line, and runs the power-on script. The embedder owns
    /// the physical channel; this handle owns the effect log.
    pub fn new_with_spi() -> (d: ST7734)
        ensures
            d.transport() == Transport::HardwareSerial,
            d.emitted() == crate::command::init_events(Transport::HardwareSerial),
    {
        let mut d = ST7734 { transport: Transport::HardwareSerial, log: Vec::new() };
        proof {
            assert(d.emitted() =~= Seq::<EventModel>::empty());
        }
        d.run_init_sequence();
        proof {
            assert(d.emitted() =~= crate::command::init_events(Transport::HardwareSerial));
        }
        d
    }

    /// Creates a driver that bit-bangs the clock, data-out and data/command
    /// lines, with `has_reset` saying whether a reset line is owned, and runs
    /// the power-on script.
    pub fn new_with_gpio(has_reset: bool) -> (d: ST7734)
        ensures
            d.transport() == (Transport::SoftwareBitBang { has_reset }),
            d.emitted() == crate::command::init_events(Transport::SoftwareBitBang { has_reset }),
    {
        let mut d = ST7734 { transport: Transport::SoftwareBitBang { has_reset }, log: Vec::new() };
        proof {
            assert(d.emitted() =~= Seq::<EventModel>::empty());
        }
        d.run_init_sequence();
        proof {
            assert(d.emitted() =~= crate::command::init_events(
                Transport::SoftwareBitBang { has_reset },
            ));
        }
        d
    }

    /// The transport this handle drives.
    pub closed spec fn transport(self) -> Transport {
        self.transport
    }

    /// The primitive effects issued so far and not yet drained.
    pub closed spec fn emitted(self) -> Seq<EventModel> {
        self.log.deep_view()
    }

    /// Returns the transport this handle drives.
    pub fn transport_kind(&self) -> (t: Transport)
        ensures
            t == self.transport(),
    {
        self.transport
    }

    /// The pending effects, in the order they must be performed.
    pub fn events(&self) -> (log: &Vec<Event>)
        ensures
            log.deep_view() == self.emitted(),
    {
        &self.log
    }

    /// Drops all pending effects; the embedder calls this after performing
    /// them.
    pub fn clear_events(&mut self)
        ensures
            final(self).transport() == old(self).transport(),
            final(self).emitted() == Seq::<EventModel>::empty(),
    {
        self.log.clear();
        assert(self.emitted() =~= Seq::<EventModel>::empty());
    }

    /// Appends one effect to the log.
    pub(crate) fn emit(&mut self, e: Event)
        ensures
            final(self).transport() == old(self).transport(),
            final(self).emitted() == old(self).emitted().push(e@),
    {
        let ghost ev = e@;
        self.log.push(e);
        proof {
            assert(self.emitted() =~= old(self).emitted().push(ev));
        }
    }

    /// Resets the display by pulsing the reset line high then low; a handle
    /// without a reset line does nothing.
    pub fn hard_reset(&mut self)
        ensures
            final(self).transport() == old(self).transport(),
            final(self).emitted() == old(self).emitted() + reset_events(old(self).transport()),
    {
        match self.transport {
            Transport::SoftwareBitBang { has_reset: true } => {
                self.emit(Event::PinState(Line::Reset, true));
                self.emit(Event::PinState(Line::Reset, false));
                assert(self.emitted() =~= old(self).emitted() + reset_events(
                    old(self).transport(),
                ));
            },
            _ => {
                assert(self.emitted() =~= old(self).emitted() + reset_events(
                    old(self).transport(),
                ));
            },
        }
    }
}

/// The errors the driver reports instead of wrapping silently or panicking
/// on inputs the protocol cannot express.
#[derive(Clone, Copy, PartialEq, Eq, Structural, Debug)]
pub enum DriverError {
    /// A window, line or rectangle whose bounds are reversed.
    InvalidWindow,
    /// A circle that would cross the coordinate limits, or whose squared
    /// radius exceeds the 16-bit range.
    RadiusOutOfBounds,
    /// A character cell that would cross the panel origin.
    CharacterOutOfBounds,
}

/// Display orientation; each maps to the one memory-access-control argument
/// byte given by [`Orientation::spec_madctl`].
#[derive(Clone, Copy, PartialEq, Eq, Structural, Debug)]
pub enum Orientation {
    Portrait,
    Landscape,
    PortraitSwapped,
    LandScapeSwapped,
}

impl Orientation {
    /// The memory-access-control argument byte of this orientation.
    pub open spec fn spec_madctl(self) -> u8 {
        match self {
            Orientation::Portrait => 0x00,
            Orientation::Landscape => 0x60,
            Orientation::PortraitSwapped => 0xC0,
            Orientation::LandScapeSwapped => 0xA0,
        }
    }

    /// Returns the memory-access-control argument byte of this orientation.
    pub fn madctl(self) -> (b: u8)
        ensures
            b == self.spec_madctl(),
    {
        match self {
            Orientation::Portrait => 0x00,
            Orientation::Landscape => 0x60,
            Orientation::PortraitSwapped => 0xC0,
            Orientation::LandScapeSwapped => 0xA0,
        }
    }
}

/// The events of a hard reset: a pulse of the reset line where one is owned,
/// nothing otherwise.
pub open spec fn reset_events(t: Transport) -> Seq<EventModel> {
    match t {
        Transport::SoftwareBitBang { has_reset: true } => seq![
            EventModel::PinState(Line::Reset, true),
            EventModel::PinState(Line::Reset, false),
        ],
        _ => Seq::empty(),
    }
}

} // verus!

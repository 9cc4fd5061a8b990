//! Addressing and color streaming: the controller's rectangular write-window
//! register pair, and bulk streams of repeated pixel colors.

use vstd::prelude::*;
use crate::{DriverError, ST7734};
use crate::color::Color;
use crate::command::Instruction;
use crate::transport::{
    byte_events, color_events, color_payload, hi_byte, lo_byte, repeated_color_events,
    word_events, Event, EventModel, Line, Transport,
};

verus! {

/// The events that set the rectangular write window: column-address-set with
/// the two x bounds, then row-address-set with the two y bounds, in that
/// order, each bound as a big-endian 16-bit word.
pub open spec fn window_events(t: Transport, x0: u16, y0: u16, x1: u16, y1: u16) -> Seq<
    EventModel,
> {
    byte_events(t, Instruction::CASET.spec_opcode(), false) + word_events(t, x0) + word_events(
        t,
        x1,
    ) + byte_events(t, Instruction::RASET.spec_opcode(), false) + word_events(t, y0)
        + word_events(t, y1)
}

/// The events that stream `n` pixels of one color: the memory-write opcode
/// once, then exactly `n` copies of the color's two big-endian bytes — as a
/// single serial buffer on the hardware transport, as `n` independent writes
/// on the bit-banged transport.
pub open spec fn stream_events(t: Transport, hex: u16, n: nat) -> Seq<EventModel> {
    byte_events(t, Instruction::RAMWR.spec_opcode(), false) + match t {
        Transport::HardwareSerial => seq![
            EventModel::PinState(Line::DataCommand, true),
            EventModel::SerialWrite(color_payload(hex, n)),
        ],
        Transport::SoftwareBitBang { .. } => repeated_color_events(t, hex, n),
    }
}

impl ST7734 {
    /// Sets the write window; callers establish that the bounds are ordered.
    pub(crate) fn set_window(&mut self, x0: u16, y0: u16, x1: u16, y1: u16)
        requires
            x0 <= x1,
            y0 <= y1,
        ensures
            final(self).transport() == old(self).transport(),
            final(self).emitted() == old(self).emitted() + window_events(
                old(self).transport(),
                x0,
                y0,
                x1,
                y1,
            ),
    {
        self.write_byte(Instruction::CASET.opcode(), false);
        self.write_word(x0);
        self.write_word(x1);
        self.write_byte(Instruction::RASET.opcode(), false);
        self.write_word(y0);
        self.write_word(y1);
        assert(self.emitted() =~= old(self).emitted() + window_events(
            old(self).transport(),
            x0,
            y0,
            x1,
            y1,
        ));
    }

    /// Sets the rectangular write window for subsequent pixel writes, and
    /// rejects reversed bounds instead of letting a width or height
    /// computation wrap.
    pub fn set_address_window(&mut self, x0: u16, y0: u16, x1: u16, y1: u16) -> (r: Result<
        (),
        DriverError,
    >)
        ensures
            final(self).transport() == old(self).transport(),
            x0 <= x1 && y0 <= y1 ==> r is Ok && final(self).emitted() == old(self).emitted()
                + window_events(old(self).transport(), x0, y0, x1, y1),
            !(x0 <= x1 && y0 <= y1) ==> r == Err::<(), DriverError>(DriverError::InvalidWindow)
                && final(self).emitted() == old(self).emitted(),
    {
        if x0 > x1 || y0 > y1 {
            return Err(DriverError::InvalidWindow);
        }
        self.set_window(x0, y0, x1, y1);
        Ok(())
    }

    /// Streams `repetitions` pixels of `color` into the current window: the
    /// memory-write opcode once, then exactly `repetitions` copies of the
    /// color — `repetitions` is the literal number of pixels written.
    pub fn stream_color(&mut self, color: &Color, repetitions: u64)
        ensures
            final(self).transport() == old(self).transport(),
            final(self).emitted() == old(self).emitted() + stream_events(
                old(self).transport(),
                color.hex,
                repetitions as nat,
            ),
    {
        let ghost t = self.transport();
        let ghost e0 = self.emitted();
        self.write_byte(Instruction::RAMWR.opcode(), false);
        let ghost opcode_part = byte_events(t, Instruction::RAMWR.spec_opcode(), false);
        match self.transport_kind() {
            Transport::HardwareSerial => {
                self.emit(Event::PinState(Line::DataCommand, true));
                let hi = (color.hex >> 8) as u8;
                let lo = (color.hex & 0xFF) as u8;
                let mut payload: Vec<u8> = Vec::new();
                let mut i: u64 = 0;
                while i < repetitions
                    invariant
                        i <= repetitions,
                        hi == hi_byte(color.hex),
                        lo == lo_byte(color.hex),
                        payload@ == color_payload(color.hex, i as nat),
                    decreases repetitions - i,
                {
                    payload.push(hi);
                    payload.push(lo);
                    proof {
                        assert(payload@ =~= color_payload(color.hex, (i + 1) as nat));
                    }
                    i = i + 1;
                }
                self.emit(Event::SerialWrite(payload));
                assert(self.emitted() =~= e0 + stream_events(t, color.hex, repetitions as nat));
            },
            Transport::SoftwareBitBang { .. } => {
                let mut i: u64 = 0;
                while i < repetitions
                    invariant
                        i <= repetitions,
                        self.transport() == t,
                        t is SoftwareBitBang,
                        self.emitted() == e0 + opcode_part + repeated_color_events(
                            t,
                            color.hex,
                            i as nat,
                        ),
                    decreases repetitions - i,
                {
                    self.write_color(color);
                    proof {
                        crate::transport::lemma_concat_assoc(
                            e0 + opcode_part,
                            repeated_color_events(t, color.hex, i as nat),
                            color_events(t, color.hex),
                        );
                        assert(repeated_color_events(t, color.hex, (i + 1) as nat)
                            == repeated_color_events(t, color.hex, i as nat) + color_events(
                            t,
                            color.hex,
                        ));
                    }
                    i = i + 1;
                }
                assert(self.emitted() =~= e0 + stream_events(t, color.hex, repetitions as nat));
            },
        }
    }
}

} // verus!

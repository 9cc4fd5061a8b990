//! The transport boundary: the primitive effects the driver asks of its
//! environment, and the event sequences each byte-level write expands to on
//! the hardware-serial and the bit-banged transport.

use vstd::prelude::*;
use crate::ST7734;

verus! {

/// The digital output lines a display handle may drive.
#[derive(Clone, Copy, PartialEq, Eq, Structural, Debug)]
pub enum Line {
    /// The controller's reset line.
    Reset,
    /// The clock line of the bit-banged transport.
    Clock,
    /// The data/command select line.
    DataCommand,
    /// The data-out line of the bit-banged transport.
    DataOut,
}

/// One primitive effect on the environment: everything the driver does is a
/// sequence of these, drained and performed by the embedder.
#[derive(Clone, PartialEq, Debug)]
pub enum Event {
    /// Set a digital output line high (`true`) or low (`false`).
    PinState(Line, bool),
    /// Write the bytes over the hardware serial channel in one operation.
    SerialWrite(Vec<u8>),
    /// Block the calling thread for the given number of milliseconds.
    SleepMs(u64),
}

/// The mathematical model of an `Event`.
#[verifier::ext_equal]
pub enum EventModel {
    PinState(Line, bool),
    SerialWrite(Seq<u8>),
    SleepMs(u64),
}

impl View for Event {
    type V = EventModel;

    open spec fn view(&self) -> EventModel {
        match self {
            Event::PinState(line, high) => EventModel::PinState(*line, *high),
            Event::SerialWrite(bytes) => EventModel::SerialWrite(bytes@),
            Event::SleepMs(ms) => EventModel::SleepMs(*ms),
        }
    }
}

impl DeepView for Event {
    type V = EventModel;

    open spec fn deep_view(&self) -> EventModel {
        self.view()
    }
}

/// Which physical transport a display handle drives. Exactly one is active
/// per handle; only the bit-banged wiring may own a reset line.
#[derive(Clone, Copy, PartialEq, Eq, Structural, Debug)]
pub enum Transport {
    /// A hardware serial channel plus the data/command line.
    HardwareSerial,
    /// Manually clocked lines: clock, data-out and data/command, and
    /// optionally a reset line.
    SoftwareBitBang { has_reset: bool },
}

/// The high byte of a 16-bit word sent big-endian.
pub open spec fn hi_byte(value: u16) -> u8 {
    (value >> 8) as u8
}

/// The low byte of a 16-bit word sent big-endian.
pub open spec fn lo_byte(value: u16) -> u8 {
    (value & 0xFF) as u8
}

/// Whether bit `i` of `value`, counted from the most significant end,
/// drives the data-out line high.
pub open spec fn bit_high(value: u8, i: int) -> bool {
    value & (0x80u8 >> (i as u8)) != 0
}

/// The three pin events that clock out one bit on the bit-banged transport:
/// data-out, then a clock pulse.
pub open spec fn bit_events(value: u8, i: int) -> Seq<EventModel> {
    seq![
        EventModel::PinState(Line::DataOut, bit_high(value, i)),
        EventModel::PinState(Line::Clock, true),
        EventModel::PinState(Line::Clock, false),
    ]
}

/// The events of clocking out the first `n` bits of `value`, most
/// significant bit first.
pub open spec fn bit_bang_events(value: u8, n: int) -> Seq<EventModel>
    decreases n,
{
    if n <= 0 {
        Seq::empty()
    } else {
        bit_bang_events(value, n - 1) + bit_events(value, n - 1)
    }
}

/// The events of one byte written with the given data/command level:
/// the data/command line is asserted, then the byte goes out over the
/// serial channel or bit by bit.
pub open spec fn byte_events(t: Transport, value: u8, data: bool) -> Seq<EventModel> {
    match t {
        Transport::HardwareSerial => seq![
            EventModel::PinState(Line::DataCommand, data),
            EventModel::SerialWrite(seq![value]),
        ],
        Transport::SoftwareBitBang { .. } => seq![
            EventModel::PinState(Line::DataCommand, data),
        ] + bit_bang_events(value, 8),
    }
}

/// A 16-bit word written as two big-endian data bytes.
pub open spec fn word_events(t: Transport, value: u16) -> Seq<EventModel> {
    byte_events(t, hi_byte(value), true) + byte_events(t, lo_byte(value), true)
}

/// One packed color on the wire: its two big-endian bytes, sent as data.
/// The hardware transport sends both in a single serial write.
pub open spec fn color_events(t: Transport, hex: u16) -> Seq<EventModel> {
    match t {
        Transport::HardwareSerial => seq![
            EventModel::PinState(Line::DataCommand, true),
            EventModel::SerialWrite(seq![hi_byte(hex), lo_byte(hex)]),
        ],
        Transport::SoftwareBitBang { .. } => byte_events(t, hi_byte(hex), true)
            + byte_events(t, lo_byte(hex), true),
    }
}

/// `n` copies of the two big-endian color bytes: the single buffer the
/// hardware transport streams for `n` pixels.
pub open spec fn color_payload(hex: u16, n: nat) -> Seq<u8>
    decreases n,
{
    if n == 0 {
        Seq::empty()
    } else {
        color_payload(hex, (n - 1) as nat) + seq![hi_byte(hex), lo_byte(hex)]
    }
}

/// `n` independent color writes: how the bit-banged transport streams
/// `n` pixels.
pub open spec fn repeated_color_events(t: Transport, hex: u16, n: nat) -> Seq<EventModel>
    decreases n,
{
    if n == 0 {
        Seq::empty()
    } else {
        repeated_color_events(t, hex, (n - 1) as nat) + color_events(t, hex)
    }
}

/// Sequence concatenation is associative.
pub proof fn lemma_concat_assoc<A>(a: Seq<A>, b: Seq<A>, c: Seq<A>)
    ensures
        (a + b) + c == a + (b + c),
{
    assert((a + b) + c =~= a + (b + c));
}

/// Clocking out bits only drives pins: no event of it is a delay.
pub proof fn lemma_bit_bang_no_sleep(value: u8, n: int)
    ensures
        forall|i: int|
            0 <= i < bit_bang_events(value, n).len() ==> !(#[trigger] bit_bang_events(
                value,
                n,
            )[i] is SleepMs),
    decreases n,
{
    if n > 0 {
        lemma_bit_bang_no_sleep(value, n - 1);
    }
}

/// Writing a byte only drives pins and the serial channel: no event of it is
/// a delay.
pub proof fn lemma_byte_events_no_sleep(t: Transport, value: u8, data: bool)
    ensures
        forall|i: int|
            0 <= i < byte_events(t, value, data).len() ==> !(#[trigger] byte_events(
                t,
                value,
                data,
            )[i] is SleepMs),
{
    lemma_bit_bang_no_sleep(value, 8);
}

/// The bulk payload for `n` pixels holds exactly `2 * n` bytes: the color's
/// high byte at every even offset and its low byte at every odd one.
pub proof fn lemma_color_payload(hex: u16, n: nat)
    ensures
        color_payload(hex, n).len() == 2 * n,
        forall|i: int|
            0 <= i < 2 * n ==> #[trigger] color_payload(hex, n)[i] == if i % 2 == 0 {
                hi_byte(hex)
            } else {
                lo_byte(hex)
            },
    decreases n,
{
    if n > 0 {
        lemma_color_payload(hex, (n - 1) as nat);
    }
}

/// Streaming `n` pixels on the bit-banged transport is `n` color writes:
/// the event count is `n` times that of one color write.
pub proof fn lemma_repeated_color_events_len(t: Transport, hex: u16, n: nat)
    ensures
        repeated_color_events(t, hex, n).len() == n * color_events(t, hex).len(),
    decreases n,
{
    if n > 0 {
        lemma_repeated_color_events_len(t, hex, (n - 1) as nat);
        let l = color_events(t, hex).len();
        assert(((n - 1) as nat) * l + l == n * l) by (nonlinear_arith)
            requires
                n >= 1,
        ;
    } else {
        assert(n * color_events(t, hex).len() == 0) by (nonlinear_arith)
            requires
                n == 0,
        ;
    }
}

/// Each of the `n` color writes of a bit-banged stream equals one color
/// write: chunk `k` of the stream is exactly `color_events(t, hex)`.
pub proof fn lemma_repeated_color_events_chunks(t: Transport, hex: u16, n: nat, k: int)
    requires
        0 <= k < n,
    ensures
        repeated_color_events(t, hex, n).subrange(
            k * color_events(t, hex).len(),
            (k + 1) * color_events(t, hex).len(),
        ) == color_events(t, hex),
    decreases n,
{
    let l = color_events(t, hex).len();
    lemma_repeated_color_events_len(t, hex, (n - 1) as nat);
    if k == n - 1 {
        let m = (n - 1) as nat;
        assert(m == k);
        assert(k * l == m * l);
        assert((k + 1) * l == m * l + l) by (nonlinear_arith)
            requires
                m == k,
        ;
        assert(repeated_color_events(t, hex, n).subrange(k * l, (k + 1) * l) =~= color_events(
            t,
            hex,
        ));
    } else {
        lemma_repeated_color_events_chunks(t, hex, (n - 1) as nat, k);
        assert((k + 1) * l == k * l + l) by (nonlinear_arith);
        assert((k + 1) * l <= ((n - 1) as nat) * l) by (nonlinear_arith)
            requires
                k + 1 <= n - 1,
                l >= 0,
        ;
        assert(k * l >= 0) by (nonlinear_arith)
            requires
                k >= 0,
                l >= 0,
        ;
        assert(repeated_color_events(t, hex, n).subrange(k * l, (k + 1) * l)
            =~= repeated_color_events(t, hex, (n - 1) as nat).subrange(k * l, (k + 1) * l));
    }
}

impl ST7734 {
    /// Pulses the clock line once: high, then low.
    fn pulse_clock(&mut self)
        ensures
            final(self).transport() == old(self).transport(),
            final(self).emitted() == old(self).emitted() + seq![
                EventModel::PinState(Line::Clock, true),
                EventModel::PinState(Line::Clock, false),
            ],
    {
        self.emit(Event::PinState(Line::Clock, true));
        self.emit(Event::PinState(Line::Clock, false));
        assert(self.emitted() =~= old(self).emitted() + seq![
            EventModel::PinState(Line::Clock, true),
            EventModel::PinState(Line::Clock, false),
        ]);
    }

    /// Writes one byte to the display, as a command (`data == false`) or as
    /// data (`data == true`).
    pub fn write_byte(&mut self, value: u8, data: bool)
        ensures
            final(self).transport() == old(self).transport(),
            final(self).emitted() == old(self).emitted() + byte_events(
                old(self).transport(),
                value,
                data,
            ),
    {
        let t = self.transport_kind();
        self.emit(Event::PinState(Line::DataCommand, data));
        match t {
            Transport::HardwareSerial => {
                let mut payload: Vec<u8> = Vec::new();
                payload.push(value);
                assert(payload@ =~= seq![value]);
                self.emit(Event::SerialWrite(payload));
                assert(self.emitted() =~= old(self).emitted() + byte_events(t, value, data));
            },
            Transport::SoftwareBitBang { .. } => {
                let mut bit: u8 = 0;
                while bit < 8
                    invariant
                        bit <= 8,
                        self.transport() == old(self).transport(),
                        self.emitted() == old(self).emitted() + seq![
                            EventModel::PinState(Line::DataCommand, data),
                        ] + bit_bang_events(value, bit as int),
                    decreases 8 - bit,
                {
                    let high = value & (0x80u8 >> bit) != 0;
                    self.emit(Event::PinState(Line::DataOut, high));
                    self.pulse_clock();
                    proof {
                        assert(high == bit_high(value, bit as int));
                        assert(bit_bang_events(value, bit as int + 1) == bit_bang_events(
                            value,
                            bit as int,
                        ) + bit_events(value, bit as int));
                        assert(self.emitted() =~= old(self).emitted() + seq![
                            EventModel::PinState(Line::DataCommand, data),
                        ] + bit_bang_events(value, bit as int + 1));
                    }
                    bit = bit + 1;
                }
                assert(self.emitted() =~= old(self).emitted() + byte_events(t, value, data));
            },
        }
    }

    /// Writes a 16-bit data word to the display as two big-endian bytes.
    pub fn write_word(&mut self, value: u16)
        ensures
            final(self).transport() == old(self).transport(),
            final(self).emitted() == old(self).emitted() + word_events(
                old(self).transport(),
                value,
            ),
    {
        let hi = (value >> 8) as u8;
        let lo = (value & 0xFF) as u8;
        self.write_byte(hi, true);
        self.write_byte(lo, true);
        assert(self.emitted() =~= old(self).emitted() + word_events(old(self).transport(), value));
    }

    /// Writes one packed color to the display.
    pub fn write_color(&mut self, color: &crate::color::Color)
        ensures
            final(self).transport() == old(self).transport(),
            final(self).emitted() == old(self).emitted() + color_events(
                old(self).transport(),
                color.hex,
            ),
    {
        let t = self.transport_kind();
        let hi = (color.hex >> 8) as u8;
        let lo = (color.hex & 0xFF) as u8;
        match t {
            Transport::HardwareSerial => {
                self.emit(Event::PinState(Line::DataCommand, true));
                let mut payload: Vec<u8> = Vec::new();
                payload.push(hi);
                payload.push(lo);
                assert(payload@ =~= seq![hi_byte(color.hex), lo_byte(color.hex)]);
                self.emit(Event::SerialWrite(payload));
                assert(self.emitted() =~= old(self).emitted() + color_events(t, color.hex));
            },
            Transport::SoftwareBitBang { .. } => {
                self.write_byte(hi, true);
                self.write_byte(lo, true);
                assert(self.emitted() =~= old(self).emitted() + color_events(t, color.hex));
            },
        }
    }
}

} // verus!

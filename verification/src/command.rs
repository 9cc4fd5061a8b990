//! The command protocol: the controller's instruction set, single-command
//! execution with its settle-delay rule, the display orientation command and
//! the fixed power-on initialization script.

use vstd::prelude::*;
use crate::ST7734;
use crate::Orientation;
use crate::transport::{byte_events, Event, EventModel, Transport};

verus! {

/// The controller's instruction set; each instruction maps to the fixed
/// one-byte opcode given by [`Instruction::spec_opcode`].
#[derive(Clone, Copy, PartialEq, Eq, Structural, Debug)]
pub enum Instruction {
    NOP,
    SWRESET,
    RDDID,
    RDDST,
    SLPIN,
    SLPOUT,
    PTLON,
    NORON,
    INVOFF,
    INVON,
    DISPOFF,
    DISPON,
    CASET,
    RASET,
    RAMWR,
    RAMRD,
    PTLAR,
    COLMOD,
    MADCTL,
    FRMCTR1,
    FRMCTR2,
    FRMCTR3,
    INVCTR,
    DISSET5,
    PWCTR1,
    PWCTR2,
    PWCTR3,
    PWCTR4,
    PWCTR5,
    VMCTR1,
    RDID1,
    RDID2,
    RDID3,
    RDID4,
    PWCTR6,
    GMCTRP1,
    GMCTRN1,
}

impl Instruction {
    /// The fixed one-byte opcode of this instruction.
    pub open spec fn spec_opcode(self) -> u8 {
        match self {
            Instruction::NOP => 0x00,
            Instruction::SWRESET => 0x01,
            Instruction::RDDID => 0x04,
            Instruction::RDDST => 0x09,
            Instruction::SLPIN => 0x10,
            Instruction::SLPOUT => 0x11,
            Instruction::PTLON => 0x12,
            Instruction::NORON => 0x13,
            Instruction::INVOFF => 0x20,
            Instruction::INVON => 0x21,
            Instruction::DISPOFF => 0x28,
            Instruction::DISPON => 0x29,
            Instruction::CASET => 0x2A,
            Instruction::RASET => 0x2B,
            Instruction::RAMWR => 0x2C,
            Instruction::RAMRD => 0x2E,
            Instruction::PTLAR => 0x30,
            Instruction::COLMOD => 0x3A,
            Instruction::MADCTL => 0x36,
            Instruction::FRMCTR1 => 0xB1,
            Instruction::FRMCTR2 => 0xB2,
            Instruction::FRMCTR3 => 0xB3,
            Instruction::INVCTR => 0xB4,
            Instruction::DISSET5 => 0xB6,
            Instruction::PWCTR1 => 0xC0,
            Instruction::PWCTR2 => 0xC1,
            Instruction::PWCTR3 => 0xC2,
            Instruction::PWCTR4 => 0xC3,
            Instruction::PWCTR5 => 0xC4,
            Instruction::VMCTR1 => 0xC5,
            Instruction::RDID1 => 0xDA,
            Instruction::RDID2 => 0xDB,
            Instruction::RDID3 => 0xDC,
            Instruction::RDID4 => 0xDD,
            Instruction::PWCTR6 => 0xFC,
            Instruction::GMCTRP1 => 0xE0,
            Instruction::GMCTRN1 => 0xE1,
        }
    }

    /// Returns the fixed one-byte opcode of this instruction.
    pub fn opcode(self) -> (op: u8)
        ensures
            op == self.spec_opcode(),
    {
        match self {
            Instruction::NOP => 0x00,
            Instruction::SWRESET => 0x01,
            Instruction::RDDID => 0x04,
            Instruction::RDDST => 0x09,
            Instruction::SLPIN => 0x10,
            Instruction::SLPOUT => 0x11,
            Instruction::PTLON => 0x12,
            Instruction::NORON => 0x13,
            Instruction::INVOFF => 0x20,
            Instruction::INVON => 0x21,
            Instruction::DISPOFF => 0x28,
            Instruction::DISPON => 0x29,
            Instruction::CASET => 0x2A,
            Instruction::RASET => 0x2B,
            Instruction::RAMWR => 0x2C,
            Instruction::RAMRD => 0x2E,
            Instruction::PTLAR => 0x30,
            Instruction::COLMOD => 0x3A,
            Instruction::MADCTL => 0x36,
            Instruction::FRMCTR1 => 0xB1,
            Instruction::FRMCTR2 => 0xB2,
            Instruction::FRMCTR3 => 0xB3,
            Instruction::INVCTR => 0xB4,
            Instruction::DISSET5 => 0xB6,
            Instruction::PWCTR1 => 0xC0,
            Instruction::PWCTR2 => 0xC1,
            Instruction::PWCTR3 => 0xC2,
            Instruction::PWCTR4 => 0xC3,
            Instruction::PWCTR5 => 0xC4,
            Instruction::VMCTR1 => 0xC5,
            Instruction::RDID1 => 0xDA,
            Instruction::RDID2 => 0xDB,
            Instruction::RDID3 => 0xDC,
            Instruction::RDID4 => 0xDD,
            Instruction::PWCTR6 => 0xFC,
            Instruction::GMCTRP1 => 0xE0,
            Instruction::GMCTRN1 => 0xE1,
        }
    }
}

/// One atomic protocol exchange: an instruction, its ordered argument bytes
/// and an optional settle delay in milliseconds.
pub struct Command {
    pub instruction: Instruction,
    pub arguments: Vec<u8>,
    pub delay: Option<u64>,
}

/// The events of the first `n` argument bytes, each written as data.
pub open spec fn argument_events_upto(t: Transport, args: Seq<u8>, n: int) -> Seq<EventModel>
    decreases n,
{
    if n <= 0 {
        Seq::empty()
    } else {
        argument_events_upto(t, args, n - 1) + byte_events(t, args[n - 1], true)
    }
}

/// The events of a command's argument bytes, each written as data, in order.
pub open spec fn argument_events(t: Transport, args: Seq<u8>) -> Seq<EventModel> {
    argument_events_upto(t, args, args.len() as int)
}

/// The events of one command: its opcode as a command byte, then exactly one
/// of a settle delay or the argument stream. A configured delay fires only
/// when at least one argument byte is present, and then replaces the
/// argument stream.
pub open spec fn command_events(
    t: Transport,
    instruction: Instruction,
    args: Seq<u8>,
    delay: Option<u64>,
) -> Seq<EventModel> {
    byte_events(t, instruction.spec_opcode(), false) + match delay {
        Some(ms) => if args.len() > 0 {
            seq![EventModel::SleepMs(ms)]
        } else {
            Seq::empty()
        },
        None => argument_events(t, args),
    }
}

impl ST7734 {
    /// Sends a single command to the display: the opcode, then either the
    /// settle delay (only when at least one argument byte is present) or the
    /// argument bytes in order.
    pub fn execute(&mut self, cmd: &Command)
        ensures
            final(self).transport() == old(self).transport(),
            final(self).emitted() == old(self).emitted() + command_events(
                old(self).transport(),
                cmd.instruction,
                cmd.arguments@,
                cmd.delay,
            ),
    {
        let ghost t = self.transport();
        self.write_byte(cmd.instruction.opcode(), false);
        match cmd.delay {
            Some(ms) => {
                if cmd.arguments.len() > 0 {
                    self.emit(Event::SleepMs(ms));
                }
                assert(self.emitted() =~= old(self).emitted() + command_events(
                    t,
                    cmd.instruction,
                    cmd.arguments@,
                    cmd.delay,
                ));
            },
            None => {
                let mut i: usize = 0;
                while i < cmd.arguments.len()
                    invariant
                        i <= cmd.arguments@.len(),
                        self.transport() == t,
                        self.emitted() == old(self).emitted() + byte_events(
                            t,
                            cmd.instruction.spec_opcode(),
                            false,
                        ) + argument_events_upto(t, cmd.arguments@, i as int),
                    decreases cmd.arguments@.len() - i,
                {
                    let a = cmd.arguments[i];
                    self.write_byte(a, true);
                    proof {
                        assert(self.emitted() =~= old(self).emitted() + byte_events(
                            t,
                            cmd.instruction.spec_opcode(),
                            false,
                        ) + argument_events_upto(t, cmd.arguments@, i as int + 1));
                    }
                    i = i + 1;
                }
                assert(self.emitted() =~= old(self).emitted() + command_events(
                    t,
                    cmd.instruction,
                    cmd.arguments@,
                    cmd.delay,
                ));
            },
        }
    }

    /// Changes the display orientation with a single memory-access-control
    /// command whose sole argument is the orientation's byte code. The
    /// controller, not the driver, holds the resulting state.
    pub fn set_orientation(&mut self, orientation: &Orientation)
        ensures
            final(self).transport() == old(self).transport(),
            final(self).emitted() == old(self).emitted() + command_events(
                old(self).transport(),
                Instruction::MADCTL,
                seq![orientation.spec_madctl()],
                None,
            ),
    {
        let mut arguments: Vec<u8> = Vec::new();
        arguments.push(orientation.madctl());
        assert(arguments@ =~= seq![orientation.spec_madctl()]);
        let command = Command { instruction: Instruction::MADCTL, delay: None, arguments };
        self.execute(&command);
    }
}

/// The fixed power-on script: a hard reset where a reset line is owned, then
/// the sixteen initialization commands, in this order and with these byte
/// values exactly, for hardware compatibility.
pub open spec fn init_events(t: Transport) -> Seq<EventModel> {
    crate::reset_events(t) + command_events(t, Instruction::SWRESET, seq![], Some(200))
        + command_events(t, Instruction::SLPOUT, seq![], Some(200)) + command_events(
        t,
        Instruction::COLMOD,
        seq![0x05],
        None,
    ) + command_events(t, Instruction::FRMCTR1, seq![0x01, 0x2C, 0x2D], None) + command_events(
        t,
        Instruction::FRMCTR2,
        seq![0x01, 0x2C, 0x2D],
        None,
    ) + command_events(t, Instruction::FRMCTR3, seq![0x01, 0x2C, 0x2D, 0x01, 0x2C, 0x2D], None)
        + command_events(t, Instruction::INVCTR, seq![0x07], None) + command_events(
        t,
        Instruction::PWCTR1,
        seq![0xA2, 0x02, 0x84],
        None,
    ) + command_events(t, Instruction::PWCTR2, seq![0xC5], None) + command_events(
        t,
        Instruction::PWCTR3,
        seq![0x0A, 0x00],
        None,
    ) + command_events(t, Instruction::PWCTR4, seq![0x8A, 0x2A], None) + command_events(
        t,
        Instruction::PWCTR5,
        seq![0x8A, 0xEE],
        None,
    ) + command_events(t, Instruction::VMCTR1, seq![0x0E], None) + command_events(
        t,
        Instruction::INVOFF,
        seq![],
        None,
    ) + command_events(t, Instruction::MADCTL, seq![0x00], None) + command_events(
        t,
        Instruction::DISPON,
        seq![],
        None,
    )
}

impl ST7734 {
    /// Issues the power-on script: a hard reset, then the fixed command list
    /// with byte-exact arguments and settle delays, in order.
    pub fn run_init_sequence(&mut self)
        ensures
            final(self).transport() == old(self).transport(),
            final(self).emitted() == old(self).emitted() + init_events(old(self).transport()),
    {
        let ghost t = self.transport();
        let ghost e0 = self.emitted();
        let ghost mut acc: Seq<EventModel> = crate::reset_events(t);
        self.hard_reset();

        let a: Vec<u8> = vec![];
        assert(a@ =~= Seq::<u8>::empty());
        self.execute(&Command { instruction: Instruction::SWRESET, delay: Some(200), arguments: a });
        proof {
            let c = command_events(t, Instruction::SWRESET, seq![], Some(200));
            crate::transport::lemma_concat_assoc(e0, acc, c);
            acc = acc + c;
            assert(self.emitted() == e0 + acc);
        }

        let a: Vec<u8> = vec![];
        assert(a@ =~= Seq::<u8>::empty());
        self.execute(&Command { instruction: Instruction::SLPOUT, delay: Some(200), arguments: a });
        proof {
            let c = command_events(t, Instruction::SLPOUT, seq![], Some(200));
            crate::transport::lemma_concat_assoc(e0, acc, c);
            acc = acc + c;
            assert(self.emitted() == e0 + acc);
        }

        let a: Vec<u8> = vec![0x05];
        assert(a@ =~= seq![0x05u8]);
        self.execute(&Command { instruction: Instruction::COLMOD, delay: None, arguments: a });
        proof {
            let c = command_events(t, Instruction::COLMOD, seq![0x05], None);
            crate::transport::lemma_concat_assoc(e0, acc, c);
            acc = acc + c;
            assert(self.emitted() == e0 + acc);
        }

        let a: Vec<u8> = vec![0x01, 0x2C, 0x2D];
        assert(a@ =~= seq![0x01u8, 0x2Cu8, 0x2Du8]);
        self.execute(&Command { instruction: Instruction::FRMCTR1, delay: None, arguments: a });
        proof {
            let c = command_events(t, Instruction::FRMCTR1, seq![0x01, 0x2C, 0x2D], None);
            crate::transport::lemma_concat_assoc(e0, acc, c);
            acc = acc + c;
            assert(self.emitted() == e0 + acc);
        }

        let a: Vec<u8> = vec![0x01, 0x2C, 0x2D];
        assert(a@ =~= seq![0x01u8, 0x2Cu8, 0x2Du8]);
        self.execute(&Command { instruction: Instruction::FRMCTR2, delay: None, arguments: a });
        proof {
            let c = command_events(t, Instruction::FRMCTR2, seq![0x01, 0x2C, 0x2D], None);
            crate::transport::lemma_concat_assoc(e0, acc, c);
            acc = acc + c;
            assert(self.emitted() == e0 + acc);
        }

        let a: Vec<u8> = vec![0x01, 0x2C, 0x2D, 0x01, 0x2C, 0x2D];
        assert(a@ =~= seq![0x01u8, 0x2Cu8, 0x2Du8, 0x01u8, 0x2Cu8, 0x2Du8]);
        self.execute(&Command { instruction: Instruction::FRMCTR3, delay: None, arguments: a });
        proof {
            let c = command_events(
                t,
                Instruction::FRMCTR3,
                seq![0x01, 0x2C, 0x2D, 0x01, 0x2C, 0x2D],
                None,
            );
            crate::transport::lemma_concat_assoc(e0, acc, c);
            acc = acc + c;
            assert(self.emitted() == e0 + acc);
        }

        let a: Vec<u8> = vec![0x07];
        assert(a@ =~= seq![0x07u8]);
        self.execute(&Command { instruction: Instruction::INVCTR, delay: None, arguments: a });
        proof {
            let c = command_events(t, Instruction::INVCTR, seq![0x07], None);
            crate::transport::lemma_concat_assoc(e0, acc, c);
            acc = acc + c;
            assert(self.emitted() == e0 + acc);
        }

        let a: Vec<u8> = vec![0xA2, 0x02, 0x84];
        assert(a@ =~= seq![0xA2u8, 0x02u8, 0x84u8]);
        self.execute(&Command { instruction: Instruction::PWCTR1, delay: None, arguments: a });
        proof {
            let c = command_events(t, Instruction::PWCTR1, seq![0xA2, 0x02, 0x84], None);
            crate::transport::lemma_concat_assoc(e0, acc, c);
            acc = acc + c;
            assert(self.emitted() == e0 + acc);
        }

        let a: Vec<u8> = vec![0xC5];
        assert(a@ =~= seq![0xC5u8]);
        self.execute(&Command { instruction: Instruction::PWCTR2, delay: None, arguments: a });
        proof {
            let c = command_events(t, Instruction::PWCTR2, seq![0xC5], None);
            crate::transport::lemma_concat_assoc(e0, acc, c);
            acc = acc + c;
            assert(self.emitted() == e0 + acc);
        }

        let a: Vec<u8> = vec![0x0A, 0x00];
        assert(a@ =~= seq![0x0Au8, 0x00u8]);
        self.execute(&Command { instruction: Instruction::PWCTR3, delay: None, arguments: a });
        proof {
            let c = command_events(t, Instruction::PWCTR3, seq![0x0A, 0x00], None);
            crate::transport::lemma_concat_assoc(e0, acc, c);
            acc = acc + c;
            assert(self.emitted() == e0 + acc);
        }

        let a: Vec<u8> = vec![0x8A, 0x2A];
        assert(a@ =~= seq![0x8Au8, 0x2Au8]);
        self.execute(&Command { instruction: Instruction::PWCTR4, delay: None, arguments: a });
        proof {
            let c = command_events(t, Instruction::PWCTR4, seq![0x8A, 0x2A], None);
            crate::transport::lemma_concat_assoc(e0, acc, c);
            acc = acc + c;
            assert(self.emitted() == e0 + acc);
        }

        let a: Vec<u8> = vec![0x8A, 0xEE];
        assert(a@ =~= seq![0x8Au8, 0xEEu8]);
        self.execute(&Command { instruction: Instruction::PWCTR5, delay: None, arguments: a });
        proof {
            let c = command_events(t, Instruction::PWCTR5, seq![0x8A, 0xEE], None);
            crate::transport::lemma_concat_assoc(e0, acc, c);
            acc = acc + c;
            assert(self.emitted() == e0 + acc);
        }

        let a: Vec<u8> = vec![0x0E];
        assert(a@ =~= seq![0x0Eu8]);
        self.execute(&Command { instruction: Instruction::VMCTR1, delay: None, arguments: a });
        proof {
            let c = command_events(t, Instruction::VMCTR1, seq![0x0E], None);
            crate::transport::lemma_concat_assoc(e0, acc, c);
            acc = acc + c;
            assert(self.emitted() == e0 + acc);
        }

        let a: Vec<u8> = vec![];
        assert(a@ =~= Seq::<u8>::empty());
        self.execute(&Command { instruction: Instruction::INVOFF, delay: None, arguments: a });
        proof {
            let c = command_events(t, Instruction::INVOFF, seq![], None);
            crate::transport::lemma_concat_assoc(e0, acc, c);
            acc = acc + c;
            assert(self.emitted() == e0 + acc);
        }

        let a: Vec<u8> = vec![0x00];
        assert(a@ =~= seq![0x00u8]);
        self.execute(&Command { instruction: Instruction::MADCTL, delay: None, arguments: a });
        proof {
            let c = command_events(t, Instruction::MADCTL, seq![0x00], None);
            crate::transport::lemma_concat_assoc(e0, acc, c);
            acc = acc + c;
            assert(self.emitted() == e0 + acc);
        }

        let a: Vec<u8> = vec![];
        assert(a@ =~= Seq::<u8>::empty());
        self.execute(&Command { instruction: Instruction::DISPON, delay: None, arguments: a });
        proof {
            let c = command_events(t, Instruction::DISPON, seq![], None);
            crate::transport::lemma_concat_assoc(e0, acc, c);
            acc = acc + c;
            assert(self.emitted() == e0 + acc);
        }

        assert(acc == init_events(t));
    }
}

/// A command with a configured settle delay but no argument bytes issues its
/// opcode alone: neither a delay nor any data byte follows.
pub proof fn lemma_delay_fires_only_with_arguments(
    t: Transport,
    instruction: Instruction,
    ms: u64,
)
    ensures
        command_events(t, instruction, Seq::empty(), Some(ms)) == byte_events(
            t,
            instruction.spec_opcode(),
            false,
        ),
        forall|i: int|
            0 <= i < command_events(t, instruction, Seq::empty(), Some(ms)).len() ==> !(
            #[trigger] command_events(t, instruction, Seq::empty(), Some(ms))[i] is SleepMs),
{
    assert(command_events(t, instruction, Seq::empty(), Some(ms)) =~= byte_events(
        t,
        instruction.spec_opcode(),
        false,
    ));
    crate::transport::lemma_byte_events_no_sleep(t, instruction.spec_opcode(), false);
}

} // verus!

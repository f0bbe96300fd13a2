use vstd::prelude::*;
use crate::chip::builtins::table::ChipKind;
use crate::chip::chip::{built, Chip};
use crate::chip::model::has_signature;
use crate::chip::net::Net;
use crate::chip::builtins::memory::Memory;
use crate::chip::clock::Clock;

verus! {

/// The flip-flop: out shows, after a tock, what in was at the tick before.
#[derive(Debug)]
pub struct DffChip {}

impl DffChip {
    /// Makes the chip, with new buses in `net` for its pins.
    pub fn new(net: &mut Net) -> (chip: Chip)
        requires
            old(net).wf(),
        ensures
            final(net).wf(),
            built(chip@, ChipKind::Dff, old(net)@, final(net)@),
            chip.wf(final(net)),
            has_signature(chip@, final(net)@),
    {
        Chip::builtin(net, ChipKind::Dff)
    }

    /// Subscribes the chip to `clock`: the chip then keeps a receiver that
    /// the clock gave it. Pins and what the chip holds stay as they are.
    pub fn subscribe_to_clock(chip: &mut Chip, clock: &Clock)
        ensures
            final(chip)@ == old(chip)@,
            final(chip).receiver() is Some,
    {
        chip.subscribe_to_clock(clock.subscribe());
    }
}

/// A one-bit register with load.
#[derive(Debug)]
pub struct BitChip {}

impl BitChip {
    /// Makes the chip, with new buses in `net` for its pins.
    pub fn new(net: &mut Net) -> (chip: Chip)
        requires
            old(net).wf(),
        ensures
            final(net).wf(),
            built(chip@, ChipKind::Bit, old(net)@, final(net)@),
            chip.wf(final(net)),
            has_signature(chip@, final(net)@),
    {
        Chip::builtin(net, ChipKind::Bit)
    }

    /// Subscribes the chip to `clock`: the chip then keeps a receiver that
    /// the clock gave it. Pins and what the chip holds stay as they are.
    pub fn subscribe_to_clock(chip: &mut Chip, clock: &Clock)
        ensures
            final(chip)@ == old(chip)@,
            final(chip).receiver() is Some,
    {
        chip.subscribe_to_clock(clock.subscribe());
    }
}

/// A 16-bit register with load.
#[derive(Debug)]
pub struct RegisterChip {}

impl RegisterChip {
    /// Makes the chip, with new buses in `net` for its pins.
    pub fn new(net: &mut Net) -> (chip: Chip)
        requires
            old(net).wf(),
        ensures
            final(net).wf(),
            built(chip@, ChipKind::Register, old(net)@, final(net)@),
            chip.wf(final(net)),
            has_signature(chip@, final(net)@),
    {
        Chip::builtin(net, ChipKind::Register)
    }

    /// Subscribes the chip to `clock`: the chip then keeps a receiver that
    /// the clock gave it. Pins and what the chip holds stay as they are.
    pub fn subscribe_to_clock(chip: &mut Chip, clock: &Clock)
        ensures
            final(chip)@ == old(chip)@,
            final(chip).receiver() is Some,
    {
        chip.subscribe_to_clock(clock.subscribe());
    }
}

/// The program counter: reset before load before inc.
#[derive(Debug)]
pub struct PcChip {}

impl PcChip {
    /// Makes the chip, with new buses in `net` for its pins.
    pub fn new(net: &mut Net) -> (chip: Chip)
        requires
            old(net).wf(),
        ensures
            final(net).wf(),
            built(chip@, ChipKind::Pc, old(net)@, final(net)@),
            chip.wf(final(net)),
            has_signature(chip@, final(net)@),
    {
        Chip::builtin(net, ChipKind::Pc)
    }

    /// Subscribes the chip to `clock`: the chip then keeps a receiver that
    /// the clock gave it. Pins and what the chip holds stay as they are.
    pub fn subscribe_to_clock(chip: &mut Chip, clock: &Clock)
        ensures
            final(chip)@ == old(chip)@,
            final(chip).receiver() is Some,
    {
        chip.subscribe_to_clock(clock.subscribe());
    }
}

/// A memory of 8 words.
#[derive(Debug)]
pub struct Ram8Chip {}

impl Ram8Chip {
    /// Makes the chip, with new buses in `net` for its pins.
    pub fn new(net: &mut Net) -> (chip: Chip)
        requires
            old(net).wf(),
        ensures
            final(net).wf(),
            built(chip@, ChipKind::Ram8, old(net)@, final(net)@),
            chip.wf(final(net)),
            has_signature(chip@, final(net)@),
    {
        Chip::builtin(net, ChipKind::Ram8)
    }

    /// Subscribes the chip to `clock`: the chip then keeps a receiver that
    /// the clock gave it. Pins and what the chip holds stay as they are.
    pub fn subscribe_to_clock(chip: &mut Chip, clock: &Clock)
        ensures
            final(chip)@ == old(chip)@,
            final(chip).receiver() is Some,
    {
        chip.subscribe_to_clock(clock.subscribe());
    }

    /// The memory of the chip.
    pub fn memory(chip: &Chip) -> (r: &Memory)
        ensures
            r@ == chip@.memory,
    {
        chip.memory()
    }
}

/// A memory of 64 words.
#[derive(Debug)]
pub struct Ram64Chip {}

impl Ram64Chip {
    /// Makes the chip, with new buses in `net` for its pins.
    pub fn new(net: &mut Net) -> (chip: Chip)
        requires
            old(net).wf(),
        ensures
            final(net).wf(),
            built(chip@, ChipKind::Ram64, old(net)@, final(net)@),
            chip.wf(final(net)),
            has_signature(chip@, final(net)@),
    {
        Chip::builtin(net, ChipKind::Ram64)
    }

    /// Subscribes the chip to `clock`: the chip then keeps a receiver that
    /// the clock gave it. Pins and what the chip holds stay as they are.
    pub fn subscribe_to_clock(chip: &mut Chip, clock: &Clock)
        ensures
            final(chip)@ == old(chip)@,
            final(chip).receiver() is Some,
    {
        chip.subscribe_to_clock(clock.subscribe());
    }

    /// The memory of the chip.
    pub fn memory(chip: &Chip) -> (r: &Memory)
        ensures
            r@ == chip@.memory,
    {
        chip.memory()
    }
}

/// A memory of 512 words.
#[derive(Debug)]
pub struct Ram512Chip {}

impl Ram512Chip {
    /// Makes the chip, with new buses in `net` for its pins.
    pub fn new(net: &mut Net) -> (chip: Chip)
        requires
            old(net).wf(),
        ensures
            final(net).wf(),
            built(chip@, ChipKind::Ram512, old(net)@, final(net)@),
            chip.wf(final(net)),
            has_signature(chip@, final(net)@),
    {
        Chip::builtin(net, ChipKind::Ram512)
    }

    /// Subscribes the chip to `clock`: the chip then keeps a receiver that
    /// the clock gave it. Pins and what the chip holds stay as they are.
    pub fn subscribe_to_clock(chip: &mut Chip, clock: &Clock)
        ensures
            final(chip)@ == old(chip)@,
            final(chip).receiver() is Some,
    {
        chip.subscribe_to_clock(clock.subscribe());
    }

    /// The memory of the chip.
    pub fn memory(chip: &Chip) -> (r: &Memory)
        ensures
            r@ == chip@.memory,
    {
        chip.memory()
    }
}

/// A memory of 4096 words.
#[derive(Debug)]
pub struct Ram4kChip {}

impl Ram4kChip {
    /// Makes the chip, with new buses in `net` for its pins.
    pub fn new(net: &mut Net) -> (chip: Chip)
        requires
            old(net).wf(),
        ensures
            final(net).wf(),
            built(chip@, ChipKind::Ram4k, old(net)@, final(net)@),
            chip.wf(final(net)),
            has_signature(chip@, final(net)@),
    {
        Chip::builtin(net, ChipKind::Ram4k)
    }

    /// Subscribes the chip to `clock`: the chip then keeps a receiver that
    /// the clock gave it. Pins and what the chip holds stay as they are.
    pub fn subscribe_to_clock(chip: &mut Chip, clock: &Clock)
        ensures
            final(chip)@ == old(chip)@,
            final(chip).receiver() is Some,
    {
        chip.subscribe_to_clock(clock.subscribe());
    }

    /// The memory of the chip.
    pub fn memory(chip: &Chip) -> (r: &Memory)
        ensures
            r@ == chip@.memory,
    {
        chip.memory()
    }
}

/// A memory of 16384 words.
#[derive(Debug)]
pub struct Ram16kChip {}

impl Ram16kChip {
    /// Makes the chip, with new buses in `net` for its pins.
    pub fn new(net: &mut Net) -> (chip: Chip)
        requires
            old(net).wf(),
        ensures
            final(net).wf(),
            built(chip@, ChipKind::Ram16k, old(net)@, final(net)@),
            chip.wf(final(net)),
            has_signature(chip@, final(net)@),
    {
        Chip::builtin(net, ChipKind::Ram16k)
    }

    /// Subscribes the chip to `clock`: the chip then keeps a receiver that
    /// the clock gave it. Pins and what the chip holds stay as they are.
    pub fn subscribe_to_clock(chip: &mut Chip, clock: &Clock)
        ensures
            final(chip)@ == old(chip)@,
            final(chip).receiver() is Some,
    {
        chip.subscribe_to_clock(clock.subscribe());
    }

    /// The memory of the chip.
    pub fn memory(chip: &Chip) -> (r: &Memory)
        ensures
            r@ == chip@.memory,
    {
        chip.memory()
    }
}

} // verus!

use vstd::prelude::*;
use crate::chip::builtins::table::ChipKind;
use crate::chip::chip::{built, Chip};
use crate::chip::model::has_signature;
use crate::chip::net::Net;

verus! {

/// Out = not (a and b).
#[derive(Debug)]
pub struct NandChip {}

impl NandChip {
    /// Makes the chip, with new buses in `net` for its pins.
    pub fn new(net: &mut Net) -> (chip: Chip)
        requires
            old(net).wf(),
        ensures
            final(net).wf(),
            built(chip@, ChipKind::Nand, old(net)@, final(net)@),
            chip.wf(final(net)),
            has_signature(chip@, final(net)@),
    {
        Chip::builtin(net, ChipKind::Nand)
    }
}

/// Out = not in.
#[derive(Debug)]
pub struct NotChip {}

impl NotChip {
    /// Makes the chip, with new buses in `net` for its pins.
    pub fn new(net: &mut Net) -> (chip: Chip)
        requires
            old(net).wf(),
        ensures
            final(net).wf(),
            built(chip@, ChipKind::Not, old(net)@, final(net)@),
            chip.wf(final(net)),
            has_signature(chip@, final(net)@),
    {
        Chip::builtin(net, ChipKind::Not)
    }
}

/// Out = a and b.
#[derive(Debug)]
pub struct AndChip {}

impl AndChip {
    /// Makes the chip, with new buses in `net` for its pins.
    pub fn new(net: &mut Net) -> (chip: Chip)
        requires
            old(net).wf(),
        ensures
            final(net).wf(),
            built(chip@, ChipKind::And, old(net)@, final(net)@),
            chip.wf(final(net)),
            has_signature(chip@, final(net)@),
    {
        Chip::builtin(net, ChipKind::And)
    }
}

/// Out = a or b.
#[derive(Debug)]
pub struct OrChip {}

impl OrChip {
    /// Makes the chip, with new buses in `net` for its pins.
    pub fn new(net: &mut Net) -> (chip: Chip)
        requires
            old(net).wf(),
        ensures
            final(net).wf(),
            built(chip@, ChipKind::Or, old(net)@, final(net)@),
            chip.wf(final(net)),
            has_signature(chip@, final(net)@),
    {
        Chip::builtin(net, ChipKind::Or)
    }
}

/// Out = a xor b.
#[derive(Debug)]
pub struct XorChip {}

impl XorChip {
    /// Makes the chip, with new buses in `net` for its pins.
    pub fn new(net: &mut Net) -> (chip: Chip)
        requires
            old(net).wf(),
        ensures
            final(net).wf(),
            built(chip@, ChipKind::Xor, old(net)@, final(net)@),
            chip.wf(final(net)),
            has_signature(chip@, final(net)@),
    {
        Chip::builtin(net, ChipKind::Xor)
    }
}

/// Out = a where sel is low, else b.
#[derive(Debug)]
pub struct MuxChip {}

impl MuxChip {
    /// Makes the chip, with new buses in `net` for its pins.
    pub fn new(net: &mut Net) -> (chip: Chip)
        requires
            old(net).wf(),
        ensures
            final(net).wf(),
            built(chip@, ChipKind::Mux, old(net)@, final(net)@),
            chip.wf(final(net)),
            has_signature(chip@, final(net)@),
    {
        Chip::builtin(net, ChipKind::Mux)
    }
}

/// In goes to a where sel is low, else to b; the other output is low.
#[derive(Debug)]
pub struct DMuxChip {}

impl DMuxChip {
    /// Makes the chip, with new buses in `net` for its pins.
    pub fn new(net: &mut Net) -> (chip: Chip)
        requires
            old(net).wf(),
        ensures
            final(net).wf(),
            built(chip@, ChipKind::DMux, old(net)@, final(net)@),
            chip.wf(final(net)),
            has_signature(chip@, final(net)@),
    {
        Chip::builtin(net, ChipKind::DMux)
    }
}

/// In goes to the one of four outputs that the two bits of sel name.
#[derive(Debug)]
pub struct DMux4WayChip {}

impl DMux4WayChip {
    /// Makes the chip, with new buses in `net` for its pins.
    pub fn new(net: &mut Net) -> (chip: Chip)
        requires
            old(net).wf(),
        ensures
            final(net).wf(),
            built(chip@, ChipKind::DMux4Way, old(net)@, final(net)@),
            chip.wf(final(net)),
            has_signature(chip@, final(net)@),
    {
        Chip::builtin(net, ChipKind::DMux4Way)
    }
}

/// In goes to the one of eight outputs that the three bits of sel name.
#[derive(Debug)]
pub struct DMux8WayChip {}

impl DMux8WayChip {
    /// Makes the chip, with new buses in `net` for its pins.
    pub fn new(net: &mut Net) -> (chip: Chip)
        requires
            old(net).wf(),
        ensures
            final(net).wf(),
            built(chip@, ChipKind::DMux8Way, old(net)@, final(net)@),
            chip.wf(final(net)),
            has_signature(chip@, final(net)@),
    {
        Chip::builtin(net, ChipKind::DMux8Way)
    }
}

} // verus!

use vstd::prelude::*;
use crate::chip::builtins::table::ChipKind;
use crate::chip::chip::{built, Chip};
use crate::chip::model::has_signature;
use crate::chip::net::Net;
use crate::chip::builtins::gates::{alu_flags, alu_out, half_add, AluFlags};

verus! {

/// Out = not in, bit by bit.
#[derive(Debug)]
pub struct Not16Chip {}

impl Not16Chip {
    /// Makes the chip, with new buses in `net` for its pins.
    pub fn new(net: &mut Net) -> (chip: Chip)
        requires
            old(net).wf(),
        ensures
            final(net).wf(),
            built(chip@, ChipKind::Not16, old(net)@, final(net)@),
            chip.wf(final(net)),
            has_signature(chip@, final(net)@),
    {
        Chip::builtin(net, ChipKind::Not16)
    }
}

/// Out = a and b, bit by bit.
#[derive(Debug)]
pub struct And16Chip {}

impl And16Chip {
    /// Makes the chip, with new buses in `net` for its pins.
    pub fn new(net: &mut Net) -> (chip: Chip)
        requires
            old(net).wf(),
        ensures
            final(net).wf(),
            built(chip@, ChipKind::And16, old(net)@, final(net)@),
            chip.wf(final(net)),
            has_signature(chip@, final(net)@),
    {
        Chip::builtin(net, ChipKind::And16)
    }
}

/// Out = a or b, bit by bit.
#[derive(Debug)]
pub struct Or16Chip {}

impl Or16Chip {
    /// Makes the chip, with new buses in `net` for its pins.
    pub fn new(net: &mut Net) -> (chip: Chip)
        requires
            old(net).wf(),
        ensures
            final(net).wf(),
            built(chip@, ChipKind::Or16, old(net)@, final(net)@),
            chip.wf(final(net)),
            has_signature(chip@, final(net)@),
    {
        Chip::builtin(net, ChipKind::Or16)
    }
}

/// Out = a where sel is low, else b.
#[derive(Debug)]
pub struct Mux16Chip {}

impl Mux16Chip {
    /// Makes the chip, with new buses in `net` for its pins.
    pub fn new(net: &mut Net) -> (chip: Chip)
        requires
            old(net).wf(),
        ensures
            final(net).wf(),
            built(chip@, ChipKind::Mux16, old(net)@, final(net)@),
            chip.wf(final(net)),
            has_signature(chip@, final(net)@),
    {
        Chip::builtin(net, ChipKind::Mux16)
    }
}

/// Out = the one of four words that the two bits of sel name.
#[derive(Debug)]
pub struct Mux4Way16Chip {}

impl Mux4Way16Chip {
    /// Makes the chip, with new buses in `net` for its pins.
    pub fn new(net: &mut Net) -> (chip: Chip)
        requires
            old(net).wf(),
        ensures
            final(net).wf(),
            built(chip@, ChipKind::Mux4Way16, old(net)@, final(net)@),
            chip.wf(final(net)),
            has_signature(chip@, final(net)@),
    {
        Chip::builtin(net, ChipKind::Mux4Way16)
    }
}

/// Out = the one of eight words that the three bits of sel name.
#[derive(Debug)]
pub struct Mux8Way16Chip {}

impl Mux8Way16Chip {
    /// Makes the chip, with new buses in `net` for its pins.
    pub fn new(net: &mut Net) -> (chip: Chip)
        requires
            old(net).wf(),
        ensures
            final(net).wf(),
            built(chip@, ChipKind::Mux8Way16, old(net)@, final(net)@),
            chip.wf(final(net)),
            has_signature(chip@, final(net)@),
    {
        Chip::builtin(net, ChipKind::Mux8Way16)
    }
}

/// Out = a + b, modulo 2^16.
#[derive(Debug)]
pub struct Add16Chip {}

impl Add16Chip {
    /// Makes the chip, with new buses in `net` for its pins.
    pub fn new(net: &mut Net) -> (chip: Chip)
        requires
            old(net).wf(),
        ensures
            final(net).wf(),
            built(chip@, ChipKind::Add16, old(net)@, final(net)@),
            chip.wf(final(net)),
            has_signature(chip@, final(net)@),
    {
        Chip::builtin(net, ChipKind::Add16)
    }
}

/// Out = in + 1, modulo 2^16.
#[derive(Debug)]
pub struct Inc16Chip {}

impl Inc16Chip {
    /// Makes the chip, with new buses in `net` for its pins.
    pub fn new(net: &mut Net) -> (chip: Chip)
        requires
            old(net).wf(),
        ensures
            final(net).wf(),
            built(chip@, ChipKind::Inc16, old(net)@, final(net)@),
            chip.wf(final(net)),
            has_signature(chip@, final(net)@),
    {
        Chip::builtin(net, ChipKind::Inc16)
    }
}

/// Sum and carry of two bits.
#[derive(Debug)]
pub struct HalfAdderChip {}

impl HalfAdderChip {
    /// Makes the chip, with new buses in `net` for its pins.
    pub fn new(net: &mut Net) -> (chip: Chip)
        requires
            old(net).wf(),
        ensures
            final(net).wf(),
            built(chip@, ChipKind::HalfAdder, old(net)@, final(net)@),
            chip.wf(final(net)),
            has_signature(chip@, final(net)@),
    {
        Chip::builtin(net, ChipKind::HalfAdder)
    }
}

/// Sum and carry of three bits.
#[derive(Debug)]
pub struct FullAdderChip {}

impl FullAdderChip {
    /// Makes the chip, with new buses in `net` for its pins.
    pub fn new(net: &mut Net) -> (chip: Chip)
        requires
            old(net).wf(),
        ensures
            final(net).wf(),
            built(chip@, ChipKind::FullAdder, old(net)@, final(net)@),
            chip.wf(final(net)),
            has_signature(chip@, final(net)@),
    {
        Chip::builtin(net, ChipKind::FullAdder)
    }

    /// Sum and carry of two bits: the half adder of which the full adder uses two.
    pub fn half_adder(a: u16, b: u16) -> (r: (u16, u16))
        ensures
            r == half_add(a, b),
    {
        crate::chip::builtins::table::half_adder(a, b)
    }
}

/// The arithmetic logic unit.
#[derive(Debug)]
pub struct AluChip {}

impl AluChip {
    /// Makes the chip, with new buses in `net` for its pins.
    pub fn new(net: &mut Net) -> (chip: Chip)
        requires
            old(net).wf(),
        ensures
            final(net).wf(),
            built(chip@, ChipKind::Alu, old(net)@, final(net)@),
            chip.wf(final(net)),
            has_signature(chip@, final(net)@),
    {
        Chip::builtin(net, ChipKind::Alu)
    }

    /// The ALU on plain words: the result for the control word `op`, and
    /// how the result compares to zero.
    pub fn alu_operation(op: u16, x: u16, y: u16) -> (r: (u16, AluFlags))
        ensures
            r.0 == alu_out(op, x, y),
            r.1 == alu_flags(r.0),
    {
        crate::chip::builtins::gates::alu_operation(op, x, y)
    }
}

} // verus!

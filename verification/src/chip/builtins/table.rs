use vstd::prelude::*;
use crate::chip::builtins::gates::{
    add16, alu_ng, alu_op, alu_operation, alu_out, alu_zr, and, full_add, half_add, inc16, low,
    mux, mux16, nand, not, or, route, select, xor, AluFlags,
};
use crate::text::same;

verus! {

/// What a chip is: a composite of parts, or one of the built-in chips.
#[derive(Debug, Clone, Copy, PartialEq, Eq, Structural)]
pub enum ChipKind {
    Composite,
    Nand,
    Not,
    And,
    Or,
    Xor,
    Mux,
    DMux,
    DMux4Way,
    DMux8Way,
    Not16,
    And16,
    Or16,
    Mux16,
    Mux4Way16,
    Mux8Way16,
    Add16,
    Inc16,
    HalfAdder,
    FullAdder,
    Alu,
    Dff,
    Bit,
    Register,
    Pc,
    Ram8,
    Ram64,
    Ram512,
    Ram4k,
    Ram16k,
    Rom32k,
    Screen,
    Keyboard,
}

/// One pin of a built-in chip: its name and its width in bits.
#[derive(Debug, Clone, Copy)]
pub struct PinSpec {
    pub name: &'static str,
    pub width: usize,
}

/// Whether the pins `got` are, in order, the named widths `want`.
pub open spec fn spec_matches(got: Seq<PinSpec>, want: Seq<(Seq<char>, usize)>) -> bool {
    &&& got.len() == want.len()
    &&& forall|i: int|
        0 <= i < got.len() ==> (#[trigger] got[i]).name@ == want[i].0 && got[i].width == want[i].1
}

/// The input pins of a built-in chip, in order.
pub open spec fn input_pins_of(kind: ChipKind) -> Seq<(Seq<char>, usize)> {
    match kind {
        ChipKind::Composite => Seq::empty(),
        ChipKind::Nand => seq![("a"@, 1usize), ("b"@, 1usize)],
        ChipKind::Not => seq![("in"@, 1usize)],
        ChipKind::And => seq![("a"@, 1usize), ("b"@, 1usize)],
        ChipKind::Or => seq![("a"@, 1usize), ("b"@, 1usize)],
        ChipKind::Xor => seq![("a"@, 1usize), ("b"@, 1usize)],
        ChipKind::Mux => seq![("a"@, 1usize), ("b"@, 1usize), ("sel"@, 1usize)],
        ChipKind::DMux => seq![("in"@, 1usize), ("sel"@, 1usize)],
        ChipKind::DMux4Way => seq![("in"@, 1usize), ("sel"@, 2usize)],
        ChipKind::DMux8Way => seq![("in"@, 1usize), ("sel"@, 3usize)],
        ChipKind::Not16 => seq![("in"@, 16usize)],
        ChipKind::And16 => seq![("a"@, 16usize), ("b"@, 16usize)],
        ChipKind::Or16 => seq![("a"@, 16usize), ("b"@, 16usize)],
        ChipKind::Mux16 => seq![("a"@, 16usize), ("b"@, 16usize), ("sel"@, 1usize)],
        ChipKind::Mux4Way16 => seq![
            ("a"@, 16usize),
            ("b"@, 16usize),
            ("c"@, 16usize),
            ("d"@, 16usize),
            ("sel"@, 2usize),
        ],
        ChipKind::Mux8Way16 => seq![
            ("a"@, 16usize),
            ("b"@, 16usize),
            ("c"@, 16usize),
            ("d"@, 16usize),
            ("e"@, 16usize),
            ("f"@, 16usize),
            ("g"@, 16usize),
            ("h"@, 16usize),
            ("sel"@, 3usize),
        ],
        ChipKind::Add16 => seq![("a"@, 16usize), ("b"@, 16usize)],
        ChipKind::Inc16 => seq![("in"@, 16usize)],
        ChipKind::HalfAdder => seq![("a"@, 1usize), ("b"@, 1usize)],
        ChipKind::FullAdder => seq![("a"@, 1usize), ("b"@, 1usize), ("c"@, 1usize)],
        ChipKind::Alu => seq![
            ("x"@, 16usize),
            ("y"@, 16usize),
            ("zx"@, 1usize),
            ("nx"@, 1usize),
            ("zy"@, 1usize),
            ("ny"@, 1usize),
            ("f"@, 1usize),
            ("no"@, 1usize),
        ],
        ChipKind::Dff => seq![("in"@, 1usize)],
        ChipKind::Bit => seq![("in"@, 1usize), ("load"@, 1usize)],
        ChipKind::Register => seq![("in"@, 16usize), ("load"@, 1usize)],
        ChipKind::Pc => seq![
            ("in"@, 16usize),
            ("reset"@, 1usize),
            ("load"@, 1usize),
            ("inc"@, 1usize),
        ],
        ChipKind::Ram8 => seq![("in"@, 16usize), ("load"@, 1usize), ("address"@, 3usize)],
        ChipKind::Ram64 => seq![("in"@, 16usize), ("load"@, 1usize), ("address"@, 6usize)],
        ChipKind::Ram512 => seq![("in"@, 16usize), ("load"@, 1usize), ("address"@, 9usize)],
        ChipKind::Ram4k => seq![("in"@, 16usize), ("load"@, 1usize), ("address"@, 12usize)],
        ChipKind::Ram16k => seq![("in"@, 16usize), ("load"@, 1usize), ("address"@, 14usize)],
        ChipKind::Rom32k => seq![("address"@, 15usize)],
        ChipKind::Screen => seq![("in"@, 16usize), ("load"@, 1usize), ("address"@, 13usize)],
        ChipKind::Keyboard => Seq::empty(),
    }
}

pub fn input_spec(kind: ChipKind) -> (r: Vec<PinSpec>)
    ensures
        spec_matches(r@, input_pins_of(kind)),
{
    match kind {
        ChipKind::Composite => Vec::new(),
        ChipKind::Nand => vec![PinSpec { name: "a", width: 1 }, PinSpec { name: "b", width: 1 }],
        ChipKind::Not => vec![PinSpec { name: "in", width: 1 }],
        ChipKind::And => vec![PinSpec { name: "a", width: 1 }, PinSpec { name: "b", width: 1 }],
        ChipKind::Or => vec![PinSpec { name: "a", width: 1 }, PinSpec { name: "b", width: 1 }],
        ChipKind::Xor => vec![PinSpec { name: "a", width: 1 }, PinSpec { name: "b", width: 1 }],
        ChipKind::Mux => vec![
            PinSpec { name: "a", width: 1 },
            PinSpec { name: "b", width: 1 },
            PinSpec { name: "sel", width: 1 },
        ],
        ChipKind::DMux => vec![PinSpec { name: "in", width: 1 }, PinSpec { name: "sel", width: 1 }],
        ChipKind::DMux4Way => vec![
            PinSpec { name: "in", width: 1 },
            PinSpec { name: "sel", width: 2 },
        ],
        ChipKind::DMux8Way => vec![
            PinSpec { name: "in", width: 1 },
            PinSpec { name: "sel", width: 3 },
        ],
        ChipKind::Not16 => vec![PinSpec { name: "in", width: 16 }],
        ChipKind::And16 => vec![PinSpec { name: "a", width: 16 }, PinSpec { name: "b", width: 16 }],
        ChipKind::Or16 => vec![PinSpec { name: "a", width: 16 }, PinSpec { name: "b", width: 16 }],
        ChipKind::Mux16 => vec![
            PinSpec { name: "a", width: 16 },
            PinSpec { name: "b", width: 16 },
            PinSpec { name: "sel", width: 1 },
        ],
        ChipKind::Mux4Way16 => vec![
            PinSpec { name: "a", width: 16 },
            PinSpec { name: "b", width: 16 },
            PinSpec { name: "c", width: 16 },
            PinSpec { name: "d", width: 16 },
            PinSpec { name: "sel", width: 2 },
        ],
        ChipKind::Mux8Way16 => vec![
            PinSpec { name: "a", width: 16 },
            PinSpec { name: "b", width: 16 },
            PinSpec { name: "c", width: 16 },
            PinSpec { name: "d", width: 16 },
            PinSpec { name: "e", width: 16 },
            PinSpec { name: "f", width: 16 },
            PinSpec { name: "g", width: 16 },
            PinSpec { name: "h", width: 16 },
            PinSpec { name: "sel", width: 3 },
        ],
        ChipKind::Add16 => vec![PinSpec { name: "a", width: 16 }, PinSpec { name: "b", width: 16 }],
        ChipKind::Inc16 => vec![PinSpec { name: "in", width: 16 }],
        ChipKind::HalfAdder => vec![
            PinSpec { name: "a", width: 1 },
            PinSpec { name: "b", width: 1 },
        ],
        ChipKind::FullAdder => vec![
            PinSpec { name: "a", width: 1 },
            PinSpec { name: "b", width: 1 },
            PinSpec { name: "c", width: 1 },
        ],
        ChipKind::Alu => vec![
            PinSpec { name: "x", width: 16 },
            PinSpec { name: "y", width: 16 },
            PinSpec { name: "zx", width: 1 },
            PinSpec { name: "nx", width: 1 },
            PinSpec { name: "zy", width: 1 },
            PinSpec { name: "ny", width: 1 },
            PinSpec { name: "f", width: 1 },
            PinSpec { name: "no", width: 1 },
        ],
        ChipKind::Dff => vec![PinSpec { name: "in", width: 1 }],
        ChipKind::Bit => vec![PinSpec { name: "in", width: 1 }, PinSpec { name: "load", width: 1 }],
        ChipKind::Register => vec![
            PinSpec { name: "in", width: 16 },
            PinSpec { name: "load", width: 1 },
        ],
        ChipKind::Pc => vec![
            PinSpec { name: "in", width: 16 },
            PinSpec { name: "reset", width: 1 },
            PinSpec { name: "load", width: 1 },
            PinSpec { name: "inc", width: 1 },
        ],
        ChipKind::Ram8 => vec![
            PinSpec { name: "in", width: 16 },
            PinSpec { name: "load", width: 1 },
            PinSpec { name: "address", width: 3 },
        ],
        ChipKind::Ram64 => vec![
            PinSpec { name: "in", width: 16 },
            PinSpec { name: "load", width: 1 },
            PinSpec { name: "address", width: 6 },
        ],
        ChipKind::Ram512 => vec![
            PinSpec { name: "in", width: 16 },
            PinSpec { name: "load", width: 1 },
            PinSpec { name: "address", width: 9 },
        ],
        ChipKind::Ram4k => vec![
            PinSpec { name: "in", width: 16 },
            PinSpec { name: "load", width: 1 },
            PinSpec { name: "address", width: 12 },
        ],
        ChipKind::Ram16k => vec![
            PinSpec { name: "in", width: 16 },
            PinSpec { name: "load", width: 1 },
            PinSpec { name: "address", width: 14 },
        ],
        ChipKind::Rom32k => vec![PinSpec { name: "address", width: 15 }],
        ChipKind::Screen => vec![
            PinSpec { name: "in", width: 16 },
            PinSpec { name: "load", width: 1 },
            PinSpec { name: "address", width: 13 },
        ],
        ChipKind::Keyboard => Vec::new(),
    }
}

/// The output pins of a built-in chip, in order.
pub open spec fn output_pins_of(kind: ChipKind) -> Seq<(Seq<char>, usize)> {
    match kind {
        ChipKind::Composite => Seq::empty(),
        ChipKind::Nand => seq![("out"@, 1usize)],
        ChipKind::Not => seq![("out"@, 1usize)],
        ChipKind::And => seq![("out"@, 1usize)],
        ChipKind::Or => seq![("out"@, 1usize)],
        ChipKind::Xor => seq![("out"@, 1usize)],
        ChipKind::Mux => seq![("out"@, 1usize)],
        ChipKind::DMux => seq![("a"@, 1usize), ("b"@, 1usize)],
        ChipKind::DMux4Way => seq![("a"@, 1usize), ("b"@, 1usize), ("c"@, 1usize), ("d"@, 1usize)],
        ChipKind::DMux8Way => seq![
            ("a"@, 1usize),
            ("b"@, 1usize),
            ("c"@, 1usize),
            ("d"@, 1usize),
            ("e"@, 1usize),
            ("f"@, 1usize),
            ("g"@, 1usize),
            ("h"@, 1usize),
        ],
        ChipKind::Not16 => seq![("out"@, 16usize)],
        ChipKind::And16 => seq![("out"@, 16usize)],
        ChipKind::Or16 => seq![("out"@, 16usize)],
        ChipKind::Mux16 => seq![("out"@, 16usize)],
        ChipKind::Mux4Way16 => seq![("out"@, 16usize)],
        ChipKind::Mux8Way16 => seq![("out"@, 16usize)],
        ChipKind::Add16 => seq![("out"@, 16usize)],
        ChipKind::Inc16 => seq![("out"@, 16usize)],
        ChipKind::HalfAdder => seq![("sum"@, 1usize), ("carry"@, 1usize)],
        ChipKind::FullAdder => seq![("sum"@, 1usize), ("carry"@, 1usize)],
        ChipKind::Alu => seq![("out"@, 16usize), ("zr"@, 1usize), ("ng"@, 1usize)],
        ChipKind::Dff => seq![("out"@, 1usize)],
        ChipKind::Bit => seq![("out"@, 1usize)],
        ChipKind::Register => seq![("out"@, 16usize)],
        ChipKind::Pc => seq![("out"@, 16usize)],
        ChipKind::Ram8 => seq![("out"@, 16usize)],
        ChipKind::Ram64 => seq![("out"@, 16usize)],
        ChipKind::Ram512 => seq![("out"@, 16usize)],
        ChipKind::Ram4k => seq![("out"@, 16usize)],
        ChipKind::Ram16k => seq![("out"@, 16usize)],
        ChipKind::Rom32k => seq![("out"@, 16usize)],
        ChipKind::Screen => seq![("out"@, 16usize)],
        ChipKind::Keyboard => seq![("out"@, 16usize)],
    }
}

pub fn output_spec(kind: ChipKind) -> (r: Vec<PinSpec>)
    ensures
        spec_matches(r@, output_pins_of(kind)),
{
    match kind {
        ChipKind::Composite => Vec::new(),
        ChipKind::Nand => vec![PinSpec { name: "out", width: 1 }],
        ChipKind::Not => vec![PinSpec { name: "out", width: 1 }],
        ChipKind::And => vec![PinSpec { name: "out", width: 1 }],
        ChipKind::Or => vec![PinSpec { name: "out", width: 1 }],
        ChipKind::Xor => vec![PinSpec { name: "out", width: 1 }],
        ChipKind::Mux => vec![PinSpec { name: "out", width: 1 }],
        ChipKind::DMux => vec![PinSpec { name: "a", width: 1 }, PinSpec { name: "b", width: 1 }],
        ChipKind::DMux4Way => vec![
            PinSpec { name: "a", width: 1 },
            PinSpec { name: "b", width: 1 },
            PinSpec { name: "c", width: 1 },
            PinSpec { name: "d", width: 1 },
        ],
        ChipKind::DMux8Way => vec![
            PinSpec { name: "a", width: 1 },
            PinSpec { name: "b", width: 1 },
            PinSpec { name: "c", width: 1 },
            PinSpec { name: "d", width: 1 },
            PinSpec { name: "e", width: 1 },
            PinSpec { name: "f", width: 1 },
            PinSpec { name: "g", width: 1 },
            PinSpec { name: "h", width: 1 },
        ],
        ChipKind::Not16 => vec![PinSpec { name: "out", width: 16 }],
        ChipKind::And16 => vec![PinSpec { name: "out", width: 16 }],
        ChipKind::Or16 => vec![PinSpec { name: "out", width: 16 }],
        ChipKind::Mux16 => vec![PinSpec { name: "out", width: 16 }],
        ChipKind::Mux4Way16 => vec![PinSpec { name: "out", width: 16 }],
        ChipKind::Mux8Way16 => vec![PinSpec { name: "out", width: 16 }],
        ChipKind::Add16 => vec![PinSpec { name: "out", width: 16 }],
        ChipKind::Inc16 => vec![PinSpec { name: "out", width: 16 }],
        ChipKind::HalfAdder => vec![
            PinSpec { name: "sum", width: 1 },
            PinSpec { name: "carry", width: 1 },
        ],
        ChipKind::FullAdder => vec![
            PinSpec { name: "sum", width: 1 },
            PinSpec { name: "carry", width: 1 },
        ],
        ChipKind::Alu => vec![
            PinSpec { name: "out", width: 16 },
            PinSpec { name: "zr", width: 1 },
            PinSpec { name: "ng", width: 1 },
        ],
        ChipKind::Dff => vec![PinSpec { name: "out", width: 1 }],
        ChipKind::Bit => vec![PinSpec { name: "out", width: 1 }],
        ChipKind::Register => vec![PinSpec { name: "out", width: 16 }],
        ChipKind::Pc => vec![PinSpec { name: "out", width: 16 }],
        ChipKind::Ram8 => vec![PinSpec { name: "out", width: 16 }],
        ChipKind::Ram64 => vec![PinSpec { name: "out", width: 16 }],
        ChipKind::Ram512 => vec![PinSpec { name: "out", width: 16 }],
        ChipKind::Ram4k => vec![PinSpec { name: "out", width: 16 }],
        ChipKind::Ram16k => vec![PinSpec { name: "out", width: 16 }],
        ChipKind::Rom32k => vec![PinSpec { name: "out", width: 16 }],
        ChipKind::Screen => vec![PinSpec { name: "out", width: 16 }],
        ChipKind::Keyboard => vec![PinSpec { name: "out", width: 16 }],
    }
}

/// The internal pins of a built-in chip, in order.
pub open spec fn internal_pins_of(kind: ChipKind) -> Seq<(Seq<char>, usize)> {
    match kind {
        ChipKind::Composite => Seq::empty(),
        ChipKind::Nand => Seq::empty(),
        ChipKind::Not => Seq::empty(),
        ChipKind::And => Seq::empty(),
        ChipKind::Or => Seq::empty(),
        ChipKind::Xor => Seq::empty(),
        ChipKind::Mux => Seq::empty(),
        ChipKind::DMux => Seq::empty(),
        ChipKind::DMux4Way => Seq::empty(),
        ChipKind::DMux8Way => Seq::empty(),
        ChipKind::Not16 => Seq::empty(),
        ChipKind::And16 => Seq::empty(),
        ChipKind::Or16 => Seq::empty(),
        ChipKind::Mux16 => Seq::empty(),
        ChipKind::Mux4Way16 => Seq::empty(),
        ChipKind::Mux8Way16 => Seq::empty(),
        ChipKind::Add16 => Seq::empty(),
        ChipKind::Inc16 => Seq::empty(),
        ChipKind::HalfAdder => Seq::empty(),
        ChipKind::FullAdder => Seq::empty(),
        ChipKind::Alu => Seq::empty(),
        ChipKind::Dff => seq![("t"@, 1usize)],
        ChipKind::Bit => Seq::empty(),
        ChipKind::Register => Seq::empty(),
        ChipKind::Pc => Seq::empty(),
        ChipKind::Ram8 => Seq::empty(),
        ChipKind::Ram64 => Seq::empty(),
        ChipKind::Ram512 => Seq::empty(),
        ChipKind::Ram4k => Seq::empty(),
        ChipKind::Ram16k => Seq::empty(),
        ChipKind::Rom32k => Seq::empty(),
        ChipKind::Screen => Seq::empty(),
        ChipKind::Keyboard => Seq::empty(),
    }
}

pub fn internal_spec(kind: ChipKind) -> (r: Vec<PinSpec>)
    ensures
        spec_matches(r@, internal_pins_of(kind)),
{
    match kind {
        ChipKind::Composite => Vec::new(),
        ChipKind::Nand => Vec::new(),
        ChipKind::Not => Vec::new(),
        ChipKind::And => Vec::new(),
        ChipKind::Or => Vec::new(),
        ChipKind::Xor => Vec::new(),
        ChipKind::Mux => Vec::new(),
        ChipKind::DMux => Vec::new(),
        ChipKind::DMux4Way => Vec::new(),
        ChipKind::DMux8Way => Vec::new(),
        ChipKind::Not16 => Vec::new(),
        ChipKind::And16 => Vec::new(),
        ChipKind::Or16 => Vec::new(),
        ChipKind::Mux16 => Vec::new(),
        ChipKind::Mux4Way16 => Vec::new(),
        ChipKind::Mux8Way16 => Vec::new(),
        ChipKind::Add16 => Vec::new(),
        ChipKind::Inc16 => Vec::new(),
        ChipKind::HalfAdder => Vec::new(),
        ChipKind::FullAdder => Vec::new(),
        ChipKind::Alu => Vec::new(),
        ChipKind::Dff => vec![PinSpec { name: "t", width: 1 }],
        ChipKind::Bit => Vec::new(),
        ChipKind::Register => Vec::new(),
        ChipKind::Pc => Vec::new(),
        ChipKind::Ram8 => Vec::new(),
        ChipKind::Ram64 => Vec::new(),
        ChipKind::Ram512 => Vec::new(),
        ChipKind::Ram4k => Vec::new(),
        ChipKind::Ram16k => Vec::new(),
        ChipKind::Rom32k => Vec::new(),
        ChipKind::Screen => Vec::new(),
        ChipKind::Keyboard => Vec::new(),
    }
}

/// The name under which a chip kind is built.
pub open spec fn kind_name(kind: ChipKind) -> Seq<char> {
    match kind {
        ChipKind::Composite => "Composite"@,
        ChipKind::Nand => "Nand"@,
        ChipKind::Not => "Not"@,
        ChipKind::And => "And"@,
        ChipKind::Or => "Or"@,
        ChipKind::Xor => "Xor"@,
        ChipKind::Mux => "Mux"@,
        ChipKind::DMux => "DMux"@,
        ChipKind::DMux4Way => "DMux4Way"@,
        ChipKind::DMux8Way => "DMux8Way"@,
        ChipKind::Not16 => "Not16"@,
        ChipKind::And16 => "And16"@,
        ChipKind::Or16 => "Or16"@,
        ChipKind::Mux16 => "Mux16"@,
        ChipKind::Mux4Way16 => "Mux4Way16"@,
        ChipKind::Mux8Way16 => "Mux8Way16"@,
        ChipKind::Add16 => "Add16"@,
        ChipKind::Inc16 => "Inc16"@,
        ChipKind::HalfAdder => "HalfAdder"@,
        ChipKind::FullAdder => "FullAdder"@,
        ChipKind::Alu => "ALU"@,
        ChipKind::Dff => "DFF"@,
        ChipKind::Bit => "Bit"@,
        ChipKind::Register => "Register"@,
        ChipKind::Pc => "PC"@,
        ChipKind::Ram8 => "RAM8"@,
        ChipKind::Ram64 => "RAM64"@,
        ChipKind::Ram512 => "RAM512"@,
        ChipKind::Ram4k => "RAM4K"@,
        ChipKind::Ram16k => "RAM16K"@,
        ChipKind::Rom32k => "ROM32K"@,
        ChipKind::Screen => "Screen"@,
        ChipKind::Keyboard => "Keyboard"@,
    }
}

pub fn name_of(kind: ChipKind) -> (r: &'static str)
    ensures
        r@ == kind_name(kind),
{
    match kind {
        ChipKind::Composite => "Composite",
        ChipKind::Nand => "Nand",
        ChipKind::Not => "Not",
        ChipKind::And => "And",
        ChipKind::Or => "Or",
        ChipKind::Xor => "Xor",
        ChipKind::Mux => "Mux",
        ChipKind::DMux => "DMux",
        ChipKind::DMux4Way => "DMux4Way",
        ChipKind::DMux8Way => "DMux8Way",
        ChipKind::Not16 => "Not16",
        ChipKind::And16 => "And16",
        ChipKind::Or16 => "Or16",
        ChipKind::Mux16 => "Mux16",
        ChipKind::Mux4Way16 => "Mux4Way16",
        ChipKind::Mux8Way16 => "Mux8Way16",
        ChipKind::Add16 => "Add16",
        ChipKind::Inc16 => "Inc16",
        ChipKind::HalfAdder => "HalfAdder",
        ChipKind::FullAdder => "FullAdder",
        ChipKind::Alu => "ALU",
        ChipKind::Dff => "DFF",
        ChipKind::Bit => "Bit",
        ChipKind::Register => "Register",
        ChipKind::Pc => "PC",
        ChipKind::Ram8 => "RAM8",
        ChipKind::Ram64 => "RAM64",
        ChipKind::Ram512 => "RAM512",
        ChipKind::Ram4k => "RAM4K",
        ChipKind::Ram16k => "RAM16K",
        ChipKind::Rom32k => "ROM32K",
        ChipKind::Screen => "Screen",
        ChipKind::Keyboard => "Keyboard",
    }
}

/// The built-in chip that is built under `name`, if there is one.
pub open spec fn kind_named(name: Seq<char>) -> Option<ChipKind> {
    if name == "Nand"@ {
        Some(ChipKind::Nand)
    } else if name == "Not"@ {
        Some(ChipKind::Not)
    } else if name == "And"@ {
        Some(ChipKind::And)
    } else if name == "Or"@ {
        Some(ChipKind::Or)
    } else if name == "Xor"@ {
        Some(ChipKind::Xor)
    } else if name == "Mux"@ {
        Some(ChipKind::Mux)
    } else if name == "DMux"@ {
        Some(ChipKind::DMux)
    } else if name == "DMux4Way"@ {
        Some(ChipKind::DMux4Way)
    } else if name == "DMux8Way"@ {
        Some(ChipKind::DMux8Way)
    } else if name == "Not16"@ {
        Some(ChipKind::Not16)
    } else if name == "And16"@ {
        Some(ChipKind::And16)
    } else if name == "Or16"@ {
        Some(ChipKind::Or16)
    } else if name == "Mux16"@ {
        Some(ChipKind::Mux16)
    } else if name == "Mux4Way16"@ {
        Some(ChipKind::Mux4Way16)
    } else if name == "Mux8Way16"@ {
        Some(ChipKind::Mux8Way16)
    } else if name == "Add16"@ {
        Some(ChipKind::Add16)
    } else if name == "Inc16"@ {
        Some(ChipKind::Inc16)
    } else if name == "HalfAdder"@ {
        Some(ChipKind::HalfAdder)
    } else if name == "FullAdder"@ {
        Some(ChipKind::FullAdder)
    } else if name == "ALU"@ {
        Some(ChipKind::Alu)
    } else if name == "DFF"@ {
        Some(ChipKind::Dff)
    } else if name == "Bit"@ {
        Some(ChipKind::Bit)
    } else if name == "Register"@ {
        Some(ChipKind::Register)
    } else if name == "PC"@ {
        Some(ChipKind::Pc)
    } else if name == "RAM8"@ {
        Some(ChipKind::Ram8)
    } else if name == "RAM64"@ {
        Some(ChipKind::Ram64)
    } else if name == "RAM512"@ {
        Some(ChipKind::Ram512)
    } else if name == "RAM4K"@ {
        Some(ChipKind::Ram4k)
    } else if name == "RAM16K"@ {
        Some(ChipKind::Ram16k)
    } else if name == "ROM32K"@ {
        Some(ChipKind::Rom32k)
    } else if name == "Screen"@ {
        Some(ChipKind::Screen)
    } else if name == "Keyboard"@ {
        Some(ChipKind::Keyboard)
    } else {
        None
    }
}

pub fn kind_by_name(name: &str) -> (r: Option<ChipKind>)
    ensures
        r == kind_named(name@),
{
    if same(name, "Nand") {
        Some(ChipKind::Nand)
    } else if same(name, "Not") {
        Some(ChipKind::Not)
    } else if same(name, "And") {
        Some(ChipKind::And)
    } else if same(name, "Or") {
        Some(ChipKind::Or)
    } else if same(name, "Xor") {
        Some(ChipKind::Xor)
    } else if same(name, "Mux") {
        Some(ChipKind::Mux)
    } else if same(name, "DMux") {
        Some(ChipKind::DMux)
    } else if same(name, "DMux4Way") {
        Some(ChipKind::DMux4Way)
    } else if same(name, "DMux8Way") {
        Some(ChipKind::DMux8Way)
    } else if same(name, "Not16") {
        Some(ChipKind::Not16)
    } else if same(name, "And16") {
        Some(ChipKind::And16)
    } else if same(name, "Or16") {
        Some(ChipKind::Or16)
    } else if same(name, "Mux16") {
        Some(ChipKind::Mux16)
    } else if same(name, "Mux4Way16") {
        Some(ChipKind::Mux4Way16)
    } else if same(name, "Mux8Way16") {
        Some(ChipKind::Mux8Way16)
    } else if same(name, "Add16") {
        Some(ChipKind::Add16)
    } else if same(name, "Inc16") {
        Some(ChipKind::Inc16)
    } else if same(name, "HalfAdder") {
        Some(ChipKind::HalfAdder)
    } else if same(name, "FullAdder") {
        Some(ChipKind::FullAdder)
    } else if same(name, "ALU") {
        Some(ChipKind::Alu)
    } else if same(name, "DFF") {
        Some(ChipKind::Dff)
    } else if same(name, "Bit") {
        Some(ChipKind::Bit)
    } else if same(name, "Register") {
        Some(ChipKind::Register)
    } else if same(name, "PC") {
        Some(ChipKind::Pc)
    } else if same(name, "RAM8") {
        Some(ChipKind::Ram8)
    } else if same(name, "RAM64") {
        Some(ChipKind::Ram64)
    } else if same(name, "RAM512") {
        Some(ChipKind::Ram512)
    } else if same(name, "RAM4K") {
        Some(ChipKind::Ram4k)
    } else if same(name, "RAM16K") {
        Some(ChipKind::Ram16k)
    } else if same(name, "ROM32K") {
        Some(ChipKind::Rom32k)
    } else if same(name, "Screen") {
        Some(ChipKind::Screen)
    } else if same(name, "Keyboard") {
        Some(ChipKind::Keyboard)
    } else {
        None
    }
}

/// The number of words that a built-in chip keeps in memory.
pub open spec fn memory_words(kind: ChipKind) -> usize {
    match kind {
        ChipKind::Ram8 => 8,
        ChipKind::Ram64 => 64,
        ChipKind::Ram512 => 512,
        ChipKind::Ram4k => 4096,
        ChipKind::Ram16k => 16384,
        ChipKind::Rom32k => 32768,
        ChipKind::Screen => 8192,
        _ => 0,
    }
}

pub fn memory_size(kind: ChipKind) -> (r: usize)
    ensures
        r == memory_words(kind),
{
    match kind {
        ChipKind::Ram8 => 8,
        ChipKind::Ram64 => 64,
        ChipKind::Ram512 => 512,
        ChipKind::Ram4k => 4096,
        ChipKind::Ram16k => 16384,
        ChipKind::Rom32k => 32768,
        ChipKind::Screen => 8192,
        _ => 0,
    }
}

/// Whether a chip kind turns its inputs into its outputs with no state between.
pub open spec fn is_combinational(kind: ChipKind) -> bool {
    match kind {
        ChipKind::Nand => true,
        ChipKind::Not => true,
        ChipKind::And => true,
        ChipKind::Or => true,
        ChipKind::Xor => true,
        ChipKind::Mux => true,
        ChipKind::DMux => true,
        ChipKind::DMux4Way => true,
        ChipKind::DMux8Way => true,
        ChipKind::Not16 => true,
        ChipKind::And16 => true,
        ChipKind::Or16 => true,
        ChipKind::Mux16 => true,
        ChipKind::Mux4Way16 => true,
        ChipKind::Mux8Way16 => true,
        ChipKind::Add16 => true,
        ChipKind::Inc16 => true,
        ChipKind::HalfAdder => true,
        ChipKind::FullAdder => true,
        ChipKind::Alu => true,
        _ => false,
    }
}

pub fn combinational(kind: ChipKind) -> (r: bool)
    ensures
        r == is_combinational(kind),
{
    match kind {
        ChipKind::Nand => true,
        ChipKind::Not => true,
        ChipKind::And => true,
        ChipKind::Or => true,
        ChipKind::Xor => true,
        ChipKind::Mux => true,
        ChipKind::DMux => true,
        ChipKind::DMux4Way => true,
        ChipKind::DMux8Way => true,
        ChipKind::Not16 => true,
        ChipKind::And16 => true,
        ChipKind::Or16 => true,
        ChipKind::Mux16 => true,
        ChipKind::Mux4Way16 => true,
        ChipKind::Mux8Way16 => true,
        ChipKind::Add16 => true,
        ChipKind::Inc16 => true,
        ChipKind::HalfAdder => true,
        ChipKind::FullAdder => true,
        ChipKind::Alu => true,
        _ => false,
    }
}

/// The three outputs of the ALU for its eight inputs.
pub open spec fn alu_outputs(ins: Seq<u16>) -> Seq<u16> {
    let r = alu_out(alu_op(ins[2], ins[3], ins[4], ins[5], ins[6], ins[7]), ins[0], ins[1]);
    seq![r, alu_zr(r), alu_ng(r)]
}

/// The output words of a combinational chip for the input words `ins`, both
/// in the order of its pins.
pub open spec fn outputs_of(kind: ChipKind, ins: Seq<u16>) -> Seq<u16> {
    match kind {
        ChipKind::Nand => seq![nand(ins[0], ins[1])],
        ChipKind::Not => seq![not(ins[0])],
        ChipKind::And => seq![and(ins[0], ins[1])],
        ChipKind::Or => seq![or(ins[0], ins[1])],
        ChipKind::Xor => seq![xor(ins[0], ins[1])],
        ChipKind::Mux => seq![mux(ins[0], ins[1], ins[2])],
        ChipKind::DMux => seq![route(ins[0], ins[1], 2, 0), route(ins[0], ins[1], 2, 1)],
        ChipKind::DMux4Way => seq![
            route(ins[0], ins[1], 4, 0),
            route(ins[0], ins[1], 4, 1),
            route(ins[0], ins[1], 4, 2),
            route(ins[0], ins[1], 4, 3),
        ],
        ChipKind::DMux8Way => seq![
            route(ins[0], ins[1], 8, 0),
            route(ins[0], ins[1], 8, 1),
            route(ins[0], ins[1], 8, 2),
            route(ins[0], ins[1], 8, 3),
            route(ins[0], ins[1], 8, 4),
            route(ins[0], ins[1], 8, 5),
            route(ins[0], ins[1], 8, 6),
            route(ins[0], ins[1], 8, 7),
        ],
        ChipKind::Not16 => seq![!ins[0]],
        ChipKind::And16 => seq![ins[0] & ins[1]],
        ChipKind::Or16 => seq![ins[0] | ins[1]],
        ChipKind::Mux16 => seq![mux16(ins[0], ins[1], ins[2])],
        ChipKind::Mux4Way16 => seq![select(ins.subrange(0, 4), ins[4])],
        ChipKind::Mux8Way16 => seq![select(ins.subrange(0, 8), ins[8])],
        ChipKind::Add16 => seq![add16(ins[0], ins[1])],
        ChipKind::Inc16 => seq![inc16(ins[0])],
        ChipKind::HalfAdder => seq![half_add(ins[0], ins[1]).0, half_add(ins[0], ins[1]).1],
        ChipKind::FullAdder => seq![
            full_add(ins[0], ins[1], ins[2]).0,
            full_add(ins[0], ins[1], ins[2]).1,
        ],
        ChipKind::Alu => alu_outputs(ins),
        _ => Seq::empty(),
    }
}
fn bit(w: u16) -> (r: u16)
    ensures
        r == low(w),
        r <= 1,
{
    assert(w & 1 <= 1) by (bit_vector);
    w & 1
}

fn route_bit(input: u16, sel: u16, lines: u16, line: u16) -> (r: u16)
    requires
        lines >= 1,
    ensures
        r == route(input, sel, lines, line),
{
    if sel & (lines - 1) == line {
        bit(input)
    } else {
        0
    }
}

fn pick(ins: &Vec<u16>, count: usize, sel: u16) -> (r: u16)
    requires
        count == 4 || count == 8,
        count <= ins@.len(),
    ensures
        r == select(ins@.subrange(0, count as int), sel),
{
    let m: u16 = (count - 1) as u16;
    assert(sel & m <= m) by (bit_vector);
    let at: usize = (sel & m) as usize;
    ins[at]
}

fn nand_bit(a: u16, b: u16) -> (r: u16)
    ensures
        r == nand(a, b),
{
    if bit(a) == 1 && bit(b) == 1 {
        0
    } else {
        1
    }
}

fn and_bit(a: u16, b: u16) -> (r: u16)
    ensures
        r == and(a, b),
{
    if bit(a) == 1 && bit(b) == 1 {
        1
    } else {
        0
    }
}

fn or_bit(a: u16, b: u16) -> (r: u16)
    ensures
        r == or(a, b),
{
    if bit(a) == 1 || bit(b) == 1 {
        1
    } else {
        0
    }
}

fn xor_bit(a: u16, b: u16) -> (r: u16)
    ensures
        r == xor(a, b),
{
    if bit(a) != bit(b) {
        1
    } else {
        0
    }
}

/// Sum and carry of two bits.
pub fn half_adder(a: u16, b: u16) -> (r: (u16, u16))
    ensures
        r == half_add(a, b),
{
    (xor_bit(a, b), and_bit(a, b))
}

fn full_adder(a: u16, b: u16, c: u16) -> (r: (u16, u16))
    ensures
        r == full_add(a, b, c),
{
    let (s, ca) = half_adder(a, b);
    let (sum, cb) = half_adder(s, c);
    (sum, or_bit(ca, cb))
}

fn alu_words(ins: &Vec<u16>) -> (r: Vec<u16>)
    requires
        ins@.len() == 8,
    ensures
        r@ == alu_outputs(ins@),
{
    let op: u16 = bit(ins[2]) * 32 + bit(ins[3]) * 16 + bit(ins[4]) * 8 + bit(ins[5]) * 4 + bit(
        ins[6],
    ) * 2 + bit(ins[7]);
    let (result, flags) = alu_operation(op, ins[0], ins[1]);
    let zr: u16 = if flags == AluFlags::Zero {
        1
    } else {
        0
    };
    let ng: u16 = if flags == AluFlags::Negative {
        1
    } else {
        0
    };
    let r = vec![result, zr, ng];
    assert(r@ =~= alu_outputs(ins@));
    r
}

/// Computes the output words of a combinational chip from its input words.
pub fn compute(kind: ChipKind, ins: &Vec<u16>) -> (r: Vec<u16>)
    requires
        ins@.len() == input_pins_of(kind).len(),
    ensures
        r@ == outputs_of(kind, ins@),
        is_combinational(kind) ==> r@.len() == output_pins_of(kind).len(),
{
    let r = match kind {
        ChipKind::Nand => vec![nand_bit(ins[0], ins[1])],
        ChipKind::Not => vec![
            if bit(ins[0]) == 1 {
                0
            } else {
                1
            },
        ],
        ChipKind::And => vec![and_bit(ins[0], ins[1])],
        ChipKind::Or => vec![or_bit(ins[0], ins[1])],
        ChipKind::Xor => vec![xor_bit(ins[0], ins[1])],
        ChipKind::Mux => vec![
            if bit(ins[2]) == 0 {
                bit(ins[0])
            } else {
                bit(ins[1])
            },
        ],
        ChipKind::DMux => vec![route_bit(ins[0], ins[1], 2, 0), route_bit(ins[0], ins[1], 2, 1)],
        ChipKind::DMux4Way => vec![
            route_bit(ins[0], ins[1], 4, 0),
            route_bit(ins[0], ins[1], 4, 1),
            route_bit(ins[0], ins[1], 4, 2),
            route_bit(ins[0], ins[1], 4, 3),
        ],
        ChipKind::DMux8Way => vec![
            route_bit(ins[0], ins[1], 8, 0),
            route_bit(ins[0], ins[1], 8, 1),
            route_bit(ins[0], ins[1], 8, 2),
            route_bit(ins[0], ins[1], 8, 3),
            route_bit(ins[0], ins[1], 8, 4),
            route_bit(ins[0], ins[1], 8, 5),
            route_bit(ins[0], ins[1], 8, 6),
            route_bit(ins[0], ins[1], 8, 7),
        ],
        ChipKind::Not16 => vec![!ins[0]],
        ChipKind::And16 => vec![ins[0] & ins[1]],
        ChipKind::Or16 => vec![ins[0] | ins[1]],
        ChipKind::Mux16 => vec![
            if bit(ins[2]) == 0 {
                ins[0]
            } else {
                ins[1]
            },
        ],
        ChipKind::Mux4Way16 => vec![pick(ins, 4, ins[4])],
        ChipKind::Mux8Way16 => vec![pick(ins, 8, ins[8])],
        ChipKind::Add16 => vec![ins[0].wrapping_add(ins[1])],
        ChipKind::Inc16 => vec![ins[0].wrapping_add(1)],
        ChipKind::HalfAdder => {
            let (sum, carry) = half_adder(ins[0], ins[1]);
            vec![sum, carry]
        },
        ChipKind::FullAdder => {
            let (sum, carry) = full_adder(ins[0], ins[1], ins[2]);
            vec![sum, carry]
        },
        ChipKind::Alu => alu_words(ins),
        _ => Vec::new(),
    };
    assert(r@ =~= outputs_of(kind, ins@));
    r
}

} // verus!

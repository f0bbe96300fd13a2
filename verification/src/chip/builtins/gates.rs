use vstd::prelude::*;

verus! {

/// Bit 0 of a word: the level of a one-bit pin.
pub open spec fn low(w: u16) -> u16 {
    w & 1
}

pub open spec fn nand(a: u16, b: u16) -> u16 {
    if low(a) == 1 && low(b) == 1 {
        0
    } else {
        1
    }
}

pub open spec fn not(a: u16) -> u16 {
    if low(a) == 1 {
        0
    } else {
        1
    }
}

pub open spec fn and(a: u16, b: u16) -> u16 {
    if low(a) == 1 && low(b) == 1 {
        1
    } else {
        0
    }
}

pub open spec fn or(a: u16, b: u16) -> u16 {
    if low(a) == 1 || low(b) == 1 {
        1
    } else {
        0
    }
}

pub open spec fn xor(a: u16, b: u16) -> u16 {
    if low(a) != low(b) {
        1
    } else {
        0
    }
}

/// `a` where `sel` is low, else `b`; one bit.
pub open spec fn mux(a: u16, b: u16, sel: u16) -> u16 {
    if low(sel) == 0 {
        low(a)
    } else {
        low(b)
    }
}

/// `a` where `sel` is low, else `b`; whole words.
pub open spec fn mux16(a: u16, b: u16, sel: u16) -> u16 {
    if low(sel) == 0 {
        a
    } else {
        b
    }
}

/// The bit `input` on line `line` where `sel`, cut to `lines - 1`, names that line; else 0.
pub open spec fn route(input: u16, sel: u16, lines: u16, line: u16) -> u16 {
    if sel & ((lines - 1) as u16) == line {
        low(input)
    } else {
        0
    }
}

/// The word among `words` that `sel`, cut to their number less one, names.
pub open spec fn select(words: Seq<u16>, sel: u16) -> u16 {
    words[(sel & ((words.len() - 1) as u16)) as int]
}

pub open spec fn add16(a: u16, b: u16) -> u16 {
    ((a + b) % 0x10000) as u16
}

pub open spec fn inc16(a: u16) -> u16 {
    ((a + 1) % 0x10000) as u16
}

/// Sum and carry of two bits.
pub open spec fn half_add(a: u16, b: u16) -> (u16, u16) {
    (xor(a, b), and(a, b))
}

/// Sum and carry of three bits: two half adders, and the carries joined by
/// an or; the two carries are never both set.
pub open spec fn full_add(a: u16, b: u16, c: u16) -> (u16, u16) {
    let first = half_add(a, b);
    let second = half_add(first.0, c);
    (second.0, or(first.1, second.1))
}

/// How the result of the ALU compares to zero.
#[derive(Debug, Clone, Copy, PartialEq, Eq, Structural)]
pub enum AluFlags {
    Positive,
    Zero,
    Negative,
}

/// The six control bits as one word: zx, nx, zy, ny, f, no from bit 5 down.
pub open spec fn alu_op(zx: u16, nx: u16, zy: u16, ny: u16, f: u16, no: u16) -> u16 {
    ((low(zx) * 32) + (low(nx) * 16) + (low(zy) * 8) + (low(ny) * 4) + (low(f) * 2) + low(
        no,
    )) as u16
}

/// The first operand after zx and nx.
pub open spec fn alu_x(op: u16, x: u16) -> u16 {
    let zeroed = if op & 0b100000 != 0 {
        0u16
    } else {
        x
    };
    if op & 0b010000 != 0 {
        !zeroed
    } else {
        zeroed
    }
}

/// The second operand after zy and ny.
pub open spec fn alu_y(op: u16, y: u16) -> u16 {
    let zeroed = if op & 0b001000 != 0 {
        0u16
    } else {
        y
    };
    if op & 0b000100 != 0 {
        !zeroed
    } else {
        zeroed
    }
}

/// The word that the ALU puts out for the control word `op`.
pub open spec fn alu_out(op: u16, x: u16, y: u16) -> u16 {
    let a = alu_x(op, x);
    let b = alu_y(op, y);
    let r = if op & 0b000010 != 0 {
        add16(a, b)
    } else {
        a & b
    };
    if op & 0b000001 != 0 {
        !r
    } else {
        r
    }
}

/// The flags for the result `r`.
pub open spec fn alu_flags(r: u16) -> AluFlags {
    if r == 0 {
        AluFlags::Zero
    } else if r & 0x8000 != 0 {
        AluFlags::Negative
    } else {
        AluFlags::Positive
    }
}

/// The zr output: whether the result is zero.
pub open spec fn alu_zr(r: u16) -> u16 {
    if alu_flags(r) == AluFlags::Zero {
        1
    } else {
        0
    }
}

/// The ng output: whether the result, read as two's complement, is negative.
pub open spec fn alu_ng(r: u16) -> u16 {
    if alu_flags(r) == AluFlags::Negative {
        1
    } else {
        0
    }
}

/// The ALU on plain words: the result and how it compares to zero.
pub fn alu_operation(op: u16, x: u16, y: u16) -> (r: (u16, AluFlags))
    ensures
        r.0 == alu_out(op, x, y),
        r.1 == alu_flags(r.0),
{
    let mut a: u16 = x;
    let mut b: u16 = y;
    if op & 0b100000 != 0 {
        a = 0;
    }
    if op & 0b010000 != 0 {
        a = !a;
    }
    if op & 0b001000 != 0 {
        b = 0;
    }
    if op & 0b000100 != 0 {
        b = !b;
    }
    let mut result: u16 = if op & 0b000010 != 0 {
        a.wrapping_add(b)
    } else {
        a & b
    };
    if op & 0b000001 != 0 {
        result = !result;
    }
    let flags = if result == 0 {
        AluFlags::Zero
    } else if result & 0x8000 != 0 {
        AluFlags::Negative
    } else {
        AluFlags::Positive
    };
    (result, flags)
}

/// The program counter's next state: reset before load before inc.
pub open spec fn pc_next(state: u16, input: u16, reset: u16, load: u16, inc: u16) -> u16 {
    if low(reset) == 1 {
        0
    } else if low(load) == 1 {
        input
    } else if low(inc) == 1 {
        inc16(state)
    } else {
        state
    }
}

/// A register's next state: the input where load is high.
pub open spec fn register_next(state: u16, input: u16, load: u16) -> u16 {
    if low(load) == 1 {
        input
    } else {
        state
    }
}

} // verus!

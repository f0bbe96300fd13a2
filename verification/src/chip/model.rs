use vstd::prelude::*;
use crate::chip::builtins::gates::{low, pc_next, register_next};
use crate::chip::builtins::memory::{spec_get, spec_set, zeros};
use crate::chip::builtins::table::{
    input_pins_of, internal_pins_of, is_combinational, memory_words, output_pins_of, outputs_of,
    ChipKind,
};
use crate::chip::pin::{PinId, PinView, Voltage, HIGH, LOW};
use crate::chip::signal::{get_word, set_bit, set_word};

verus! {

/// The mathematical image of a chip: its pins by name, its parts in the
/// order in which they were added, the slices that wiring made, and what a
/// built-in chip remembers.
pub struct ChipView {
    pub name: Seq<char>,
    pub kind: ChipKind,
    pub inputs: Seq<(Seq<char>, PinId)>,
    pub outputs: Seq<(Seq<char>, PinId)>,
    pub internals: Seq<(Seq<char>, PinId)>,
    pub parts: Seq<ChipView>,
    pub subbuses: Seq<PinId>,
    pub state: u16,
    pub memory: Seq<u16>,
    pub next_data: u16,
    pub address: usize,
}

/// What can be asked of a chip: to evaluate, the two halves of a clock cycle, and a reset.
#[derive(Debug, Clone, Copy, PartialEq, Eq, Structural)]
pub enum Phase {
    Eval,
    Tick,
    Tock,
    Reset,
}

/// All pins of the group are nodes of a net with `n` nodes.
pub open spec fn pins_within(pins: Seq<(Seq<char>, PinId)>, n: nat) -> bool {
    forall|i: int| 0 <= i < pins.len() ==> (#[trigger] pins[i]).1 < n
}

/// A chip fits a net of `n` nodes: all its pins and tracked slices are
/// nodes of the net, a built-in chip has the pins and the memory of its
/// kind and no parts, and every part fits.
pub open spec fn chip_wf(c: ChipView, n: nat) -> bool
    decreases c,
{
    &&& pins_within(c.inputs, n)
    &&& pins_within(c.outputs, n)
    &&& pins_within(c.internals, n)
    &&& forall|k: int| 0 <= k < c.subbuses.len() ==> #[trigger] c.subbuses[k] < n
    &&& (c.kind != ChipKind::Composite ==> {
        &&& c.inputs.len() == input_pins_of(c.kind).len()
        &&& c.outputs.len() == output_pins_of(c.kind).len()
        &&& c.internals.len() == internal_pins_of(c.kind).len()
        &&& c.parts.len() == 0
        &&& c.memory.len() == memory_words(c.kind)
    })
    &&& forall|i: int| 0 <= i < c.parts.len() ==> chip_wf(#[trigger] c.parts[i], n)
}

/// The pins of the group have, in order, the names and widths `want`.
pub open spec fn pins_match(
    pins: Seq<(Seq<char>, PinId)>,
    want: Seq<(Seq<char>, usize)>,
    s: Seq<PinView>,
) -> bool {
    &&& pins.len() == want.len()
    &&& forall|i: int|
        0 <= i < pins.len() ==> (#[trigger] pins[i]).0 == want[i].0 && pins[i].1 < s.len()
            && s[pins[i].1 as int].width == want[i].1
}

/// A built-in chip has the pins that its kind calls for, by name and width.
pub open spec fn has_signature(c: ChipView, s: Seq<PinView>) -> bool {
    &&& pins_match(c.inputs, input_pins_of(c.kind), s)
    &&& pins_match(c.outputs, output_pins_of(c.kind), s)
    &&& pins_match(c.internals, internal_pins_of(c.kind), s)
}

/// The words on the input pins of a chip, in the order of the pins.
pub open spec fn in_words(c: ChipView, s: Seq<PinView>) -> Seq<u16> {
    Seq::new(c.inputs.len(), |i: int| get_word(s, c.inputs[i].1))
}

/// The level that a one-bit output takes for the word `v`.
pub open spec fn level_of(v: u16) -> Voltage {
    if low(v) == 1 {
        HIGH
    } else {
        LOW
    }
}

/// The net after a built-in chip has put `v` on a pin that its kind gives
/// `width` bits: a pull of bit 0 for one bit, else a write of the word.
pub open spec fn emit(s: Seq<PinView>, pin: PinId, width: usize, v: u16) -> Seq<PinView> {
    if width == 1 {
        set_bit(s, pin, 0, level_of(v), s.len())
    } else {
        set_word(s, pin, v, s.len())
    }
}

/// The net after the outputs from place `k` on have taken their words, in order.
pub open spec fn drive(
    s: Seq<PinView>,
    outs: Seq<(Seq<char>, PinId)>,
    sig: Seq<(Seq<char>, usize)>,
    vals: Seq<u16>,
    k: nat,
) -> Seq<PinView>
    decreases outs.len() - k,
{
    if k >= outs.len() {
        s
    } else {
        drive(emit(s, outs[k as int].1, sig[k as int].1, vals[k as int]), outs, sig, vals, k + 1)
    }
}

/// The net after the pins from place `k` on were set to zero, in order.
pub open spec fn clear(s: Seq<PinView>, pins: Seq<(Seq<char>, PinId)>, k: nat) -> Seq<PinView>
    decreases pins.len() - k,
{
    if k >= pins.len() {
        s
    } else {
        clear(set_word(s, pins[k as int].1, 0, s.len()), pins, k + 1)
    }
}

/// The net after the tracked slices from place `k` on have asserted anew
/// the words that they show, in order.
pub open spec fn refresh(s: Seq<PinView>, subs: Seq<PinId>, k: nat) -> Seq<PinView>
    decreases subs.len() - k,
{
    if k >= subs.len() {
        s
    } else {
        refresh(set_word(s, subs[k as int], get_word(s, subs[k as int]), s.len()), subs, k + 1)
    }
}

/// Whether a kind is one of the five RAM chips.
pub open spec fn is_ram(kind: ChipKind) -> bool {
    kind == ChipKind::Ram8 || kind == ChipKind::Ram64 || kind == ChipKind::Ram512 || kind
        == ChipKind::Ram4k || kind == ChipKind::Ram16k
}

/// The address that a memory chip of `kind` takes from the word `w`: `w` cut
/// to the address bits of the kind.
pub open spec fn address_of(kind: ChipKind, w: u16) -> usize {
    (w & ((memory_words(kind) - 1) as u16)) as usize
}

/// The word on input `i` of a chip.
pub open spec fn input_word(c: ChipView, s: Seq<PinView>, i: int) -> u16 {
    get_word(s, c.inputs[i].1)
}

/// The net after a built-in chip with one output has put `v` on it.
pub open spec fn put_out(c: ChipView, s: Seq<PinView>, v: u16) -> Seq<PinView> {
    emit(s, c.outputs[0].1, output_pins_of(c.kind)[0].1, v)
}

/// What evaluating does to a built-in chip and the net.
pub open spec fn eval_builtin(c: ChipView, s: Seq<PinView>) -> (ChipView, Seq<PinView>) {
    if is_combinational(c.kind) {
        (c, drive(s, c.outputs, output_pins_of(c.kind), outputs_of(c.kind, in_words(c, s)), 0))
    } else if c.kind == ChipKind::Bit || c.kind == ChipKind::Register || c.kind == ChipKind::Pc
        || c.kind == ChipKind::Keyboard {
        (c, put_out(c, s, c.state))
    } else if is_ram(c.kind) {
        let at = address_of(c.kind, input_word(c, s, 2));
        let memory = if low(input_word(c, s, 1)) == 1 {
            spec_set(c.memory, at, input_word(c, s, 0))
        } else {
            c.memory
        };
        (ChipView { memory: memory, ..c }, put_out(c, s, spec_get(memory, at)))
    } else if c.kind == ChipKind::Screen {
        (c, put_out(c, s, spec_get(c.memory, address_of(c.kind, input_word(c, s, 2)))))
    } else if c.kind == ChipKind::Rom32k {
        (c, put_out(c, s, spec_get(c.memory, address_of(c.kind, input_word(c, s, 0)))))
    } else {
        (c, s)
    }
}

/// What the rising edge does to a built-in chip and the net: the chip
/// samples its inputs, and no output changes.
pub open spec fn tick_builtin(c: ChipView, s: Seq<PinView>) -> (ChipView, Seq<PinView>) {
    if c.kind == ChipKind::Dff {
        let sampled = low(input_word(c, s, 0));
        (
            ChipView { state: sampled, ..c },
            set_bit(s, c.internals[0].1, 0, level_of(sampled), s.len()),
        )
    } else if c.kind == ChipKind::Bit {
        (
            ChipView {
                state: register_next(c.state, low(input_word(c, s, 0)), input_word(c, s, 1)),
                ..c
            },
            s,
        )
    } else if c.kind == ChipKind::Register {
        (
            ChipView {
                state: register_next(c.state, input_word(c, s, 0), input_word(c, s, 1)),
                ..c
            },
            s,
        )
    } else if c.kind == ChipKind::Pc {
        (
            ChipView {
                state: pc_next(
                    c.state,
                    input_word(c, s, 0),
                    input_word(c, s, 1),
                    input_word(c, s, 2),
                    input_word(c, s, 3),
                ),
                ..c
            },
            s,
        )
    } else if is_ram(c.kind) || c.kind == ChipKind::Screen {
        let at = address_of(c.kind, input_word(c, s, 2));
        if low(input_word(c, s, 1)) == 1 {
            (
                ChipView {
                    memory: spec_set(c.memory, at, input_word(c, s, 0)),
                    next_data: input_word(c, s, 0),
                    address: at,
                    ..c
                },
                s,
            )
        } else {
            (ChipView { address: at, ..c }, s)
        }
    } else {
        (c, s)
    }
}

/// What the falling edge does to a built-in chip and the net: the chip
/// shows on its output what it holds.
pub open spec fn tock_builtin(c: ChipView, s: Seq<PinView>) -> (ChipView, Seq<PinView>) {
    if c.kind == ChipKind::Dff || c.kind == ChipKind::Bit || c.kind == ChipKind::Register
        || c.kind == ChipKind::Pc {
        (c, put_out(c, s, c.state))
    } else if is_ram(c.kind) || c.kind == ChipKind::Screen {
        (c, put_out(c, s, spec_get(c.memory, c.address)))
    } else {
        (c, s)
    }
}

/// What a reset does to a built-in chip and the net.
pub open spec fn reset_builtin(c: ChipView, s: Seq<PinView>) -> (ChipView, Seq<PinView>) {
    if is_combinational(c.kind) {
        (c, clear(clear(s, c.inputs, 0), c.outputs, 0))
    } else if c.kind == ChipKind::Dff || c.kind == ChipKind::Bit || c.kind == ChipKind::Register
        || c.kind == ChipKind::Pc || c.kind == ChipKind::Keyboard {
        (ChipView { state: 0, ..c }, put_out(c, s, 0))
    } else if is_ram(c.kind) || c.kind == ChipKind::Screen {
        (
            ChipView { memory: zeros(c.memory.len()), next_data: 0, address: 0, ..c },
            put_out(c, s, 0),
        )
    } else if c.kind == ChipKind::Rom32k {
        (c, put_out(c, s, spec_get(c.memory, 0)))
    } else {
        (c, s)
    }
}

/// What `phase` does to a built-in chip and the net.
pub open spec fn step_builtin(c: ChipView, phase: Phase, s: Seq<PinView>) -> (
    ChipView,
    Seq<PinView>,
) {
    match phase {
        Phase::Eval => eval_builtin(c, s),
        Phase::Tick => tick_builtin(c, s),
        Phase::Tock => tock_builtin(c, s),
        Phase::Reset => reset_builtin(c, s),
    }
}

/// What a composite does to the net before its parts take their turn: for
/// an evaluation the tracked slices assert their words, for a reset all
/// pins go to zero, inputs first, then outputs, then internal pins.
pub open spec fn before_parts(c: ChipView, phase: Phase, s: Seq<PinView>) -> Seq<PinView> {
    match phase {
        Phase::Eval => refresh(s, c.subbuses, 0),
        Phase::Reset => clear(clear(clear(s, c.inputs, 0), c.outputs, 0), c.internals, 0),
        _ => s,
    }
}

/// What a composite does to the net after its parts: for an evaluation the
/// tracked slices assert their words once more.
pub open spec fn after_parts(c: ChipView, phase: Phase, s: Seq<PinView>) -> Seq<PinView> {
    match phase {
        Phase::Eval => refresh(s, c.subbuses, 0),
        _ => s,
    }
}

/// What `phase` does to a chip and the net: a built-in chip takes its
/// step; a composite hands the phase to its parts, in the order in which
/// they were added.
pub open spec fn run(c: ChipView, phase: Phase, s: Seq<PinView>) -> (ChipView, Seq<PinView>)
    decreases c, 0nat,
{
    if c.kind == ChipKind::Composite {
        let done = run_parts(c.parts, 0, phase, before_parts(c, phase, s));
        (ChipView { parts: done.0, ..c }, after_parts(c, phase, done.1))
    } else {
        step_builtin(c, phase, s)
    }
}

/// The parts from place `k` on after `phase`, and the net after them.
pub open spec fn run_parts(parts: Seq<ChipView>, k: nat, phase: Phase, s: Seq<PinView>) -> (
    Seq<ChipView>,
    Seq<PinView>,
)
    decreases parts, parts.len() - k,
{
    if k >= parts.len() {
        (Seq::empty(), s)
    } else {
        let first = run(parts[k as int], phase, s);
        let rest = run_parts(parts, k + 1, phase, first.1);
        (seq![first.0] + rest.0, rest.1)
    }
}

} // verus!

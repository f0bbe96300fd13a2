use vstd::prelude::*;
use vstd::string::StringExecFns;
use tokio::sync::broadcast::Receiver;
use crate::chip::builtins::gates::low;
use crate::chip::builtins::memory::{spec_set, zeros, Memory};
use crate::chip::builtins::table::{
    combinational, compute, input_pins_of, input_spec, internal_pins_of, internal_spec, kind_name,
    memory_size, memory_words, name_of, output_pins_of, output_spec, spec_matches, ChipKind,
    PinSpec,
};
use crate::chip::bus::{new_bus, Bus};
use crate::chip::clock::ClockTick;
use crate::chip::model::{
    address_of, before_parts, chip_wf, clear, drive, emit, eval_builtin, has_signature, in_words,
    input_word, pins_within, put_out, refresh, reset_builtin, run, run_parts, step_builtin,
    tick_builtin, tock_builtin, ChipView, Phase,
};
use crate::chip::net::Net;
use crate::chip::pin::{PinId, PinView, Voltage, HIGH, LOW};
use crate::chip::pinmap::{inserted, lookup, PinMap};
use crate::chip::signal::{node_ok, same_shape};
use crate::error::SimulatorError;

verus! {

/// A chip: named groups of pins in a net, parts, and what a built-in chip remembers.
#[derive(Debug)]
pub struct Chip {
    name: String,
    kind: ChipKind,
    input_pins: PinMap,
    output_pins: PinMap,
    internal_pins: PinMap,
    sub_chips: Vec<Chip>,
    subbus_connections: Vec<PinId>,
    clock_receiver: Option<Receiver<ClockTick>>,
    state: u16,
    memory: Memory,
    next_data: u16,
    current_address: usize,
}

impl View for Chip {
    type V = ChipView;

    closed spec fn view(&self) -> ChipView {
        self.model()
    }
}

/// The pin that a chip has under `name`: an input before an output before an internal pin.
pub open spec fn find_pin(c: ChipView, name: Seq<char>) -> Option<PinId> {
    if lookup(c.inputs, name) is Some {
        lookup(c.inputs, name)
    } else if lookup(c.outputs, name) is Some {
        lookup(c.outputs, name)
    } else {
        lookup(c.internals, name)
    }
}

/// A composite chip named `name` without pins or parts.
pub open spec fn empty_chip(name: Seq<char>) -> ChipView {
    ChipView {
        name: name,
        kind: ChipKind::Composite,
        inputs: Seq::empty(),
        outputs: Seq::empty(),
        internals: Seq::empty(),
        parts: Seq::empty(),
        subbuses: Seq::empty(),
        state: 0,
        memory: Seq::empty(),
        next_data: 0,
        address: 0,
    }
}

/// The number of parts that ran from place `k` on is the number of parts from there.
pub proof fn lemma_run_parts_len(parts: Seq<ChipView>, k: nat, phase: Phase, s: Seq<PinView>)
    requires
        k <= parts.len(),
    ensures
        run_parts(parts, k, phase, s).0.len() == parts.len() - k,
    decreases parts.len() - k,
{
    if k < parts.len() {
        lemma_run_parts_len(parts, k + 1, phase, run(parts[k as int], phase, s).1);
    }
}

/// A chip that fits a net fits every net with at least as many nodes.
pub proof fn lemma_wf_grows(c: ChipView, n: nat, m: nat)
    requires
        chip_wf(c, n),
        n <= m,
    ensures
        chip_wf(c, m),
    decreases c,
{
    assert forall|i: int| 0 <= i < c.parts.len() implies chip_wf(#[trigger] c.parts[i], m) by {
        assert(chip_wf(c.parts[i], n));
        lemma_wf_grows(c.parts[i], n, m);
    }
    assert(pins_within(c.inputs, n) && pins_within(c.outputs, n) && pins_within(c.internals, n));
    assert forall|k: int| 0 <= k < c.subbuses.len() implies #[trigger] c.subbuses[k] < m by {
        assert(c.subbuses[k] < n);
    }
}

impl Chip {
    pub closed spec fn model(&self) -> ChipView
        decreases self,
    {
        ChipView {
            name: self.name@,
            kind: self.kind,
            inputs: self.input_pins@,
            outputs: self.output_pins@,
            internals: self.internal_pins@,
            parts: Seq::new(
                self.sub_chips@.len(),
                |i: int|
                    if 0 <= i < self.sub_chips@.len() {
                        self.sub_chips@[i].model()
                    } else {
                        arbitrary()
                    },
            ),
            subbuses: self.subbus_connections@,
            state: self.state,
            memory: self.memory@,
            next_data: self.next_data,
            address: self.current_address,
        }
    }

    /// The chip fits `net`: see [`chip_wf`].
    pub open spec fn wf(&self, net: &Net) -> bool {
        chip_wf(self@, net@.len())
    }

    /// A composite chip without pins or parts.
    pub fn new(name: String) -> (chip: Chip)
        ensures
            chip@ == empty_chip(name@),
    {
        let chip = Chip {
            name,
            kind: ChipKind::Composite,
            input_pins: PinMap::new(),
            output_pins: PinMap::new(),
            internal_pins: PinMap::new(),
            sub_chips: Vec::new(),
            subbus_connections: Vec::new(),
            clock_receiver: None,
            state: 0,
            memory: Memory::new(0),
            next_data: 0,
            current_address: 0,
        };
        assert(chip@.parts =~= Seq::empty());
        assert(chip@.memory =~= Seq::empty());
        chip
    }

    pub fn name(&self) -> (r: &str)
        ensures
            r@ == self@.name,
    {
        self.name.as_str()
    }

    pub fn kind(&self) -> (r: ChipKind)
        ensures
            r == self@.kind,
    {
        self.kind
    }

    pub fn input_pins(&self) -> (r: &PinMap)
        ensures
            r@ == self@.inputs,
    {
        &self.input_pins
    }

    pub fn output_pins(&self) -> (r: &PinMap)
        ensures
            r@ == self@.outputs,
    {
        &self.output_pins
    }

    pub fn internal_pins(&self) -> (r: &PinMap)
        ensures
            r@ == self@.internals,
    {
        &self.internal_pins
    }

    /// The number of parts.
    pub fn part_count(&self) -> (r: usize)
        ensures
            r == self@.parts.len(),
    {
        self.sub_chips.len()
    }

    /// The memory of a built-in chip that has one.
    pub fn memory(&self) -> (r: &Memory)
        ensures
            r@ == self@.memory,
    {
        &self.memory
    }

    /// What a clocked built-in chip holds between the edges, or the key of a keyboard.
    pub fn state(&self) -> (r: u16)
        ensures
            r == self@.state,
    {
        self.state
    }

    /// The pin under `name`: inputs are searched first, then outputs, then internal pins.
    pub fn get_pin(&self, name: &str) -> (r: Result<PinId, SimulatorError>)
        ensures
            r is Ok <==> find_pin(self@, name@) is Some,
            r is Ok ==> Some(r->Ok_0) == find_pin(self@, name@),
            r is Err ==> r->Err_0 == (SimulatorError::PinNotFound {
                pin: r->Err_0->PinNotFound_pin,
                chip: r->Err_0->PinNotFound_chip,
            }) && r->Err_0->PinNotFound_pin@ == name@ && r->Err_0->PinNotFound_chip@
                == self@.name,
    {
        if let Some(pin) = self.input_pins.get(name) {
            return Ok(pin);
        }
        if let Some(pin) = self.output_pins.get(name) {
            return Ok(pin);
        }
        if let Some(pin) = self.internal_pins.get(name) {
            return Ok(pin);
        }
        Err(SimulatorError::PinNotFound { pin: String::from_str(name), chip: self.name.clone() })
    }

    pub fn is_input_pin(&self, name: &str) -> (r: bool)
        ensures
            r == lookup(self@.inputs, name@).is_some(),
    {
        self.input_pins.contains_key(name)
    }

    pub fn is_output_pin(&self, name: &str) -> (r: bool)
        ensures
            r == lookup(self@.outputs, name@).is_some(),
    {
        self.output_pins.contains_key(name)
    }

    /// Puts `pin` among the inputs under `name`.
    pub fn add_input_pin(&mut self, name: String, pin: PinId)
        ensures
            final(self)@ == (ChipView {
                inputs: inserted(old(self)@.inputs, name@, pin),
                ..old(self)@
            }),
    {
        self.input_pins.insert(name, pin);
    }

    /// Puts `pin` among the outputs under `name`.
    pub fn add_output_pin(&mut self, name: String, pin: PinId)
        ensures
            final(self)@ == (ChipView {
                outputs: inserted(old(self)@.outputs, name@, pin),
                ..old(self)@
            }),
    {
        self.output_pins.insert(name, pin);
    }

    /// Puts `pin` among the internal pins under `name`.
    pub fn add_internal_pin(&mut self, name: String, pin: PinId)
        ensures
            final(self)@ == (ChipView {
                internals: inserted(old(self)@.internals, name@, pin),
                ..old(self)@
            }),
    {
        self.internal_pins.insert(name, pin);
    }

    /// Adds `chip` as the last part.
    pub fn add_sub_chip(&mut self, chip: Chip)
        ensures
            final(self)@ == (ChipView { parts: old(self)@.parts.push(chip@), ..old(self)@ }),
    {
        self.sub_chips.push(chip);
        assert(self@.parts =~= old(self)@.parts.push(chip@));
    }

    /// Makes `v` what a built-in chip holds.
    pub(crate) fn hold(&mut self, v: u16)
        ensures
            final(self)@ == (ChipView { state: v, ..old(self)@ }),
    {
        self.state = v;
    }

    /// Stores `value` at `address` of the chip's memory.
    pub(crate) fn remember(&mut self, address: usize, value: u16)
        ensures
            final(self)@ == (ChipView {
                memory: spec_set(old(self)@.memory, address, value),
                ..old(self)@
            }),
    {
        self.memory.set(address, value);
    }

    /// Remembers `pin` as a slice that an evaluation must refresh.
    pub(crate) fn track(&mut self, pin: PinId)
        ensures
            final(self)@ == (ChipView { subbuses: old(self)@.subbuses.push(pin), ..old(self)@ }),
    {
        self.subbus_connections.push(pin);
    }

    /// Keeps `receiver`, through which the chip hears the clock from now
    /// on; a receiver that the chip had before is dropped. Pins, parts and
    /// what the chip holds stay as they are.
    pub fn subscribe_to_clock(&mut self, receiver: Receiver<ClockTick>)
        ensures
            final(self)@ == old(self)@,
            final(self).receiver() == Some(receiver),
    {
        self.clock_receiver = Some(receiver);
    }

    /// The receiver through which the chip hears its clock, if it was subscribed to one.
    pub closed spec fn receiver(&self) -> Option<Receiver<ClockTick>> {
        self.clock_receiver
    }

    /// Attaches the pin named `to_pin` as a listener of the pin named `from_pin`.
    pub fn connect_pins(&mut self, net: &mut Net, from_pin: &str, to_pin: &str) -> (r: Result<
        (),
        SimulatorError,
    >)
        requires
            old(net).wf(),
            old(self).wf(old(net)),
        ensures
            final(self)@ == old(self)@,
            final(net).wf(),
            final(net)@.len() == old(net)@.len(),
            r is Ok <==> find_pin(old(self)@, from_pin@) is Some && find_pin(old(self)@, to_pin@)
                is Some,
            r is Ok ==> final(net)@ == crate::chip::signal::attach(
                old(net)@,
                find_pin(old(self)@, from_pin@)->Some_0,
                find_pin(old(self)@, to_pin@)->Some_0,
                old(net)@.len(),
            ),
            r is Err ==> final(net)@ == old(net)@ && r->Err_0 == (SimulatorError::PinNotFound {
                pin: r->Err_0->PinNotFound_pin,
                chip: r->Err_0->PinNotFound_chip,
            }),
    {
        let from = match self.get_pin(from_pin) {
            Ok(p) => p,
            Err(e) => {
                return Err(e);
            },
        };
        let to = match self.get_pin(to_pin) {
            Ok(p) => p,
            Err(e) => {
                return Err(e);
            },
        };
        proof {
            lemma_found_within(self@, from_pin@, net@.len());
            lemma_found_within(self@, to_pin@, net@.len());
        }
        net.connect(from, to);
        Ok(())
    }
}

/// In a chip that fits a net of `n` nodes, a pin found by name is a node of the net.
pub proof fn lemma_found_within(c: ChipView, name: Seq<char>, n: nat)
    requires
        chip_wf(c, n),
    ensures
        find_pin(c, name) is Some ==> find_pin(c, name)->Some_0 < n,
{
    crate::chip::pinmap::lemma_find_from_bounds(c.inputs, name, 0);
    crate::chip::pinmap::lemma_find_from_bounds(c.outputs, name, 0);
    crate::chip::pinmap::lemma_find_from_bounds(c.internals, name, 0);
}

/// The fresh buses of a built-in chip's pins `sig`.
pub open spec fn fresh(sig: Seq<(Seq<char>, usize)>) -> Seq<PinView> {
    Seq::new(sig.len(), |i: int| new_bus(sig[i].0, sig[i].1))
}

/// The pins `sig` by name, numbered from `base` on.
pub open spec fn numbered(sig: Seq<(Seq<char>, usize)>, base: nat) -> Seq<(Seq<char>, PinId)> {
    Seq::new(sig.len(), |i: int| (sig[i].0, (base + i) as usize))
}

/// `c` is a new built-in chip of `kind` whose pins are the nodes that
/// turned the net `before` into `after`: inputs first, then outputs, then
/// internal pins, each a bus of the width that the kind calls for.
pub open spec fn built(
    c: ChipView,
    kind: ChipKind,
    before: Seq<PinView>,
    after: Seq<PinView>,
) -> bool {
    let ins = input_pins_of(kind);
    let outs = output_pins_of(kind);
    let inner = internal_pins_of(kind);
    &&& c.name == kind_name(kind)
    &&& c.kind == kind
    &&& c.inputs == numbered(ins, before.len())
    &&& c.outputs == numbered(outs, before.len() + ins.len())
    &&& c.internals == numbered(inner, before.len() + ins.len() + outs.len())
    &&& c.parts == Seq::<ChipView>::empty()
    &&& c.subbuses == Seq::<PinId>::empty()
    &&& c.state == 0
    &&& c.memory == zeros(memory_words(kind) as nat)
    &&& c.next_data == 0
    &&& c.address == 0
    &&& after == before + fresh(ins) + fresh(outs) + fresh(inner)
}

/// The widths of all pins of a group are legal widths of a bus.
pub open spec fn legal(sig: Seq<(Seq<char>, usize)>) -> bool {
    forall|i: int| 0 <= i < sig.len() ==> 1 <= (#[trigger] sig[i]).1 <= 16
}

/// Every built-in chip has pins of legal widths only.
pub proof fn lemma_tables_legal(kind: ChipKind)
    ensures
        legal(input_pins_of(kind)),
        legal(output_pins_of(kind)),
        legal(internal_pins_of(kind)),
{
}

fn make_pins(net: &mut Net, specs: &Vec<PinSpec>, Ghost(sig): Ghost<Seq<(Seq<char>, usize)>>) -> (m:
    PinMap)
    requires
        old(net).wf(),
        spec_matches(specs@, sig),
        legal(sig),
    ensures
        final(net).wf(),
        final(net)@ == old(net)@ + fresh(sig),
        m@ == numbered(sig, old(net)@.len()),
{
    let mut m = PinMap::new();
    let n: usize = specs.len();
    let mut i: usize = 0;
    while i < n
        invariant
            net.wf(),
            spec_matches(specs@, sig),
            legal(sig),
            n == specs@.len(),
            i <= n,
            net@ == old(net)@ + fresh(sig).subrange(0, i as int),
            m@ == numbered(sig, old(net)@.len()).subrange(0, i as int),
        decreases n - i,
    {
        let spec = specs[i];
        assert(spec.name@ == sig[i as int].0 && spec.width == sig[i as int].1);
        assert(1 <= sig[i as int].1 <= 16);
        let id = Bus::new(net, String::from_str(spec.name), spec.width);
        m.append(String::from_str(spec.name), id);
        i += 1;
        assert(net@ =~= old(net)@ + fresh(sig).subrange(0, i as int));
        assert(m@ =~= numbered(sig, old(net)@.len()).subrange(0, i as int));
    }
    assert(net@ =~= old(net)@ + fresh(sig));
    assert(m@ =~= numbered(sig, old(net)@.len()));
    m
}

impl Chip {
    /// Makes a built-in chip of `kind`, with new buses in `net` for its pins.
    pub fn builtin(net: &mut Net, kind: ChipKind) -> (chip: Chip)
        requires
            old(net).wf(),
            kind != ChipKind::Composite,
        ensures
            final(net).wf(),
            built(chip@, kind, old(net)@, final(net)@),
            chip.wf(final(net)),
            has_signature(chip@, final(net)@),
    {
        proof {
            lemma_tables_legal(kind);
        }
        let ghost ins = input_pins_of(kind);
        let ghost outs = output_pins_of(kind);
        let ghost inner = internal_pins_of(kind);
        let input_pins = make_pins(net, &input_spec(kind), Ghost(ins));
        let output_pins = make_pins(net, &output_spec(kind), Ghost(outs));
        let internal_pins = make_pins(net, &internal_spec(kind), Ghost(inner));
        let total = net.len();
        let chip = Chip {
            name: String::from_str(name_of(kind)),
            kind,
            input_pins,
            output_pins,
            internal_pins,
            sub_chips: Vec::new(),
            subbus_connections: Vec::new(),
            clock_receiver: None,
            state: 0,
            memory: Memory::new(memory_size(kind)),
            next_data: 0,
            current_address: 0,
        };
        proof {
            assert(chip@.parts =~= Seq::<ChipView>::empty());
            assert(built(chip@, kind, old(net)@, net@));
            let s = net@;
            let base = old(net)@.len();
            assert forall|i: int| 0 <= i < chip@.inputs.len() implies (#[trigger] chip@.inputs[i]).0
                == ins[i].0 && chip@.inputs[i].1 < s.len() && s[chip@.inputs[i].1 as int].width
                == ins[i].1 by {
                assert(s[base + i] == fresh(ins)[i]);
            }
            assert forall|i: int| 0 <= i < chip@.outputs.len() implies (
            #[trigger] chip@.outputs[i]).0 == outs[i].0 && chip@.outputs[i].1 < s.len()
                && s[chip@.outputs[i].1 as int].width == outs[i].1 by {
                assert(s[base + ins.len() + i] == fresh(outs)[i]);
            }
            assert forall|i: int| 0 <= i < chip@.internals.len() implies (
            #[trigger] chip@.internals[i]).0 == inner[i].0 && chip@.internals[i].1 < s.len()
                && s[chip@.internals[i].1 as int].width == inner[i].1 by {
                assert(s[base + ins.len() + outs.len() + i] == fresh(inner)[i]);
            }
        }
        chip
    }
}

/// Puts `v` on `pin` as a built-in chip does for a pin of `width` bits.
fn emit_word(net: &mut Net, pin: PinId, width: usize, v: u16)
    requires
        old(net).wf(),
        pin < old(net)@.len(),
    ensures
        final(net).wf(),
        same_shape(old(net)@, final(net)@),
        final(net)@ == emit(old(net)@, pin, width, v),
{
    if width == 1 {
        proof {
            assert(node_ok(net@, pin as int));
            assert(v & 1 == low(v));
        }
        let level = if v & 1 == 1 {
            HIGH
        } else {
            LOW
        };
        let _ = net.pull(pin, level, None);
    } else {
        net.set_bus_voltage(pin, v);
    }
}

/// Sets the pins of a group to zero, in order.
fn clear_pins(net: &mut Net, pins: &PinMap)
    requires
        old(net).wf(),
        pins_within(pins@, old(net)@.len()),
    ensures
        final(net).wf(),
        same_shape(old(net)@, final(net)@),
        final(net)@ == clear(old(net)@, pins@, 0),
{
    let n: usize = pins.len();
    let mut k: usize = 0;
    while k < n
        invariant
            net.wf(),
            same_shape(old(net)@, net@),
            pins_within(pins@, old(net)@.len()),
            n == pins@.len(),
            k <= n,
            clear(net@, pins@, k as nat) == clear(old(net)@, pins@, 0),
        decreases n - k,
    {
        let pin = pins.pin_at(k);
        assert(pins@[k as int].1 < old(net)@.len());
        let ghost before = net@;
        net.set_bus_voltage(pin, 0);
        proof {
            crate::chip::signal::lemma_same_shape_trans(old(net)@, before, net@);
        }
        k += 1;
    }
}

/// Has every tracked slice assert anew the word that it shows, in order.
fn refresh_slices(net: &mut Net, subs: &Vec<PinId>)
    requires
        old(net).wf(),
        forall|k: int| 0 <= k < subs@.len() ==> #[trigger] subs@[k] < old(net)@.len(),
    ensures
        final(net).wf(),
        same_shape(old(net)@, final(net)@),
        final(net)@ == refresh(old(net)@, subs@, 0),
{
    let n: usize = subs.len();
    let mut k: usize = 0;
    while k < n
        invariant
            net.wf(),
            same_shape(old(net)@, net@),
            forall|j: int| 0 <= j < subs@.len() ==> #[trigger] subs@[j] < old(net)@.len(),
            n == subs@.len(),
            k <= n,
            refresh(net@, subs@, k as nat) == refresh(old(net)@, subs@, 0),
        decreases n - k,
    {
        let pin = subs[k];
        let ghost before = net@;
        let word = net.bus_voltage(pin);
        net.set_bus_voltage(pin, word);
        proof {
            crate::chip::signal::lemma_same_shape_trans(old(net)@, before, net@);
        }
        k += 1;
    }
}

impl Chip {
    /// The words on the input pins, in the order of the pins.
    fn read_inputs(&self, net: &Net) -> (r: Vec<u16>)
        requires
            net.wf(),
            self.wf(net),
        ensures
            r@ == in_words(self@, net@),
    {
        let n: usize = self.input_pins.len();
        let mut r: Vec<u16> = Vec::new();
        let mut i: usize = 0;
        while i < n
            invariant
                net.wf(),
                self.wf(net),
                n == self@.inputs.len(),
                i <= n,
                r@ == in_words(self@, net@).subrange(0, i as int),
            decreases n - i,
        {
            assert(self@.inputs[i as int].1 < net@.len());
            r.push(net.bus_voltage(self.input_pins.pin_at(i)));
            i += 1;
            assert(r@ =~= in_words(self@, net@).subrange(0, i as int));
        }
        assert(r@ =~= in_words(self@, net@));
        r
    }

    /// The word on input `i`.
    fn input(&self, net: &Net, i: usize) -> (r: u16)
        requires
            net.wf(),
            self.wf(net),
            i < self@.inputs.len(),
        ensures
            r == input_word(self@, net@, i as int),
    {
        assert(self@.inputs[i as int].1 < net@.len());
        net.bus_voltage(self.input_pins.pin_at(i))
    }

    /// Puts the words `vals` on the outputs, in the order of the pins.
    fn drive_outputs(&self, net: &mut Net, vals: &Vec<u16>)
        requires
            old(net).wf(),
            self.wf(old(net)),
            self@.kind != ChipKind::Composite,
            vals@.len() == self@.outputs.len(),
        ensures
            final(net).wf(),
            same_shape(old(net)@, final(net)@),
            final(net)@ == drive(
                old(net)@,
                self@.outputs,
                output_pins_of(self@.kind),
                vals@,
                0,
            ),
    {
        let sig = output_spec(self.kind);
        let n: usize = self.output_pins.len();
        let mut k: usize = 0;
        while k < n
            invariant
                net.wf(),
                same_shape(old(net)@, net@),
                self.wf(old(net)),
                self@.kind != ChipKind::Composite,
                spec_matches(sig@, output_pins_of(self@.kind)),
                vals@.len() == n,
                n == self@.outputs.len(),
                k <= n,
                drive(net@, self@.outputs, output_pins_of(self@.kind), vals@, k as nat) == drive(
                    old(net)@,
                    self@.outputs,
                    output_pins_of(self@.kind),
                    vals@,
                    0,
                ),
            decreases n - k,
        {
            assert(self@.outputs[k as int].1 < old(net)@.len());
            assert(sig@[k as int].width == output_pins_of(self@.kind)[k as int].1);
            let ghost before = net@;
            emit_word(net, self.output_pins.pin_at(k), sig[k].width, vals[k]);
            proof {
                crate::chip::signal::lemma_same_shape_trans(old(net)@, before, net@);
            }
            k += 1;
        }
    }

    /// Puts `v` on the one output of a built-in chip.
    pub(crate) fn put(&self, net: &mut Net, v: u16)
        requires
            old(net).wf(),
            self.wf(old(net)),
            self@.kind != ChipKind::Composite,
            self@.outputs.len() >= 1,
        ensures
            final(net).wf(),
            same_shape(old(net)@, final(net)@),
            final(net)@ == put_out(self@, old(net)@, v),
    {
        let sig = output_spec(self.kind);
        assert(self@.outputs[0].1 < old(net)@.len());
        assert(sig@[0].width == output_pins_of(self@.kind)[0].1);
        emit_word(net, self.output_pins.pin_at(0), sig[0].width, v);
    }

    /// The address that this memory chip takes from the word `w`.
    fn address(&self, w: u16) -> (r: usize)
        requires
            memory_words(self@.kind) >= 1,
        ensures
            r == address_of(self@.kind, w),
    {
        let cut: u16 = (memory_size(self.kind) - 1) as u16;
        (w & cut) as usize
    }

    fn step_eval(&mut self, net: &mut Net)
        requires
            old(net).wf(),
            old(self).wf(old(net)),
            old(self)@.kind != ChipKind::Composite,
        ensures
            final(net).wf(),
            same_shape(old(net)@, final(net)@),
            final(self).wf(final(net)),
            (final(self)@, final(net)@) == eval_builtin(old(self)@, old(net)@),
    {
        if combinational(self.kind) {
            let ins = self.read_inputs(net);
            let vals = compute(self.kind, &ins);
            self.drive_outputs(net, &vals);
            return ;
        }
        match self.kind {
            ChipKind::Bit | ChipKind::Register | ChipKind::Pc | ChipKind::Keyboard => {
                self.put(net, self.state);
            },
            ChipKind::Ram8
            | ChipKind::Ram64
            | ChipKind::Ram512
            | ChipKind::Ram4k
            | ChipKind::Ram16k => {
                let at = self.address(self.input(net, 2));
                let load = self.input(net, 1);
                assert(load & 1 == low(load));
                if load & 1 == 1 {
                    let data = self.input(net, 0);
                    self.memory.set(at, data);
                }
                let word = self.memory.get(at);
                self.put(net, word);
            },
            ChipKind::Screen => {
                let at = self.address(self.input(net, 2));
                self.put(net, self.memory.get(at));
            },
            ChipKind::Rom32k => {
                let at = self.address(self.input(net, 0));
                self.put(net, self.memory.get(at));
            },
            _ => {},
        }
    }

    fn step_tick(&mut self, net: &mut Net)
        requires
            old(net).wf(),
            old(self).wf(old(net)),
            old(self)@.kind != ChipKind::Composite,
        ensures
            final(net).wf(),
            same_shape(old(net)@, final(net)@),
            final(self).wf(final(net)),
            (final(self)@, final(net)@) == tick_builtin(old(self)@, old(net)@),
    {
        match self.kind {
            ChipKind::Dff => {
                let w = self.input(net, 0);
                assert(w & 1 == low(w));
                self.state = w & 1;
                assert(self@.internals[0].1 < net@.len());
                emit_word(net, self.internal_pins.pin_at(0), 1, self.state);
                assert(low(low(w)) == low(w)) by (bit_vector);
            },
            ChipKind::Bit => {
                let load = self.input(net, 1);
                let w = self.input(net, 0);
                assert(load & 1 == low(load) && w & 1 == low(w));
                if load & 1 == 1 {
                    self.state = w & 1;
                }
            },
            ChipKind::Register => {
                let load = self.input(net, 1);
                assert(load & 1 == low(load));
                if load & 1 == 1 {
                    self.state = self.input(net, 0);
                }
            },
            ChipKind::Pc => {
                let reset = self.input(net, 1);
                let load = self.input(net, 2);
                let inc = self.input(net, 3);
                assert(reset & 1 == low(reset) && load & 1 == low(load) && inc & 1 == low(inc));
                if reset & 1 == 1 {
                    self.state = 0;
                } else if load & 1 == 1 {
                    self.state = self.input(net, 0);
                } else if inc & 1 == 1 {
                    self.state = self.state.wrapping_add(1);
                }
            },
            ChipKind::Ram8
            | ChipKind::Ram64
            | ChipKind::Ram512
            | ChipKind::Ram4k
            | ChipKind::Ram16k
            | ChipKind::Screen => {
                let load = self.input(net, 1);
                assert(load & 1 == low(load));
                self.current_address = self.address(self.input(net, 2));
                if load & 1 == 1 {
                    self.next_data = self.input(net, 0);
                    self.memory.set(self.current_address, self.next_data);
                }
            },
            _ => {},
        }
    }

    fn step_tock(&mut self, net: &mut Net)
        requires
            old(net).wf(),
            old(self).wf(old(net)),
            old(self)@.kind != ChipKind::Composite,
        ensures
            final(net).wf(),
            same_shape(old(net)@, final(net)@),
            final(self).wf(final(net)),
            (final(self)@, final(net)@) == tock_builtin(old(self)@, old(net)@),
    {
        match self.kind {
            ChipKind::Dff | ChipKind::Bit | ChipKind::Register | ChipKind::Pc => {
                self.put(net, self.state);
            },
            ChipKind::Ram8
            | ChipKind::Ram64
            | ChipKind::Ram512
            | ChipKind::Ram4k
            | ChipKind::Ram16k
            | ChipKind::Screen => {
                self.put(net, self.memory.get(self.current_address));
            },
            _ => {},
        }
    }

    fn step_reset(&mut self, net: &mut Net)
        requires
            old(net).wf(),
            old(self).wf(old(net)),
            old(self)@.kind != ChipKind::Composite,
        ensures
            final(net).wf(),
            same_shape(old(net)@, final(net)@),
            final(self).wf(final(net)),
            (final(self)@, final(net)@) == reset_builtin(old(self)@, old(net)@),
    {
        if combinational(self.kind) {
            let ghost before = net@;
            clear_pins(net, &self.input_pins);
            let ghost mid = net@;
            clear_pins(net, &self.output_pins);
            proof {
                crate::chip::signal::lemma_same_shape_trans(before, mid, net@);
            }
            return ;
        }
        match self.kind {
            ChipKind::Dff
            | ChipKind::Bit
            | ChipKind::Register
            | ChipKind::Pc
            | ChipKind::Keyboard => {
                self.state = 0;
                self.put(net, 0);
            },
            ChipKind::Ram8
            | ChipKind::Ram64
            | ChipKind::Ram512
            | ChipKind::Ram4k
            | ChipKind::Ram16k
            | ChipKind::Screen => {
                self.memory.reset();
                self.next_data = 0;
                self.current_address = 0;
                self.put(net, 0);
            },
            ChipKind::Rom32k => {
                self.put(net, self.memory.get(0));
            },
            _ => {},
        }
    }

    fn step(&mut self, net: &mut Net, phase: Phase)
        requires
            old(net).wf(),
            old(self).wf(old(net)),
            old(self)@.kind != ChipKind::Composite,
        ensures
            final(net).wf(),
            same_shape(old(net)@, final(net)@),
            final(self).wf(final(net)),
            (final(self)@, final(net)@) == step_builtin(old(self)@, phase, old(net)@),
    {
        match phase {
            Phase::Eval => self.step_eval(net),
            Phase::Tick => self.step_tick(net),
            Phase::Tock => self.step_tock(net),
            Phase::Reset => self.step_reset(net),
        }
    }
}

impl Chip {
    /// Takes the chip and the net through `phase`.
    fn run_phase(&mut self, net: &mut Net, phase: Phase)
        requires
            old(net).wf(),
            old(self).wf(old(net)),
        ensures
            final(net).wf(),
            same_shape(old(net)@, final(net)@),
            final(self).wf(final(net)),
            (final(self)@, final(net)@) == run(old(self)@, phase, old(net)@),
        decreases *old(self),
    {
        match self.kind {
            ChipKind::Composite => {},
            _ => {
                self.step(net, phase);
                return ;
            },
        }
        let ghost c0 = self@;
        let ghost s0 = net@;
        match phase {
            Phase::Eval => {
                refresh_slices(net, &self.subbus_connections);
            },
            Phase::Reset => {
                clear_pins(net, &self.input_pins);
                let ghost a = net@;
                clear_pins(net, &self.output_pins);
                let ghost b = net@;
                clear_pins(net, &self.internal_pins);
                proof {
                    crate::chip::signal::lemma_same_shape_trans(s0, a, b);
                    crate::chip::signal::lemma_same_shape_trans(s0, b, net@);
                }
            },
            _ => {},
        }
        let ghost s1 = net@;
        assert(s1 == before_parts(c0, phase, s0));
        let ghost done = run_parts(c0.parts, 0, phase, s1);
        proof {
            lemma_run_parts_len(c0.parts, 0, phase, s1);
        }
        let n: usize = self.sub_chips.len();
        let mut i: usize = 0;
        while i < n
            invariant
                net.wf(),
                same_shape(s0, net@),
                n == c0.parts.len(),
                n == self.sub_chips@.len(),
                i <= n,
                c0 == old(self)@,
                c0.kind == ChipKind::Composite,
                chip_wf(c0, s0.len()),
                done == run_parts(c0.parts, 0, phase, s1),
                done.0.len() == n,
                self@ == (ChipView { parts: self@.parts, ..c0 }),
                self@.parts.len() == n,
                forall|j: int| 0 <= j < i ==> #[trigger] self@.parts[j] == done.0[j],
                forall|j: int| 0 <= j < i ==> chip_wf(#[trigger] self@.parts[j], s0.len()),
                forall|j: int| i <= j < n ==> #[trigger] self.sub_chips@[j] == old(self).sub_chips@[j],
                run_parts(c0.parts, i as nat, phase, net@) == (done.0.subrange(i as int, n as int), done.1),
            decreases n - i,
        {
            let ghost before = net@;
            let ghost parts_before = self@.parts;
            assert(self.sub_chips@[i as int] == old(self).sub_chips@[i as int]);
            assert(self@.parts[i as int] == c0.parts[i as int]);
            assert(chip_wf(c0.parts[i as int], s0.len()));
            proof {
                lemma_run_parts_len(c0.parts, (i + 1) as nat, phase, run(c0.parts[i as int], phase, net@).1);
            }
            self.sub_chips[i].run_phase(net, phase);
            proof {
                crate::chip::signal::lemma_same_shape_trans(s0, before, net@);
                let first = run(c0.parts[i as int], phase, before);
                let rest = run_parts(c0.parts, (i + 1) as nat, phase, first.1);
                assert(seq![first.0] + rest.0 == done.0.subrange(i as int, n as int));
                assert(done.0[i as int] == (seq![first.0] + rest.0)[0]);
                assert(rest.0 =~= done.0.subrange(i as int + 1, n as int)) by {
                    assert forall|j: int| 0 <= j < rest.0.len() implies rest.0[j] == done.0.subrange(i as int + 1, n as int)[j] by {
                        assert((seq![first.0] + rest.0)[j + 1] == done.0.subrange(i as int, n as int)[j + 1]);
                    }
                }
                assert(self@.parts =~= parts_before.update(i as int, first.0));
            }
            i += 1;
        }
        proof {
            assert(self@.parts =~= done.0);
            assert forall|j: int| 0 <= j < self@.parts.len() implies chip_wf(#[trigger] self@.parts[j], s0.len()) by {}
        }
        match phase {
            Phase::Eval => {
                let ghost b = net@;
                refresh_slices(net, &self.subbus_connections);
                proof {
                    crate::chip::signal::lemma_same_shape_trans(s0, b, net@);
                }
            },
            _ => {},
        }
    }

    /// Evaluates the chip: a built-in chip puts on its outputs what its
    /// inputs call for; a composite refreshes its tracked slices,
    /// evaluates its parts in the order in which they were added, and
    /// refreshes the slices once more.
    pub fn eval(&mut self, net: &mut Net) -> (r: Result<(), SimulatorError>)
        requires
            old(net).wf(),
            old(self).wf(old(net)),
        ensures
            r is Ok,
            final(net).wf(),
            same_shape(old(net)@, final(net)@),
            final(self).wf(final(net)),
            (final(self)@, final(net)@) == run(old(self)@, Phase::Eval, old(net)@),
    {
        self.run_phase(net, Phase::Eval);
        Ok(())
    }

    /// Resets the chip: a composite sets all its pins to zero and resets
    /// its parts; a built-in chip forgets what it holds.
    pub fn reset(&mut self, net: &mut Net) -> (r: Result<(), SimulatorError>)
        requires
            old(net).wf(),
            old(self).wf(old(net)),
        ensures
            r is Ok,
            final(net).wf(),
            same_shape(old(net)@, final(net)@),
            final(self).wf(final(net)),
            (final(self)@, final(net)@) == run(old(self)@, Phase::Reset, old(net)@),
    {
        self.run_phase(net, Phase::Reset);
        Ok(())
    }

    /// The rising edge: a clocked chip samples its inputs; no output changes.
    /// The level that the clock took is not looked at.
    pub fn tick(&mut self, net: &mut Net, clock_level: Voltage) -> (r: Result<(), SimulatorError>)
        requires
            old(net).wf(),
            old(self).wf(old(net)),
        ensures
            r is Ok,
            final(net).wf(),
            same_shape(old(net)@, final(net)@),
            final(self).wf(final(net)),
            (final(self)@, final(net)@) == run(old(self)@, Phase::Tick, old(net)@),
    {
        self.run_phase(net, Phase::Tick);
        Ok(())
    }

    /// The falling edge: a clocked chip shows on its output what it holds.
    /// The level that the clock took is not looked at.
    pub fn tock(&mut self, net: &mut Net, clock_level: Voltage) -> (r: Result<(), SimulatorError>)
        requires
            old(net).wf(),
            old(self).wf(old(net)),
        ensures
            r is Ok,
            final(net).wf(),
            same_shape(old(net)@, final(net)@),
            final(self).wf(final(net)),
            (final(self)@, final(net)@) == run(old(self)@, Phase::Tock, old(net)@),
    {
        self.run_phase(net, Phase::Tock);
        Ok(())
    }
}

/// What every chip offers: its name, its pins by name, evaluation and reset.
pub trait ChipInterface {
    /// The chip as contracts see it.
    spec fn image(&self) -> ChipView;

    fn name(&self) -> (r: &str)
        ensures
            r@ == self.image().name,
    ;

    fn input_pins(&self) -> (r: &PinMap)
        ensures
            r@ == self.image().inputs,
    ;

    fn output_pins(&self) -> (r: &PinMap)
        ensures
            r@ == self.image().outputs,
    ;

    fn internal_pins(&self) -> (r: &PinMap)
        ensures
            r@ == self.image().internals,
    ;

    /// The pin under `name`: inputs are searched first, then outputs, then internal pins.
    fn get_pin(&self, name: &str) -> (r: Result<PinId, SimulatorError>)
        ensures
            r is Ok <==> find_pin(self.image(), name@) is Some,
            r is Ok ==> Some(r->Ok_0) == find_pin(self.image(), name@),
            r is Err ==> r->Err_0 == (SimulatorError::PinNotFound {
                pin: r->Err_0->PinNotFound_pin,
                chip: r->Err_0->PinNotFound_chip,
            }),
    ;

    fn is_input_pin(&self, name: &str) -> (r: bool)
        ensures
            r == lookup(self.image().inputs, name@).is_some(),
    ;

    fn is_output_pin(&self, name: &str) -> (r: bool)
        ensures
            r == lookup(self.image().outputs, name@).is_some(),
    ;

    /// Evaluates the chip in its net.
    fn eval(&mut self, net: &mut Net) -> (r: Result<(), SimulatorError>)
        requires
            old(net).wf(),
            chip_wf(old(self).image(), old(net)@.len()),
        ensures
            r is Ok,
            final(net).wf(),
            chip_wf(final(self).image(), final(net)@.len()),
            (final(self).image(), final(net)@) == run(old(self).image(), Phase::Eval, old(net)@),
    ;

    /// Resets the chip in its net.
    fn reset(&mut self, net: &mut Net) -> (r: Result<(), SimulatorError>)
        requires
            old(net).wf(),
            chip_wf(old(self).image(), old(net)@.len()),
        ensures
            r is Ok,
            final(net).wf(),
            chip_wf(final(self).image(), final(net)@.len()),
            (final(self).image(), final(net)@) == run(old(self).image(), Phase::Reset, old(net)@),
    ;
}

/// What a clocked chip offers besides: the two halves of a clock cycle.
pub trait ClockedChip: ChipInterface {
    /// The rising edge: the chip samples its inputs.
    fn tick(&mut self, net: &mut Net, clock_level: Voltage) -> (r: Result<(), SimulatorError>)
        requires
            old(net).wf(),
            chip_wf(old(self).image(), old(net)@.len()),
        ensures
            r is Ok,
            final(net).wf(),
            chip_wf(final(self).image(), final(net)@.len()),
            (final(self).image(), final(net)@) == run(old(self).image(), Phase::Tick, old(net)@),
    ;

    /// The falling edge: the chip shows what it holds.
    fn tock(&mut self, net: &mut Net, clock_level: Voltage) -> (r: Result<(), SimulatorError>)
        requires
            old(net).wf(),
            chip_wf(old(self).image(), old(net)@.len()),
        ensures
            r is Ok,
            final(net).wf(),
            chip_wf(final(self).image(), final(net)@.len()),
            (final(self).image(), final(net)@) == run(old(self).image(), Phase::Tock, old(net)@),
    ;
}

impl ChipInterface for Chip {
    open spec fn image(&self) -> ChipView {
        self@
    }

    fn name(&self) -> (r: &str) {
        Chip::name(self)
    }

    fn input_pins(&self) -> (r: &PinMap) {
        Chip::input_pins(self)
    }

    fn output_pins(&self) -> (r: &PinMap) {
        Chip::output_pins(self)
    }

    fn internal_pins(&self) -> (r: &PinMap) {
        Chip::internal_pins(self)
    }

    fn get_pin(&self, name: &str) -> (r: Result<PinId, SimulatorError>) {
        Chip::get_pin(self, name)
    }

    fn is_input_pin(&self, name: &str) -> (r: bool) {
        Chip::is_input_pin(self, name)
    }

    fn is_output_pin(&self, name: &str) -> (r: bool) {
        Chip::is_output_pin(self, name)
    }

    fn eval(&mut self, net: &mut Net) -> (r: Result<(), SimulatorError>) {
        Chip::eval(self, net)
    }

    fn reset(&mut self, net: &mut Net) -> (r: Result<(), SimulatorError>) {
        Chip::reset(self, net)
    }
}

impl ClockedChip for Chip {
    fn tick(&mut self, net: &mut Net, clock_level: Voltage) -> (r: Result<(), SimulatorError>) {
        Chip::tick(self, net, clock_level)
    }

    fn tock(&mut self, net: &mut Net, clock_level: Voltage) -> (r: Result<(), SimulatorError>) {
        Chip::tock(self, net, clock_level)
    }
}

} // verus!

use vstd::prelude::*;
use vstd::string::StringExecFns;
use crate::chip::builtins::table::{kind_by_name, kind_name, kind_named, ChipKind};
use crate::chip::bus::{new_bus, Bus};
use crate::chip::chip::{
    built, empty_chip, find_pin, fresh, lemma_found_within, lemma_wf_grows, numbered, Chip,
};
use crate::chip::builtins::memory::zeros;
use crate::chip::builtins::table::{input_pins_of, internal_pins_of, memory_words, output_pins_of};
use crate::chip::model::pins_within;
use crate::chip::wiring::{literal, side_width, width_of_side};
use crate::chip::model::{chip_wf, has_signature, ChipView};
use crate::chip::net::Net;
use crate::chip::pin::{is_constant_pin, spec_is_constant_pin, PinId, PinKind, PinView};
use crate::chip::pinmap::{inserted, lookup};

use crate::text::{decimal, spec_decimal};
use crate::chip::wiring::{
    all_wf, fault_message, is_literal, views, wired, Connection, ConnectionView, PinSide,
    SideView, WireError, WireFault,
};
use crate::error::SimulatorError;
use crate::languages::hdl::{
    parts_ok, side_ok, wires_ok, HdlChip, Part, PinDecl, Wire, WireSide,
};

verus! {

/// Builds chips: the built-in ones from their names, composites from their descriptions.
#[derive(Debug)]
pub struct ChipBuilder {}

/// The width that a declaration gives its pin: one bit where it names none.
pub open spec fn decl_width(decl: PinDecl) -> usize {
    match decl.width {
        Some(w) => w as usize,
        None => 1,
    }
}

/// A side of a wire as contracts see it: a constant is the literal of its value.
pub open spec fn side_view(side: WireSide) -> SideView {
    match side {
        WireSide::Pin { name, range } => SideView {
            name: name@,
            range: match range {
                Some(r) => Some(r@),
                None => None,
            },
        },
        WireSide::Constant(value) => SideView {
            name: if value {
                "true"@
            } else {
                "false"@
            },
            range: None,
        },
    }
}

/// A wire of a description as contracts see it.
pub open spec fn wire_view(wire: Wire) -> ConnectionView {
    ConnectionView { from: side_view(wire.from), to: side_view(wire.to) }
}

/// The wires of a part as contracts see them.
pub open spec fn wire_views(wires: Seq<Wire>) -> Seq<ConnectionView> {
    Seq::new(wires.len(), |i: int| wire_view(wires[i]))
}

fn to_side(side: &WireSide) -> (r: PinSide)
    requires
        side_ok(*side),
    ensures
        r@ == side_view(*side),
        r.wf(),
{
    match side {
        WireSide::Pin { name, range } => {
            match range {
                Some(r) => PinSide { name: name.clone(), range: Some(r.duplicate()) },
                None => PinSide { name: name.clone(), range: None },
            }
        },
        WireSide::Constant(value) => {
            if *value {
                PinSide::new(String::from_str("true"))
            } else {
                PinSide::new(String::from_str("false"))
            }
        },
    }
}

/// The connections that wire a part as its description says.
fn to_connections(wires: &Vec<Wire>) -> (r: Vec<Connection>)
    requires
        wires_ok(wires@),
    ensures
        views(r@) == wire_views(wires@),
        all_wf(r@),
{
    let mut r: Vec<Connection> = Vec::new();
    let n: usize = wires.len();
    let mut i: usize = 0;
    while i < n
        invariant
            wires_ok(wires@),
            n == wires@.len(),
            i <= n,
            r@.len() == i,
            all_wf(r@),
            forall|j: int| 0 <= j < i ==> (#[trigger] r@[j])@ == wire_view(wires@[j]),
        decreases n - i,
    {
        assert(side_ok(wires@[i as int].from) && side_ok(wires@[i as int].to));
        let c = Connection::new(to_side(&wires[i].from), to_side(&wires[i].to));
        r.push(c);
        i += 1;
    }
    assert(views(r@) =~= wire_views(wires@));
    r
}

/// The error that a description's reader sees for a wiring error.
fn wiring_error(e: WireError) -> (r: SimulatorError)
    ensures
        match e.fault() {
            WireFault::PinNotFound { pin, chip } => r == (SimulatorError::PinNotFound {
                pin: r->PinNotFound_pin,
                chip: r->PinNotFound_chip,
            }) && r->PinNotFound_pin@ == pin && r->PinNotFound_chip@ == chip,
            WireFault::Other => r == SimulatorError::Hardware(r->Hardware_0),
            _ => r == SimulatorError::Hardware(r->Hardware_0) && r->Hardware_0@ == fault_message(
                e.fault(),
            ),
        },
{
    match e {
        WireError::PinNotFound { pin_name, chip_name } => SimulatorError::PinNotFound {
            pin: pin_name,
            chip: chip_name,
        },
        other => SimulatorError::Hardware(other.message()),
    }
}

impl ChipBuilder {
    /// A builder that knows the built-in chips.
    pub fn new() -> (r: ChipBuilder) {
        ChipBuilder {  }
    }

    /// Builds the built-in chip that goes by `name`, with new buses in `net` for its pins.
    pub fn build_builtin_chip(&self, net: &mut Net, name: &str) -> (r: Result<Chip, SimulatorError>)
        requires
            old(net).wf(),
        ensures
            final(net).wf(),
            r is Ok <==> kind_named(name@) is Some,
            r is Ok ==> built(r->Ok_0@, kind_named(name@)->Some_0, old(net)@, final(net)@)
                && r->Ok_0.wf(final(net)) && has_signature(r->Ok_0@, final(net)@),
            r is Err ==> final(net)@ == old(net)@ && r->Err_0 == SimulatorError::Hardware(
                r->Err_0->Hardware_0,
            ) && r->Err_0->Hardware_0@ == "Unknown builtin chip: "@ + name@,
    {
        match kind_by_name(name) {
            Some(kind) => Ok(Chip::builtin(net, kind)),
            None => Err(
                SimulatorError::Hardware(String::from_str("Unknown builtin chip: ").concat(name)),
            ),
        }
    }

    /// Makes the bus that `pin_decl` declares: of the declared width, or of one bit.
    pub fn create_pin_from_decl(&self, net: &mut Net, pin_decl: &PinDecl) -> (r: Result<
        PinId,
        SimulatorError,
    >)
        requires
            old(net).wf(),
        ensures
            final(net).wf(),
            r is Ok <==> 1 <= decl_width(*pin_decl) <= 16,
            r is Ok ==> r->Ok_0 == old(net)@.len() && final(net)@ == old(net)@.push(
                new_bus(pin_decl.name@, decl_width(*pin_decl)),
            ),
            r is Err ==> final(net)@ == old(net)@ && r->Err_0 == SimulatorError::Hardware(
                r->Err_0->Hardware_0,
            ) && r->Err_0->Hardware_0@ == "Bus width must be between 1 and 16 bits, not "@
                + crate::text::spec_decimal(decl_width(*pin_decl) as nat),
    {
        let width: usize = match pin_decl.width {
            Some(w) => w as usize,
            None => 1,
        };
        if width < 1 || width > 16 {
            return Err(
                SimulatorError::Hardware(
                    String::from_str("Bus width must be between 1 and 16 bits, not ").concat(
                        decimal(width as u64).as_str(),
                    ),
                ),
            );
        }
        Ok(Bus::new(net, pin_decl.name.clone(), width))
    }
}

/// What declaring pins gave: whether all widths were legal, the pins, and the net.
pub struct Declared {
    pub ok: bool,
    /// The width that was not legal, where one was not.
    pub bad: usize,
    pub pins: Seq<(Seq<char>, PinId)>,
    pub net: Seq<PinView>,
}

/// Declares the pins from place `k` on, each a new bus, up to the first
/// whose width is not between 1 and 16.
pub open spec fn declare(
    pins: Seq<(Seq<char>, PinId)>,
    decls: Seq<PinDecl>,
    k: nat,
    s: Seq<PinView>,
) -> Declared
    decreases decls.len() - k,
{
    if k >= decls.len() {
        Declared { ok: true, bad: 0, pins: pins, net: s }
    } else if !(1 <= decl_width(decls[k as int]) <= 16) {
        Declared { ok: false, bad: decl_width(decls[k as int]), pins: pins, net: s }
    } else {
        declare(
            inserted(pins, decls[k as int].name@, s.len() as usize),
            decls,
            k + 1,
            s.push(new_bus(decls[k as int].name@, decl_width(decls[k as int]))),
        )
    }
}

/// Whether a name in a wire calls for a new internal pin: no pin of the
/// host has it, and it is not a reserved name of a constant.
pub open spec fn needs_internal(host: ChipView, name: Seq<char>) -> bool {
    lookup(host.inputs, name) is None && lookup(host.outputs, name) is None
        && !spec_is_constant_pin(name) && lookup(host.internals, name) is None
}

/// The host and the net after a side of a wire was looked at: a name that
/// calls for an internal pin gets a bus of one bit.
pub open spec fn note_side(host: ChipView, side: WireSide, s: Seq<PinView>) -> (
    ChipView,
    Seq<PinView>,
) {
    match side {
        WireSide::Pin { name, .. } => if needs_internal(host, name@) {
            (
                ChipView { internals: inserted(host.internals, name@, s.len() as usize), ..host },
                s.push(new_bus(name@, 1)),
            )
        } else {
            (host, s)
        },
        WireSide::Constant(_) => (host, s),
    }
}

/// The host and the net after the wires from place `k` on were looked at,
/// each on its host side first.
pub open spec fn note_wires(host: ChipView, wires: Seq<Wire>, k: nat, s: Seq<PinView>) -> (
    ChipView,
    Seq<PinView>,
)
    decreases wires.len() - k,
{
    if k >= wires.len() {
        (host, s)
    } else {
        let a = note_side(host, wires[k as int].from, s);
        let b = note_side(a.0, wires[k as int].to, a.1);
        note_wires(b.0, wires, k + 1, b.1)
    }
}

/// The host and the net after the wires of the parts from place `k` on were looked at.
pub open spec fn note_parts(host: ChipView, parts: Seq<Part>, k: nat, s: Seq<PinView>) -> (
    ChipView,
    Seq<PinView>,
)
    decreases parts.len() - k,
{
    if k >= parts.len() {
        (host, s)
    } else {
        let a = note_wires(host, parts[k as int].connections@, 0, s);
        note_parts(a.0, parts, k + 1, a.1)
    }
}

/// A new built-in chip of `kind` whose pins are numbered from `base` on.
pub open spec fn fresh_chip(kind: ChipKind, base: nat) -> ChipView {
    ChipView {
        name: kind_name(kind),
        kind: kind,
        inputs: numbered(input_pins_of(kind), base),
        outputs: numbered(output_pins_of(kind), base + input_pins_of(kind).len()),
        internals: numbered(
            internal_pins_of(kind),
            base + input_pins_of(kind).len() + output_pins_of(kind).len(),
        ),
        parts: Seq::empty(),
        subbuses: Seq::empty(),
        state: 0,
        memory: zeros(memory_words(kind) as nat),
        next_data: 0,
        address: 0,
    }
}

/// The net with the buses of a new built-in chip of `kind`.
pub open spec fn fresh_net(kind: ChipKind, s: Seq<PinView>) -> Seq<PinView> {
    s + fresh(input_pins_of(kind)) + fresh(output_pins_of(kind)) + fresh(internal_pins_of(kind))
}

/// Whether the host's pin under `name` is an internal pin.
pub open spec fn is_internal(host: ChipView, name: Seq<char>) -> bool {
    lookup(host.inputs, name) is None && lookup(host.outputs, name) is None && lookup(
        host.internals,
        name,
    ) is Some
}

/// The width that a connection asks of the host's pin: one bit more than
/// the last bit of the range on the host side, or, where all bits are
/// meant, the width of the part's side.
pub open spec fn asked_width(part: ChipView, c: ConnectionView, s: Seq<PinView>) -> nat {
    match c.from.range {
        Some(r) => match r.end {
            Some(last) => last as nat + 1,
            None => 1,
        },
        None => match find_pin(part, c.to.name) {
            Some(q) => side_width(c.to, s[q as int].width) as nat,
            None => 0,
        },
    }
}

/// The net after an internal pin of the host was widened to what a
/// connection asks of it: a bus that is narrower grows, up to 16 bits;
/// nothing else changes.
pub open spec fn widen_for(
    host: ChipView,
    part: ChipView,
    c: ConnectionView,
    s: Seq<PinView>,
) -> Seq<PinView> {
    if !is_literal(c.from.name) && is_internal(host, c.from.name) {
        let p = lookup(host.internals, c.from.name)->Some_0;
        let need = asked_width(part, c, s);
        if s[p as int].kind == PinKind::Bus && s[p as int].width < need <= 16 {
            s.update(p as int, PinView { width: need as usize, ..s[p as int] })
        } else {
            s
        }
    } else {
        s
    }
}

/// The net after the internal pins were widened for the connections from place `k` on.
pub open spec fn widen_all(
    host: ChipView,
    part: ChipView,
    conns: Seq<ConnectionView>,
    k: nat,
    s: Seq<PinView>,
) -> Seq<PinView>
    decreases conns.len() - k,
{
    if k >= conns.len() {
        s
    } else {
        widen_all(host, part, conns, k + 1, widen_for(host, part, conns[k as int], s))
    }
}

/// Why a chip could not be built.
pub enum BuildFault {
    /// A declared pin is not between 1 and 16 bits wide.
    BadWidth { declared: usize },
    /// No built-in chip goes by the name of a part.
    UnknownChip { name: Seq<char> },
    /// A part could not be wired.
    Wire { fault: WireFault },
}

/// What building gave: the fault that stopped it, if any, the chip as far
/// as it got, and the net.
pub struct Assembly {
    pub fault: Option<BuildFault>,
    pub chip: ChipView,
    pub net: Seq<PinView>,
}

/// Builds and wires the parts from place `k` on, in order: each is a new
/// built-in chip; the internal pins of the host that it is wired to are
/// widened to fit; then it is wired in.
pub open spec fn assemble(host: ChipView, parts: Seq<Part>, k: nat, s: Seq<PinView>) -> Assembly
    decreases parts.len() - k,
{
    if k >= parts.len() {
        Assembly { fault: None, chip: host, net: s }
    } else {
        match kind_named(parts[k as int].name@) {
            None => Assembly {
                fault: Some(BuildFault::UnknownChip { name: parts[k as int].name@ }),
                chip: host,
                net: s,
            },
            Some(kind) => {
                let part = fresh_chip(kind, s.len());
                let conns = wire_views(parts[k as int].connections@);
                let w = wired(host, part, conns, widen_all(host, part, conns, 0, fresh_net(kind, s)));
                if w.0 is Some {
                    Assembly { fault: Some(BuildFault::Wire { fault: w.0->Some_0 }), chip: w.1, net: w.2 }
                } else {
                    assemble(w.1, parts, k + 1, w.2)
                }
            },
        }
    }
}

/// Builds a composite from its description: buses for the declared
/// inputs, then for the outputs; a bus of one bit for every other name in
/// the wires of the parts; then the parts, in order.
pub open spec fn compose(hdl: HdlChip, s: Seq<PinView>) -> Assembly {
    let ins = declare(Seq::empty(), hdl.inputs@, 0, s);
    let outs = declare(Seq::empty(), hdl.outputs@, 0, ins.net);
    if !ins.ok {
        Assembly {
            fault: Some(BuildFault::BadWidth { declared: ins.bad }),
            chip: ChipView { inputs: ins.pins, ..empty_chip(hdl.name@) },
            net: ins.net,
        }
    } else if !outs.ok {
        Assembly {
            fault: Some(BuildFault::BadWidth { declared: outs.bad }),
            chip: ChipView { inputs: ins.pins, outputs: outs.pins, ..empty_chip(hdl.name@) },
            net: outs.net,
        }
    } else {
        let host = ChipView { inputs: ins.pins, outputs: outs.pins, ..empty_chip(hdl.name@) };
        let noted = note_parts(host, hdl.parts@, 0, outs.net);
        assemble(noted.0, hdl.parts@, 0, noted.1)
    }
}

/// Whether an error says what a fault of building is.
pub open spec fn tells(e: SimulatorError, fault: BuildFault) -> bool {
    match fault {
        BuildFault::Wire { fault: WireFault::PinNotFound { pin, chip } } => e
            == (SimulatorError::PinNotFound { pin: e->PinNotFound_pin, chip: e->PinNotFound_chip })
            && e->PinNotFound_pin@ == pin && e->PinNotFound_chip@ == chip,
        BuildFault::Wire { fault: WireFault::Other } => e == SimulatorError::Hardware(
            e->Hardware_0,
        ),
        BuildFault::Wire { fault } => e == SimulatorError::Hardware(e->Hardware_0)
            && e->Hardware_0@ == fault_message(fault),
        BuildFault::BadWidth { declared } => e == SimulatorError::Hardware(e->Hardware_0)
            && e->Hardware_0@ == "Bus width must be between 1 and 16 bits, not "@ + spec_decimal(
            declared as nat,
        ),
        BuildFault::UnknownChip { name } => e == SimulatorError::Hardware(e->Hardware_0)
            && e->Hardware_0@ == "Unknown builtin chip: "@ + name,
    }
}

/// A group of pins within a net stays within it when a node of the net joins the group.
pub proof fn lemma_inserted_within(
    pins: Seq<(Seq<char>, PinId)>,
    name: Seq<char>,
    pin: PinId,
    n: nat,
)
    requires
        pins_within(pins, n),
        pin < n,
    ensures
        pins_within(inserted(pins, name, pin), n),
{
    let after = inserted(pins, name, pin);
    crate::chip::pinmap::lemma_find_from_bounds(pins, name, 0);
    assert forall|i: int| 0 <= i < after.len() implies (#[trigger] after[i]).1 < n by {
        if i < pins.len() && after[i] != (name, pin) {
            assert(after[i] == pins[i]);
        }
    }
}

/// Declares pins of the chip under construction: inputs, or else outputs.
fn declare_pins(net: &mut Net, chip: &mut Chip, decls: &Vec<PinDecl>, inputs: bool) -> (r: Result<
    (),
    SimulatorError,
>)
    requires
        old(net).wf(),
        old(chip).wf(old(net)),
        old(chip)@.kind == ChipKind::Composite,
    ensures
        final(net).wf(),
        final(chip).wf(final(net)),
        old(net)@.len() <= final(net)@.len(),
        inputs ==> ({
            let d = declare(old(chip)@.inputs, decls@, 0, old(net)@);
            &&& r is Ok == d.ok
            &&& final(net)@ == d.net
            &&& final(chip)@ == (ChipView { inputs: d.pins, ..old(chip)@ })
            &&& r is Err ==> tells(r->Err_0, BuildFault::BadWidth { declared: d.bad })
        }),
        !inputs ==> ({
            let d = declare(old(chip)@.outputs, decls@, 0, old(net)@);
            &&& r is Ok == d.ok
            &&& final(net)@ == d.net
            &&& final(chip)@ == (ChipView { outputs: d.pins, ..old(chip)@ })
            &&& r is Err ==> tells(r->Err_0, BuildFault::BadWidth { declared: d.bad })
        }),
{
    let builder = ChipBuilder::new();
    let n: usize = decls.len();
    let mut i: usize = 0;
    while i < n
        invariant
            net.wf(),
            chip.wf(net),
            chip@.kind == ChipKind::Composite,
            old(net)@.len() <= net@.len(),
            n == decls@.len(),
            i <= n,
            inputs ==> chip@ == (ChipView { inputs: chip@.inputs, ..old(chip)@ }) && declare(
                chip@.inputs,
                decls@,
                i as nat,
                net@,
            ) == declare(old(chip)@.inputs, decls@, 0, old(net)@),
            !inputs ==> chip@ == (ChipView { outputs: chip@.outputs, ..old(chip)@ }) && declare(
                chip@.outputs,
                decls@,
                i as nat,
                net@,
            ) == declare(old(chip)@.outputs, decls@, 0, old(net)@),
        decreases n - i,
    {
        let ghost before = chip@;
        let ghost s = net@;
        match builder.create_pin_from_decl(net, &decls[i]) {
            Err(e) => {
                return Err(e);
            },
            Ok(pin) => {
                proof {
                    lemma_wf_grows(before, s.len(), net@.len());
                }
                if inputs {
                    chip.add_input_pin(decls[i].name.clone(), pin);
                    proof {
                        lemma_inserted_within(before.inputs, decls@[i as int].name@, pin, net@.len());
                    }
                } else {
                    chip.add_output_pin(decls[i].name.clone(), pin);
                    proof {
                        lemma_inserted_within(before.outputs, decls@[i as int].name@, pin, net@.len());
                    }
                }
                proof {
                    assert forall|j: int| 0 <= j < chip@.parts.len() implies chip_wf(
                        #[trigger] chip@.parts[j],
                        net@.len(),
                    ) by {
                        assert(chip_wf(before.parts[j], net@.len()));
                    }
                }
            },
        }
        i += 1;
    }
    Ok(())
}

/// Gives the chip under construction an internal pin for a name in a wire that calls for one.
fn collect_internal_pins(net: &mut Net, chip: &mut Chip, side: &WireSide)
    requires
        old(net).wf(),
        old(chip).wf(old(net)),
        old(chip)@.kind == ChipKind::Composite,
    ensures
        final(net).wf(),
        final(chip).wf(final(net)),
        final(chip)@.kind == ChipKind::Composite,
        old(net)@.len() <= final(net)@.len(),
        (final(chip)@, final(net)@) == note_side(old(chip)@, *side, old(net)@),
{
    match side {
        WireSide::Pin { name, range } => {
            if chip.is_input_pin(name.as_str()) || chip.is_output_pin(name.as_str()) {
                return ;
            }
            if is_constant_pin(name.as_str()) {
                return ;
            }
            if chip.internal_pins().contains_key(name.as_str()) {
                return ;
            }
            let ghost before = chip@;
            let ghost s = net@;
            let pin = Bus::new(net, name.clone(), 1);
            chip.add_internal_pin(name.clone(), pin);
            proof {
                lemma_wf_grows(before, s.len(), net@.len());
                lemma_inserted_within(before.internals, name@, pin, net@.len());
                assert forall|j: int| 0 <= j < chip@.parts.len() implies chip_wf(
                    #[trigger] chip@.parts[j],
                    net@.len(),
                ) by {
                    assert(chip_wf(before.parts[j], net@.len()));
                }
            }
        },
        WireSide::Constant(_) => {},
    }
}

/// Looks at all wires of all parts for names that call for internal pins.
fn collect_all(net: &mut Net, chip: &mut Chip, parts: &Vec<Part>)
    requires
        old(net).wf(),
        old(chip).wf(old(net)),
        old(chip)@.kind == ChipKind::Composite,
    ensures
        final(net).wf(),
        final(chip).wf(final(net)),
        final(chip)@.kind == ChipKind::Composite,
        old(net)@.len() <= final(net)@.len(),
        (final(chip)@, final(net)@) == note_parts(old(chip)@, parts@, 0, old(net)@),
{
    let n: usize = parts.len();
    let mut i: usize = 0;
    while i < n
        invariant
            net.wf(),
            chip.wf(net),
            chip@.kind == ChipKind::Composite,
            old(net)@.len() <= net@.len(),
            n == parts@.len(),
            i <= n,
            note_parts(chip@, parts@, i as nat, net@) == note_parts(
                old(chip)@,
                parts@,
                0,
                old(net)@,
            ),
        decreases n - i,
    {
        let wires = &parts[i].connections;
        let m: usize = wires.len();
        let mut j: usize = 0;
        let ghost c0 = chip@;
        let ghost s0 = net@;
        while j < m
            invariant
                net.wf(),
                chip.wf(net),
                chip@.kind == ChipKind::Composite,
                old(net)@.len() <= net@.len(),
                m == wires@.len(),
                j <= m,
                note_wires(chip@, wires@, j as nat, net@) == note_wires(c0, wires@, 0, s0),
            decreases m - j,
        {
            collect_internal_pins(net, chip, &wires[j].from);
            collect_internal_pins(net, chip, &wires[j].to);
            j += 1;
        }
        i += 1;
    }
}

/// Widens an internal pin of the host to what a connection asks of it.
fn widen_pin(net: &mut Net, host: &Chip, part: &Chip, c: &Connection)
    requires
        old(net).wf(),
        host.wf(old(net)),
        part.wf(old(net)),
        c.wf(),
    ensures
        final(net).wf(),
        final(net)@.len() == old(net)@.len(),
        final(net)@ == widen_for(host@, part@, c@, old(net)@),
{
    let name = c.from.name.as_str();
    if literal(name) {
        return ;
    }
    if host.is_input_pin(name) || host.is_output_pin(name) {
        return ;
    }
    let pin = match host.internal_pins().get(name) {
        Some(p) => p,
        None => {
            return ;
        },
    };
    proof {
        crate::chip::pinmap::lemma_find_from_bounds(host@.internals, name@, 0);
        lemma_found_within(part@, c.to.name@, net@.len());
    }
    let need: usize = match &c.from.range {
        Some(r) => match r.end {
            Some(last) => {
                if last >= 16 {
                    return ;
                }
                last + 1
            },
            None => 1,
        },
        None => match part.get_pin(c.to.name.as_str()) {
            Ok(q) => width_of_side(&c.to, net.width(q)),
            Err(_) => 0,
        },
    };
    let is_bus = match net.kind(pin) {
        PinKind::Bus => true,
        _ => false,
    };
    if is_bus && net.width(pin) < need && need <= 16 {
        let _ = Bus::ensure_width(net, pin, need);
    }
}

impl ChipBuilder {
    /// Builds the parts of the chip under construction and wires them in, in order.
    fn build_parts(&self, net: &mut Net, chip: &mut Chip, parts: &Vec<Part>) -> (r: Result<
        (),
        SimulatorError,
    >)
        requires
            old(net).wf(),
            old(chip).wf(old(net)),
            old(chip)@.kind == ChipKind::Composite,
            parts_ok(parts@),
        ensures
            final(net).wf(),
            final(chip).wf(final(net)),
            old(net)@.len() <= final(net)@.len(),
            r is Ok <==> assemble(old(chip)@, parts@, 0, old(net)@).fault is None,
            r is Err ==> tells(r->Err_0, assemble(old(chip)@, parts@, 0, old(net)@).fault->Some_0),
            final(chip)@ == assemble(old(chip)@, parts@, 0, old(net)@).chip,
            final(net)@ == assemble(old(chip)@, parts@, 0, old(net)@).net,
    {
        let n: usize = parts.len();
        let mut i: usize = 0;
        while i < n
            invariant
                net.wf(),
                chip.wf(net),
                chip@.kind == ChipKind::Composite,
                parts_ok(parts@),
                old(net)@.len() <= net@.len(),
                n == parts@.len(),
                i <= n,
                assemble(chip@, parts@, i as nat, net@) == assemble(
                    old(chip)@,
                    parts@,
                    0,
                    old(net)@,
                ),
            decreases n - i,
        {
            let ghost host = chip@;
            let ghost s = net@;
            let part = match self.build_builtin_chip(net, parts[i].name.as_str()) {
                Ok(p) => p,
                Err(e) => {
                    return Err(e);
                },
            };
            let ghost kind = kind_named(parts@[i as int].name@)->Some_0;
            proof {
                assert(part@ == fresh_chip(kind, s.len()));
                assert(net@ == fresh_net(kind, s));
                lemma_wf_grows(host, s.len(), net@.len());
            }
            assert(wires_ok(parts@[i as int].connections@));
            let conns = to_connections(&parts[i].connections);
            let m: usize = conns.len();
            let mut j: usize = 0;
            let ghost s1 = net@;
            while j < m
                invariant
                    net.wf(),
                    chip.wf(net),
                    part.wf(net),
                    chip@ == host,
                    all_wf(conns@),
                    m == conns@.len(),
                    j <= m,
                    net@.len() == s1.len(),
                    widen_all(host, part@, views(conns@), j as nat, net@) == widen_all(
                        host,
                        part@,
                        views(conns@),
                        0,
                        s1,
                    ),
                decreases m - j,
            {
                assert(conns@[j as int].wf());
                assert(views(conns@)[j as int] == conns@[j as int]@);
                widen_pin(net, chip, &part, &conns[j]);
                j += 1;
            }
            match chip.wire(net, part, conns) {
                Ok(_) => {},
                Err(e) => {
                    return Err(wiring_error(e));
                },
            }
            i += 1;
        }
        Ok(())
    }

    /// Builds the chip that `hdl_chip` describes: a built-in chip by its
    /// name, or a composite with new buses for its pins and its parts
    /// wired in. The net keeps what was made before an error.
    pub fn build_chip(&self, net: &mut Net, hdl_chip: &HdlChip) -> (r: Result<Chip, SimulatorError>)
        requires
            old(net).wf(),
            parts_ok(hdl_chip.parts@),
        ensures
            final(net).wf(),
            old(net)@.len() <= final(net)@.len(),
            r is Ok ==> r->Ok_0.wf(final(net)),
            hdl_chip.is_builtin ==> {
                &&& r is Ok <==> kind_named(hdl_chip.name@) is Some
                &&& r is Ok ==> built(
                    r->Ok_0@,
                    kind_named(hdl_chip.name@)->Some_0,
                    old(net)@,
                    final(net)@,
                ) && has_signature(r->Ok_0@, final(net)@)
                &&& r is Err ==> final(net)@ == old(net)@ && r->Err_0 == SimulatorError::Hardware(
                    r->Err_0->Hardware_0,
                )
            },
            !hdl_chip.is_builtin ==> {
                &&& r is Ok <==> compose(*hdl_chip, old(net)@).fault is None
                &&& r is Ok ==> r->Ok_0@ == compose(*hdl_chip, old(net)@).chip
                &&& r is Err ==> tells(r->Err_0, compose(*hdl_chip, old(net)@).fault->Some_0)
                &&& final(net)@ == compose(*hdl_chip, old(net)@).net
            },
    {
        if hdl_chip.is_builtin {
            return self.build_builtin_chip(net, hdl_chip.name.as_str());
        }
        let mut chip = Chip::new(hdl_chip.name.clone());
        assert(chip_wf(chip@, net@.len()));
        match declare_pins(net, &mut chip, &hdl_chip.inputs, true) {
            Ok(_) => {},
            Err(e) => {
                return Err(e);
            },
        }
        match declare_pins(net, &mut chip, &hdl_chip.outputs, false) {
            Ok(_) => {},
            Err(e) => {
                return Err(e);
            },
        }
        collect_all(net, &mut chip, &hdl_chip.parts);
        match self.build_parts(net, &mut chip, &hdl_chip.parts) {
            Ok(_) => Ok(chip),
            Err(e) => Err(e),
        }
    }
}

} // verus!

use vstd::prelude::*;
use vstd::string::StringExecFns;

use crate::chip::chip::{find_pin, lemma_found_within, lemma_wf_grows, Chip};
use crate::chip::model::{chip_wf, ChipView};
use crate::chip::net::Net;
use crate::chip::pin::{new_constant, ConstantPin, PinId, PinKind, PinView};
use crate::chip::pinmap::lookup;
use crate::chip::signal::attach;
use crate::chip::subbus::{
    create_input_subbus, create_output_subbus, range_fits, slice_net, slice_result, PinRange,
    RangeView,
};

use crate::text::{decimal, same, spec_decimal};

verus! {

/// One side of a wire: a pin by name (or one of the literals `true` and
/// `false`), and the bits that are meant where not all are.
#[derive(Debug, Clone)]
pub struct PinSide {
    pub name: String,
    pub range: Option<PinRange>,
}

/// One side of a wire as contracts see it.
pub struct SideView {
    pub name: Seq<char>,
    pub range: Option<RangeView>,
}

impl View for PinSide {
    type V = SideView;

    open spec fn view(&self) -> SideView {
        SideView {
            name: self.name@,
            range: match self.range {
                Some(r) => Some(r@),
                None => None,
            },
        }
    }
}

impl PinSide {
    /// The whole pin `name`.
    pub fn new(name: String) -> (r: PinSide)
        ensures
            r.name == name,
            r.range is None,
    {
        PinSide { name, range: None }
    }

    /// The bits `range` of the pin `name`.
    pub fn with_range(name: String, range: PinRange) -> (r: PinSide)
        ensures
            r.name == name,
            r.range == Some(range),
    {
        PinSide { name, range: Some(range) }
    }

    /// The bits `range` of the pin that `range` names.
    pub fn from_range(range: PinRange) -> (r: PinSide)
        ensures
            r.name@ == range.pin_name@,
            r.range == Some(range),
    {
        PinSide { name: range.pin_name.clone(), range: Some(range) }
    }

    /// The range, if there is one, is well-formed.
    pub open spec fn wf(&self) -> bool {
        self.range is Some ==> self.range->Some_0.wf()
    }
}

/// One wire between the host (`from`) and a part (`to`). Which way the
/// signal goes depends on the part's pin: into an input, out of an output.
#[derive(Debug, Clone)]
pub struct Connection {
    pub from: PinSide,
    pub to: PinSide,
}

/// One wire as contracts see it.
pub struct ConnectionView {
    pub from: SideView,
    pub to: SideView,
}

impl View for Connection {
    type V = ConnectionView;

    open spec fn view(&self) -> ConnectionView {
        ConnectionView { from: self.from@, to: self.to@ }
    }
}

/// The wires as contracts see them.
pub open spec fn views(conns: Seq<Connection>) -> Seq<ConnectionView> {
    Seq::new(conns.len(), |i: int| conns[i]@)
}

impl Connection {
    pub fn new(from: PinSide, to: PinSide) -> (r: Connection)
        ensures
            r.from == from,
            r.to == to,
    {
        Connection { from, to }
    }

    pub open spec fn wf(&self) -> bool {
        self.from.wf() && self.to.wf()
    }
}

/// Why a part could not be wired.
#[derive(Debug, Clone)]
pub enum WireError {
    PinNotFound { pin_name: String, chip_name: String },
    WidthMismatch { from_width: usize, to_width: usize, connection: String },
    InvalidRange { pin_name: String, error: String },
    MultipleAssignment { pin_name: String, conflict: String },
    CircularDependency { cycle: Vec<String> },
}

/// What a wiring error says, without its wording.
pub enum WireFault {
    PinNotFound { pin: Seq<char>, chip: Seq<char> },
    WidthMismatch { from_width: usize, to_width: usize, connection: Seq<char> },
    InvalidRange { pin: Seq<char>, error: Seq<char> },
    Other,
}

/// What is wrong with a range that does not lie within its pin.
pub open spec fn outside_the_pin() -> Seq<char> {
    "the range does not lie within the pin"@
}

/// The text of the error for a fault.
pub open spec fn fault_message(fault: WireFault) -> Seq<char> {
    match fault {
        WireFault::PinNotFound { pin, chip } => "Pin '"@ + pin + "' not found in chip '"@ + chip
            + "'"@,
        WireFault::WidthMismatch { from_width, to_width, connection } =>
            "Width mismatch in connection '"@ + connection + "': "@ + spec_decimal(
                from_width as nat,
            ) + " -> "@ + spec_decimal(to_width as nat),
        WireFault::InvalidRange { pin, error } => "Invalid range for pin '"@ + pin + "': "@ + error,
        WireFault::Other => Seq::empty(),
    }
}

impl WireError {
    /// What the error says, without its wording.
    pub open spec fn fault(&self) -> WireFault {
        match self {
            WireError::PinNotFound { pin_name, chip_name } => WireFault::PinNotFound {
                pin: pin_name@,
                chip: chip_name@,
            },
            WireError::WidthMismatch { from_width, to_width, connection } =>
                WireFault::WidthMismatch {
                    from_width: *from_width,
                    to_width: *to_width,
                    connection: connection@,
                },
            WireError::InvalidRange { pin_name, error } => WireFault::InvalidRange {
                pin: pin_name@,
                error: error@,
            },
            _ => WireFault::Other,
        }
    }

    /// The text that `message` gives for this error.
    pub open spec fn spec_message(&self) -> Seq<char> {
        match self {
            WireError::PinNotFound { pin_name, chip_name } => "Pin '"@ + pin_name@
                + "' not found in chip '"@ + chip_name@ + "'"@,
            WireError::WidthMismatch { from_width, to_width, connection } =>
                "Width mismatch in connection '"@ + connection@ + "': "@ + spec_decimal(
                    *from_width as nat,
                ) + " -> "@ + spec_decimal(*to_width as nat),
            WireError::InvalidRange { pin_name, error } => "Invalid range for pin '"@ + pin_name@
                + "': "@ + error@,
            WireError::MultipleAssignment { pin_name, conflict } => "Multiple assignment to pin '"@
                + pin_name@ + "': "@ + conflict@,
            WireError::CircularDependency { cycle } => "Circular dependency detected: "@ + chain(
                cycle@,
                cycle@.len() as int,
            ),
        }
    }

    /// The error as a line for a person to read.
    pub fn message(&self) -> (r: String)
        ensures
            r@ == self.spec_message(),
    {
        match self {
            WireError::PinNotFound { pin_name, chip_name } => String::from_str("Pin '").concat(
                pin_name.as_str(),
            ).concat("' not found in chip '").concat(chip_name.as_str()).concat("'"),
            WireError::WidthMismatch { from_width, to_width, connection } => String::from_str(
                "Width mismatch in connection '",
            ).concat(connection.as_str()).concat("': ").concat(
                decimal(*from_width as u64).as_str(),
            ).concat(" -> ").concat(decimal(*to_width as u64).as_str()),
            WireError::InvalidRange { pin_name, error } => String::from_str(
                "Invalid range for pin '",
            ).concat(pin_name.as_str()).concat("': ").concat(error.as_str()),
            WireError::MultipleAssignment { pin_name, conflict } => String::from_str(
                "Multiple assignment to pin '",
            ).concat(pin_name.as_str()).concat("': ").concat(conflict.as_str()),
            WireError::CircularDependency { cycle } => {
                let mut text = String::from_str("Circular dependency detected: ");
                let n: usize = cycle.len();
                let mut i: usize = 0;
                while i < n
                    invariant
                        n == cycle@.len(),
                        i <= n,
                        text@ == "Circular dependency detected: "@ + chain(cycle@, i as int),
                    decreases n - i,
                {
                    let ghost before = text@;
                    if i > 0 {
                        text.append(" -> ");
                    }
                    text.append(cycle[i].as_str());
                    i += 1;
                    assert(text@ =~= "Circular dependency detected: "@ + chain(cycle@, i as int));
                }
                text
            },
        }
    }
}

/// The first `k` names, with an arrow between each two.
pub open spec fn chain(names: Seq<String>, k: int) -> Seq<char>
    decreases k,
{
    if k <= 0 {
        Seq::empty()
    } else if k == 1 {
        names[0]@
    } else {
        chain(names, k - 1) + " -> "@ + names[k - 1]@
    }
}

/// Whether a name on the host side is one of the two literals.
pub open spec fn is_literal(name: Seq<char>) -> bool {
    name == "true"@ || name == "false"@
}

/// The width of a side: that of its range, or of the pin where all bits are meant.
pub open spec fn side_width(side: SideView, pin_width: usize) -> usize {
    match side.range {
        Some(r) => r.width() as usize,
        None => pin_width,
    }
}

/// The width of the pin that the host side names: 1 for a literal; none
/// where the host has no such pin.
pub open spec fn host_pin_width(host: ChipView, side: SideView, s: Seq<PinView>) -> Option<usize> {
    if is_literal(side.name) {
        Some(1usize)
    } else {
        match find_pin(host, side.name) {
            Some(p) => Some(s[p as int].width),
            None => None,
        }
    }
}

/// Whether a connection feeds an input of the part.
pub open spec fn feeds_input(part: ChipView, c: ConnectionView) -> bool {
    lookup(part.inputs, c.to.name) is Some
}

/// What is wrong with a connection before anything is made: the part has
/// no such input or output, the host has no such pin, or the two sides
/// differ in width.
pub open spec fn check(
    host: ChipView,
    part: ChipView,
    c: ConnectionView,
    s: Seq<PinView>,
) -> Option<WireFault> {
    if !feeds_input(part, c) && lookup(part.outputs, c.to.name) is None {
        Some(WireFault::PinNotFound { pin: c.to.name, chip: part.name })
    } else if host_pin_width(host, c.from, s) is None {
        Some(WireFault::PinNotFound { pin: c.from.name, chip: host.name })
    } else {
        let hw = side_width(c.from, host_pin_width(host, c.from, s)->Some_0);
        let pw = side_width(c.to, s[find_pin(part, c.to.name)->Some_0 as int].width);
        if hw == pw {
            None
        } else if feeds_input(part, c) {
            Some(
                WireFault::WidthMismatch {
                    from_width: hw,
                    to_width: pw,
                    connection: c.to.name + "="@ + c.from.name,
                },
            )
        } else {
            Some(
                WireFault::WidthMismatch {
                    from_width: pw,
                    to_width: hw,
                    connection: c.to.name + "="@ + c.from.name,
                },
            )
        }
    }
}

/// The first fault among the connections from place `k` on.
pub open spec fn first_fault(
    host: ChipView,
    part: ChipView,
    conns: Seq<ConnectionView>,
    k: nat,
    s: Seq<PinView>,
) -> Option<WireFault>
    decreases conns.len() - k,
{
    if k >= conns.len() {
        None
    } else if check(host, part, conns[k as int], s) is Some {
        check(host, part, conns[k as int], s)
    } else {
        first_fault(host, part, conns, k + 1, s)
    }
}

/// The end of a wire at one side.
pub struct Tap {
    /// Whether the range of the side, if any, lies within the pin.
    pub fits: bool,
    /// The node to attach: the pin, or the slice of it.
    pub node: PinId,
    /// The net with the slice, if one was made.
    pub net: Seq<PinView>,
    /// The node to track: the one made for a range.
    pub slices: Seq<PinId>,
}

/// The end of a wire at `side`, whose pin is `pin`: the pin itself where
/// all bits are meant, else a slice of `kind`.
pub open spec fn tap(s: Seq<PinView>, kind: PinKind, pin: PinId, side: SideView) -> Tap {
    match side.range {
        None => Tap { fits: true, node: pin, net: s, slices: Seq::empty() },
        Some(r) => if range_fits(s, pin, r) {
            Tap {
                fits: true,
                node: slice_result(s, pin, r),
                net: slice_net(s, kind, pin, r),
                slices: seq![slice_result(s, pin, r)],
            }
        } else {
            Tap { fits: false, node: pin, net: s, slices: Seq::empty() }
        },
    }
}

/// What making connections gave: the fault that stopped it, if any, the
/// net, and the nodes to track.
pub struct Joined {
    pub fault: Option<WireFault>,
    pub net: Seq<PinView>,
    pub slices: Seq<PinId>,
}

/// Makes one connection: a literal on the host side becomes a new
/// constant; the source side gets a readable slice and the destination a
/// writable one where a range is given; then the destination is attached
/// to the source. The source is the host side where the part's pin is an
/// input, else the part side.
pub open spec fn join(
    host: ChipView,
    part: ChipView,
    c: ConnectionView,
    s: Seq<PinView>,
) -> Joined {
    if check(host, part, c, s) is Some {
        Joined { fault: check(host, part, c, s), net: s, slices: Seq::empty() }
    } else {
        let inward = feeds_input(part, c);
        let part_pin = find_pin(part, c.to.name)->Some_0;
        let s1 = if is_literal(c.from.name) {
            s.push(new_constant(c.from.name))
        } else {
            s
        };
        let host_pin = if is_literal(c.from.name) {
            s.len() as usize
        } else {
            find_pin(host, c.from.name)->Some_0
        };
        let source_side = if inward {
            c.from
        } else {
            c.to
        };
        let target_side = if inward {
            c.to
        } else {
            c.from
        };
        let source = tap(
            s1,
            PinKind::OutSubBus,
            if inward {
                host_pin
            } else {
                part_pin
            },
            source_side,
        );
        let target = tap(
            source.net,
            PinKind::InSubBus,
            if inward {
                part_pin
            } else {
                host_pin
            },
            target_side,
        );
        if !source.fits {
            Joined {
                fault: Some(
                    WireFault::InvalidRange { pin: source_side.name, error: outside_the_pin() },
                ),
                net: s1,
                slices: Seq::empty(),
            }
        } else if !target.fits {
            Joined {
                fault: Some(
                    WireFault::InvalidRange { pin: target_side.name, error: outside_the_pin() },
                ),
                net: source.net,
                slices: source.slices,
            }
        } else {
            Joined {
                fault: None,
                net: attach(target.net, source.node, target.node, target.net.len()),
                slices: source.slices + target.slices,
            }
        }
    }
}

/// Makes the connections from place `k` on, in order, up to the first that fails.
pub open spec fn join_all(
    host: ChipView,
    part: ChipView,
    conns: Seq<ConnectionView>,
    k: nat,
    s: Seq<PinView>,
    slices: Seq<PinId>,
) -> Joined
    decreases conns.len() - k,
{
    if k >= conns.len() {
        Joined { fault: None, net: s, slices: slices }
    } else {
        let j = join(host, part, conns[k as int], s);
        if j.fault is Some {
            Joined { fault: j.fault, net: j.net, slices: slices + j.slices }
        } else {
            join_all(host, part, conns, k + 1, j.net, slices + j.slices)
        }
    }
}

/// What wiring `part` into `host` gives: nothing changes where a
/// connection is at fault before any is made; else the connections are
/// made in order, the new slices are slices by the host, and, if none
/// failed, the part becomes the host's last part.
pub open spec fn wired(
    host: ChipView,
    part: ChipView,
    conns: Seq<ConnectionView>,
    s: Seq<PinView>,
) -> (
    Option<WireFault>,
    ChipView,
    Seq<PinView>,
) {
    if first_fault(host, part, conns, 0, s) is Some {
        (first_fault(host, part, conns, 0, s), host, s)
    } else {
        let j = join_all(host, part, conns, 0, s, Seq::empty());
        (
            j.fault,
            ChipView {
                subbuses: host.subbuses + j.slices,
                parts: if j.fault is None {
                    host.parts.push(part)
                } else {
                    host.parts
                },
                ..host
            },
            j.net,
        )
    }
}

/// All ranges of all connections are well-formed.
pub open spec fn all_wf(conns: Seq<Connection>) -> bool {
    forall|i: int| 0 <= i < conns.len() ==> (#[trigger] conns[i]).wf()
}

pub(crate) fn literal(name: &str) -> (r: bool)
    ensures
        r == is_literal(name@),
{
    same(name, "true") || same(name, "false")
}

pub(crate) fn width_of_side(side: &PinSide, pin_width: usize) -> (r: usize)
    requires
        side.wf(),
    ensures
        r == side_width(side@, pin_width),
{
    match &side.range {
        Some(r) => r.width(),
        None => pin_width,
    }
}

/// Checks one connection before anything is made.
fn validate_connection(host: &Chip, net: &Net, part: &Chip, c: &Connection) -> (r: Result<
    (),
    WireError,
>)
    requires
        net.wf(),
        host.wf(net),
        part.wf(net),
        c.wf(),
    ensures
        r is Ok <==> check(host@, part@, c@, net@) is None,
        r is Err ==> Some(r->Err_0.fault()) == check(host@, part@, c@, net@),
{
    let inward = part.is_input_pin(c.to.name.as_str());
    if !inward && !part.is_output_pin(c.to.name.as_str()) {
        return Err(
            WireError::PinNotFound {
                pin_name: c.to.name.clone(),
                chip_name: String::from_str(part.name()),
            },
        );
    }
    let host_width: usize = if literal(c.from.name.as_str()) {
        1
    } else {
        match host.get_pin(c.from.name.as_str()) {
            Ok(p) => {
                proof {
                    lemma_found_within(host@, c.from.name@, net@.len());
                }
                net.width(p)
            },
            Err(_) => {
                return Err(
                    WireError::PinNotFound {
                        pin_name: c.from.name.clone(),
                        chip_name: String::from_str(host.name()),
                    },
                );
            },
        }
    };
    let part_pin = match part.get_pin(c.to.name.as_str()) {
        Ok(p) => p,
        Err(_) => {
            return Err(
                WireError::PinNotFound {
                    pin_name: c.to.name.clone(),
                    chip_name: String::from_str(part.name()),
                },
            );
        },
    };
    proof {
        lemma_found_within(part@, c.to.name@, net@.len());
    }
    let hw = width_of_side(&c.from, host_width);
    let pw = width_of_side(&c.to, net.width(part_pin));
    if hw == pw {
        return Ok(());
    }
    let label = c.to.name.clone().concat("=").concat(c.from.name.as_str());
    if inward {
        Err(WireError::WidthMismatch { from_width: hw, to_width: pw, connection: label })
    } else {
        Err(WireError::WidthMismatch { from_width: pw, to_width: hw, connection: label })
    }
}

/// The end of a wire at `side` of `pin`; `None` where the range does not fit.
fn make_tap(net: &mut Net, kind: PinKind, pin: PinId, side: &PinSide) -> (r: Option<PinId>)
    requires
        old(net).wf(),
        pin < old(net)@.len(),
        side.wf(),
        kind == PinKind::InSubBus || kind == PinKind::OutSubBus,
    ensures
        final(net).wf(),
        r is Some <==> tap(old(net)@, kind, pin, side@).fits,
        final(net)@ == tap(old(net)@, kind, pin, side@).net,
        r is Some ==> r->Some_0 == tap(old(net)@, kind, pin, side@).node,
        r is Some ==> r->Some_0 < final(net)@.len(),
        old(net)@.len() <= final(net)@.len(),
{
    match &side.range {
        None => Some(pin),
        Some(range) => {
            let made = match kind {
                PinKind::OutSubBus => create_output_subbus(net, pin, range),
                _ => create_input_subbus(net, pin, range),
            };
            match made {
                Ok(node) => Some(node),
                Err(_) => None,
            }
        },
    }
}

/// The wording of the error for a range that does not fit its pin.
fn range_error(side: &PinSide) -> (e: WireError)
    ensures
        e.fault() == (WireFault::InvalidRange { pin: side@.name, error: outside_the_pin() }),
{
    WireError::InvalidRange {
        pin_name: side.name.clone(),
        error: String::from_str("the range does not lie within the pin"),
    }
}

impl Chip {
    /// Makes one connection between this chip and `part`.
    fn make_connection(&mut self, net: &mut Net, part: &Chip, c: &Connection) -> (r: Result<
        (),
        WireError,
    >)
        requires
            old(net).wf(),
            old(self).wf(old(net)),
            part.wf(old(net)),
            c.wf(),
        ensures
            final(net).wf(),
            final(self).wf(final(net)),
            part.wf(final(net)),
            old(net)@.len() <= final(net)@.len(),
            r is Ok <==> join(old(self)@, part@, c@, old(net)@).fault is None,
            r is Err ==> Some(r->Err_0.fault()) == join(old(self)@, part@, c@, old(net)@).fault,
            final(net)@ == join(old(self)@, part@, c@, old(net)@).net,
            final(self)@ == (ChipView {
                subbuses: old(self)@.subbuses + join(old(self)@, part@, c@, old(net)@).slices,
                ..old(self)@
            }),
    {
        let ghost host0 = self@;
        let ghost s0 = net@;
        proof {
            assert(self@.subbuses + Seq::<PinId>::empty() =~= self@.subbuses);
        }
        match validate_connection(self, net, part, c) {
            Err(e) => {
                return Err(e);
            },
            Ok(_) => {},
        }
        let inward = part.is_input_pin(c.to.name.as_str());
        let part_pin = match part.get_pin(c.to.name.as_str()) {
            Ok(p) => p,
            Err(_) => {
                return Ok(());
            },
        };
        proof {
            lemma_found_within(part@, c.to.name@, net@.len());
            lemma_found_within(self@, c.from.name@, net@.len());
        }
        let host_pin = if literal(c.from.name.as_str()) {
            proof {
                reveal_strlit("true");
                reveal_strlit("false");
            }
            match ConstantPin::new(net, c.from.name.clone()) {
                Ok(p) => p,
                Err(_) => {
                    return Ok(());
                },
            }
        } else {
            match self.get_pin(c.from.name.as_str()) {
                Ok(p) => p,
                Err(_) => {
                    return Ok(());
                },
            }
        };
        let ghost s1 = net@;
        proof {
            lemma_wf_grows(host0, s0.len(), s1.len());
            lemma_wf_grows(part@, s0.len(), s1.len());
        }
        let source = if inward {
            make_tap(net, PinKind::OutSubBus, host_pin, &c.from)
        } else {
            make_tap(net, PinKind::OutSubBus, part_pin, &c.to)
        };
        let ghost s2 = net@;
        proof {
            lemma_wf_grows(host0, s1.len(), s2.len());
            lemma_wf_grows(part@, s1.len(), s2.len());
        }
        let source_node = match source {
            Some(node) => node,
            None => {
                if inward {
                    return Err(range_error(&c.from));
                } else {
                    return Err(range_error(&c.to));
                }
            },
        };
        let source_ranged = if inward {
            c.from.range.is_some()
        } else {
            c.to.range.is_some()
        };
        if source_ranged {
            self.track(source_node);
        }
        let ghost host1 = self@;
        proof {
            assert(chip_wf(host1, s2.len())) by {
                assert forall|k: int| 0 <= k < host1.subbuses.len() implies 
                    #[trigger] host1.subbuses[k] < s2.len() by {
                    if k < host0.subbuses.len() {
                        assert(host0.subbuses[k] < s2.len());
                    }
                }
                assert forall|i: int| 0 <= i < host1.parts.len() implies chip_wf(
                    #[trigger] host1.parts[i],
                    s2.len(),
                ) by {
                    assert(chip_wf(host0.parts[i], s2.len()));
                }
            }
        }
        let target = if inward {
            make_tap(net, PinKind::InSubBus, part_pin, &c.to)
        } else {
            make_tap(net, PinKind::InSubBus, host_pin, &c.from)
        };
        let ghost s3 = net@;
        proof {
            lemma_wf_grows(host1, s2.len(), s3.len());
            lemma_wf_grows(part@, s2.len(), s3.len());
        }
        let target_node = match target {
            Some(node) => node,
            None => {
                if inward {
                    return Err(range_error(&c.to));
                } else {
                    return Err(range_error(&c.from));
                }
            },
        };
        let target_ranged = if inward {
            c.to.range.is_some()
        } else {
            c.from.range.is_some()
        };
        if target_ranged {
            self.track(target_node);
        }
        let ghost host2 = self@;
        proof {
            assert(chip_wf(host2, s3.len())) by {
                assert forall|k: int| 0 <= k < host2.subbuses.len() implies 
                    #[trigger] host2.subbuses[k] < s3.len() by {
                    if k < host1.subbuses.len() {
                        assert(host1.subbuses[k] < s3.len());
                    }
                }
                assert forall|i: int| 0 <= i < host2.parts.len() implies chip_wf(
                    #[trigger] host2.parts[i],
                    s3.len(),
                ) by {
                    assert(chip_wf(host1.parts[i], s3.len()));
                }
            }
            let j = join(host0, part@, c@, s0);
            assert(host2.subbuses =~= host0.subbuses + j.slices);
        }
        net.connect(source_node, target_node);
        Ok(())
    }

    /// Wires `part` into this chip and makes it the last part. All
    /// connections are checked before any is made: a pin that the part or
    /// this chip lacks, or two sides of different widths, leave chip and
    /// net as they were. A range that does not fit its pin stops the work
    /// where it stands; the part is then not added.
    pub fn wire(&mut self, net: &mut Net, part: Chip, connections: Vec<Connection>) -> (r: Result<
        (),
        WireError,
    >)
        requires
            old(net).wf(),
            old(self).wf(old(net)),
            part.wf(old(net)),
            old(self)@.kind == crate::chip::builtins::table::ChipKind::Composite,
            all_wf(connections@),
        ensures
            final(net).wf(),
            final(self).wf(final(net)),
            old(net)@.len() <= final(net)@.len(),
            r is Ok <==> wired(old(self)@, part@, views(connections@), old(net)@).0 is None,
            r is Err ==> Some(r->Err_0.fault()) == wired(
                old(self)@,
                part@,
                views(connections@),
                old(net)@,
            ).0,
            final(self)@ == wired(old(self)@, part@, views(connections@), old(net)@).1,
            final(net)@ == wired(old(self)@, part@, views(connections@), old(net)@).2,
    {
        let ghost host0 = self@;
        let ghost s0 = net@;
        let n: usize = connections.len();
        let mut i: usize = 0;
        while i < n
            invariant
                net.wf(),
                self.wf(net),
                part.wf(net),
                all_wf(connections@),
                self@ == host0,
                net@ == s0,
                n == connections@.len(),
                i <= n,
                first_fault(host0, part@, views(connections@), i as nat, s0) == first_fault(
                    host0,
                    part@,
                    views(connections@),
                    0,
                    s0,
                ),
            decreases n - i,
        {
            assert(connections@[i as int].wf());
            match validate_connection(self, net, &part, &connections[i]) {
                Err(e) => {
                    return Err(e);
                },
                Ok(_) => {},
            }
            i += 1;
        }
        let ghost all = join_all(host0, part@, views(connections@), 0, s0, Seq::empty());
        let mut k: usize = 0;
        proof {
            assert(host0.subbuses + Seq::<PinId>::empty() =~= host0.subbuses);
        }
        let ghost mut slices: Seq<PinId> = Seq::empty();
        while k < n
            invariant
                net.wf(),
                self.wf(net),
                part.wf(net),
                all_wf(connections@),
                n == connections@.len(),
                k <= n,
                s0.len() <= net@.len(),
                s0 == old(net)@,
                host0 == old(self)@,
                first_fault(host0, part@, views(connections@), 0, s0) is None,
                all == join_all(host0, part@, views(connections@), 0, s0, Seq::empty()),
                self@ == (ChipView { subbuses: host0.subbuses + slices, ..host0 }),
                join_all(host0, part@, views(connections@), k as nat, net@, slices) == all,
            decreases n - k,
        {
            assert(connections@[k as int].wf());
            let ghost before = self@;
            let ghost j = join(before, part@, connections@[k as int]@, net@);
            proof {
                lemma_join_host(host0, before, part@, connections@[k as int]@, net@);
            }
            match self.make_connection(net, &part, &connections[k]) {
                Err(e) => {
                    proof {
                        assert(self@.subbuses =~= host0.subbuses + (slices + j.slices));
                    }
                    return Err(e);
                },
                Ok(_) => {},
            }
            proof {
                assert(self@.subbuses =~= host0.subbuses + (slices + j.slices));
                slices = slices + j.slices;
            }
            k += 1;
        }
        let ghost before = self@;
        self.add_sub_chip(part);
        proof {
            assert forall|i: int| 0 <= i < self@.parts.len() implies chip_wf(
                #[trigger] self@.parts[i],
                net@.len(),
            ) by {
                if i < before.parts.len() {
                    assert(chip_wf(before.parts[i], net@.len()));
                }
            }
            assert(chip_wf(self@, net@.len())) by {
                assert(chip_wf(before, net@.len()));
            }
        }
        Ok(())
    }
}

/// Making a connection looks at the pins and the name of the host only:
/// what the host tracks makes no difference.
pub proof fn lemma_join_host(
    a: ChipView,
    b: ChipView,
    part: ChipView,
    c: ConnectionView,
    s: Seq<PinView>,
)
    requires
        b == (ChipView { subbuses: b.subbuses, ..a }),
    ensures
        join(a, part, c, s) == join(b, part, c, s),
{
}

} // verus!

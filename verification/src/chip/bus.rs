use vstd::prelude::*;
use vstd::string::StringExecFns;
use crate::chip::net::Net;
use crate::chip::pin::{Pin, PinId, PinKind, PinView};
use crate::chip::signal::{net_wf, node_ok, spec_mask};
use crate::error::SimulatorError;
use crate::text::{decimal, spec_decimal};

verus! {

/// A full bus: a node that owns its bits and its listeners.
#[derive(Debug)]
pub struct Bus {}

/// A fresh bus named `name`, `width` bits wide, all low, nobody listening.
pub open spec fn new_bus(name: Seq<char>, width: usize) -> PinView {
    PinView {
        name: name,
        kind: PinKind::Bus,
        width: width,
        word: 0,
        parent: 0,
        start: 0,
        listeners: Seq::empty(),
    }
}

/// The name of the slice of `width` bits from bit `start` of the node `parent`.
pub open spec fn slice_name(parent: Seq<char>, start: usize, width: usize) -> Seq<char> {
    parent + "["@ + spec_decimal(start as nat) + ".."@ + spec_decimal((start + width - 1) as nat)
        + "]"@
}

/// A fresh slice of `width` bits from bit `start` of node `parent`.
pub open spec fn new_slice(
    s: Seq<PinView>,
    kind: PinKind,
    parent: PinId,
    start: usize,
    width: usize,
) -> PinView {
    PinView {
        name: slice_name(s[parent as int].name, start, width),
        kind: kind,
        width: width,
        word: 0,
        parent: parent,
        start: start,
        listeners: Seq::empty(),
    }
}

/// Whether bits `[start, start + width)` are a slice of node `parent`.
pub open spec fn slice_fits(s: Seq<PinView>, parent: PinId, start: usize, width: usize) -> bool {
    width >= 1 && start + width <= s[parent as int].width
}

/// The text of the error for a slice that does not lie within its parent.
pub open spec fn slice_error_text(
    s: Seq<PinView>,
    parent: PinId,
    start: usize,
    width: usize,
) -> Seq<char> {
    "SubBus range ["@ + spec_decimal(start as nat) + ", "@ + spec_decimal(width as nat)
        + " bits] exceeds parent bus width "@ + spec_decimal(s[parent as int].width as nat)
        + " on pin '"@ + s[parent as int].name + "'"@
}

/// The text of the error for a width that no bus can have.
pub open spec fn widen_error_text(new_width: usize) -> Seq<char> {
    "Cannot widen bus past 16 bits to "@ + spec_decimal(new_width as nat) + " bits"@
}

/// A net stays well-formed when a node that is well-formed in it is added.
pub proof fn lemma_push_keeps(s: Seq<PinView>, p: PinView)
    requires
        net_wf(s),
        node_ok(s.push(p), s.len() as int),
    ensures
        net_wf(s.push(p)),
{
    let t = s.push(p);
    assert forall|i: int| 0 <= i < t.len() implies #[trigger] node_ok(t, i) by {
        if i < s.len() {
            assert(node_ok(s, i));
            assert(t[i] == s[i]);
            assert forall|k: int| 0 <= k < t[i].listeners.len() implies 
                #[trigger] t[i].listeners[k] < t.len() by {
                assert(s[i].listeners[k] < s.len());
            }
            if s[i].kind == PinKind::InSubBus || s[i].kind == PinKind::OutSubBus {
                assert(t[s[i].parent as int] == s[s[i].parent as int]);
            }
        }
    }
}

/// Makes the slice node that both kinds of sub-bus share.
pub(crate) fn make_slice(
    net: &mut Net,
    kind: PinKind,
    parent: PinId,
    start: usize,
    width: usize,
) -> (r: Result<PinId, SimulatorError>)
    requires
        old(net).wf(),
        parent < old(net)@.len(),
        kind == PinKind::InSubBus || kind == PinKind::OutSubBus,
    ensures
        final(net).wf(),
        r is Ok <==> slice_fits(old(net)@, parent, start, width),
        r is Ok ==> r->Ok_0 == old(net)@.len() && final(net)@ == old(net)@.push(
            new_slice(old(net)@, kind, parent, start, width),
        ),
        r is Err ==> final(net)@ == old(net)@ && r->Err_0 == SimulatorError::Hardware(
            r->Err_0->Hardware_0,
        ) && r->Err_0->Hardware_0@ == slice_error_text(old(net)@, parent, start, width),
{
    let parent_width = net.width(parent);
    proof {
        assert(node_ok(net@, parent as int));
    }
    if width == 0 || width > 16 || start > 16 || start + width > parent_width {
        let text = String::from_str("SubBus range [").concat(decimal(start as u64).as_str()).concat(
            ", ",
        ).concat(decimal(width as u64).as_str()).concat(" bits] exceeds parent bus width ").concat(
            decimal(parent_width as u64).as_str(),
        ).concat(" on pin '").concat(net.name(parent)).concat("'");
        return Err(SimulatorError::Hardware(text));
    }
    let name = String::from_str(net.name(parent)).concat("[").concat(
        decimal(start as u64).as_str(),
    ).concat("..").concat(decimal((start + width - 1) as u64).as_str()).concat("]");
    let pin = Pin { name, kind, width, word: 0, parent, start, connections: Vec::new() };
    proof {
        assert(pin@ == new_slice(net@, kind, parent, start, width));
        assert(0u16 <= spec_mask(width));
        let t = net@.push(pin@);
        assert(t[parent as int] == net@[parent as int]);
        assert(node_ok(t, net@.len() as int));
        lemma_push_keeps(net@, pin@);
    }
    let id = net.add(pin);
    Ok(id)
}

impl Bus {
    /// Adds a bus to `net`.
    pub fn new(net: &mut Net, name: String, width: usize) -> (id: PinId)
        requires
            old(net).wf(),
            1 <= width <= 16,
        ensures
            id == old(net)@.len(),
            final(net)@ == old(net)@.push(new_bus(name@, width)),
            final(net).wf(),
    {
        let pin = Pin {
            name,
            kind: PinKind::Bus,
            width,
            word: 0,
            parent: 0,
            start: 0,
            connections: Vec::new(),
        };
        proof {
            assert(pin@ == new_bus(name@, width));
            assert(0u16 <= spec_mask(width));
            assert(node_ok(net@.push(pin@), net@.len() as int));
            lemma_push_keeps(net@, pin@);
        }
        net.add(pin)
    }

    /// Widens the bus `pin` to `new_width` bits if it is narrower; a bus
    /// never shrinks, and none is wider than sixteen bits.
    pub fn ensure_width(net: &mut Net, pin: PinId, new_width: usize) -> (r: Result<
        (),
        SimulatorError,
    >)
        requires
            old(net).wf(),
            pin < old(net)@.len(),
            old(net)@[pin as int].kind == PinKind::Bus,
        ensures
            final(net).wf(),
            r is Ok <==> new_width <= 16,
            r is Ok ==> final(net)@ == old(net)@.update(
                pin as int,
                PinView {
                    width: if old(net)@[pin as int].width < new_width {
                        new_width
                    } else {
                        old(net)@[pin as int].width
                    },
                    ..old(net)@[pin as int]
                },
            ),
            r is Err ==> final(net)@ == old(net)@ && r->Err_0 == SimulatorError::Hardware(
                r->Err_0->Hardware_0,
            ) && r->Err_0->Hardware_0@ == widen_error_text(new_width),
    {
        if new_width > 16 {
            let text = String::from_str("Cannot widen bus past 16 bits to ").concat(
                decimal(new_width as u64).as_str(),
            ).concat(" bits");
            return Err(SimulatorError::Hardware(text));
        }
        let have = net.width(pin);
        if have < new_width {
            proof {
                lemma_widen_keeps(net@, pin, new_width);
            }
            net.widen(pin, new_width);
        } else {
            assert(net@ =~= net@.update(pin as int, net@[pin as int]));
        }
        Ok(())
    }
}

/// A wider mask holds every word that a narrower one holds.
pub proof fn lemma_mask_grows(word: u16, narrow: usize, wide: usize)
    requires
        word <= spec_mask(narrow),
        narrow <= wide,
    ensures
        word <= spec_mask(wide),
{
    if wide < 16 {
        let a = narrow as u16;
        let b = wide as u16;
        assert(1u16 << narrow == 1u16 << a);
        assert(1u16 << wide == 1u16 << b);
        assert(word <= ((1u16 << b) - 1) as u16) by (bit_vector)
            requires
                word <= ((1u16 << a) - 1) as u16,
                a <= b,
                b < 16,
        ;
    }
}

/// Widening a bus keeps the net well-formed.
pub proof fn lemma_widen_keeps(s: Seq<PinView>, pin: PinId, width: usize)
    requires
        net_wf(s),
        pin < s.len(),
        s[pin as int].kind == PinKind::Bus,
        s[pin as int].width <= width <= 16,
    ensures
        net_wf(s.update(pin as int, PinView { width: width, ..s[pin as int] })),
{
    let t = s.update(pin as int, PinView { width: width, ..s[pin as int] });
    assert forall|i: int| 0 <= i < t.len() implies #[trigger] node_ok(t, i) by {
        assert(node_ok(s, i));
        assert(node_ok(s, pin as int));
        if i == pin {
            lemma_mask_grows(s[i].word, s[i].width, width);
        }
    }
}

/// A slice of a bus, named for what it is: a sub-bus. It behaves as an
/// [`crate::chip::subbus::InSubBus`] does.
#[derive(Debug)]
pub struct SubBus {}

impl SubBus {
    /// Adds to `net` a writable view of `width` bits from bit `start` of `parent`.
    pub fn new(net: &mut Net, parent: PinId, start: usize, width: usize) -> (r: Result<
        PinId,
        SimulatorError,
    >)
        requires
            old(net).wf(),
            parent < old(net)@.len(),
        ensures
            final(net).wf(),
            r is Ok <==> slice_fits(old(net)@, parent, start, width),
            r is Ok ==> r->Ok_0 == old(net)@.len() && final(net)@ == old(net)@.push(
                new_slice(old(net)@, PinKind::InSubBus, parent, start, width),
            ),
            r is Err ==> final(net)@ == old(net)@ && r->Err_0 == SimulatorError::Hardware(
                r->Err_0->Hardware_0,
            ) && r->Err_0->Hardware_0@ == slice_error_text(old(net)@, parent, start, width),
    {
        make_slice(net, PinKind::InSubBus, parent, start, width)
    }
}

} // verus!

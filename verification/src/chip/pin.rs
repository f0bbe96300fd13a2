use vstd::prelude::*;
use vstd::string::StringExecFns;
use crate::chip::bus::lemma_push_keeps;
use crate::chip::net::Net;
use crate::chip::signal::{node_ok, spec_mask};
use crate::error::SimulatorError;
use crate::text::same;

verus! {

/// The level of one wire: `LOW` or `HIGH`.
pub type Voltage = u8;

pub const HIGH: Voltage = 1;

pub const LOW: Voltage = 0;

/// Handle of a signal node inside a [`crate::chip::net::Net`].
pub type PinId = usize;

/// The four variants of a signal node.
#[derive(Clone, Copy, Debug, PartialEq, Eq, Structural)]
pub enum PinKind {
    /// Owns its bits and its listener list.
    Bus,
    /// A writable view over a slice of its parent; listeners are the parent's.
    InSubBus,
    /// A readable view over a slice of its parent, with listeners of its own.
    OutSubBus,
    /// One bit that never changes.
    Constant,
}

/// One signal node as stored in the net.
#[derive(Debug)]
pub struct Pin {
    pub name: String,
    pub kind: PinKind,
    pub width: usize,
    pub word: u16,
    pub parent: PinId,
    pub start: usize,
    pub connections: Vec<PinId>,
}

impl Pin {
    /// The name that the node was made with.
    pub fn name(&self) -> (r: &str)
        ensures
            r@ == self@.name,
    {
        self.name.as_str()
    }

    /// The number of bits of the node.
    pub fn width(&self) -> (r: usize)
        ensures
            r == self@.width,
    {
        self.width
    }
}

/// The mathematical image of a signal node.
pub struct PinView {
    pub name: Seq<char>,
    pub kind: PinKind,
    pub width: usize,
    pub word: u16,
    pub parent: PinId,
    pub start: usize,
    pub listeners: Seq<PinId>,
}

impl View for Pin {
    type V = PinView;

    open spec fn view(&self) -> PinView {
        PinView {
            name: self.name@,
            kind: self.kind,
            width: self.width,
            word: self.word,
            parent: self.parent,
            start: self.start,
            listeners: self.connections@,
        }
    }
}

/// Whether `name` is one of the four reserved names of the two constants.
pub open spec fn spec_is_constant_pin(name: Seq<char>) -> bool {
    name == "false"@ || name == "true"@ || name == "0"@ || name == "1"@
}

/// The level that the reserved name `name` stands for.
pub open spec fn constant_level(name: Seq<char>) -> Voltage {
    if name == "true"@ || name == "1"@ {
        HIGH
    } else {
        LOW
    }
}

pub fn is_constant_pin(pin_name: &str) -> (r: bool)
    ensures
        r == spec_is_constant_pin(pin_name@),
{
    same(pin_name, "false") || same(pin_name, "true") || same(pin_name, "0") || same(pin_name, "1")
}

/// A constant: one bit, fixed when it is made.
#[derive(Debug)]
pub struct ConstantPin {}

/// A fresh constant node named `name`.
pub open spec fn new_constant(name: Seq<char>) -> PinView {
    PinView {
        name: name,
        kind: PinKind::Constant,
        width: 1,
        word: constant_level(name) as u16,
        parent: 0,
        start: 0,
        listeners: Seq::empty(),
    }
}

impl ConstantPin {
    /// Adds to `net` the constant that `name` names: `false` and `0` are
    /// low, `true` and `1` are high, and no other name is a constant.
    pub fn new(net: &mut Net, name: String) -> (r: Result<PinId, SimulatorError>)
        requires
            old(net).wf(),
        ensures
            final(net).wf(),
            r is Ok <==> spec_is_constant_pin(name@),
            r is Ok ==> r->Ok_0 == old(net)@.len() && final(net)@ == old(net)@.push(
                new_constant(name@),
            ),
            r is Err ==> final(net)@ == old(net)@ && r->Err_0 == SimulatorError::Hardware(
                r->Err_0->Hardware_0,
            ) && r->Err_0->Hardware_0@ == "Invalid constant pin name: "@ + name@,
    {
        let level: Voltage = if same(name.as_str(), "false") || same(name.as_str(), "0") {
            LOW
        } else if same(name.as_str(), "true") || same(name.as_str(), "1") {
            HIGH
        } else {
            let text = String::from_str("Invalid constant pin name: ").concat(name.as_str());
            return Err(SimulatorError::Hardware(text));
        };
        let pin = Pin {
            name,
            kind: PinKind::Constant,
            width: 1,
            word: level as u16,
            parent: 0,
            start: 0,
            connections: Vec::new(),
        };
        proof {
            reveal_strlit("false");
            reveal_strlit("true");
            reveal_strlit("0");
            reveal_strlit("1");
            assert("false"@.len() == 5 && "true"@.len() == 4 && "0"@.len() == 1);
            assert("0"@[0] == '0' && "1"@[0] == '1');
            assert(pin@ == new_constant(name@));
            assert(spec_mask(1) == 1u16) by (bit_vector);
            assert(node_ok(net@.push(pin@), net@.len() as int));
            lemma_push_keeps(net@, pin@);
        }
        Ok(net.add(pin))
    }
}

} // verus!

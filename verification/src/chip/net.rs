use vstd::prelude::*;
use vstd::string::StringExecFns;
use crate::chip::pin::{Pin, PinId, PinKind, PinView, Voltage, HIGH, LOW};
use crate::chip::signal::{
    lemma_attach_keeps, lemma_released_keeps, released, without, attach, bit_of, lemma_mask_bounds, lemma_set_bit_keeps,
    lemma_push_word_keeps, lemma_same_shape_trans, lemma_store_keeps, lemma_with_bit_bounds,
    lemma_set_word_keeps, listener_owner, merge, net_wf, node_ok, push_bit, set_bit, push_word,
    get_word, same_shape, spec_mask, set_word,
};
use crate::error::SimulatorError;
use crate::text::{decimal, spec_decimal};

verus! {

/// The word whose low `bits` bits are ones.
pub fn mask(bits: usize) -> (r: u16)
    ensures
        r == spec_mask(bits),
{
    if bits >= 16 {
        0xFFFF
    } else {
        let b: u16 = bits as u16;
        assert(1u16 << bits == 1u16 << b);
        assert((1u16 << b) >= 1) by (bit_vector)
            requires
                b < 16,
        ;
        (1u16 << bits) - 1
    }
}

/// The text of the error for a bit index outside a node.
pub open spec fn bit_error_text(bit: usize, name: Seq<char>, width: usize) -> Seq<char> {
    "Bit "@ + spec_decimal(bit as nat) + " out of bounds for pin "@ + name + " (width "@
        + spec_decimal(width as nat) + ")"@
}

fn bit_error(bit: usize, name: &str, width: usize) -> (e: SimulatorError)
    ensures
        e == SimulatorError::Hardware(e->Hardware_0),
        e->Hardware_0@ == bit_error_text(bit, name@, width),
{
    let text = String::from_str("Bit ").concat(decimal(bit as u64).as_str()).concat(
        " out of bounds for pin ",
    ).concat(name).concat(" (width ").concat(decimal(width as u64).as_str()).concat(")");
    SimulatorError::Hardware(text)
}

/// All signal nodes of a circuit, each known by its index.
///
/// A write to a node is pushed on to the nodes that listen to it, and from
/// those to their listeners, depth first. A push goes at most as many
/// listeners deep as the net has nodes: that is as deep as a net without
/// feedback can ask for, and it ends the pushing in a net with feedback.
#[derive(Debug)]
pub struct Net {
    pins: Vec<Pin>,
}

impl View for Net {
    type V = Seq<PinView>;

    closed spec fn view(&self) -> Seq<PinView> {
        Seq::new(self.pins@.len(), |i: int| self.pins@[i]@)
    }
}

impl Net {
    /// The net's invariant: see [`net_wf`].
    pub open spec fn wf(&self) -> bool {
        net_wf(self@)
    }

    /// A net without nodes.
    pub fn new() -> (net: Net)
        ensures
            net@ == Seq::<PinView>::empty(),
            net.wf(),
    {
        let net = Net { pins: Vec::new() };
        assert(net@ =~= Seq::<PinView>::empty());
        net
    }

    /// The number of nodes.
    pub fn len(&self) -> (n: usize)
        ensures
            n == self@.len(),
    {
        self.pins.len()
    }

    /// Adds `pin` as the newest node.
    pub(crate) fn add(&mut self, pin: Pin) -> (id: PinId)
        ensures
            id == old(self)@.len(),
            final(self)@ == old(self)@.push(pin@),
    {
        let id = self.pins.len();
        self.pins.push(pin);
        assert(self@ =~= old(self)@.push(pin@));
        id
    }

    fn store(&mut self, pin: PinId, word: u16)
        requires
            pin < old(self)@.len(),
        ensures
            final(self)@ == old(self)@.update(
                pin as int,
                PinView { word: word, ..old(self)@[pin as int] },
            ),
    {
        self.pins[pin].word = word;
        assert(self@ =~= old(self)@.update(
            pin as int,
            PinView { word: word, ..old(self)@[pin as int] },
        ));
    }

    /// Gives node `pin` the width `width`; nothing else changes.
    pub(crate) fn widen(&mut self, pin: PinId, width: usize)
        requires
            pin < old(self)@.len(),
        ensures
            final(self)@ == old(self)@.update(
                pin as int,
                PinView { width: width, ..old(self)@[pin as int] },
            ),
    {
        self.pins[pin].width = width;
        assert(self@ =~= old(self)@.update(
            pin as int,
            PinView { width: width, ..old(self)@[pin as int] },
        ));
    }

    fn listen(&mut self, pin: PinId, to: PinId)
        requires
            pin < old(self)@.len(),
        ensures
            final(self)@ == old(self)@.update(
                pin as int,
                PinView {
                    listeners: old(self)@[pin as int].listeners.push(to),
                    ..old(self)@[pin as int]
                },
            ),
    {
        self.pins[pin].connections.push(to);
        assert(self@ =~= old(self)@.update(
            pin as int,
            PinView {
                listeners: old(self)@[pin as int].listeners.push(to),
                ..old(self)@[pin as int]
            },
        ));
    }

    /// The node `pin` as it is kept.
    pub fn pin(&self, pin: PinId) -> (r: &Pin)
        requires
            pin < self@.len(),
        ensures
            r@ == self@[pin as int],
    {
        &self.pins[pin]
    }

    /// The name that node `pin` was made with.
    pub fn name(&self, pin: PinId) -> (r: &str)
        requires
            pin < self@.len(),
        ensures
            r@ == self@[pin as int].name,
    {
        self.pins[pin].name.as_str()
    }

    /// The variant of node `pin`.
    pub fn kind(&self, pin: PinId) -> (r: PinKind)
        requires
            pin < self@.len(),
        ensures
            r == self@[pin as int].kind,
    {
        self.pins[pin].kind
    }

    /// The number of bits of node `pin`.
    pub fn width(&self, pin: PinId) -> (r: usize)
        requires
            pin < self@.len(),
        ensures
            r == self@[pin as int].width,
    {
        self.pins[pin].width
    }

    /// The nodes that listen to node `pin`, in the order in which they were attached.
    pub fn listeners(&self, pin: PinId) -> (r: Vec<PinId>)
        requires
            pin < self@.len(),
        ensures
            r@ == self@[pin as int].listeners,
    {
        self.pins[pin].connections.clone()
    }

    /// The word that node `pin` shows.
    pub fn bus_voltage(&self, pin: PinId) -> (r: u16)
        requires
            self.wf(),
            pin < self@.len(),
        ensures
            r == get_word(self@, pin),
        decreases pin,
    {
        assert(node_ok(self@, pin as int));
        match self.pins[pin].kind {
            PinKind::Bus => self.pins[pin].word,
            PinKind::Constant => self.pins[pin].word,
            _ => {
                let up = self.bus_voltage(self.pins[pin].parent);
                assert(node_ok(self@, self@[pin as int].parent as int));
                (up >> self.pins[pin].start) & mask(self.pins[pin].width)
            },
        }
    }

    fn write_deep(&mut self, pin: PinId, v: u16, fuel: usize)
        requires
            old(self).wf(),
            pin < old(self)@.len(),
        ensures
            final(self)@ == set_word(old(self)@, pin, v, fuel as nat),
            final(self).wf(),
            same_shape(old(self)@, final(self)@),
        decreases fuel, 0nat, pin,
    {
        proof {
            lemma_set_word_keeps(self@, pin, v, fuel as nat);
            assert(node_ok(self@, pin as int));
        }
        match self.pins[pin].kind {
            PinKind::Constant => {},
            PinKind::Bus => {
                let w = v & mask(self.pins[pin].width);
                proof {
                    lemma_mask_bounds(v, self@[pin as int].width);
                    lemma_store_keeps(self@, pin, w);
                }
                self.store(pin, w);
                if fuel > 0 {
                    self.push_deep(pin, v, fuel - 1);
                }
            },
            PinKind::InSubBus => {
                let parent = self.pins[pin].parent;
                assert(node_ok(self@, parent as int));
                let merged = self.merged(pin, v);
                self.write_deep(parent, merged, fuel);
            },
            PinKind::OutSubBus => {
                let cur = self.bus_voltage(pin);
                if fuel > 0 {
                    proof {
                        lemma_push_word_keeps(
                            self@,
                            self@[pin as int].listeners,
                            0,
                            cur,
                            (fuel - 1) as nat,
                        );
                    }
                    self.push_deep(pin, cur, fuel - 1);
                }
                if v != cur {
                    let parent = self.pins[pin].parent;
                    assert(self@[pin as int] == (PinView {
                        word: self@[pin as int].word,
                        ..old(self)@[pin as int]
                    }));
                    assert(node_ok(self@, pin as int));
                    let merged = self.merged(pin, v);
                    self.write_deep(parent, merged, fuel);
                }
            },
        }
    }

    /// The parent's word with the slice of `pin` replaced by the low bits of `v`.
    fn merged(&self, pin: PinId, v: u16) -> (r: u16)
        requires
            self.wf(),
            pin < self@.len(),
            self@[pin as int].kind == PinKind::InSubBus || self@[pin as int].kind
                == PinKind::OutSubBus,
        ensures
            r == merge(
                get_word(self@, self@[pin as int].parent),
                self@[pin as int].start,
                self@[pin as int].width,
                v,
            ),
    {
        assert(node_ok(self@, pin as int));
        let parent = self.pins[pin].parent;
        assert(node_ok(self@, parent as int));
        let up = self.bus_voltage(parent);
        let m = mask(self.pins[pin].width);
        let start = self.pins[pin].start;
        (up & !(m << start)) | ((v & m) << start)
    }

    /// Writes `v` to every listener of `pin`, in order.
    fn push_deep(&mut self, pin: PinId, v: u16, fuel: usize)
        requires
            old(self).wf(),
            pin < old(self)@.len(),
        ensures
            final(self)@ == push_word(
                old(self)@,
                old(self)@[pin as int].listeners,
                0,
                v,
                fuel as nat,
            ),
            final(self).wf(),
            same_shape(old(self)@, final(self)@),
        decreases fuel, 1nat, old(self)@[pin as int].listeners.len() + 1,
    {
        let ghost ls = self@[pin as int].listeners;
        let n: usize = self.pins[pin].connections.len();
        let mut k: usize = 0;
        while k < n
            invariant
                self.wf(),
                same_shape(old(self)@, self@),
                pin < self@.len(),
                ls == old(self)@[pin as int].listeners,
                n == ls.len(),
                k <= n,
                push_word(self@, ls, k as nat, v, fuel as nat) == push_word(
                    old(self)@,
                    ls,
                    0,
                    v,
                    fuel as nat,
                ),
            decreases n - k,
        {
            assert(self@[pin as int] == (PinView {
                word: self@[pin as int].word,
                ..old(self)@[pin as int]
            }));
            let to = self.pins[pin].connections[k];
            assert(to == ls[k as int]);
            assert(node_ok(self@, pin as int));
            assert(self@[pin as int].listeners[k as int] < self@.len());
            let ghost before = self@;
            self.write_deep(to, v, fuel);
            proof {
                lemma_same_shape_trans(old(self)@, before, self@);
            }
            k += 1;
        }
    }

    /// Sets node `pin` to `v`, cut to its width, and pushes `v` on to all
    /// that listen, depth first and in the order of attachment.
    pub fn set_bus_voltage(&mut self, pin: PinId, v: u16)
        requires
            old(self).wf(),
            pin < old(self)@.len(),
        ensures
            final(self)@ == set_word(old(self)@, pin, v, old(self)@.len()),
            final(self).wf(),
            same_shape(old(self)@, final(self)@),
    {
        let fuel = self.pins.len();
        self.write_deep(pin, v, fuel);
    }

    fn pull_deep(&mut self, pin: PinId, bit: usize, b: Voltage, fuel: usize)
        requires
            old(self).wf(),
            pin < old(self)@.len(),
        ensures
            final(self)@ == set_bit(old(self)@, pin, bit, b, fuel as nat),
            final(self).wf(),
            same_shape(old(self)@, final(self)@),
        decreases fuel, 0nat, pin,
    {
        proof {
            lemma_set_bit_keeps(self@, pin, bit, b, fuel as nat);
            assert(node_ok(self@, pin as int));
        }
        if bit >= self.pins[pin].width {
            return ;
        }
        match self.pins[pin].kind {
            PinKind::Constant => {},
            PinKind::Bus => {
                let old_word = self.pins[pin].word;
                let w = if b == HIGH {
                    old_word | (1u16 << bit)
                } else {
                    old_word & !(1u16 << bit)
                };
                proof {
                    lemma_with_bit_bounds(old_word, bit, b, self@[pin as int].width);
                    lemma_store_keeps(self@, pin, w);
                }
                self.store(pin, w);
                if fuel > 0 {
                    self.push_bit_deep(pin, bit, b, fuel - 1);
                }
            },
            _ => {
                let parent = self.pins[pin].parent;
                let at = self.pins[pin].start + bit;
                self.pull_deep(parent, at, b, fuel);
            },
        }
    }

    fn push_bit_deep(&mut self, pin: PinId, bit: usize, b: Voltage, fuel: usize)
        requires
            old(self).wf(),
            pin < old(self)@.len(),
        ensures
            final(self)@ == push_bit(
                old(self)@,
                old(self)@[pin as int].listeners,
                0,
                bit,
                b,
                fuel as nat,
            ),
            final(self).wf(),
            same_shape(old(self)@, final(self)@),
        decreases fuel, 1nat, old(self)@[pin as int].listeners.len() + 1,
    {
        let ghost ls = self@[pin as int].listeners;
        let n: usize = self.pins[pin].connections.len();
        let mut k: usize = 0;
        while k < n
            invariant
                self.wf(),
                same_shape(old(self)@, self@),
                pin < self@.len(),
                ls == old(self)@[pin as int].listeners,
                n == ls.len(),
                k <= n,
                push_bit(self@, ls, k as nat, bit, b, fuel as nat) == push_bit(
                    old(self)@,
                    ls,
                    0,
                    bit,
                    b,
                    fuel as nat,
                ),
            decreases n - k,
        {
            assert(self@[pin as int] == (PinView {
                word: self@[pin as int].word,
                ..old(self)@[pin as int]
            }));
            let to = self.pins[pin].connections[k];
            assert(to == ls[k as int]);
            assert(node_ok(self@, pin as int));
            assert(self@[pin as int].listeners[k as int] < self@.len());
            let ghost before = self@;
            self.pull_deep(to, bit, b, fuel);
            proof {
                lemma_same_shape_trans(old(self)@, before, self@);
            }
            k += 1;
        }
    }

    /// Pulls one bit of node `pin` to `voltage` (`HIGH` sets it, anything
    /// else clears it) and pushes the pull on to all that listen. Without a
    /// bit index, bit 0 is meant. A constant swallows every pull.
    pub fn pull(&mut self, pin: PinId, voltage: Voltage, bit: Option<usize>) -> (r: Result<
        (),
        SimulatorError,
    >)
        requires
            old(self).wf(),
            pin < old(self)@.len(),
        ensures
            final(self).wf(),
            same_shape(old(self)@, final(self)@),
            r is Ok <==> (old(self)@[pin as int].kind == PinKind::Constant || bit_index(bit)
                < old(self)@[pin as int].width),
            r is Ok ==> final(self)@ == set_bit(
                old(self)@,
                pin,
                bit_index(bit),
                voltage,
                old(self)@.len(),
            ),
            r is Err ==> final(self)@ == old(self)@ && r->Err_0 == SimulatorError::Hardware(
                r->Err_0->Hardware_0,
            ) && r->Err_0->Hardware_0@ == bit_error_text(
                bit_index(bit),
                old(self)@[pin as int].name,
                old(self)@[pin as int].width,
            ),
    {
        let at: usize = match bit {
            Some(b) => b,
            None => 0,
        };
        let is_constant = match self.pins[pin].kind {
            PinKind::Constant => true,
            _ => false,
        };
        if !is_constant && at >= self.pins[pin].width {
            return Err(bit_error(at, self.pins[pin].name.as_str(), self.pins[pin].width));
        }
        let fuel = self.pins.len();
        self.pull_deep(pin, at, voltage, fuel);
        Ok(())
    }

    /// One bit of node `pin`; bit 0 without an index.
    pub fn voltage(&self, pin: PinId, bit: Option<usize>) -> (r: Result<Voltage, SimulatorError>)
        requires
            self.wf(),
            pin < self@.len(),
        ensures
            r is Ok <==> bit_index(bit) < self@[pin as int].width,
            r is Ok ==> r->Ok_0 == bit_of(get_word(self@, pin), bit_index(bit)),
            r is Err ==> r->Err_0 == SimulatorError::Hardware(r->Err_0->Hardware_0)
                && r->Err_0->Hardware_0@ == bit_error_text(
                bit_index(bit),
                self@[pin as int].name,
                self@[pin as int].width,
            ),
    {
        let at: usize = match bit {
            Some(b) => b,
            None => 0,
        };
        if at >= self.pins[pin].width {
            return Err(bit_error(at, self.pins[pin].name.as_str(), self.pins[pin].width));
        }
        assert(node_ok(self@, pin as int));
        let word = self.bus_voltage(pin);
        if (word >> at) & 1 == 1 {
            Ok(HIGH)
        } else {
            Ok(LOW)
        }
    }

    /// Inverts one bit of node `pin`: a pull to the opposite of what the bit shows.
    pub fn toggle(&mut self, pin: PinId, bit: Option<usize>) -> (r: Result<(), SimulatorError>)
        requires
            old(self).wf(),
            pin < old(self)@.len(),
        ensures
            final(self).wf(),
            same_shape(old(self)@, final(self)@),
            r is Ok <==> (old(self)@[pin as int].kind == PinKind::Constant || bit_index(bit)
                < old(self)@[pin as int].width),
            r is Ok ==> final(self)@ == set_bit(
                old(self)@,
                pin,
                bit_index(bit),
                opposite(bit_of(get_word(old(self)@, pin), bit_index(bit))),
                old(self)@.len(),
            ),
            r is Err ==> final(self)@ == old(self)@ && r->Err_0 == SimulatorError::Hardware(
                r->Err_0->Hardware_0,
            ) && r->Err_0->Hardware_0@ == bit_error_text(
                bit_index(bit),
                old(self)@[pin as int].name,
                old(self)@[pin as int].width,
            ),
    {
        let is_constant = match self.pins[pin].kind {
            PinKind::Constant => true,
            _ => false,
        };
        if is_constant {
            return Ok(());
        }
        match self.voltage(pin, bit) {
            Ok(now) => {
                let next = if now == LOW {
                    HIGH
                } else {
                    LOW
                };
                self.pull(pin, next, bit)
            },
            Err(e) => Err(e),
        }
    }

    /// Lets node `pin` go, as its owner does who drops it: it leaves every
    /// listener list, and no node pushes to it any more. Its word and
    /// what listens to it stay.
    pub fn release(&mut self, pin: PinId)
        requires
            old(self).wf(),
        ensures
            final(self).wf(),
            final(self)@ == released(old(self)@, pin),
    {
        proof {
            lemma_released_keeps(self@, pin);
        }
        let n: usize = self.pins.len();
        let mut i: usize = 0;
        while i < n
            invariant
                n == self@.len(),
                n == old(self)@.len(),
                i <= n,
                forall|j: int| 0 <= j < i ==> #[trigger] self@[j] == released(old(self)@, pin)[j],
                forall|j: int| i <= j < n ==> #[trigger] self@[j] == old(self)@[j],
            decreases n - i,
        {
            let ghost ls = self@[i as int].listeners;
            let mut kept: Vec<PinId> = Vec::new();
            let m: usize = self.pins[i].connections.len();
            let mut k: usize = 0;
            while k < m
                invariant
                    i < n,
                    n == self@.len(),
                    ls == self@[i as int].listeners,
                    m == ls.len(),
                    k <= m,
                    kept@ == without(ls, pin, k as nat),
                decreases m - k,
            {
                let l = self.pins[i].connections[k];
                if l != pin {
                    kept.push(l);
                }
                k += 1;
            }
            let ghost before = self@;
            self.pins[i].connections = kept;
            assert(self@ =~= before.update(
                i as int,
                PinView { listeners: without(ls, pin, ls.len()), ..before[i as int] },
            ));
            i += 1;
        }
        assert(self@ =~= released(old(self)@, pin));
    }

    /// The node that keeps the listeners of `from`.
    fn owner(&self, from: PinId) -> (r: PinId)
        requires
            self.wf(),
            from < self@.len(),
        ensures
            r == listener_owner(self@, from),
            r < self@.len(),
        decreases from,
    {
        assert(node_ok(self@, from as int));
        match self.pins[from].kind {
            PinKind::InSubBus => self.owner(self.pins[from].parent),
            _ => from,
        }
    }

    /// Attaches `to` as a listener of `from`: `to` takes the current word at
    /// once and every later write. A writable slice hands the listener to
    /// its parent.
    pub fn connect(&mut self, from: PinId, to: PinId)
        requires
            old(self).wf(),
            from < old(self)@.len(),
            to < old(self)@.len(),
        ensures
            final(self)@ == attach(old(self)@, from, to, old(self)@.len()),
            final(self).wf(),
            final(self)@.len() == old(self)@.len(),
    {
        let o = self.owner(from);
        let word = self.bus_voltage(o);
        let fuel = self.pins.len();
        self.write_deep(to, word, fuel);
        let ghost mid = self@;
        self.listen(o, to);
        proof {
            lemma_attach_keeps(old(self)@, from, to, old(self)@.len());
        }
    }
}

/// The bit that an optional index names.
pub open spec fn bit_index(bit: Option<usize>) -> usize {
    match bit {
        Some(b) => b,
        None => 0,
    }
}

/// The other level.
pub open spec fn opposite(v: Voltage) -> Voltage {
    if v == LOW {
        HIGH
    } else {
        LOW
    }
}

} // verus!

use vstd::prelude::*;
use crate::chip::pin::{PinId, PinKind, PinView, Voltage, HIGH};

verus! {

/// The word whose low `bits` bits are ones; all sixteen from 16 bits on.
pub open spec fn spec_mask(bits: usize) -> u16 {
    if bits >= 16 {
        0xFFFFu16
    } else {
        ((1u16 << bits) - 1) as u16
    }
}

/// The slice `[start, start + width)` of `word`, moved down to bit 0.
pub open spec fn project(word: u16, start: usize, width: usize) -> u16 {
    (word >> start) & spec_mask(width)
}

/// `word` with its slice `[start, start + width)` replaced by the low bits of `v`.
pub open spec fn merge(word: u16, start: usize, width: usize, v: u16) -> u16 {
    (word & !(spec_mask(width) << start)) | ((v & spec_mask(width)) << start)
}

/// `word` with bit `bit` set to `b`.
pub open spec fn with_bit(word: u16, bit: usize, b: Voltage) -> u16 {
    if b == HIGH {
        word | (1u16 << bit)
    } else {
        word & !(1u16 << bit)
    }
}

/// Bit `bit` of `word`, as a voltage.
pub open spec fn bit_of(word: u16, bit: usize) -> Voltage {
    if (word >> bit) & 1 == 1 { 1u8 } else { 0u8 }
}

pub open spec fn node_ok(s: Seq<PinView>, i: int) -> bool {
    let p = s[i];
    &&& 1 <= p.width <= 16
    &&& p.word <= spec_mask(p.width)
    &&& forall|k: int| 0 <= k < p.listeners.len() ==> #[trigger] p.listeners[k] < s.len()
    &&& match p.kind {
        PinKind::Bus => true,
        PinKind::Constant => p.width == 1,
        _ => p.parent < i && p.start + p.width <= s[p.parent as int].width,
    }
}

/// Every node has a legal width, holds a word of that width, listens only to
/// nodes of the net, and a slice lies inside a parent that was made before it.
pub open spec fn net_wf(s: Seq<PinView>) -> bool {
    forall|i: int| 0 <= i < s.len() ==> #[trigger] node_ok(s, i)
}

/// Two nets that differ at most in the words their nodes hold.
pub open spec fn same_shape(a: Seq<PinView>, b: Seq<PinView>) -> bool {
    &&& a.len() == b.len()
    &&& forall|i: int| 0 <= i < a.len() ==> #[trigger] b[i] == (PinView { word: b[i].word, ..a[i] })
}

/// The word that node `i` shows.
pub open spec fn get_word(s: Seq<PinView>, i: PinId) -> u16
    decreases i,
{
    if i < s.len() {
        let p = s[i as int];
        match p.kind {
            PinKind::Bus => p.word,
            PinKind::Constant => p.word,
            _ => if p.parent < i {
                project(get_word(s, p.parent), p.start, p.width)
            } else {
                0
            },
        }
    } else {
        0
    }
}

/// The net after the word `v` is written to node `i` and pushed on, at most
/// `fuel` listener hops deep.
pub open spec fn set_word(s: Seq<PinView>, i: PinId, v: u16, fuel: nat) -> Seq<PinView>
    decreases fuel, 0nat, i,
{
    if i >= s.len() {
        s
    } else {
        let p = s[i as int];
        match p.kind {
            PinKind::Constant => s,
            PinKind::Bus => {
                let s1 = s.update(i as int, PinView { word: v & spec_mask(p.width), ..p });
                if fuel == 0 {
                    s1
                } else {
                    push_word(s1, p.listeners, 0, v, (fuel - 1) as nat)
                }
            },
            PinKind::InSubBus => if p.parent < i {
                set_word(s, p.parent, merge(get_word(s, p.parent), p.start, p.width, v), fuel)
            } else {
                s
            },
            PinKind::OutSubBus => {
                let cur = get_word(s, i);
                let s1 = if fuel == 0 {
                    s
                } else {
                    push_word(s, p.listeners, 0, cur, (fuel - 1) as nat)
                };
                if v != cur && p.parent < i {
                    set_word(s1, p.parent, merge(get_word(s1, p.parent), p.start, p.width, v), fuel)
                } else {
                    s1
                }
            },
        }
    }
}

/// The net after `v` is written to the listeners `ls[k..]`, in order.
pub open spec fn push_word(
    s: Seq<PinView>,
    ls: Seq<PinId>,
    k: nat,
    v: u16,
    fuel: nat,
) -> Seq<PinView>
    decreases fuel, 1nat, ls.len() - k,
{
    if k >= ls.len() {
        s
    } else {
        push_word(set_word(s, ls[k as int], v, fuel), ls, k + 1, v, fuel)
    }
}

/// The net after bit `bit` of node `i` is pulled to `b` and the pull is pushed
/// on, at most `fuel` listener hops deep. A bit outside a node leaves it alone.
pub open spec fn set_bit(
    s: Seq<PinView>,
    i: PinId,
    bit: usize,
    b: Voltage,
    fuel: nat,
) -> Seq<PinView>
    decreases fuel, 0nat, i,
{
    if i >= s.len() {
        s
    } else {
        let p = s[i as int];
        if bit >= p.width {
            s
        } else {
            match p.kind {
                PinKind::Constant => s,
                PinKind::Bus => {
                    let s1 = s.update(i as int, PinView { word: with_bit(p.word, bit, b), ..p });
                    if fuel == 0 {
                        s1
                    } else {
                        push_bit(s1, p.listeners, 0, bit, b, (fuel - 1) as nat)
                    }
                },
                _ => if p.parent < i && p.start + bit <= usize::MAX {
                    set_bit(s, p.parent, (p.start + bit) as usize, b, fuel)
                } else {
                    s
                },
            }
        }
    }
}

/// The net after bit `bit` of each listener in `ls[k..]` is pulled to `b`, in order.
pub open spec fn push_bit(
    s: Seq<PinView>,
    ls: Seq<PinId>,
    k: nat,
    bit: usize,
    b: Voltage,
    fuel: nat,
) -> Seq<PinView>
    decreases fuel, 1nat, ls.len() - k,
{
    if k >= ls.len() {
        s
    } else {
        push_bit(set_bit(s, ls[k as int], bit, b, fuel), ls, k + 1, bit, b, fuel)
    }
}

/// The node whose listener list a listener attached to `from` joins.
pub open spec fn listener_owner(s: Seq<PinView>, from: PinId) -> PinId
    decreases from,
{
    if from < s.len() && s[from as int].kind == PinKind::InSubBus && s[from as int].parent < from {
        listener_owner(s, s[from as int].parent)
    } else {
        from
    }
}

/// The net after `to` is attached to `from`: `to` takes the word that the
/// owner of the listener list shows, then joins that list.
pub open spec fn attach(s: Seq<PinView>, from: PinId, to: PinId, fuel: nat) -> Seq<PinView> {
    let o = listener_owner(s, from);
    if o < s.len() {
        let s1 = set_word(s, to, get_word(s, o), fuel);
        s1.update(o as int, PinView { listeners: s1[o as int].listeners.push(to), ..s1[o as int] })
    } else {
        s
    }
}

/// The first `k` listeners of a list, without the node `pin`.
pub open spec fn without(ls: Seq<PinId>, pin: PinId, k: nat) -> Seq<PinId>
    decreases k,
{
    if k == 0 {
        Seq::empty()
    } else if ls[k - 1] == pin {
        without(ls, pin, (k - 1) as nat)
    } else {
        without(ls, pin, (k - 1) as nat).push(ls[k - 1])
    }
}

/// The net after node `pin` was let go: it has left every listener list.
pub open spec fn released(s: Seq<PinView>, pin: PinId) -> Seq<PinView> {
    Seq::new(
        s.len(),
        |i: int|
            PinView { listeners: without(s[i].listeners, pin, s[i].listeners.len()), ..s[i] },
    )
}

/// What is left of a list of listeners holds nodes of the list, and not the node let go.
pub proof fn lemma_without_holds(ls: Seq<PinId>, pin: PinId, k: nat, n: nat)
    requires
        k <= ls.len(),
        forall|j: int| 0 <= j < ls.len() ==> #[trigger] ls[j] < n,
    ensures
        forall|j: int|
            0 <= j < without(ls, pin, k).len() ==> (#[trigger] without(ls, pin, k)[j]) < n
                && without(ls, pin, k)[j] != pin,
    decreases k,
{
    if k > 0 {
        lemma_without_holds(ls, pin, (k - 1) as nat, n);
        let rest = without(ls, pin, (k - 1) as nat);
        let all = without(ls, pin, k);
        assert forall|j: int| 0 <= j < all.len() implies (#[trigger] all[j]) < n && all[j]
            != pin by {
            if j < rest.len() {
                assert(all[j] == rest[j]);
            } else {
                assert(all[j] == ls[k - 1]);
            }
        }
    }
}

/// Letting a node go keeps the net well-formed.
pub proof fn lemma_released_keeps(s: Seq<PinView>, pin: PinId)
    requires
        net_wf(s),
    ensures
        net_wf(released(s, pin)),
        released(s, pin).len() == s.len(),
{
    let t = released(s, pin);
    assert forall|i: int| 0 <= i < t.len() implies #[trigger] node_ok(t, i) by {
        assert(node_ok(s, i));
        lemma_without_holds(s[i].listeners, pin, s[i].listeners.len(), s.len());
        let p = s[i];
        if p.kind == PinKind::InSubBus || p.kind == PinKind::OutSubBus {
            assert(t[p.parent as int].width == s[p.parent as int].width);
        }
    }
}

pub proof fn lemma_mask_bounds(v: u16, width: usize)
    ensures
        v & spec_mask(width) <= spec_mask(width),
        width >= 16 ==> v <= spec_mask(width),
{
    let m = spec_mask(width);
    assert(v & m <= m) by (bit_vector);
}

pub proof fn lemma_with_bit_bounds(word: u16, bit: usize, b: Voltage, width: usize)
    requires
        word <= spec_mask(width),
        bit < width <= 16,
    ensures
        with_bit(word, bit, b) <= spec_mask(width),
{
    if width < 16 {
        let k = bit as u16;
        let w = width as u16;
        assert(1u16 << bit == 1u16 << k);
        assert(1u16 << width == 1u16 << w);
        assert((word | (1u16 << k)) <= ((1u16 << w) - 1) as u16 && (word & !(1u16 << k)) <= ((1u16
            << w) - 1) as u16) by (bit_vector)
            requires
                word <= ((1u16 << w) - 1) as u16,
                k < w,
                w < 16,
        ;
    }
}

/// A net keeps its well-formedness when only words change, and stay in width.
pub proof fn lemma_shape_wf(a: Seq<PinView>, b: Seq<PinView>)
    requires
        net_wf(a),
        same_shape(a, b),
        forall|i: int| 0 <= i < b.len() ==> (#[trigger] b[i]).word <= spec_mask(b[i].width),
    ensures
        net_wf(b),
{
    assert forall|i: int| 0 <= i < b.len() implies #[trigger] node_ok(b, i) by {
        assert(node_ok(a, i));
        assert(b[i] == (PinView { word: b[i].word, ..a[i] }));
        let p = a[i];
        if p.kind == PinKind::InSubBus || p.kind == PinKind::OutSubBus {
            assert(b[p.parent as int] == (PinView {
                word: b[p.parent as int].word,
                ..a[p.parent as int]
            }));
        }
    }
}

pub proof fn lemma_same_shape_trans(a: Seq<PinView>, b: Seq<PinView>, c: Seq<PinView>)
    requires
        same_shape(a, b),
        same_shape(b, c),
    ensures
        same_shape(a, c),
{
    assert forall|i: int| 0 <= i < a.len() implies #[trigger] c[i] == (PinView {
        word: c[i].word,
        ..a[i]
    }) by {
        assert(b[i] == (PinView { word: b[i].word, ..a[i] }));
        assert(c[i] == (PinView { word: c[i].word, ..b[i] }));
    }
}

/// Storing a word of the node's width changes neither shape nor well-formedness.
pub proof fn lemma_store_keeps(s: Seq<PinView>, i: PinId, w: u16)
    requires
        net_wf(s),
        i < s.len(),
        w <= spec_mask(s[i as int].width),
    ensures
        same_shape(s, s.update(i as int, PinView { word: w, ..s[i as int] })),
        net_wf(s.update(i as int, PinView { word: w, ..s[i as int] })),
{
    let t = s.update(i as int, PinView { word: w, ..s[i as int] });
    assert(same_shape(s, t));
    assert forall|j: int| 0 <= j < t.len() implies (#[trigger] t[j]).word <= spec_mask(
        t[j].width,
    ) by {
        assert(node_ok(s, j));
    }
    lemma_shape_wf(s, t);
}

/// A write changes words only: shape and well-formedness stay.
pub proof fn lemma_set_word_keeps(s: Seq<PinView>, i: PinId, v: u16, fuel: nat)
    requires
        net_wf(s),
    ensures
        same_shape(s, set_word(s, i, v, fuel)),
        net_wf(set_word(s, i, v, fuel)),
    decreases fuel, 0nat, i,
{
    if i < s.len() {
        let p = s[i as int];
        assert(node_ok(s, i as int));
        match p.kind {
            PinKind::Constant => {},
            PinKind::Bus => {
                let w = v & spec_mask(p.width);
                lemma_mask_bounds(v, p.width);
                let s1 = s.update(i as int, PinView { word: w, ..p });
                lemma_store_keeps(s, i, w);
                if fuel > 0 {
                    lemma_push_word_keeps(s1, p.listeners, 0, v, (fuel - 1) as nat);
                    lemma_same_shape_trans(s, s1, set_word(s, i, v, fuel));
                }
            },
            PinKind::InSubBus => {
                lemma_set_word_keeps(
                    s,
                    p.parent,
                    merge(get_word(s, p.parent), p.start, p.width, v),
                    fuel,
                );
            },
            PinKind::OutSubBus => {
                let cur = get_word(s, i);
                let s1 = if fuel == 0 {
                    s
                } else {
                    push_word(s, p.listeners, 0, cur, (fuel - 1) as nat)
                };
                if fuel > 0 {
                    lemma_push_word_keeps(s, p.listeners, 0, cur, (fuel - 1) as nat);
                }
                if v != cur {
                    lemma_set_word_keeps(
                        s1,
                        p.parent,
                        merge(get_word(s1, p.parent), p.start, p.width, v),
                        fuel,
                    );
                    lemma_same_shape_trans(s, s1, set_word(s, i, v, fuel));
                }
            },
        }
    }
}

pub proof fn lemma_push_word_keeps(s: Seq<PinView>, ls: Seq<PinId>, k: nat, v: u16, fuel: nat)
    requires
        net_wf(s),
    ensures
        same_shape(s, push_word(s, ls, k, v, fuel)),
        net_wf(push_word(s, ls, k, v, fuel)),
    decreases fuel, 1nat, ls.len() - k,
{
    if k < ls.len() {
        let s1 = set_word(s, ls[k as int], v, fuel);
        lemma_set_word_keeps(s, ls[k as int], v, fuel);
        lemma_push_word_keeps(s1, ls, k + 1, v, fuel);
        lemma_same_shape_trans(s, s1, push_word(s, ls, k, v, fuel));
    }
}

/// A pull changes words only: shape and well-formedness stay.
pub proof fn lemma_set_bit_keeps(s: Seq<PinView>, i: PinId, bit: usize, b: Voltage, fuel: nat)
    requires
        net_wf(s),
    ensures
        same_shape(s, set_bit(s, i, bit, b, fuel)),
        net_wf(set_bit(s, i, bit, b, fuel)),
    decreases fuel, 0nat, i,
{
    if i < s.len() {
        let p = s[i as int];
        assert(node_ok(s, i as int));
        if bit < p.width {
            match p.kind {
                PinKind::Constant => {},
                PinKind::Bus => {
                    let w = with_bit(p.word, bit, b);
                    lemma_with_bit_bounds(p.word, bit, b, p.width);
                    let s1 = s.update(i as int, PinView { word: w, ..p });
                    lemma_store_keeps(s, i, w);
                    if fuel > 0 {
                        lemma_push_bit_keeps(s1, p.listeners, 0, bit, b, (fuel - 1) as nat);
                        lemma_same_shape_trans(s, s1, set_bit(s, i, bit, b, fuel));
                    }
                },
                _ => {
                    lemma_set_bit_keeps(s, p.parent, (p.start + bit) as usize, b, fuel);
                },
            }
        }
    }
}

pub proof fn lemma_push_bit_keeps(
    s: Seq<PinView>,
    ls: Seq<PinId>,
    k: nat,
    bit: usize,
    b: Voltage,
    fuel: nat,
)
    requires
        net_wf(s),
    ensures
        same_shape(s, push_bit(s, ls, k, bit, b, fuel)),
        net_wf(push_bit(s, ls, k, bit, b, fuel)),
    decreases fuel, 1nat, ls.len() - k,
{
    if k < ls.len() {
        let s1 = set_bit(s, ls[k as int], bit, b, fuel);
        lemma_set_bit_keeps(s, ls[k as int], bit, b, fuel);
        lemma_push_bit_keeps(s1, ls, k + 1, bit, b, fuel);
        lemma_same_shape_trans(s, s1, push_bit(s, ls, k, bit, b, fuel));
    }
}

/// Attaching a node of the net keeps the net well-formed and its size.
pub proof fn lemma_attach_keeps(s: Seq<PinView>, from: PinId, to: PinId, fuel: nat)
    requires
        net_wf(s),
        to < s.len(),
    ensures
        net_wf(attach(s, from, to, fuel)),
        attach(s, from, to, fuel).len() == s.len(),
{
    let o = listener_owner(s, from);
    if o < s.len() {
        let s1 = set_word(s, to, get_word(s, o), fuel);
        lemma_set_word_keeps(s, to, get_word(s, o), fuel);
        let grown = PinView { listeners: s1[o as int].listeners.push(to), ..s1[o as int] };
        let s2 = s1.update(o as int, grown);
        assert forall|i: int| 0 <= i < s2.len() implies #[trigger] node_ok(s2, i) by {
            assert(node_ok(s1, i));
            if i == o {
                assert forall|k: int| 0 <= k < grown.listeners.len() implies 
                    #[trigger] grown.listeners[k] < s2.len() by {
                    if k < s1[o as int].listeners.len() {
                        assert(grown.listeners[k] == s1[o as int].listeners[k]);
                    }
                }
            }
        }
    }
}

} // verus!

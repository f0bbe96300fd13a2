use vstd::prelude::*;
use crate::chip::pin::{PinId, PinKind, PinView, Voltage, HIGH, LOW};
use crate::chip::signal::{
    attach, bit_of, get_word, lemma_push_word_keeps, lemma_set_bit_keeps, lemma_set_word_keeps,
    listener_owner, merge, net_wf, node_ok, project, push_bit, push_word, released, same_shape,
    set_bit,
    set_word, spec_mask, with_bit,
};

verus! {

/// Whether a write or a pull at node `i` can store into the bus `t`, going
/// at most `fuel` listener hops deep.
pub open spec fn reaches(s: Seq<PinView>, i: PinId, t: PinId, fuel: nat) -> bool
    decreases fuel, 0nat, i,
{
    if i >= s.len() {
        false
    } else {
        let p = s[i as int];
        match p.kind {
            PinKind::Constant => false,
            PinKind::Bus => i == t || (fuel > 0 && any_reaches(
                s,
                p.listeners,
                0,
                t,
                (fuel - 1) as nat,
            )),
            PinKind::InSubBus => p.parent < i && reaches(s, p.parent, t, fuel),
            PinKind::OutSubBus => (fuel > 0 && any_reaches(
                s,
                p.listeners,
                0,
                t,
                (fuel - 1) as nat,
            )) || (p.parent < i && reaches(s, p.parent, t, fuel)),
        }
    }
}

/// Whether a write or a pull at one of the listeners `ls[k..]` can store into `t`.
pub open spec fn any_reaches(s: Seq<PinView>, ls: Seq<PinId>, k: nat, t: PinId, fuel: nat) -> bool
    decreases fuel, 1nat, ls.len() - k,
{
    k < ls.len() && (reaches(s, ls[k as int], t, fuel) || any_reaches(s, ls, k + 1, t, fuel))
}

/// What a write can reach depends on the shape of the net only.
pub proof fn lemma_reaches_shape(a: Seq<PinView>, b: Seq<PinView>, i: PinId, t: PinId, fuel: nat)
    requires
        same_shape(a, b),
    ensures
        reaches(a, i, t, fuel) == reaches(b, i, t, fuel),
    decreases fuel, 0nat, i,
{
    if i < a.len() {
        let p = a[i as int];
        assert(b[i as int] == (PinView { word: b[i as int].word, ..p }));
        match p.kind {
            PinKind::Constant => {},
            PinKind::Bus => {
                if fuel > 0 {
                    lemma_any_reaches_shape(a, b, p.listeners, 0, t, (fuel - 1) as nat);
                }
            },
            PinKind::InSubBus => {
                if p.parent < i {
                    lemma_reaches_shape(a, b, p.parent, t, fuel);
                }
            },
            PinKind::OutSubBus => {
                if fuel > 0 {
                    lemma_any_reaches_shape(a, b, p.listeners, 0, t, (fuel - 1) as nat);
                }
                if p.parent < i {
                    lemma_reaches_shape(a, b, p.parent, t, fuel);
                }
            },
        }
    }
}

pub proof fn lemma_any_reaches_shape(
    a: Seq<PinView>,
    b: Seq<PinView>,
    ls: Seq<PinId>,
    k: nat,
    t: PinId,
    fuel: nat,
)
    requires
        same_shape(a, b),
    ensures
        any_reaches(a, ls, k, t, fuel) == any_reaches(b, ls, k, t, fuel),
    decreases fuel, 1nat, ls.len() - k,
{
    if k < ls.len() {
        lemma_reaches_shape(a, b, ls[k as int], t, fuel);
        lemma_any_reaches_shape(a, b, ls, k + 1, t, fuel);
    }
}

/// A write leaves alone every node that it cannot reach.
pub proof fn lemma_set_word_frame(s: Seq<PinView>, i: PinId, v: u16, fuel: nat, t: PinId)
    requires
        net_wf(s),
        t < s.len(),
        !reaches(s, i, t, fuel),
    ensures
        set_word(s, i, v, fuel)[t as int] == s[t as int],
    decreases fuel, 0nat, i,
{
    if i < s.len() {
        let p = s[i as int];
        assert(node_ok(s, i as int));
        match p.kind {
            PinKind::Constant => {},
            PinKind::Bus => {
                let s1 = s.update(i as int, PinView { word: v & spec_mask(p.width), ..p });
                if fuel > 0 {
                    crate::chip::signal::lemma_mask_bounds(v, p.width);
                    crate::chip::signal::lemma_store_keeps(s, i, v & spec_mask(p.width));
                    lemma_any_reaches_shape(s, s1, p.listeners, 0, t, (fuel - 1) as nat);
                    lemma_push_word_frame(s1, p.listeners, 0, v, (fuel - 1) as nat, t);
                }
            },
            PinKind::InSubBus => {
                lemma_set_word_frame(
                    s,
                    p.parent,
                    merge(get_word(s, p.parent), p.start, p.width, v),
                    fuel,
                    t,
                );
            },
            PinKind::OutSubBus => {
                let cur = get_word(s, i);
                let s1 = if fuel == 0 {
                    s
                } else {
                    push_word(s, p.listeners, 0, cur, (fuel - 1) as nat)
                };
                if fuel > 0 {
                    lemma_push_word_frame(s, p.listeners, 0, cur, (fuel - 1) as nat, t);
                    lemma_push_word_keeps(s, p.listeners, 0, cur, (fuel - 1) as nat);
                }
                if v != cur {
                    lemma_reaches_shape(s, s1, p.parent, t, fuel);
                    lemma_set_word_frame(
                        s1,
                        p.parent,
                        merge(get_word(s1, p.parent), p.start, p.width, v),
                        fuel,
                        t,
                    );
                }
            },
        }
    }
}

pub proof fn lemma_push_word_frame(
    s: Seq<PinView>,
    ls: Seq<PinId>,
    k: nat,
    v: u16,
    fuel: nat,
    t: PinId,
)
    requires
        net_wf(s),
        t < s.len(),
        !any_reaches(s, ls, k, t, fuel),
    ensures
        push_word(s, ls, k, v, fuel)[t as int] == s[t as int],
    decreases fuel, 1nat, ls.len() - k,
{
    if k < ls.len() {
        let s1 = set_word(s, ls[k as int], v, fuel);
        lemma_set_word_frame(s, ls[k as int], v, fuel, t);
        lemma_set_word_keeps(s, ls[k as int], v, fuel);
        lemma_any_reaches_shape(s, s1, ls, k + 1, t, fuel);
        lemma_push_word_frame(s1, ls, k + 1, v, fuel, t);
    }
}

/// A pull leaves alone every node that it cannot reach.
pub proof fn lemma_set_bit_frame(
    s: Seq<PinView>,
    i: PinId,
    bit: usize,
    b: Voltage,
    fuel: nat,
    t: PinId,
)
    requires
        net_wf(s),
        t < s.len(),
        !reaches(s, i, t, fuel),
    ensures
        set_bit(s, i, bit, b, fuel)[t as int] == s[t as int],
    decreases fuel, 0nat, i,
{
    if i < s.len() {
        let p = s[i as int];
        assert(node_ok(s, i as int));
        if bit < p.width {
            match p.kind {
                PinKind::Constant => {},
                PinKind::Bus => {
                    let w = with_bit(p.word, bit, b);
                    let s1 = s.update(i as int, PinView { word: w, ..p });
                    if fuel > 0 {
                        crate::chip::signal::lemma_with_bit_bounds(p.word, bit, b, p.width);
                        crate::chip::signal::lemma_store_keeps(s, i, w);
                        lemma_any_reaches_shape(s, s1, p.listeners, 0, t, (fuel - 1) as nat);
                        lemma_push_bit_frame(s1, p.listeners, 0, bit, b, (fuel - 1) as nat, t);
                    }
                },
                _ => {
                    lemma_set_bit_frame(s, p.parent, (p.start + bit) as usize, b, fuel, t);
                },
            }
        }
    }
}

pub proof fn lemma_push_bit_frame(
    s: Seq<PinView>,
    ls: Seq<PinId>,
    k: nat,
    bit: usize,
    b: Voltage,
    fuel: nat,
    t: PinId,
)
    requires
        net_wf(s),
        t < s.len(),
        !any_reaches(s, ls, k, t, fuel),
    ensures
        push_bit(s, ls, k, bit, b, fuel)[t as int] == s[t as int],
    decreases fuel, 1nat, ls.len() - k,
{
    if k < ls.len() {
        let s1 = set_bit(s, ls[k as int], bit, b, fuel);
        lemma_set_bit_frame(s, ls[k as int], bit, b, fuel, t);
        lemma_set_bit_keeps(s, ls[k as int], bit, b, fuel);
        lemma_any_reaches_shape(s, s1, ls, k + 1, t, fuel);
        lemma_push_bit_frame(s1, ls, k + 1, bit, b, fuel, t);
    }
}

/// A node behind which stands a bus: a bus, or a slice, of either kind, of
/// such a node. A constant and its slices are not.
pub open spec fn backed(s: Seq<PinView>, i: PinId) -> bool
    decreases i,
{
    i < s.len() && match s[i as int].kind {
        PinKind::Bus => true,
        PinKind::Constant => false,
        _ => s[i as int].parent < i && backed(s, s[i as int].parent),
    }
}

/// The node at the end of the parents of node `i`: the bus behind a backed node.
pub open spec fn root(s: Seq<PinView>, i: PinId) -> PinId
    decreases i,
{
    if i < s.len() && (s[i as int].kind == PinKind::InSubBus || s[i as int].kind
        == PinKind::OutSubBus) && s[i as int].parent < i {
        root(s, s[i as int].parent)
    } else {
        i
    }
}

/// What the readable slices among node `i` and its parents push on, at
/// most `fuel` hops deep, does not reach the bus `r`.
pub open spec fn quiet_slices(s: Seq<PinView>, i: PinId, r: PinId, fuel: nat) -> bool
    decreases i,
{
    if i < s.len() && (s[i as int].kind == PinKind::InSubBus || s[i as int].kind
        == PinKind::OutSubBus) && s[i as int].parent < i {
        &&& (s[i as int].kind == PinKind::OutSubBus && fuel > 0 ==> !any_reaches(
            s,
            s[i as int].listeners,
            0,
            r,
            (fuel - 1) as nat,
        ))
        &&& quiet_slices(s, s[i as int].parent, r, fuel)
    } else {
        true
    }
}

/// No feedback: what the bus behind the backed node `i` pushes on, at most
/// `fuel` hops deep, does not come back to that bus, and neither does
/// what the readable slices on the way to it push on.
pub open spec fn settled(s: Seq<PinView>, i: PinId, fuel: nat) -> bool {
    let r = root(s, i);
    &&& (fuel > 0 ==> !any_reaches(s, s[r as int].listeners, 0, r, (fuel - 1) as nat))
    &&& quiet_slices(s, i, r, fuel)
}

pub proof fn lemma_backed_shape(a: Seq<PinView>, b: Seq<PinView>, i: PinId)
    requires
        same_shape(a, b),
    ensures
        backed(a, i) == backed(b, i),
        root(a, i) == root(b, i),
    decreases i,
{
    if i < a.len() {
        assert(b[i as int] == (PinView { word: b[i as int].word, ..a[i as int] }));
        if (a[i as int].kind == PinKind::InSubBus || a[i as int].kind == PinKind::OutSubBus)
            && a[i as int].parent < i {
            lemma_backed_shape(a, b, a[i as int].parent);
        }
    }
}

pub proof fn lemma_quiet_slices_shape(
    a: Seq<PinView>,
    b: Seq<PinView>,
    i: PinId,
    r: PinId,
    fuel: nat,
)
    requires
        same_shape(a, b),
    ensures
        quiet_slices(a, i, r, fuel) == quiet_slices(b, i, r, fuel),
    decreases i,
{
    if i < a.len() {
        assert(b[i as int] == (PinView { word: b[i as int].word, ..a[i as int] }));
        if (a[i as int].kind == PinKind::InSubBus || a[i as int].kind == PinKind::OutSubBus)
            && a[i as int].parent < i {
            if fuel > 0 {
                lemma_any_reaches_shape(a, b, a[i as int].listeners, 0, r, (fuel - 1) as nat);
            }
            lemma_quiet_slices_shape(a, b, a[i as int].parent, r, fuel);
        }
    }
}

pub proof fn lemma_settled_shape(a: Seq<PinView>, b: Seq<PinView>, i: PinId, fuel: nat)
    requires
        same_shape(a, b),
        backed(a, i),
    ensures
        settled(a, i, fuel) == settled(b, i, fuel),
{
    lemma_backed_shape(a, b, i);
    lemma_root_within(a, i);
    let r = root(a, i);
    assert(b[r as int] == (PinView { word: b[r as int].word, ..a[r as int] }));
    if fuel > 0 {
        lemma_any_reaches_shape(a, b, a[r as int].listeners, 0, r, (fuel - 1) as nat);
    }
    lemma_quiet_slices_shape(a, b, i, r, fuel);
}

/// The root of a backed node is a bus of the net.
pub proof fn lemma_root_within(s: Seq<PinView>, i: PinId)
    requires
        backed(s, i),
    ensures
        root(s, i) < s.len(),
        s[root(s, i) as int].kind == PinKind::Bus,
    decreases i,
{
    if s[i as int].kind != PinKind::Bus {
        lemma_root_within(s, s[i as int].parent);
    }
}

/// What a node shows depends on its shape and on the word at its root only.
pub proof fn lemma_reading_stays(a: Seq<PinView>, b: Seq<PinView>, i: PinId)
    requires
        same_shape(a, b),
        i < a.len(),
        b[root(a, i) as int] == a[root(a, i) as int],
    ensures
        get_word(a, i) == get_word(b, i),
    decreases i,
{
    let p = a[i as int];
    assert(b[i as int] == (PinView { word: b[i as int].word, ..p }));
    if (p.kind == PinKind::InSubBus || p.kind == PinKind::OutSubBus) && p.parent < i {
        lemma_reading_stays(a, b, p.parent);
    }
}

proof fn lemma_shift_usize(bits: usize)
    requires
        bits < 16,
    ensures
        1u16 << bits == 1u16 << (bits as u16),
        spec_mask(bits) == ((1u16 << (bits as u16)) - 1) as u16,
{
}

/// A word that fits a width is itself under the mask of that width.
pub proof fn lemma_mask_keeps(v: u16, width: usize)
    requires
        v <= spec_mask(width),
    ensures
        v & spec_mask(width) == v,
{
    if width < 16 {
        lemma_shift_usize(width);
        let w = width as u16;
        assert(v & (((1u16 << w) - 1) as u16) == v) by (bit_vector)
            requires
                v <= ((1u16 << w) - 1) as u16,
                w < 16,
        ;
    } else {
        assert(v & 0xFFFFu16 == v) by (bit_vector);
    }
}

/// The slice of a word into which `v` was merged is `v`, cut to the slice.
pub proof fn lemma_project_merge(word: u16, start: usize, width: usize, v: u16, outer: usize)
    requires
        1 <= width,
        start + width <= outer <= 16,
    ensures
        project(merge(word, start, width, v) & spec_mask(outer), start, width) == v & spec_mask(
            width,
        ),
{
    let st = start as u16;
    let m = spec_mask(width);
    let mo = spec_mask(outer);
    assert(word >> start == word >> st);
    assert(m << start == m << st);
    assert((v & m) << start == (v & m) << st);
    let merged = (word & !(m << st)) | ((v & m) << st);
    assert((merged & mo) >> start == (merged & mo) >> st);
    if width >= 16 {
        assert(((((word & !(m << st)) | ((v & m) << st)) & mo) >> st) & m == v & m) by (bit_vector)
            requires
                m == 0xFFFFu16,
                mo == 0xFFFFu16,
                st == 0,
        ;
    } else if outer >= 16 {
        lemma_shift_usize(width);
        let w = width as u16;
        assert(((((word & !(m << st)) | ((v & m) << st)) & mo) >> st) & m == v & m) by (bit_vector)
            requires
                m == ((1u16 << w) - 1) as u16,
                mo == 0xFFFFu16,
                st + w <= 16,
                w >= 1,
        ;
    } else {
        lemma_shift_usize(width);
        lemma_shift_usize(outer);
        let w = width as u16;
        let o = outer as u16;
        assert(((((word & !(m << st)) | ((v & m) << st)) & mo) >> st) & m == v & m) by (bit_vector)
            requires
                m == ((1u16 << w) - 1) as u16,
                mo == ((1u16 << o) - 1) as u16,
                st + w <= o,
                o < 16,
                w >= 1,
        ;
    }
}

/// Outside the slice, a word into which `v` was merged has the bits it had.
pub proof fn lemma_merge_keeps_rest(
    word: u16,
    start: usize,
    width: usize,
    v: u16,
    outer: usize,
    k: usize,
)
    requires
        1 <= width,
        start + width <= outer <= 16,
        word <= spec_mask(outer),
        k < 16,
        k < start || k >= start + width,
    ensures
        bit_of(merge(word, start, width, v) & spec_mask(outer), k) == bit_of(word, k),
{
    let st = start as u16;
    let kk = k as u16;
    let m = spec_mask(width);
    let mo = spec_mask(outer);
    assert(m << start == m << st);
    assert((v & m) << start == (v & m) << st);
    let merged = (word & !(m << st)) | ((v & m) << st);
    assert((merged & mo) >> k == (merged & mo) >> kk);
    assert(word >> k == word >> kk);
    if width >= 16 {
    } else if outer >= 16 {
        lemma_shift_usize(width);
        let w = width as u16;
        assert(((((word & !(m << st)) | ((v & m) << st)) & mo) >> kk) & 1 == (word >> kk) & 1) by (bit_vector)
            requires
                m == ((1u16 << w) - 1) as u16,
                mo == 0xFFFFu16,
                st + w <= 16,
                w >= 1,
                kk < 16,
                kk < st || kk >= st + w,
        ;
    } else {
        lemma_shift_usize(width);
        lemma_shift_usize(outer);
        let w = width as u16;
        let o = outer as u16;
        assert(((((word & !(m << st)) | ((v & m) << st)) & mo) >> kk) & 1 == (word >> kk) & 1) by (bit_vector)
            requires
                m == ((1u16 << w) - 1) as u16,
                mo == ((1u16 << o) - 1) as u16,
                word <= mo,
                st + w <= o,
                o < 16,
                w >= 1,
                kk < 16,
                kk < st || kk >= st + w,
        ;
    }
}

/// Bit `bit` of a slice is bit `start + bit` of the word that it is a slice of.
pub proof fn lemma_project_bit(word: u16, start: usize, width: usize, bit: usize)
    requires
        bit < width,
        start + width <= 16,
    ensures
        bit_of(project(word, start, width), bit) == bit_of(word, (start + bit) as usize),
{
    let st = start as u16;
    let k = bit as u16;
    let m = spec_mask(width);
    assert(word >> start == word >> st);
    assert(((word >> st) & m) >> bit == ((word >> st) & m) >> k);
    assert(word >> ((start + bit) as usize) == word >> ((st + k) as u16));
    if width >= 16 {
        assert((((word >> st) & m) >> k) & 1 == (word >> ((st + k) as u16)) & 1) by (bit_vector)
            requires
                m == 0xFFFFu16,
                st == 0,
                k < 16,
        ;
    } else {
        lemma_shift_usize(width);
        let w = width as u16;
        assert((((word >> st) & m) >> k) & 1 == (word >> ((st + k) as u16)) & 1) by (bit_vector)
            requires
                m == ((1u16 << w) - 1) as u16,
                k < w,
                st + w <= 16,
        ;
    }
}

/// The bit that was set shows what it was set to.
pub proof fn lemma_with_bit_shows(word: u16, bit: usize, b: Voltage)
    requires
        bit < 16,
        b == LOW || b == HIGH,
    ensures
        bit_of(with_bit(word, bit, b), bit) == b,
{
    let k = bit as u16;
    assert(1u16 << bit == 1u16 << k);
    assert((word | (1u16 << k)) >> bit == (word | (1u16 << k)) >> k);
    assert((word & !(1u16 << k)) >> bit == (word & !(1u16 << k)) >> k);
    assert(((word | (1u16 << k)) >> k) & 1 == 1 && ((word & !(1u16 << k)) >> k) & 1 == 0) by (bit_vector)
        requires
            k < 16,
    ;
}

/// What is written through a backed node without feedback is what the
/// node shows afterwards, cut to its width.
pub proof fn lemma_write_reads_back(s: Seq<PinView>, i: PinId, v: u16, fuel: nat)
    requires
        net_wf(s),
        backed(s, i),
        settled(s, i, fuel),
    ensures
        get_word(set_word(s, i, v, fuel), i) == v & spec_mask(s[i as int].width),
    decreases i,
{
    let p = s[i as int];
    assert(node_ok(s, i as int));
    let after = set_word(s, i, v, fuel);
    lemma_set_word_keeps(s, i, v, fuel);
    assert(after[i as int] == (PinView { word: after[i as int].word, ..p }));
    match p.kind {
        PinKind::Bus => {
            let w = v & spec_mask(p.width);
            let s1 = s.update(i as int, PinView { word: w, ..p });
            if fuel > 0 {
                crate::chip::signal::lemma_mask_bounds(v, p.width);
                crate::chip::signal::lemma_store_keeps(s, i, w);
                lemma_any_reaches_shape(s, s1, p.listeners, 0, i, (fuel - 1) as nat);
                lemma_push_word_frame(s1, p.listeners, 0, v, (fuel - 1) as nat, i);
            }
        },
        PinKind::InSubBus => {
            let up = p.parent;
            assert(node_ok(s, up as int));
            let m = merge(get_word(s, up), p.start, p.width, v);
            lemma_write_reads_back(s, up, m, fuel);
            assert(after[up as int] == (PinView { word: after[up as int].word, ..s[up as int] }));
            lemma_project_merge(get_word(s, up), p.start, p.width, v, s[up as int].width);
        },
        _ => {
            let up = p.parent;
            let r = root(s, i);
            assert(node_ok(s, up as int));
            lemma_root_within(s, i);
            let cur = get_word(s, i);
            let s1 = if fuel == 0 {
                s
            } else {
                push_word(s, p.listeners, 0, cur, (fuel - 1) as nat)
            };
            if fuel > 0 {
                lemma_push_word_keeps(s, p.listeners, 0, cur, (fuel - 1) as nat);
                lemma_push_word_frame(s, p.listeners, 0, cur, (fuel - 1) as nat, r);
            }
            if v != cur {
                let m = merge(get_word(s1, up), p.start, p.width, v);
                lemma_backed_shape(s, s1, up);
                lemma_settled_shape(s, s1, up, fuel);
                lemma_write_reads_back(s1, up, m, fuel);
                assert(s1[up as int] == (PinView { word: s1[up as int].word, ..s[up as int] }));
                assert(after[up as int] == (PinView {
                    word: after[up as int].word,
                    ..s[up as int]
                }));
                lemma_project_merge(get_word(s1, up), p.start, p.width, v, s[up as int].width);
            } else {
                lemma_reading_stays(s, s1, i);
                lemma_word_fits(s, i);
                lemma_mask_keeps(cur, p.width);
            }
        },
    }
}

/// The bit that is pulled through a backed node without feedback is what
/// the node shows for that bit afterwards.
pub proof fn lemma_pull_reads_back(s: Seq<PinView>, i: PinId, bit: usize, b: Voltage, fuel: nat)
    requires
        net_wf(s),
        backed(s, i),
        settled(s, i, fuel),
        bit < s[i as int].width,
        b == LOW || b == HIGH,
    ensures
        bit_of(get_word(set_bit(s, i, bit, b, fuel), i), bit) == b,
    decreases i,
{
    let p = s[i as int];
    assert(node_ok(s, i as int));
    let after = set_bit(s, i, bit, b, fuel);
    lemma_set_bit_keeps(s, i, bit, b, fuel);
    assert(after[i as int] == (PinView { word: after[i as int].word, ..p }));
    match p.kind {
        PinKind::Bus => {
            let w = with_bit(p.word, bit, b);
            let s1 = s.update(i as int, PinView { word: w, ..p });
            lemma_with_bit_shows(p.word, bit, b);
            if fuel > 0 {
                crate::chip::signal::lemma_with_bit_bounds(p.word, bit, b, p.width);
                crate::chip::signal::lemma_store_keeps(s, i, w);
                lemma_any_reaches_shape(s, s1, p.listeners, 0, i, (fuel - 1) as nat);
                lemma_push_bit_frame(s1, p.listeners, 0, bit, b, (fuel - 1) as nat, i);
            }
        },
        _ => {
            let up = p.parent;
            assert(node_ok(s, up as int));
            lemma_pull_reads_back(s, up, (p.start + bit) as usize, b, fuel);
            assert(after[up as int] == (PinView { word: after[up as int].word, ..s[up as int] }));
            lemma_project_bit(get_word(after, up), p.start, p.width, bit);
        },
    }
}

/// After `set_word(v)` a node shows `v`: for every word `v` of the node's
/// width, and every node behind which a bus stands that gets no feedback.
pub proof fn law_set_word_get_word(s: Seq<PinView>, n: PinId, v: u16)
    requires
        net_wf(s),
        backed(s, n),
        settled(s, n, s.len()),
        v <= spec_mask(s[n as int].width),
    ensures
        get_word(set_word(s, n, v, s.len()), n) == v,
{
    lemma_write_reads_back(s, n, v, s.len());
    lemma_mask_keeps(v, s[n as int].width);
}

/// After `set_word(v)` every bit of a node is the bit of `v` at its place,
/// under the conditions of [`law_set_word_get_word`].
pub proof fn law_set_word_get_bit(s: Seq<PinView>, n: PinId, v: u16, i: usize)
    requires
        net_wf(s),
        backed(s, n),
        settled(s, n, s.len()),
        v <= spec_mask(s[n as int].width),
        i < s[n as int].width,
    ensures
        bit_of(get_word(set_word(s, n, v, s.len()), n), i) == bit_of(v, i),
{
    law_set_word_get_word(s, n, v);
}

/// After `set_bit(i, b)` bit `i` of a node is `b`: for every bit of the
/// node and both levels, and every node behind which a bus stands that
/// gets no feedback.
pub proof fn law_set_bit_get_bit(s: Seq<PinView>, n: PinId, i: usize, b: Voltage)
    requires
        net_wf(s),
        backed(s, n),
        settled(s, n, s.len()),
        i < s[n as int].width,
        b == LOW || b == HIGH,
    ensures
        bit_of(get_word(set_bit(s, n, i, b, s.len()), n), i) == b,
{
    lemma_pull_reads_back(s, n, i, b, s.len());
}

/// Writing to a slice leaves the bits of its parent outside the slice as
/// they were: for a slice of either kind behind which a bus stands that
/// gets no feedback.
pub proof fn law_slice_write_keeps_rest(s: Seq<PinView>, sub: PinId, v: u16, k: usize)
    requires
        net_wf(s),
        sub < s.len(),
        s[sub as int].kind == PinKind::InSubBus || s[sub as int].kind == PinKind::OutSubBus,
        backed(s, sub),
        settled(s, sub, s.len()),
        k < s[s[sub as int].parent as int].width,
        k < s[sub as int].start || k >= s[sub as int].start + s[sub as int].width,
    ensures
        bit_of(get_word(set_word(s, sub, v, s.len()), s[sub as int].parent), k) == bit_of(
            get_word(s, s[sub as int].parent),
            k,
        ),
{
    let p = s[sub as int];
    let up = p.parent;
    let fuel: nat = s.len();
    assert(node_ok(s, sub as int));
    assert(node_ok(s, up as int));
    lemma_root_within(s, sub);
    let r = root(s, sub);
    if p.kind == PinKind::InSubBus {
        let m = merge(get_word(s, up), p.start, p.width, v);
        lemma_write_reads_back(s, up, m, fuel);
        lemma_word_fits(s, up);
        lemma_merge_keeps_rest(get_word(s, up), p.start, p.width, v, s[up as int].width, k);
    } else {
        let cur = get_word(s, sub);
        let s1 = push_word(s, p.listeners, 0, cur, (fuel - 1) as nat);
        lemma_push_word_keeps(s, p.listeners, 0, cur, (fuel - 1) as nat);
        lemma_push_word_frame(s, p.listeners, 0, cur, (fuel - 1) as nat, r);
        lemma_reading_stays(s, s1, up);
        if v != cur {
            let m = merge(get_word(s1, up), p.start, p.width, v);
            lemma_backed_shape(s, s1, up);
            lemma_settled_shape(s, s1, up, fuel);
            lemma_write_reads_back(s1, up, m, fuel);
            assert(s1[up as int] == (PinView { word: s1[up as int].word, ..s[up as int] }));
            lemma_word_fits(s, up);
            lemma_merge_keeps_rest(get_word(s, up), p.start, p.width, v, s[up as int].width, k);
        }
    }
}

/// The word that a node of a well-formed net shows fits the node's width.
pub proof fn lemma_word_fits(s: Seq<PinView>, i: PinId)
    requires
        net_wf(s),
        i < s.len(),
    ensures
        get_word(s, i) <= spec_mask(s[i as int].width),
{
    assert(node_ok(s, i as int));
    let p = s[i as int];
    if p.kind == PinKind::InSubBus || p.kind == PinKind::OutSubBus {
        crate::chip::signal::lemma_mask_bounds(get_word(s, p.parent) >> p.start, p.width);
    }
}

/// Pushing to a list with one more listener at its end is pushing to the
/// list and then writing to that listener.
pub proof fn lemma_push_word_last(
    s: Seq<PinView>,
    ls: Seq<PinId>,
    k: nat,
    l: PinId,
    v: u16,
    fuel: nat,
)
    requires
        k <= ls.len(),
    ensures
        push_word(s, ls.push(l), k, v, fuel) == set_word(push_word(s, ls, k, v, fuel), l, v, fuel),
    decreases ls.len() - k,
{
    if k < ls.len() {
        assert(ls.push(l)[k as int] == ls[k as int]);
        lemma_push_word_last(set_word(s, ls[k as int], v, fuel), ls, k + 1, l, v, fuel);
    } else {
        assert(ls.push(l)[k as int] == l);
        assert(push_word(set_word(s, l, v, fuel), ls.push(l), k + 1, v, fuel) == set_word(
            s,
            l,
            v,
            fuel,
        ));
    }
}

/// A listener follows: once `l` is attached to the bus `n`, a word
/// written to `n` is what `l` shows, cut to the width of `l`. This holds
/// for a listener behind which a bus stands that, in the net after the
/// attaching, gets no feedback.
pub proof fn law_listener_follows(s: Seq<PinView>, n: PinId, l: PinId, v: u16)
    requires
        net_wf(s),
        n < s.len(),
        l < s.len(),
        s[n as int].kind == PinKind::Bus,
        backed(s, l),
        settled(attach(s, n, l, s.len()), l, (s.len() - 1) as nat),
    ensures
        get_word(set_word(attach(s, n, l, s.len()), n, v, s.len()), l) == v & spec_mask(
            s[l as int].width,
        ),
{
    let fuel: nat = s.len();
    let s1 = set_word(s, l, get_word(s, n), fuel);
    lemma_set_word_keeps(s, l, get_word(s, n), fuel);
    assert(listener_owner(s, n) == n);
    let a = attach(s, n, l, fuel);
    crate::chip::signal::lemma_attach_keeps(s, n, l, fuel);
    let old_ls = s1[n as int].listeners;
    assert(s1[n as int] == (PinView { word: s1[n as int].word, ..s[n as int] }));
    assert(a[n as int].listeners == old_ls.push(l));
    assert(a[n as int].kind == PinKind::Bus);
    assert(node_ok(a, n as int));
    let w = v & spec_mask(a[n as int].width);
    let a1 = a.update(n as int, PinView { word: w, ..a[n as int] });
    crate::chip::signal::lemma_mask_bounds(v, a[n as int].width);
    crate::chip::signal::lemma_store_keeps(a, n, w);
    let after = set_word(a, n, v, fuel);
    assert(after == push_word(a1, old_ls.push(l), 0, v, (fuel - 1) as nat));
    lemma_push_word_last(a1, old_ls, 0, l, v, (fuel - 1) as nat);
    let y = push_word(a1, old_ls, 0, v, (fuel - 1) as nat);
    lemma_push_word_keeps(a1, old_ls, 0, v, (fuel - 1) as nat);
    crate::chip::signal::lemma_same_shape_trans(a, a1, y);
    lemma_backed_grown(s1, a, n, l);
    lemma_backed_shape(s, s1, l);
    lemma_backed_shape(a, y, l);
    lemma_settled_shape(a, y, l, (fuel - 1) as nat);
    lemma_write_reads_back(y, l, v, (fuel - 1) as nat);
    assert(y[l as int] == (PinView { word: y[l as int].word, ..a[l as int] }));
    assert(a[l as int].width == s1[l as int].width);
    assert(s1[l as int] == (PinView { word: s1[l as int].word, ..s[l as int] }));
}

/// A node behind which a bus stood keeps it when a bus gets one more listener.
pub proof fn lemma_backed_grown(a: Seq<PinView>, b: Seq<PinView>, n: PinId, i: PinId)
    requires
        n < a.len(),
        b == a.update(n as int, PinView { listeners: b[n as int].listeners, ..a[n as int] }),
    ensures
        backed(a, i) == backed(b, i),
    decreases i,
{
    if i < a.len() {
        if (a[i as int].kind == PinKind::InSubBus || a[i as int].kind == PinKind::OutSubBus)
            && a[i as int].parent < i {
            lemma_backed_grown(a, b, n, a[i as int].parent);
        }
    }
}

/// Only a bus is ever stored into: no write or pull reaches a node of another kind.
pub proof fn lemma_reaches_a_bus(s: Seq<PinView>, i: PinId, t: PinId, fuel: nat)
    requires
        t < s.len(),
        s[t as int].kind != PinKind::Bus,
    ensures
        !reaches(s, i, t, fuel),
    decreases fuel, 0nat, i,
{
    if i < s.len() {
        let p = s[i as int];
        match p.kind {
            PinKind::Constant => {},
            PinKind::Bus => {
                if fuel > 0 {
                    lemma_none_reaches_but_a_bus(s, p.listeners, 0, t, (fuel - 1) as nat);
                }
            },
            PinKind::InSubBus => {
                if p.parent < i {
                    lemma_reaches_a_bus(s, p.parent, t, fuel);
                }
            },
            PinKind::OutSubBus => {
                if fuel > 0 {
                    lemma_none_reaches_but_a_bus(s, p.listeners, 0, t, (fuel - 1) as nat);
                }
                if p.parent < i {
                    lemma_reaches_a_bus(s, p.parent, t, fuel);
                }
            },
        }
    }
}

pub proof fn lemma_none_reaches_but_a_bus(
    s: Seq<PinView>,
    ls: Seq<PinId>,
    k: nat,
    t: PinId,
    fuel: nat,
)
    requires
        t < s.len(),
        s[t as int].kind != PinKind::Bus,
    ensures
        !any_reaches(s, ls, k, t, fuel),
    decreases fuel, 1nat, ls.len() - k,
{
    if k < ls.len() {
        lemma_reaches_a_bus(s, ls[k as int], t, fuel);
        lemma_none_reaches_but_a_bus(s, ls, k + 1, t, fuel);
    }
}

/// Constants never change: whatever is written to or pulled at whatever
/// node of a net, a constant of the net is afterwards what it was.
pub proof fn law_constants_never_change(
    s: Seq<PinView>,
    c: PinId,
    i: PinId,
    v: u16,
    bit: usize,
    b: Voltage,
)
    requires
        net_wf(s),
        c < s.len(),
        s[c as int].kind == PinKind::Constant,
    ensures
        set_word(s, i, v, s.len())[c as int] == s[c as int],
        set_bit(s, i, bit, b, s.len())[c as int] == s[c as int],
        get_word(set_word(s, i, v, s.len()), c) == get_word(s, c),
        get_word(set_bit(s, i, bit, b, s.len()), c) == get_word(s, c),
{
    lemma_reaches_a_bus(s, i, c, s.len());
    lemma_set_word_frame(s, i, v, s.len(), c);
    lemma_set_bit_frame(s, i, bit, b, s.len(), c);
    lemma_set_word_keeps(s, i, v, s.len());
    lemma_set_bit_keeps(s, i, bit, b, s.len());
}

/// No node ever changes its width, its kind or its place in a parent by
/// a write or a pull anywhere in the net.
pub proof fn law_widths_stay(s: Seq<PinView>, t: PinId, i: PinId, v: u16, bit: usize, b: Voltage)
    requires
        net_wf(s),
        t < s.len(),
    ensures
        set_word(s, i, v, s.len())[t as int] == (PinView {
            word: set_word(s, i, v, s.len())[t as int].word,
            ..s[t as int]
        }),
        set_bit(s, i, bit, b, s.len())[t as int] == (PinView {
            word: set_bit(s, i, bit, b, s.len())[t as int].word,
            ..s[t as int]
        }),
{
    lemma_set_word_keeps(s, i, v, s.len());
    lemma_set_bit_keeps(s, i, bit, b, s.len());
}

/// No slice of the net is a slice of node `t`.
pub open spec fn unsliced(s: Seq<PinView>, t: PinId) -> bool {
    forall|i: int|
        0 <= i < s.len() && ((#[trigger] s[i]).kind == PinKind::InSubBus || s[i].kind
            == PinKind::OutSubBus) ==> s[i].parent != t
}

/// No node of the net has node `t` among its listeners.
pub open spec fn unheard(s: Seq<PinView>, t: PinId) -> bool {
    forall|i: int, j: int|
        0 <= i < s.len() && 0 <= j < s[i].listeners.len() ==> (#[trigger] s[i].listeners[j]) != t
}

pub proof fn lemma_unheard_unreached(s: Seq<PinView>, i: PinId, t: PinId, fuel: nat)
    requires
        unsliced(s, t),
        unheard(s, t),
        i != t,
    ensures
        !reaches(s, i, t, fuel),
    decreases fuel, 0nat, i,
{
    if i < s.len() {
        let p = s[i as int];
        match p.kind {
            PinKind::Constant => {},
            PinKind::Bus => {
                if fuel > 0 {
                    lemma_none_unheard_reached(s, i, 0, t, (fuel - 1) as nat);
                }
            },
            PinKind::InSubBus => {
                if p.parent < i {
                    lemma_unheard_unreached(s, p.parent, t, fuel);
                }
            },
            PinKind::OutSubBus => {
                if fuel > 0 {
                    lemma_none_unheard_reached(s, i, 0, t, (fuel - 1) as nat);
                }
                if p.parent < i {
                    lemma_unheard_unreached(s, p.parent, t, fuel);
                }
            },
        }
    }
}

pub proof fn lemma_none_unheard_reached(s: Seq<PinView>, i: PinId, k: nat, t: PinId, fuel: nat)
    requires
        unsliced(s, t),
        unheard(s, t),
        i < s.len(),
    ensures
        !any_reaches(s, s[i as int].listeners, k, t, fuel),
    decreases fuel, 1nat, s[i as int].listeners.len() - k,
{
    let ls = s[i as int].listeners;
    if k < ls.len() {
        assert(s[i as int].listeners[k as int] != t);
        lemma_unheard_unreached(s, ls[k as int], t, fuel);
        lemma_none_unheard_reached(s, i, k + 1, t, fuel);
    }
}

/// A node that was let go hears nothing: it is in no listener list, and
/// where no slice of it is left, no write or pull at another node
/// changes it.
pub proof fn law_released_hears_nothing(
    s: Seq<PinView>,
    gone: PinId,
    i: PinId,
    v: u16,
    bit: usize,
    b: Voltage,
)
    requires
        net_wf(s),
        gone < s.len(),
        i != gone,
    ensures
        unheard(released(s, gone), gone),
        unsliced(s, gone) ==> set_word(released(s, gone), i, v, s.len())[gone as int] == released(
            s,
            gone,
        )[gone as int],
        unsliced(s, gone) ==> set_bit(released(s, gone), i, bit, b, s.len())[gone as int]
            == released(s, gone)[gone as int],
{
    let t = released(s, gone);
    crate::chip::signal::lemma_released_keeps(s, gone);
    assert forall|a: int, j: int|
        0 <= a < t.len() && 0 <= j < t[a].listeners.len() implies (#[trigger] t[a].listeners[j])
        != gone by {
        assert(node_ok(s, a));
        crate::chip::signal::lemma_without_holds(
            s[a].listeners,
            gone,
            s[a].listeners.len(),
            s.len(),
        );
    }
    if unsliced(s, gone) {
        assert(unsliced(t, gone)) by {
            assert forall|a: int|
                0 <= a < t.len() && ((#[trigger] t[a]).kind == PinKind::InSubBus || t[a].kind
                    == PinKind::OutSubBus) implies t[a].parent != gone by {
                assert(s[a].kind == t[a].kind && s[a].parent == t[a].parent);
            }
        }
        lemma_unheard_unreached(t, i, gone, s.len());
        lemma_set_word_frame(t, i, v, s.len(), gone);
        lemma_set_bit_frame(t, i, bit, b, s.len(), gone);
    }
}

} // verus!

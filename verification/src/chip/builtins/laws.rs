use vstd::prelude::*;
use crate::chip::builtins::gates::{add16, alu_ng, alu_out, alu_zr, low};
use crate::chip::builtins::memory::{spec_get, spec_set};
use crate::chip::builtins::table::{
    input_pins_of, is_combinational, output_pins_of, outputs_of, ChipKind,
};
use crate::chip::model::{
    address_of, chip_wf, drive, emit, has_signature, in_words, input_word, is_ram, level_of, run,
    tick_builtin, ChipView, Phase,
};
use crate::chip::pin::{PinId, PinKind, PinView};
use crate::chip::signal::{
    get_word, net_wf, node_ok, same_shape, set_bit, set_word, spec_mask, with_bit,
};

verus! {

/// The ALU computes 0 for the control word 101010, whatever its operands.
pub proof fn law_alu_zero(x: u16, y: u16)
    ensures
        alu_out(0b101010, x, y) == 0,
        alu_zr(alu_out(0b101010, x, y)) == 1,
        alu_ng(alu_out(0b101010, x, y)) == 0,
{
    assert(0b101010u16 & 0b100000 != 0 && 0b101010u16 & 0b010000 == 0 && 0b101010u16 & 0b001000
        != 0 && 0b101010u16 & 0b000100 == 0 && 0b101010u16 & 0b000010 != 0 && 0b101010u16
        & 0b000001 == 0) by (bit_vector);
}

/// The ALU computes 1 for the control word 111111.
pub proof fn law_alu_one(x: u16, y: u16)
    ensures
        alu_out(0b111111, x, y) == 1,
{
    assert(0b111111u16 & 0b100000 != 0 && 0b111111u16 & 0b010000 != 0 && 0b111111u16 & 0b001000
        != 0 && 0b111111u16 & 0b000100 != 0 && 0b111111u16 & 0b000010 != 0 && 0b111111u16
        & 0b000001 != 0 && !0u16 == 0xFFFFu16 && !0xFFFEu16 == 1u16) by (bit_vector);
}

/// The ALU computes -1, which is 0xFFFF, for the control word 111010, and says that it is negative.
pub proof fn law_alu_minus_one(x: u16, y: u16)
    ensures
        alu_out(0b111010, x, y) == 0xFFFF,
        alu_ng(alu_out(0b111010, x, y)) == 1,
{
    assert(0b111010u16 & 0b100000 != 0 && 0b111010u16 & 0b010000 != 0 && 0b111010u16 & 0b001000
        != 0 && 0b111010u16 & 0b000100 == 0 && 0b111010u16 & 0b000010 != 0 && 0b111010u16
        & 0b000001 == 0 && !0u16 == 0xFFFFu16 && 0xFFFFu16 & 0x8000 != 0) by (bit_vector);
}

/// The ALU hands x through for the control word 001100.
pub proof fn law_alu_x(x: u16, y: u16)
    ensures
        alu_out(0b001100, x, y) == x,
{
    assert(0b001100u16 & 0b100000 == 0 && 0b001100u16 & 0b010000 == 0 && 0b001100u16 & 0b001000
        != 0 && 0b001100u16 & 0b000100 != 0 && 0b001100u16 & 0b000010 == 0 && 0b001100u16
        & 0b000001 == 0 && !0u16 == 0xFFFFu16 && x & 0xFFFFu16 == x) by (bit_vector);
}

/// The ALU hands y through for the control word 110000.
pub proof fn law_alu_y(x: u16, y: u16)
    ensures
        alu_out(0b110000, x, y) == y,
{
    assert(0b110000u16 & 0b100000 != 0 && 0b110000u16 & 0b010000 != 0 && 0b110000u16 & 0b001000
        == 0 && 0b110000u16 & 0b000100 == 0 && 0b110000u16 & 0b000010 == 0 && 0b110000u16
        & 0b000001 == 0 && !0u16 == 0xFFFFu16 && 0xFFFFu16 & y == y) by (bit_vector);
}

/// The ALU adds, modulo 2^16, for the control word 000010.
pub proof fn law_alu_add(x: u16, y: u16)
    ensures
        alu_out(0b000010, x, y) == add16(x, y),
        alu_out(0b000010, x, y) == (x + y) % 0x10000,
{
    assert(0b000010u16 & 0b100000 == 0 && 0b000010u16 & 0b010000 == 0 && 0b000010u16 & 0b001000
        == 0 && 0b000010u16 & 0b000100 == 0 && 0b000010u16 & 0b000010 != 0 && 0b000010u16
        & 0b000001 == 0) by (bit_vector);
}

/// The ALU computes x and y, bit by bit, for the control word 000000.
pub proof fn law_alu_and(x: u16, y: u16)
    ensures
        alu_out(0, x, y) == x & y,
{
    assert(0u16 & 0b100000 == 0 && 0u16 & 0b010000 == 0 && 0u16 & 0b001000 == 0 && 0u16
        & 0b000100 == 0 && 0u16 & 0b000010 == 0 && 0u16 & 0b000001 == 0) by (bit_vector);
}

/// The flags of the ALU: ng says that the result is 0x8000 or more, zr that it is 0.
pub proof fn law_alu_flags(op: u16, x: u16, y: u16)
    ensures
        (alu_ng(alu_out(op, x, y)) == 1) == (alu_out(op, x, y) >= 0x8000),
        (alu_zr(alu_out(op, x, y)) == 1) == (alu_out(op, x, y) == 0),
        alu_ng(alu_out(op, x, y)) <= 1,
        alu_zr(alu_out(op, x, y)) <= 1,
{
    let r = alu_out(op, x, y);
    assert((r & 0x8000 != 0) == (r >= 0x8000)) by (bit_vector);
}

/// A store at one address of a memory leaves the word at every other address as it was.
pub proof fn law_memory_isolation(m: Seq<u16>, a: usize, b: usize, value: u16)
    requires
        a != b,
    ensures
        spec_get(spec_set(m, a, value), b) == spec_get(m, b),
{
}

/// A store at an address of a memory is what a read at that address gives.
pub proof fn law_memory_read_back(m: Seq<u16>, a: usize, value: u16)
    requires
        a < m.len(),
    ensures
        spec_get(spec_set(m, a, value), a) == value,
{
}

/// A tick of a RAM chip, whatever its inputs, leaves the word at every
/// address but the one on its address pin as it was.
pub proof fn law_ram_isolation(c: ChipView, s: Seq<PinView>, b: usize)
    requires
        is_ram(c.kind),
        b != address_of(c.kind, input_word(c, s, 2)),
    ensures
        spec_get(tick_builtin(c, s).0.memory, b) == spec_get(c.memory, b),
{
}

/// The lowest bit of a word is 0 or 1, and its own lowest bit.
pub proof fn lemma_low(w: u16)
    ensures
        low(w) <= 1,
        low(low(w)) == low(w),
        w <= 1 ==> low(w) == w,
{
    assert(w & 1 <= 1 && (w & 1) & 1 == w & 1 && (w <= 1 ==> w & 1 == w)) by (bit_vector);
}

/// A bus to which nobody listens.
pub open spec fn isolated(s: Seq<PinView>, pin: PinId) -> bool {
    pin < s.len() && s[pin as int].kind == PinKind::Bus && s[pin as int].listeners.len() == 0
}

/// The outputs of a chip are buses to which nobody listens, each another node.
pub open spec fn outputs_isolated(c: ChipView, s: Seq<PinView>) -> bool {
    &&& forall|k: int| 0 <= k < c.outputs.len() ==> isolated(s, (#[trigger] c.outputs[k]).1)
    &&& forall|j: int, k: int|
        0 <= j < k < c.outputs.len() ==> (#[trigger] c.outputs[j]).1 != (#[trigger] c.outputs[k]).1
}

/// What an output of `width` bits shows of the word `v`.
pub open spec fn shown(width: usize, v: u16) -> u16 {
    if width == 1 {
        low(v)
    } else {
        v & spec_mask(width)
    }
}

/// Putting a word on a bus to which nobody listens changes that bus only,
/// which then shows the word.
pub proof fn lemma_emit_isolated(s: Seq<PinView>, pin: PinId, width: usize, v: u16)
    requires
        net_wf(s),
        isolated(s, pin),
        s[pin as int].width == width,
    ensures
        emit(s, pin, width, v) == s.update(
            pin as int,
            PinView { word: shown(width, v), ..s[pin as int] },
        ),
        net_wf(emit(s, pin, width, v)),
{
    let p = s[pin as int];
    assert(node_ok(s, pin as int));
    let fuel: nat = s.len();
    if width == 1 {
        let w = p.word;
        let z: u16 = 0;
        assert(1u16 << 0usize == 1u16 << z);
        assert(spec_mask(1) == 1u16) by (bit_vector);
        assert(w <= 1 ==> (w | (1u16 << z)) == 1 && (w & !(1u16 << z)) == 0) by (bit_vector)
            requires
                z == 0,
        ;
        lemma_low(v);
        let s1 = s.update(pin as int, PinView { word: with_bit(w, 0, level_of(v)), ..p });
        assert(crate::chip::signal::push_bit(s1, p.listeners, 0, 0, level_of(v), (fuel - 1) as nat) == s1);
        assert(set_bit(s, pin, 0, level_of(v), fuel) == s1);
        crate::chip::signal::lemma_set_bit_keeps(s, pin, 0, level_of(v), fuel);
    } else {
        let s1 = s.update(pin as int, PinView { word: v & spec_mask(p.width), ..p });
        assert(crate::chip::signal::push_word(s1, p.listeners, 0, v, (fuel - 1) as nat) == s1);
        crate::chip::signal::lemma_set_word_keeps(s, pin, v, fuel);
    }
}

/// Driving outputs to which nobody listens: the outputs not yet driven
/// show their words afterwards, and those driven before are left alone.
pub proof fn lemma_drive_isolated(
    s: Seq<PinView>,
    c: ChipView,
    vals: Seq<u16>,
    j: nat,
    k: int,
)
    requires
        net_wf(s),
        outputs_isolated(c, s),
        crate::chip::model::pins_match(c.outputs, output_pins_of(c.kind), s),
        vals.len() == c.outputs.len(),
        j <= c.outputs.len(),
        0 <= k < c.outputs.len(),
    ensures
        k >= j ==> get_word(
            drive(s, c.outputs, output_pins_of(c.kind), vals, j),
            c.outputs[k].1,
        ) == shown(output_pins_of(c.kind)[k].1, vals[k]),
        k < j ==> drive(s, c.outputs, output_pins_of(c.kind), vals, j)[c.outputs[k].1 as int]
            == s[c.outputs[k].1 as int],
        drive(s, c.outputs, output_pins_of(c.kind), vals, j).len() == s.len(),
        forall|t: int|
            0 <= t < s.len() && (forall|o: int|
                j <= o < c.outputs.len() ==> (#[trigger] c.outputs[o]).1 != t) ==> drive(
                s,
                c.outputs,
                output_pins_of(c.kind),
                vals,
                j,
            )[t] == s[t],
        forall|o: int|
            j <= o < c.outputs.len() ==> #[trigger] drive(
                s,
                c.outputs,
                output_pins_of(c.kind),
                vals,
                j,
            )[c.outputs[o].1 as int] == (PinView {
                word: shown(output_pins_of(c.kind)[o].1, vals[o]),
                ..s[c.outputs[o].1 as int]
            }),
    decreases c.outputs.len() - j,
{
    let sig = output_pins_of(c.kind);
    if j < c.outputs.len() {
        let pin = c.outputs[j as int].1;
        assert(isolated(s, pin));
        lemma_emit_isolated(s, pin, sig[j as int].1, vals[j as int]);
        let s1 = emit(s, pin, sig[j as int].1, vals[j as int]);
        assert forall|i: int| 0 <= i < c.outputs.len() implies isolated(
            s1,
            (#[trigger] c.outputs[i]).1,
        ) by {
            assert(isolated(s, c.outputs[i].1));
        }
        assert forall|i: int| 0 <= i < c.outputs.len() implies (#[trigger] c.outputs[i]).0
            == sig[i].0 && c.outputs[i].1 < s1.len() && s1[c.outputs[i].1 as int].width
            == sig[i].1 by {
            assert(isolated(s, c.outputs[i].1));
        }
        lemma_drive_isolated(s1, c, vals, j + 1, k);
        let d = drive(s, c.outputs, sig, vals, j);
        assert(d == drive(s1, c.outputs, sig, vals, j + 1));
        if k < j {
            assert(c.outputs[k].1 != c.outputs[j as int].1);
        } else if k == j {
            assert(d[pin as int] == s1[pin as int]);
            assert(s1[pin as int].kind == PinKind::Bus);
            assert(get_word(d, pin) == d[pin as int].word);
        }
        assert forall|t: int|
            0 <= t < s.len() && (forall|o: int|
                j <= o < c.outputs.len() ==> (#[trigger] c.outputs[o]).1 != t) implies d[t]
            == s[t] by {
            assert(c.outputs[j as int].1 != t);
            assert(forall|o: int| j + 1 <= o < c.outputs.len() ==> (#[trigger] c.outputs[o]).1 != t);
            assert(s1[t] == s[t]);
        }
        assert forall|o: int| j <= o < c.outputs.len() implies #[trigger] d[c.outputs[o].1 as int]
            == (PinView {
            word: shown(sig[o].1, vals[o]),
            ..s[c.outputs[o].1 as int]
        }) by {
            if o == j {
                assert(d[pin as int] == s1[pin as int]);
            } else {
                assert(c.outputs[j as int].1 != c.outputs[o].1);
            }
        }
    }
}

/// The words that a combinational chip computes fit its outputs.
pub proof fn lemma_outputs_fit(kind: ChipKind, ins: Seq<u16>, k: int)
    requires
        is_combinational(kind),
        0 <= k < output_pins_of(kind).len(),
    ensures
        shown(output_pins_of(kind)[k].1, outputs_of(kind, ins)[k]) == outputs_of(kind, ins)[k],
{
    let v = outputs_of(kind, ins)[k];
    assert forall|w: u16| #[trigger] low(w) <= 1 && low(low(w)) == low(w) by {
        lemma_low(w);
    }
    lemma_low(0);
    lemma_low(1);
    assert(v & 0xFFFFu16 == v) by (bit_vector);
}

/// The truth of the gates: after an evaluation, every output of a
/// combinational built-in chip shows what the table of its kind gives for
/// the words on its inputs. This holds for a chip whose outputs are buses
/// to which nobody listens.
pub proof fn law_gate_truth(c: ChipView, s: Seq<PinView>, k: int)
    requires
        net_wf(s),
        chip_wf(c, s.len()),
        has_signature(c, s),
        is_combinational(c.kind),
        outputs_isolated(c, s),
        0 <= k < c.outputs.len(),
    ensures
        get_word(run(c, Phase::Eval, s).1, c.outputs[k].1) == outputs_of(
            c.kind,
            in_words(c, s),
        )[k],
{
    let vals = outputs_of(c.kind, in_words(c, s));
    lemma_outputs_len(c.kind, in_words(c, s));
    lemma_drive_isolated(s, c, vals, 0, k);
    lemma_outputs_fit(c.kind, in_words(c, s), k);
}

/// A combinational chip computes one word for each of its outputs.
pub proof fn lemma_outputs_len(kind: ChipKind, ins: Seq<u16>)
    requires
        is_combinational(kind),
    ensures
        outputs_of(kind, ins).len() == output_pins_of(kind).len(),
{
}

/// Writing a word to a bus to which nobody listens changes that bus only,
/// which then holds the word, cut to its width.
pub proof fn lemma_write_isolated(s: Seq<PinView>, pin: PinId, v: u16)
    requires
        net_wf(s),
        isolated(s, pin),
    ensures
        set_word(s, pin, v, s.len()) == s.update(
            pin as int,
            PinView { word: v & spec_mask(s[pin as int].width), ..s[pin as int] },
        ),
        net_wf(set_word(s, pin, v, s.len())),
{
    let p = s[pin as int];
    let fuel: nat = s.len();
    let s1 = s.update(pin as int, PinView { word: v & spec_mask(p.width), ..p });
    assert(crate::chip::signal::push_word(s1, p.listeners, 0, v, (fuel - 1) as nat) == s1);
    crate::chip::signal::lemma_set_word_keeps(s, pin, v, fuel);
}

/// All pins of a chip, inputs first, then outputs, then internal pins.
pub open spec fn all_pins(c: ChipView) -> Seq<(Seq<char>, PinId)> {
    c.inputs + c.outputs + c.internals
}

/// The chip stands alone: its pins are buses to which nobody listens, each another node.
pub open spec fn quiet(c: ChipView, s: Seq<PinView>) -> bool {
    &&& forall|k: int| 0 <= k < all_pins(c).len() ==> isolated(s, (#[trigger] all_pins(c)[k]).1)
    &&& forall|j: int, k: int|
        0 <= j < k < all_pins(c).len() ==> (#[trigger] all_pins(c)[j]).1 != (
        #[trigger] all_pins(c)[k]).1
}

/// What stands alone and has the pins of its kind keeps both while only words change.
pub proof fn lemma_quiet_shape(c: ChipView, a: Seq<PinView>, b: Seq<PinView>)
    requires
        same_shape(a, b),
        quiet(c, a),
        has_signature(c, a),
    ensures
        quiet(c, b),
        has_signature(c, b),
{
    assert forall|k: int| 0 <= k < all_pins(c).len() implies isolated(
        b,
        (#[trigger] all_pins(c)[k]).1,
    ) by {
        let pin = all_pins(c)[k].1;
        assert(isolated(a, pin));
        assert(b[pin as int] == (PinView { word: b[pin as int].word, ..a[pin as int] }));
    }
    assert forall|i: int| 0 <= i < c.inputs.len() implies b[(#[trigger] c.inputs[i]).1 as int].width
        == a[c.inputs[i].1 as int].width by {
        let pin = c.inputs[i].1;
        assert(b[pin as int] == (PinView { word: b[pin as int].word, ..a[pin as int] }));
    }
    assert forall|i: int| 0 <= i < c.outputs.len() implies b[(
    #[trigger] c.outputs[i]).1 as int].width == a[c.outputs[i].1 as int].width by {
        let pin = c.outputs[i].1;
        assert(b[pin as int] == (PinView { word: b[pin as int].word, ..a[pin as int] }));
    }
    assert forall|i: int| 0 <= i < c.internals.len() implies b[(
    #[trigger] c.internals[i]).1 as int].width == a[c.internals[i].1 as int].width by {
        let pin = c.internals[i].1;
        assert(b[pin as int] == (PinView { word: b[pin as int].word, ..a[pin as int] }));
    }
}

/// One clock cycle of a chip: the tick, then the tock.
pub open spec fn cycle(c: ChipView, s: Seq<PinView>) -> (ChipView, Seq<PinView>) {
    run(run(c, Phase::Tick, s).0, Phase::Tock, run(c, Phase::Tick, s).1)
}

/// Facts about the places of the pins of a chip that stands alone.
proof fn lemma_quiet_pins(c: ChipView, s: Seq<PinView>)
    requires
        quiet(c, s),
    ensures
        forall|i: int| 0 <= i < c.inputs.len() ==> isolated(s, (#[trigger] c.inputs[i]).1),
        forall|i: int| 0 <= i < c.outputs.len() ==> isolated(s, (#[trigger] c.outputs[i]).1),
        forall|i: int| 0 <= i < c.internals.len() ==> isolated(s, (#[trigger] c.internals[i]).1),
        forall|i: int, j: int|
            0 <= i < c.inputs.len() && 0 <= j < c.outputs.len() ==> (#[trigger] c.inputs[i]).1 != (
            #[trigger] c.outputs[j]).1,
        forall|i: int, j: int|
            0 <= i < c.inputs.len() && 0 <= j < c.internals.len() ==> (#[trigger] c.inputs[i]).1
                != (#[trigger] c.internals[j]).1,
        forall|i: int, j: int|
            0 <= i < c.outputs.len() && 0 <= j < c.internals.len() ==> (#[trigger] c.outputs[i]).1
                != (#[trigger] c.internals[j]).1,
        forall|i: int, j: int|
            0 <= i < j < c.inputs.len() ==> (#[trigger] c.inputs[i]).1 != (#[trigger] c.inputs[j]).1,
{
    let all = all_pins(c);
    let ni = c.inputs.len() as int;
    let no = c.outputs.len() as int;
    assert forall|i: int| 0 <= i < c.inputs.len() implies isolated(s, (#[trigger] c.inputs[i]).1) by {
        assert(all[i] == c.inputs[i]);
    }
    assert forall|i: int| 0 <= i < c.outputs.len() implies isolated(s, (#[trigger] c.outputs[i]).1) by {
        assert(all[ni + i] == c.outputs[i]);
    }
    assert forall|i: int| 0 <= i < c.internals.len() implies isolated(s, (#[trigger] c.internals[i]).1) by {
        assert(all[ni + no + i] == c.internals[i]);
    }
    assert forall|i: int, j: int| 0 <= i < c.inputs.len() && 0 <= j < c.outputs.len() implies (
    #[trigger] c.inputs[i]).1 != (#[trigger] c.outputs[j]).1 by {
        assert(all[i] == c.inputs[i]);
        assert(all[ni + j] == c.outputs[j]);
    }
    assert forall|i: int, j: int| 0 <= i < c.inputs.len() && 0 <= j < c.internals.len() implies (
    #[trigger] c.inputs[i]).1 != (#[trigger] c.internals[j]).1 by {
        assert(all[i] == c.inputs[i]);
        assert(all[ni + no + j] == c.internals[j]);
    }
    assert forall|i: int, j: int| 0 <= i < c.outputs.len() && 0 <= j < c.internals.len() implies (
    #[trigger] c.outputs[i]).1 != (#[trigger] c.internals[j]).1 by {
        assert(all[ni + i] == c.outputs[i]);
        assert(all[ni + no + j] == c.internals[j]);
    }
    assert forall|i: int, j: int| 0 <= i < j < c.inputs.len() implies (#[trigger] c.inputs[i]).1 != (
    #[trigger] c.inputs[j]).1 by {
        assert(all[i] == c.inputs[i]);
        assert(all[j] == c.inputs[j]);
    }
}

/// The flip-flop, one cycle: when `v` is set on its input, the output is
/// after the tick what it was, and after the tock it is `v`. The chip then
/// holds `v` and stands as it stood, so that the law holds of the next
/// cycle too. This holds of a flip-flop that stands alone.
pub proof fn law_dff_cycle(c: ChipView, s: Seq<PinView>, v: u16)
    requires
        net_wf(s),
        chip_wf(c, s.len()),
        has_signature(c, s),
        quiet(c, s),
        c.kind == ChipKind::Dff,
        v <= 1,
    ensures
        ({
            let set = set_word(s, c.inputs[0].1, v, s.len());
            &&& get_word(run(c, Phase::Tick, set).1, c.outputs[0].1) == get_word(
                s,
                c.outputs[0].1,
            )
            &&& get_word(cycle(c, set).1, c.outputs[0].1) == v
            &&& cycle(c, set).0 == (ChipView { state: v, ..c })
            &&& net_wf(cycle(c, set).1)
            &&& same_shape(s, cycle(c, set).1)
        }),
{
    let input = c.inputs[0].1;
    let out = c.outputs[0].1;
    let t = c.internals[0].1;
    lemma_quiet_pins(c, s);
    lemma_low(v);
    assert(isolated(s, input) && isolated(s, out) && isolated(s, t));
    assert(node_ok(s, input as int));
    lemma_write_isolated(s, input, v);
    let s0 = set_word(s, input, v, s.len());
    assert(spec_mask(1) == 1u16) by (bit_vector);
    crate::chip::laws::lemma_mask_keeps(v, 1);
    assert(get_word(s0, input) == v);
    lemma_emit_isolated(s0, t, 1, v);
    let s1 = run(c, Phase::Tick, s0).1;
    assert(s1 == emit(s0, t, 1, v));
    assert(s1[out as int] == s[out as int]);
    lemma_emit_isolated(s1, out, 1, v);
    let s2 = cycle(c, s0).1;
    assert(s2 == emit(s1, out, 1, v));
}

/// The flip-flop, cycle after cycle: after a cycle with `v` on the input
/// and a second one with `w`, the output is `w`.
pub proof fn law_dff_second_cycle(c: ChipView, s: Seq<PinView>, v: u16, w: u16)
    requires
        net_wf(s),
        chip_wf(c, s.len()),
        has_signature(c, s),
        quiet(c, s),
        c.kind == ChipKind::Dff,
        v <= 1,
        w <= 1,
    ensures
        ({
            let first = cycle(c, set_word(s, c.inputs[0].1, v, s.len()));
            let second = cycle(
                first.0,
                set_word(first.1, first.0.inputs[0].1, w, first.1.len()),
            );
            &&& get_word(first.1, c.outputs[0].1) == v
            &&& get_word(second.1, c.outputs[0].1) == w
        }),
{
    law_dff_cycle(c, s, v);
    let first = cycle(c, set_word(s, c.inputs[0].1, v, s.len()));
    lemma_quiet_shape(c, s, first.1);
    assert(all_pins(first.0) == all_pins(c));
    assert(quiet(first.0, first.1));
    assert(has_signature(first.0, first.1));
    assert(chip_wf(first.0, first.1.len()));
    law_dff_cycle(first.0, first.1, w);
}

/// A register or a one-bit register whose load is low holds: where its
/// output shows what it holds, a cycle leaves the output as it was. This
/// holds of a chip that stands alone.
pub proof fn law_register_holds(c: ChipView, s: Seq<PinView>)
    requires
        net_wf(s),
        chip_wf(c, s.len()),
        has_signature(c, s),
        quiet(c, s),
        c.kind == ChipKind::Register || c.kind == ChipKind::Bit,
        low(get_word(s, c.inputs[1].1)) == 0,
        get_word(s, c.outputs[0].1) == c.state,
    ensures
        get_word(cycle(c, s).1, c.outputs[0].1) == get_word(s, c.outputs[0].1),
        cycle(c, s).0 == c,
{
    let out = c.outputs[0].1;
    lemma_quiet_pins(c, s);
    assert(isolated(s, out));
    assert(node_ok(s, out as int));
    let width = output_pins_of(c.kind)[0].1;
    lemma_emit_isolated(s, out, width, c.state);
    if c.kind == ChipKind::Bit {
        assert(spec_mask(1) == 1u16) by (bit_vector);
        lemma_low(c.state);
    } else {
        crate::chip::laws::lemma_mask_keeps(c.state, 16);
    }
}

/// Reset comes first in the program counter: with reset high, the output
/// after a cycle is 0, whatever load, inc, the input and the count are.
/// This holds of a counter that stands alone.
pub proof fn law_pc_reset(c: ChipView, s: Seq<PinView>)
    requires
        net_wf(s),
        chip_wf(c, s.len()),
        has_signature(c, s),
        quiet(c, s),
        c.kind == ChipKind::Pc,
        low(get_word(s, c.inputs[1].1)) == 1,
    ensures
        get_word(cycle(c, s).1, c.outputs[0].1) == 0,
        cycle(c, s).0.state == 0,
{
    let out = c.outputs[0].1;
    lemma_quiet_pins(c, s);
    assert(isolated(s, out));
    lemma_emit_isolated(s, out, 16, 0);
    crate::chip::laws::lemma_mask_keeps(0, 16);
}

/// The ROM is combinational: an evaluation shows on the output the word
/// that the memory holds at the address on the address pin, cut to 15
/// bits. This holds of a ROM that stands alone.
pub proof fn law_rom_reads(c: ChipView, s: Seq<PinView>)
    requires
        net_wf(s),
        chip_wf(c, s.len()),
        has_signature(c, s),
        quiet(c, s),
        c.kind == ChipKind::Rom32k,
    ensures
        get_word(run(c, Phase::Eval, s).1, c.outputs[0].1) == spec_get(
            c.memory,
            (get_word(s, c.inputs[0].1) & 0x7FFF) as usize,
        ),
        run(c, Phase::Eval, s).0 == c,
{
    let out = c.outputs[0].1;
    lemma_quiet_pins(c, s);
    assert(isolated(s, out));
    let word = spec_get(c.memory, address_of(c.kind, get_word(s, c.inputs[0].1)));
    lemma_emit_isolated(s, out, 16, word);
    assert(word & 0xFFFFu16 == word) by (bit_vector);
}

/// A built-in chip that was just made stands alone, so that the laws of
/// this file hold of it.
pub proof fn law_new_chip_stands_alone(
    c: ChipView,
    kind: ChipKind,
    before: Seq<PinView>,
    after: Seq<PinView>,
)
    requires
        crate::chip::chip::built(c, kind, before, after),
        after.len() <= usize::MAX,
    ensures
        quiet(c, after),
{
    let ins = input_pins_of(kind);
    let outs = output_pins_of(kind);
    let inner = crate::chip::builtins::table::internal_pins_of(kind);
    let base = before.len() as int;
    let all = all_pins(c);
    assert(all.len() == ins.len() + outs.len() + inner.len());
    assert forall|k: int| 0 <= k < all.len() implies (#[trigger] all[k]).1 == base + k && isolated(
        after,
        all[k].1,
    ) by {
        if k < ins.len() {
            assert(all[k] == c.inputs[k]);
            assert(after[base + k] == crate::chip::chip::fresh(ins)[k]);
        } else if k < ins.len() + outs.len() {
            assert(all[k] == c.outputs[k - ins.len()]);
            assert(after[base + k] == crate::chip::chip::fresh(outs)[k - ins.len()]);
        } else {
            assert(all[k] == c.internals[k - ins.len() - outs.len()]);
            assert(after[base + k] == crate::chip::chip::fresh(inner)[k - ins.len() - outs.len()]);
        }
    }
}

/// Evaluating is idempotent: a second evaluation of a combinational chip
/// changes nothing, its inputs being what they were. This holds of a chip
/// that stands alone.
pub proof fn law_eval_idempotent(c: ChipView, s: Seq<PinView>)
    requires
        net_wf(s),
        chip_wf(c, s.len()),
        has_signature(c, s),
        is_combinational(c.kind),
        quiet(c, s),
    ensures
        run(c, Phase::Eval, run(c, Phase::Eval, s).1) == run(c, Phase::Eval, s),
{
    let sig = output_pins_of(c.kind);
    let vals = outputs_of(c.kind, in_words(c, s));
    lemma_outputs_len(c.kind, in_words(c, s));
    lemma_quiet_pins(c, s);
    assert(outputs_isolated(c, s)) by {
        let all = all_pins(c);
        let ni = c.inputs.len() as int;
        assert forall|j: int, k: int| 0 <= j < k < c.outputs.len() implies (
        #[trigger] c.outputs[j]).1 != (#[trigger] c.outputs[k]).1 by {
            assert(all[ni + j] == c.outputs[j]);
            assert(all[ni + k] == c.outputs[k]);
        }
    }
    lemma_drive_isolated(s, c, vals, 0, 0);
    let s1 = drive(s, c.outputs, sig, vals, 0);
    assert(run(c, Phase::Eval, s) == (c, s1));
    // the inputs are what they were
    assert(in_words(c, s1) =~= in_words(c, s)) by {
        assert forall|i: int| 0 <= i < c.inputs.len() implies get_word(s1, c.inputs[i].1) == get_word(
            s,
            c.inputs[i].1,
        ) by {
            let pin = c.inputs[i].1;
            assert(isolated(s, pin));
            assert(forall|o: int| 0 <= o < c.outputs.len() ==> (#[trigger] c.outputs[o]).1 != pin);
            assert(s1[pin as int] == s[pin as int]);
        }
    }
    // the net after the first evaluation is as quiet as before, with the same pins
    assert(net_wf(s1) && same_shape(s, s1)) by {
        lemma_drive_keeps(s, c, vals, 0);
    }
    lemma_quiet_shape(c, s, s1);
    assert(outputs_isolated(c, s1)) by {
        lemma_quiet_pins(c, s1);
        let all = all_pins(c);
        let ni = c.inputs.len() as int;
        assert forall|j: int, k: int| 0 <= j < k < c.outputs.len() implies (
        #[trigger] c.outputs[j]).1 != (#[trigger] c.outputs[k]).1 by {
            assert(all[ni + j] == c.outputs[j]);
            assert(all[ni + k] == c.outputs[k]);
        }
    }
    lemma_drive_isolated(s1, c, vals, 0, 0);
    let s2 = drive(s1, c.outputs, sig, vals, 0);
    assert(s2 =~= s1) by {
        assert forall|t: int| 0 <= t < s1.len() implies s2[t] == s1[t] by {
            if exists|o: int| 0 <= o < c.outputs.len() && (#[trigger] c.outputs[o]).1 == t {
                let o = choose|o: int| 0 <= o < c.outputs.len() && (#[trigger] c.outputs[o]).1 == t;
                assert(s2[c.outputs[o].1 as int] == (PinView {
                    word: shown(sig[o].1, vals[o]),
                    ..s1[c.outputs[o].1 as int]
                }));
                assert(s1[c.outputs[o].1 as int] == (PinView {
                    word: shown(sig[o].1, vals[o]),
                    ..s[c.outputs[o].1 as int]
                }));
            }
        }
    }
}

/// Driving the outputs of a chip changes words only.
pub proof fn lemma_drive_keeps(s: Seq<PinView>, c: ChipView, vals: Seq<u16>, j: nat)
    requires
        net_wf(s),
    ensures
        net_wf(drive(s, c.outputs, output_pins_of(c.kind), vals, j)),
        same_shape(s, drive(s, c.outputs, output_pins_of(c.kind), vals, j)),
    decreases c.outputs.len() - j,
{
    let sig = output_pins_of(c.kind);
    if j < c.outputs.len() {
        let pin = c.outputs[j as int].1;
        let s1 = emit(s, pin, sig[j as int].1, vals[j as int]);
        if sig[j as int].1 == 1 {
            crate::chip::signal::lemma_set_bit_keeps(s, pin, 0, level_of(vals[j as int]), s.len());
        } else {
            crate::chip::signal::lemma_set_word_keeps(s, pin, vals[j as int], s.len());
        }
        lemma_drive_keeps(s1, c, vals, j + 1);
        crate::chip::signal::lemma_same_shape_trans(
            s,
            s1,
            drive(s, c.outputs, sig, vals, j),
        );
    }
}

} // verus!

use vstd::prelude::*;
use vstd::string::StringExecFns;
use crate::chip::bus::{make_slice, new_slice, slice_error_text, slice_fits};
use crate::chip::net::Net;
use crate::chip::pin::{PinId, PinKind, PinView};
use crate::error::SimulatorError;
use vstd::string::StrSliceExecFns;
use crate::text::{
    chars_of, decimal, find_char, find_pattern, find_sub, index_of, number_at, parse_number,
    spec_decimal,
};

verus! {

/// A writable view of a slice of a wider node: what is written to it lands
/// in the parent, and who attaches to it listens to the parent.
#[derive(Debug)]
pub struct InSubBus {}

impl InSubBus {
    /// Adds to `net` a writable view of `width` bits from bit `start` of `parent_bus`.
    pub fn new(net: &mut Net, parent_bus: PinId, start: usize, width: usize) -> (r: Result<
        PinId,
        SimulatorError,
    >)
        requires
            old(net).wf(),
            parent_bus < old(net)@.len(),
        ensures
            final(net).wf(),
            r is Ok <==> slice_fits(old(net)@, parent_bus, start, width),
            r is Ok ==> r->Ok_0 == old(net)@.len() && final(net)@ == old(net)@.push(
                new_slice(old(net)@, PinKind::InSubBus, parent_bus, start, width),
            ),
            r is Err ==> final(net)@ == old(net)@ && r->Err_0 == SimulatorError::Hardware(
                r->Err_0->Hardware_0,
            ) && r->Err_0->Hardware_0@ == slice_error_text(old(net)@, parent_bus, start, width),
    {
        make_slice(net, PinKind::InSubBus, parent_bus, start, width)
    }

    /// Adds to `net` a writable view of the one bit `bit` of `parent_bus`.
    pub fn new_single_bit(net: &mut Net, parent_bus: PinId, bit: usize) -> (r: Result<
        PinId,
        SimulatorError,
    >)
        requires
            old(net).wf(),
            parent_bus < old(net)@.len(),
        ensures
            final(net).wf(),
            r is Ok <==> slice_fits(old(net)@, parent_bus, bit, 1),
            r is Ok ==> r->Ok_0 == old(net)@.len() && final(net)@ == old(net)@.push(
                new_slice(old(net)@, PinKind::InSubBus, parent_bus, bit, 1),
            ),
            r is Err ==> final(net)@ == old(net)@ && r->Err_0 == SimulatorError::Hardware(
                r->Err_0->Hardware_0,
            ) && r->Err_0->Hardware_0@ == slice_error_text(old(net)@, parent_bus, bit, 1),
    {
        make_slice(net, PinKind::InSubBus, parent_bus, bit, 1)
    }
}

/// A readable view of a slice of a wider node, with listeners of its own,
/// which take the slice and not the parent's whole word.
#[derive(Debug)]
pub struct OutSubBus {}

impl OutSubBus {
    /// Adds to `net` a readable view of `width` bits from bit `start` of `parent_bus`.
    pub fn new(net: &mut Net, parent_bus: PinId, start: usize, width: usize) -> (r: Result<
        PinId,
        SimulatorError,
    >)
        requires
            old(net).wf(),
            parent_bus < old(net)@.len(),
        ensures
            final(net).wf(),
            r is Ok <==> slice_fits(old(net)@, parent_bus, start, width),
            r is Ok ==> r->Ok_0 == old(net)@.len() && final(net)@ == old(net)@.push(
                new_slice(old(net)@, PinKind::OutSubBus, parent_bus, start, width),
            ),
            r is Err ==> final(net)@ == old(net)@ && r->Err_0 == SimulatorError::Hardware(
                r->Err_0->Hardware_0,
            ) && r->Err_0->Hardware_0@ == slice_error_text(old(net)@, parent_bus, start, width),
    {
        make_slice(net, PinKind::OutSubBus, parent_bus, start, width)
    }

    /// Adds to `net` a readable view of the one bit `bit` of `parent_bus`.
    pub fn new_single_bit(net: &mut Net, parent_bus: PinId, bit: usize) -> (r: Result<
        PinId,
        SimulatorError,
    >)
        requires
            old(net).wf(),
            parent_bus < old(net)@.len(),
        ensures
            final(net).wf(),
            r is Ok <==> slice_fits(old(net)@, parent_bus, bit, 1),
            r is Ok ==> r->Ok_0 == old(net)@.len() && final(net)@ == old(net)@.push(
                new_slice(old(net)@, PinKind::OutSubBus, parent_bus, bit, 1),
            ),
            r is Err ==> final(net)@ == old(net)@ && r->Err_0 == SimulatorError::Hardware(
                r->Err_0->Hardware_0,
            ) && r->Err_0->Hardware_0@ == slice_error_text(old(net)@, parent_bus, bit, 1),
    {
        make_slice(net, PinKind::OutSubBus, parent_bus, bit, 1)
    }
}

/// A pin with, if any, the inclusive range of bits that is meant.
#[derive(Debug, Clone, PartialEq)]
pub struct PinRange {
    pub pin_name: String,
    pub start: Option<usize>,
    pub end: Option<usize>,
}

/// The bits that a range means: its two ends, or none for the whole pin.
pub struct RangeView {
    pub start: Option<usize>,
    pub end: Option<usize>,
}

impl RangeView {
    /// Both ends are given or neither, and the first is not after the last.
    pub open spec fn wf(&self) -> bool {
        match (self.start, self.end) {
            (Some(a), Some(b)) => a <= b && b - a < usize::MAX,
            (None, None) => true,
            _ => false,
        }
    }

    /// The number of bits; 1 for the whole pin, whose width only the pin knows.
    pub open spec fn width(&self) -> nat {
        match (self.start, self.end) {
            (Some(a), Some(b)) => (b - a + 1) as nat,
            _ => 1,
        }
    }

    pub open spec fn is_full_pin(&self) -> bool {
        self.start is None && self.end is None
    }

    /// The first bit; 0 for the whole pin.
    pub open spec fn start_index(&self) -> usize {
        match self.start {
            Some(a) => a,
            None => 0,
        }
    }
}

impl View for PinRange {
    type V = RangeView;

    open spec fn view(&self) -> RangeView {
        RangeView { start: self.start, end: self.end }
    }
}

impl PinRange {
    /// Both ends are given or neither, and the first is not after the last.
    pub open spec fn wf(&self) -> bool {
        self@.wf()
    }

    pub open spec fn spec_width(&self) -> nat {
        self@.width()
    }

    pub open spec fn spec_is_full_pin(&self) -> bool {
        self@.is_full_pin()
    }

    pub open spec fn spec_start_index(&self) -> usize {
        self@.start_index()
    }

    /// A copy of the range.
    pub fn duplicate(&self) -> (r: PinRange)
        ensures
            r == *self,
    {
        PinRange { pin_name: self.pin_name.clone(), start: self.start, end: self.end }
    }

    /// The whole pin.
    pub fn new(pin_name: String) -> (r: PinRange)
        ensures
            r.pin_name == pin_name,
            r.start is None,
            r.end is None,
            r.wf(),
    {
        PinRange { pin_name, start: None, end: None }
    }

    /// The one bit `bit` of the pin.
    pub fn new_single_bit(pin_name: String, bit: usize) -> (r: PinRange)
        ensures
            r.pin_name == pin_name,
            r.start == Some(bit),
            r.end == Some(bit),
            r.wf(),
    {
        PinRange { pin_name, start: Some(bit), end: Some(bit) }
    }

    /// The bits from `start` to `end`, both included; `start` may not come after `end`.
    pub fn new_range(pin_name: String, start: usize, end: usize) -> (r: Result<
        PinRange,
        SimulatorError,
    >)
        ensures
            r is Ok <==> start <= end,
            r is Ok ==> r->Ok_0.pin_name == pin_name && r->Ok_0.start == Some(start) && r->Ok_0.end
                == Some(end),
            r is Err ==> r->Err_0 == SimulatorError::Hardware(r->Err_0->Hardware_0)
                && r->Err_0->Hardware_0@ == "Invalid pin range: start "@ + spec_decimal(
                start as nat,
            ) + " > end "@ + spec_decimal(end as nat),
    {
        if start > end {
            let text = String::from_str("Invalid pin range: start ").concat(
                decimal(start as u64).as_str(),
            ).concat(" > end ").concat(decimal(end as u64).as_str());
            return Err(SimulatorError::Hardware(text));
        }
        Ok(PinRange { pin_name, start: Some(start), end: Some(end) })
    }

    /// The number of bits in the range; 1 for a whole pin, whose width only the pin knows.
    pub fn width(&self) -> (r: usize)
        requires
            self.wf(),
        ensures
            r == self.spec_width(),
    {
        match (self.start, self.end) {
            (Some(a), Some(b)) => b - a + 1,
            _ => 1,
        }
    }

    pub fn is_full_pin(&self) -> (r: bool)
        ensures
            r == self.spec_is_full_pin(),
    {
        self.start.is_none() && self.end.is_none()
    }

    pub fn is_single_bit(&self) -> (r: bool)
        ensures
            r == (self.start is Some && self.start == self.end),
    {
        match (self.start, self.end) {
            (Some(a), Some(b)) => a == b,
            _ => false,
        }
    }

    /// The first bit of the range; 0 for a whole pin.
    pub fn start_index(&self) -> (r: usize)
        ensures
            r == self.spec_start_index(),
    {
        match self.start {
            Some(a) => a,
            None => 0,
        }
    }

    /// The last bit of the range; the first one where no last is given.
    pub fn end_index(&self) -> (r: usize)
        ensures
            r == match self.end {
                Some(b) => b,
                None => self.spec_start_index(),
            },
    {
        match self.end {
            Some(b) => b,
            None => self.start_index(),
        }
    }
}

/// The node that stands for `range` of `parent` in `s`, once the net has it:
/// the parent itself for a whole pin, else the slice made last.
pub open spec fn slice_result(s: Seq<PinView>, parent: PinId, range: RangeView) -> PinId {
    if range.is_full_pin() {
        parent
    } else {
        s.len() as PinId
    }
}

/// The net after a view of `kind` for `range` of `parent` has been made.
pub open spec fn slice_net(s: Seq<PinView>, kind: PinKind, parent: PinId, range: RangeView) -> Seq<
    PinView,
> {
    if range.is_full_pin() {
        s
    } else {
        s.push(new_slice(s, kind, parent, range.start_index(), range.width() as usize))
    }
}

/// Whether `range` names bits that `parent` has.
pub open spec fn range_fits(s: Seq<PinView>, parent: PinId, range: RangeView) -> bool {
    range.is_full_pin() || slice_fits(s, parent, range.start_index(), range.width() as usize)
}

fn create_subbus(net: &mut Net, kind: PinKind, parent_bus: PinId, range: &PinRange) -> (r: Result<
    PinId,
    SimulatorError,
>)
    requires
        old(net).wf(),
        parent_bus < old(net)@.len(),
        range.wf(),
        kind == PinKind::InSubBus || kind == PinKind::OutSubBus,
    ensures
        final(net).wf(),
        r is Ok <==> range_fits(old(net)@, parent_bus, range@),
        r is Ok ==> r->Ok_0 == slice_result(old(net)@, parent_bus, range@) && final(net)@
            == slice_net(old(net)@, kind, parent_bus, range@),
        r is Err ==> final(net)@ == old(net)@ && r->Err_0 == SimulatorError::Hardware(
            r->Err_0->Hardware_0,
        ) && r->Err_0->Hardware_0@ == slice_error_text(
            old(net)@,
            parent_bus,
            range@.start_index(),
            range@.width() as usize,
        ),
{
    if range.is_full_pin() {
        Ok(parent_bus)
    } else if range.is_single_bit() {
        make_slice(net, kind, parent_bus, range.start_index(), 1)
    } else {
        make_slice(net, kind, parent_bus, range.start_index(), range.width())
    }
}

/// The node through which `range` of `parent_bus` is written: the pin
/// itself where the range is the whole pin, else a new writable slice.
pub fn create_input_subbus(net: &mut Net, parent_bus: PinId, range: &PinRange) -> (r: Result<
    PinId,
    SimulatorError,
>)
    requires
        old(net).wf(),
        parent_bus < old(net)@.len(),
        range.wf(),
    ensures
        final(net).wf(),
        r is Ok <==> range_fits(old(net)@, parent_bus, range@),
        r is Ok ==> r->Ok_0 == slice_result(old(net)@, parent_bus, range@) && final(net)@
            == slice_net(old(net)@, PinKind::InSubBus, parent_bus, range@),
        r is Err ==> final(net)@ == old(net)@ && r->Err_0 == SimulatorError::Hardware(
            r->Err_0->Hardware_0,
        ) && r->Err_0->Hardware_0@ == slice_error_text(
            old(net)@,
            parent_bus,
            range@.start_index(),
            range@.width() as usize,
        ),
{
    create_subbus(net, PinKind::InSubBus, parent_bus, range)
}

/// The node through which `range` of `parent_bus` is read: the pin itself
/// where the range is the whole pin, else a new readable slice.
pub fn create_output_subbus(net: &mut Net, parent_bus: PinId, range: &PinRange) -> (r: Result<
    PinId,
    SimulatorError,
>)
    requires
        old(net).wf(),
        parent_bus < old(net)@.len(),
        range.wf(),
    ensures
        final(net).wf(),
        r is Ok <==> range_fits(old(net)@, parent_bus, range@),
        r is Ok ==> r->Ok_0 == slice_result(old(net)@, parent_bus, range@) && final(net)@
            == slice_net(old(net)@, PinKind::OutSubBus, parent_bus, range@),
        r is Err ==> final(net)@ == old(net)@ && r->Err_0 == SimulatorError::Hardware(
            r->Err_0->Hardware_0,
        ) && r->Err_0->Hardware_0@ == slice_error_text(
            old(net)@,
            parent_bus,
            range@.start_index(),
            range@.width() as usize,
        ),
{
    create_subbus(net, PinKind::OutSubBus, parent_bus, range)
}

/// The end of what `[from, to)` holds before its trailing characters `c`.
pub open spec fn strip_end(s: Seq<char>, c: char, from: int, to: int) -> int
    decreases to - from,
{
    if to <= from {
        from
    } else if s[to - 1] != c {
        to
    } else {
        strip_end(s, c, from, to - 1)
    }
}

/// The range of the one bit `bit`.
pub open spec fn one_bit(bit: usize) -> RangeView {
    RangeView { start: Some(bit), end: Some(bit) }
}

/// The range between two bits, whichever of them comes first.
pub open spec fn between(a: usize, b: usize) -> RangeView {
    if a <= b {
        RangeView { start: Some(a), end: Some(b) }
    } else {
        RangeView { start: Some(b), end: Some(a) }
    }
}

/// What a pin specification means: `pin` is the whole pin, `pin[5]` one
/// bit, `pin[2..7]` the bits between the two numbers, in either order. A
/// number is an optional plus sign and decimal digits. Any other text, and
/// the empty text, means nothing.
pub open spec fn spec_pin_range(s: Seq<char>) -> Option<(Seq<char>, RangeView)> {
    let n = s.len() as int;
    let open = index_of(s, '[', 0, n);
    let body_end = strip_end(s, ']', open + 1, n);
    let dots = find_pattern(s, open + 1, body_end, ".."@);
    if n == 0 {
        None
    } else if open == n {
        Some((s, RangeView { start: None, end: None }))
    } else if index_of(s, '[', open + 1, n) < n || open == 0 || s[n - 1] != ']' {
        None
    } else if dots < body_end {
        if find_pattern(s, dots + 2, body_end, ".."@) < body_end {
            None
        } else {
            match (
                number_at(s, open + 1, dots, usize::MAX as nat),
                number_at(s, dots + 2, body_end, usize::MAX as nat),
            ) {
                (Some(a), Some(b)) => Some((s.subrange(0, open), between(a as usize, b as usize))),
                _ => None,
            }
        }
    } else {
        match number_at(s, open + 1, body_end, usize::MAX as nat) {
            Some(b) => Some((s.subrange(0, open), one_bit(b as usize))),
            None => None,
        }
    }
}

/// The parse error that says `text`, followed by `detail`.
fn parse_error(text: &str, detail: &str) -> (e: SimulatorError)
    ensures
        e == SimulatorError::Parse(e->Parse_0),
        e->Parse_0@ == text@ + detail@,
{
    SimulatorError::Parse(String::from_str(text).concat(detail))
}

/// Reads a pin specification: `pin`, `pin[5]` or `pin[2..7]`.
pub fn parse_pin_range(spec: &str) -> (r: Result<PinRange, SimulatorError>)
    ensures
        r is Ok <==> spec_pin_range(spec@) is Some,
        r is Ok ==> r->Ok_0.pin_name@ == spec_pin_range(spec@)->Some_0.0 && r->Ok_0@
            == spec_pin_range(spec@)->Some_0.1,
        r is Ok && r->Ok_0@.width() <= usize::MAX ==> r->Ok_0.wf(),
        r is Err ==> r->Err_0 == SimulatorError::Parse(r->Err_0->Parse_0),
{
    let v = chars_of(spec);
    let n: usize = v.len();
    if n == 0 {
        return Err(parse_error("Empty pin specification", ""));
    }
    let open = find_char(&v, '[', 0, n);
    if open == n {
        return Ok(PinRange::new(String::from_str(spec)));
    }
    if find_char(&v, '[', open + 1, n) < n {
        return Err(parse_error("Invalid pin specification: ", spec));
    }
    if open == 0 {
        return Err(parse_error("Missing pin name", ""));
    }
    if v[n - 1] != ']' {
        return Err(parse_error("Missing closing bracket in: ", spec));
    }
    let mut body_end: usize = n;
    while body_end > open + 1 && v[body_end - 1] == ']'
        invariant
            open + 1 <= body_end <= n,
            n == v@.len(),
            strip_end(v@, ']', open + 1, body_end as int) == strip_end(v@, ']', open + 1, n as int),
        decreases body_end,
    {
        body_end -= 1;
    }
    let pattern = chars_of("..");
    let name = String::from_str(spec.substring_char(0, open));
    let max: u64 = usize::MAX as u64;
    let dots = find_sub(&v, open + 1, body_end, &pattern);
    if dots < body_end {
        proof {
            reveal_strlit("..");
        }
        if find_sub(&v, dots + 2, body_end, &pattern) < body_end {
            return Err(parse_error("Invalid range specification in: ", spec));
        }
        let a = match parse_number(&v, open + 1, dots, max) {
            Some(a) => a as usize,
            None => {
                return Err(parse_error("Invalid start index in: ", spec));
            },
        };
        let b = match parse_number(&v, dots + 2, body_end, max) {
            Some(b) => b as usize,
            None => {
                return Err(parse_error("Invalid end index in: ", spec));
            },
        };
        if a <= b {
            PinRange::new_range(name, a, b)
        } else {
            PinRange::new_range(name, b, a)
        }
    } else {
        match parse_number(&v, open + 1, body_end, max) {
            Some(b) => Ok(PinRange::new_single_bit(name, b as usize)),
            None => Err(parse_error("Invalid bit index in: ", spec)),
        }
    }
}

} // verus!

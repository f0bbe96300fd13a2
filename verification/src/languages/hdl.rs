use vstd::prelude::*;
use vstd::string::{StrSliceExecFns, StringExecFns};
use crate::chip::subbus::{parse_pin_range, spec_pin_range, PinRange, RangeView};
use crate::error::SimulatorError;
use crate::text::{
    chars_of, find_char, has_prefix, has_suffix, index_of, number_at, parse_number, ends_with,
    first_ink, same, same_pieces, spec_split, spec_trim, split, starts_with, trim_range, trimmed,
};

verus! {

/// A chip as its description declares it.
#[derive(Debug, Clone)]
pub struct HdlChip {
    pub name: String,
    pub inputs: Vec<PinDecl>,
    pub outputs: Vec<PinDecl>,
    pub parts: Vec<Part>,
    pub is_builtin: bool,
    pub clocked_pins: Vec<String>,
}

/// A declared pin; without a width it has one bit.
#[derive(Debug, Clone)]
pub struct PinDecl {
    pub name: String,
    pub width: Option<u16>,
}

/// A part of a composite: the chip to use and how it is wired.
#[derive(Debug, Clone)]
pub struct Part {
    pub name: String,
    pub connections: Vec<Wire>,
}

/// One wire of a part: `to` names a pin of the part, `from` what the host gives it.
#[derive(Debug, Clone)]
pub struct Wire {
    pub from: WireSide,
    pub to: WireSide,
}

/// One side of a wire.
#[derive(Debug, Clone)]
pub enum WireSide {
    Pin { name: String, range: Option<PinRange> },
    Constant(bool),
}

/// Reads chip descriptions.
#[derive(Debug)]
pub struct HdlParser {}

/// What one side of a wire says.
pub enum SideSyntax {
    Constant { value: bool },
    Pin { name: Seq<char>, range: Option<RangeView> },
}

/// What a side of a wire in a syntax tree says.
pub open spec fn side_syntax(side: WireSide) -> SideSyntax {
    match side {
        WireSide::Pin { name, range } => SideSyntax::Pin {
            name: name@,
            range: match range {
                Some(r) => Some(r@),
                None => None,
            },
        },
        WireSide::Constant(value) => SideSyntax::Constant { value: value },
    }
}

/// Whether a side of a wire has a range that is well-formed, if it has one.
pub open spec fn side_ok(side: WireSide) -> bool {
    match side {
        WireSide::Pin { range, .. } => range is Some ==> range->Some_0.wf(),
        WireSide::Constant(_) => true,
    }
}

/// What the text of one side of a wire means, white space at its ends
/// aside: `true` and `1` are the constant high, `false` and `0` the
/// constant low; anything else is a pin specification, which must mean
/// something, and whose range may not span all of `usize`.
pub open spec fn spec_wire_side(s: Seq<char>) -> Option<SideSyntax> {
    let t = spec_trim(s);
    if t == "true"@ || t == "1"@ {
        Some(SideSyntax::Constant { value: true })
    } else if t == "false"@ || t == "0"@ {
        Some(SideSyntax::Constant { value: false })
    } else {
        match spec_pin_range(t) {
            Some((name, range)) => if range.width() <= usize::MAX {
                Some(
                    SideSyntax::Pin {
                        name: name,
                        range: if range.is_full_pin() {
                            None
                        } else {
                            Some(range)
                        },
                    },
                )
            } else {
                None
            },
            None => None,
        }
    }
}

/// What the text of a pin declaration means: `name`, or `name[width]`
/// with a width that fits 16 bits. The name is what stands before the
/// bracket, the width what stands between the brackets, white space at
/// their ends aside.
pub open spec fn spec_pin_decl(s: Seq<char>) -> Option<(Seq<char>, Option<u16>)> {
    let n = s.len() as int;
    let open = index_of(s, '[', 0, n);
    let close = index_of(s, ']', open + 1, n);
    if open >= n {
        Some((spec_trim(s), None))
    } else if close >= n {
        None
    } else {
        let digits = spec_trim(s.subrange(open + 1, close));
        match number_at(digits, 0, digits.len() as int, 0xFFFF) {
            Some(w) => Some((spec_trim(s.subrange(0, open)), Some(w as u16))),
            None => None,
        }
    }
}

/// The parse error that says `text`, followed by `detail`.
fn parse_error(text: &str, detail: &str) -> (e: SimulatorError)
    ensures
        e == SimulatorError::Parse(e->Parse_0),
        e->Parse_0@ == text@ + detail@,
{
    SimulatorError::Parse(String::from_str(text).concat(detail))
}

/// Whether all wires have well-formed ranges.
pub open spec fn wires_ok(wires: Seq<Wire>) -> bool {
    forall|i: int| 0 <= i < wires.len() ==> side_ok((#[trigger] wires[i]).from) && side_ok(wires[i].to)
}

/// Whether all parts have wires with well-formed ranges.
pub open spec fn parts_ok(parts: Seq<Part>) -> bool {
    forall|i: int| 0 <= i < parts.len() ==> wires_ok((#[trigger] parts[i]).connections@)
}

impl HdlParser {
    pub fn new() -> (r: Result<HdlParser, SimulatorError>)
        ensures
            r is Ok,
    {
        Ok(HdlParser {  })
    }

    /// Reads one side of a wire.
    pub fn parse_wire_side(&self, side: &str) -> (r: Result<WireSide, SimulatorError>)
        ensures
            r is Ok <==> spec_wire_side(side@) is Some,
            r is Ok ==> side_syntax(r->Ok_0) == spec_wire_side(side@)->Some_0 && side_ok(r->Ok_0),
            r is Err ==> r->Err_0 == SimulatorError::Parse(r->Err_0->Parse_0),
    {
        let side = trimmed(side);
        if same(side, "true") || same(side, "1") {
            return Ok(WireSide::Constant(true));
        }
        if same(side, "false") || same(side, "0") {
            return Ok(WireSide::Constant(false));
        }
        let pin_range = match parse_pin_range(side) {
            Ok(r) => r,
            Err(e) => {
                return Err(e);
            },
        };
        let spans_all = match (pin_range.start, pin_range.end) {
            (Some(a), Some(b)) => a == 0 && b == usize::MAX,
            _ => false,
        };
        if spans_all {
            return Err(parse_error("Range too wide in: ", side));
        }
        let name = pin_range.pin_name.clone();
        if pin_range.is_full_pin() {
            Ok(WireSide::Pin { name, range: None })
        } else {
            Ok(WireSide::Pin { name, range: Some(pin_range) })
        }
    }

    /// Reads a pin declaration: `name` or `name[width]`.
    pub fn parse_pin_decl(&self, pin_str: &str) -> (r: Result<PinDecl, SimulatorError>)
        ensures
            r is Ok <==> spec_pin_decl(pin_str@) is Some,
            r is Ok ==> r->Ok_0.name@ == spec_pin_decl(pin_str@)->Some_0.0 && r->Ok_0.width
                == spec_pin_decl(pin_str@)->Some_0.1,
            r is Err ==> r->Err_0 == SimulatorError::Parse(r->Err_0->Parse_0),
    {
        let v = chars_of(pin_str);
        let n: usize = v.len();
        let open = find_char(&v, '[', 0, n);
        if open >= n {
            return Ok(PinDecl { name: String::from_str(trimmed(pin_str)), width: None });
        }
        let close = find_char(&v, ']', open + 1, n);
        if close >= n {
            return Err(parse_error("Unclosed bracket in pin declaration: ", pin_str));
        }
        let name = String::from_str(trimmed(pin_str.substring_char(0, open)));
        let digits = trimmed(pin_str.substring_char(open + 1, close));
        let d = chars_of(digits);
        match parse_number(&d, 0, d.len(), 0xFFFF) {
            Some(w) => Ok(PinDecl { name, width: Some(w as u16) }),
            None => Err(parse_error("Invalid pin width: ", digits)),
        }
    }
}

/// What one wire says: what the host gives (`from`) and the pin of the part (`to`).
pub struct WireSyntax {
    pub from: SideSyntax,
    pub to: SideSyntax,
}

/// What the wires of a syntax tree say.
pub open spec fn wires_syntax(wires: Seq<Wire>) -> Seq<WireSyntax> {
    Seq::new(
        wires.len(),
        |i: int| WireSyntax { from: side_syntax(wires[i].from), to: side_syntax(wires[i].to) },
    )
}

/// What one piece between commas means: nothing, where it is empty or has
/// no equals sign; else a wire from what stands after the sign to what
/// stands before it. Both sides must mean something.
pub open spec fn spec_connection(piece: Seq<char>) -> Option<Option<WireSyntax>> {
    let t = spec_trim(piece);
    let eq = index_of(t, '=', 0, t.len() as int);
    if t.len() == 0 || eq >= t.len() {
        Some(None)
    } else {
        match (spec_wire_side(t.subrange(0, eq)), spec_wire_side(t.subrange(eq + 1, t.len() as int))) {
            (Some(to), Some(from)) => Some(Some(WireSyntax { from: from, to: to })),
            _ => None,
        }
    }
}

/// The wires that the pieces from place `k` on mean, in order; nothing
/// where one of them is at fault.
pub open spec fn spec_connections(pieces: Seq<Seq<char>>, k: int) -> Option<Seq<WireSyntax>>
    decreases pieces.len() - k,
{
    if k >= pieces.len() {
        Some(Seq::empty())
    } else {
        match (spec_connection(pieces[k]), spec_connections(pieces, k + 1)) {
            (Some(Some(w)), Some(rest)) => Some(seq![w] + rest),
            (Some(None), Some(rest)) => Some(rest),
            _ => None,
        }
    }
}

impl HdlParser {
    /// Reads the wires of one line, `to=from` between commas, and adds them to `connections`.
    pub fn parse_connections_line(&self, line: &str, connections: &mut Vec<Wire>) -> (r: Result<
        (),
        SimulatorError,
    >)
        requires
            wires_ok(old(connections)@),
        ensures
            wires_ok(final(connections)@),
            r is Ok <==> spec_connections(spec_split(line@, ',', 0), 0) is Some,
            r is Ok ==> wires_syntax(final(connections)@) == wires_syntax(old(connections)@)
                + spec_connections(spec_split(line@, ',', 0), 0)->Some_0,
            r is Err ==> r->Err_0 == SimulatorError::Parse(r->Err_0->Parse_0),
    {
        let pieces = split(line, ',');
        let ghost texts = spec_split(line@, ',', 0);
        let n: usize = pieces.len();
        let mut i: usize = 0;
        let ghost mut done: Seq<WireSyntax> = Seq::empty();
        proof {
            assert(wires_syntax(connections@) + done =~= wires_syntax(connections@));
        }
        while i < n
            invariant
                wires_ok(connections@),
                same_pieces(pieces@, texts),
                texts == spec_split(line@, ',', 0),
                n == pieces@.len(),
                i <= n,
                wires_syntax(connections@) == wires_syntax(old(connections)@) + done,
                spec_connections(texts, 0) is Some <==> spec_connections(texts, i as int) is Some,
                spec_connections(texts, 0) is Some ==> done + spec_connections(
                    texts,
                    i as int,
                )->Some_0 == spec_connections(texts, 0)->Some_0,
            decreases n - i,
        {
            let conn = trimmed(pieces[i]);
            assert(pieces@[i as int]@ == texts[i as int]);
            let v = chars_of(conn);
            let eq = find_char(&v, '=', 0, v.len());
            if v.len() > 0 && eq < v.len() {
                let to = match self.parse_wire_side(conn.substring_char(0, eq)) {
                    Ok(w) => w,
                    Err(e) => {
                        assert(spec_connection(texts[i as int]) is None);
                        return Err(e);
                    },
                };
                let from = match self.parse_wire_side(conn.substring_char(eq + 1, v.len())) {
                    Ok(w) => w,
                    Err(e) => {
                        assert(spec_connection(texts[i as int]) is None);
                        return Err(e);
                    },
                };
                let ghost before = connections@;
                let ghost w = WireSyntax { from: side_syntax(from), to: side_syntax(to) };
                connections.push(Wire { from, to });
                proof {
                    assert(wires_syntax(connections@) =~= wires_syntax(before).push(w));
                    assert(wires_syntax(old(connections)@) + done.push(w) =~= (wires_syntax(
                        old(connections)@,
                    ) + done).push(w));
                    if spec_connections(texts, 0) is Some {
                        let rest = spec_connections(texts, i + 1)->Some_0;
                        assert(done.push(w) + rest =~= done + (seq![w] + rest));
                    }
                    done = done.push(w);
                    assert forall|j: int| 0 <= j < connections@.len() implies side_ok(
                        (#[trigger] connections@[j]).from,
                    ) && side_ok(connections@[j].to) by {
                        if j < before.len() {
                            assert(connections@[j] == before[j]);
                        }
                    }
                }
            }
            i += 1;
        }
        proof {
            if spec_connections(texts, 0) is Some {
                assert(done + Seq::<WireSyntax>::empty() =~= done);
            }
        }
        Ok(())
    }
}

/// Whether a line counts: it is not empty and no comment.
pub open spec fn counts(line: Seq<char>) -> bool {
    line.len() > 0 && !has_prefix(line, 0, line.len() as int, "//"@)
}

/// The lines that count among the pieces from place `k` on, each without
/// the white space at its ends.
pub open spec fn useful(pieces: Seq<Seq<char>>, k: int) -> Seq<Seq<char>>
    decreases pieces.len() - k,
{
    if k >= pieces.len() {
        Seq::empty()
    } else if counts(spec_trim(pieces[k])) {
        seq![spec_trim(pieces[k])] + useful(pieces, k + 1)
    } else {
        useful(pieces, k + 1)
    }
}

/// The lines of a description that count.
pub open spec fn spec_lines(source: Seq<char>) -> Seq<Seq<char>> {
    useful(spec_split(source, '\n', 0), 0)
}

/// The end of what `[0, to)` of `s` holds before its trailing ` {`.
pub open spec fn before_brace(s: Seq<char>, to: int) -> int
    decreases to,
{
    if to >= 2 && has_suffix(s, 0, to, " {"@) {
        before_brace(s, to - 2)
    } else {
        to
    }
}

/// The name of the chip that the line `CHIP name {` declares.
pub open spec fn spec_chip_name(line: Seq<char>) -> Seq<char> {
    let rest = line.subrange(5, line.len() as int);
    spec_trim(rest.subrange(0, before_brace(rest, rest.len() as int)))
}

/// Whether one of the lines says that the chip is built in.
pub open spec fn says_builtin(lines: Seq<Seq<char>>) -> bool {
    exists|i: int| 0 <= i < lines.len() && #[trigger] lines[i] == "BUILTIN;"@
}

/// Whether a line opens the section `section` of pins: it begins with the
/// word and holds a blank.
pub open spec fn opens_section(line: Seq<char>, section: Seq<char>) -> bool {
    has_prefix(line, 0, line.len() as int, section) && index_of(line, ' ', 0, line.len() as int)
        < line.len()
}

/// The first line from place `k` on that opens the section, or the number of lines.
pub open spec fn section_line(lines: Seq<Seq<char>>, section: Seq<char>, k: int) -> int
    decreases lines.len() - k,
{
    if k >= lines.len() {
        lines.len() as int
    } else if opens_section(lines[k], section) {
        k
    } else {
        section_line(lines, section, k + 1)
    }
}

/// The declarations that the pieces from place `k` on mean, in order:
/// empty pieces mean nothing; one at fault spoils all.
pub open spec fn spec_decls(pieces: Seq<Seq<char>>, k: int) -> Option<Seq<(Seq<char>, Option<u16>)>>
    decreases pieces.len() - k,
{
    if k >= pieces.len() {
        Some(Seq::empty())
    } else if spec_trim(pieces[k]).len() == 0 {
        spec_decls(pieces, k + 1)
    } else {
        match (spec_pin_decl(spec_trim(pieces[k])), spec_decls(pieces, k + 1)) {
            (Some(d), Some(rest)) => Some(seq![d] + rest),
            _ => None,
        }
    }
}

/// The pins that the section `section` declares: none where no line opens
/// it; else what stands between the word and the semicolon of the first
/// line that does, cut at the commas. A line without a semicolon, or a
/// declaration that means nothing, is an error.
pub open spec fn spec_pin_section(lines: Seq<Seq<char>>, section: Seq<char>) -> Option<
    Seq<(Seq<char>, Option<u16>)>,
> {
    let at = section_line(lines, section, 0);
    if at >= lines.len() {
        Some(Seq::empty())
    } else {
        let line = lines[at];
        let from = first_ink(line, section.len() as int, line.len() as int);
        let semi = index_of(line, ';', from, line.len() as int);
        if semi >= line.len() {
            None
        } else {
            spec_decls(spec_split(spec_trim(line.subrange(from, semi)), ',', 0), 0)
        }
    }
}

/// What the declarations of a syntax tree say.
pub open spec fn decls_syntax(decls: Seq<PinDecl>) -> Seq<(Seq<char>, Option<u16>)> {
    Seq::new(decls.len(), |i: int| (decls[i].name@, decls[i].width))
}

/// The lines of a description that count, each without white space at its ends.
fn useful_lines<'a>(source: &'a str) -> (r: Vec<&'a str>)
    ensures
        same_pieces(r@, spec_lines(source@)),
{
    let pieces = split(source, '\n');
    let ghost texts = spec_split(source@, '\n', 0);
    let comment = chars_of("//");
    let mut out: Vec<&'a str> = Vec::new();
    let n: usize = pieces.len();
    let mut i: usize = 0;
    let ghost mut done: Seq<Seq<char>> = Seq::empty();
    while i < n
        invariant
            same_pieces(pieces@, texts),
            comment@ == "//"@,
            n == pieces@.len(),
            i <= n,
            same_pieces(out@, done),
            done + useful(texts, i as int) == useful(texts, 0),
        decreases n - i,
    {
        let line = trimmed(pieces[i]);
        assert(pieces@[i as int]@ == texts[i as int]);
        let v = chars_of(line);
        if v.len() > 0 && !starts_with(&v, 0, v.len(), &comment) {
            out.push(line);
            proof {
                let rest = useful(texts, i + 1);
                assert(done.push(line@) + rest =~= done + (seq![line@] + rest));
                done = done.push(line@);
            }
        }
        i += 1;
    }
    proof {
        assert(done + Seq::<Seq<char>>::empty() =~= done);
    }
    out
}

impl HdlParser {
    /// Reads the pins that the section `section` (`IN` or `OUT`) declares.
    pub fn parse_pin_section(&self, lines: &Vec<&str>, section: &str) -> (r: Result<
        Vec<PinDecl>,
        SimulatorError,
    >)
        ensures
            r is Ok <==> spec_pin_section(line_texts(lines@), section@) is Some,
            r is Ok ==> decls_syntax(r->Ok_0@) == spec_pin_section(
                line_texts(lines@),
                section@,
            )->Some_0,
            r is Err ==> r->Err_0 == SimulatorError::Parse(r->Err_0->Parse_0),
    {
        let word = chars_of(section);
        let mut pins: Vec<PinDecl> = Vec::new();
        let ghost texts = line_texts(lines@);
        let n: usize = lines.len();
        let mut i: usize = 0;
        while i < n
            invariant
                n == lines@.len(),
                i <= n,
                word@ == section@,
                texts == line_texts(lines@),
                pins@.len() == 0,
                section_line(texts, section@, i as int) == section_line(texts, section@, 0),
            decreases n - i,
        {
            let line = lines[i];
            assert(texts[i as int] == lines@[i as int]@);
            let v = chars_of(line);
            let len: usize = v.len();
            if starts_with(&v, 0, len, &word) && find_char(&v, ' ', 0, len) < len {
                let (from, _) = trim_range(&v, word.len(), len);
                let semi = find_char(&v, ';', from, len);
                if semi >= len {
                    return Err(parse_error("Missing semicolon in: ", line));
                }
                let list = trimmed(line.substring_char(from, semi));
                let pieces = split(list, ',');
                let ghost parts = spec_split(list@, ',', 0);
                let m: usize = pieces.len();
                let mut j: usize = 0;
                assert(section_line(texts, section@, 0) == i);
                assert(spec_pin_section(texts, section@) == spec_decls(parts, 0));
                while j < m
                    invariant
                        same_pieces(pieces@, parts),
                        spec_pin_section(texts, section@) == spec_decls(parts, 0),
                        texts == line_texts(lines@),
                        m == pieces@.len(),
                        j <= m,
                        spec_decls(parts, 0) is Some <==> spec_decls(parts, j as int) is Some,
                        spec_decls(parts, 0) is Some ==> decls_syntax(pins@) + spec_decls(
                            parts,
                            j as int,
                        )->Some_0 == spec_decls(parts, 0)->Some_0,
                    decreases m - j,
                {
                    let pin_str = trimmed(pieces[j]);
                    assert(pieces@[j as int]@ == parts[j as int]);
                    if pin_str.unicode_len() > 0 {
                        let decl = match self.parse_pin_decl(pin_str) {
                            Ok(d) => d,
                            Err(e) => {
                                return Err(e);
                            },
                        };
                        let ghost before = pins@;
                        let ghost d = (decl.name@, decl.width);
                        pins.push(decl);
                        proof {
                            assert(decls_syntax(pins@) =~= decls_syntax(before).push(d));
                            if spec_decls(parts, 0) is Some {
                                let rest = spec_decls(parts, j + 1)->Some_0;
                                assert(decls_syntax(before).push(d) + rest =~= decls_syntax(before)
                                    + (seq![d] + rest));
                            }
                        }
                    }
                    j += 1;
                }
                proof {
                    if spec_decls(parts, 0) is Some {
                        assert(decls_syntax(pins@) + Seq::<(Seq<char>, Option<u16>)>::empty()
                            =~= decls_syntax(pins@));
                    }
                }
                return Ok(pins);
            }
            i += 1;
        }
        assert(decls_syntax(pins@) =~= Seq::<(Seq<char>, Option<u16>)>::empty());
        Ok(pins)
    }
}

/// The lines as texts.
pub open spec fn line_texts(lines: Seq<&str>) -> Seq<Seq<char>> {
    Seq::new(lines.len(), |i: int| lines[i]@)
}

/// What one part says: the chip to use and its wires.
pub struct PartSyntax {
    pub name: Seq<char>,
    pub wires: Seq<WireSyntax>,
}

/// What the parts of a syntax tree say.
pub open spec fn parts_syntax(parts: Seq<Part>) -> Seq<PartSyntax> {
    Seq::new(
        parts.len(),
        |i: int| PartSyntax { name: parts[i].name@, wires: wires_syntax(parts[i].connections@) },
    )
}

/// How far the reading of the parts has come.
pub struct Reading {
    /// The line `PARTS:` was seen.
    pub started: bool,
    /// The closing brace was seen.
    pub stopped: bool,
    /// A wire meant nothing.
    pub failed: bool,
    /// The part that is open over several lines.
    pub current: Option<Seq<char>>,
    /// The wires read since a part was last closed.
    pub wires: Seq<WireSyntax>,
    /// The parts that are complete.
    pub parts: Seq<PartSyntax>,
}

/// The reading after the open part, if there is one, was closed with the wires read for it.
pub open spec fn closed(r: Reading) -> Reading {
    match r.current {
        Some(name) => Reading {
            current: None,
            wires: Seq::empty(),
            parts: r.parts.push(PartSyntax { name: name, wires: r.wires }),
            ..r
        },
        None => r,
    }
}

/// The wires that a text means; none for a blank text.
pub open spec fn part_wires(text: Seq<char>) -> Option<Seq<WireSyntax>> {
    if spec_trim(text).len() == 0 {
        Some(Seq::empty())
    } else {
        spec_connections(spec_split(text, ',', 0), 0)
    }
}

/// The reading after the wires of a text were added.
pub open spec fn with_wires(r: Reading, text: Seq<char>) -> Reading {
    match part_wires(text) {
        Some(w) => Reading { wires: r.wires + w, ..r },
        None => Reading { failed: true, ..r },
    }
}

/// The reading after one more line. Before `PARTS:` nothing counts. A
/// line with an opening parenthesis begins a part, after the open one was
/// closed: a line that also ends in `);` holds the whole part; else the
/// part stays open. A line that ends in `);` closes the open part. Any
/// other line holds more wires. The closing brace ends the reading.
pub open spec fn read_line(r: Reading, line: Seq<char>) -> Reading {
    let n = line.len() as int;
    let paren = index_of(line, '(', 0, n);
    let ends = has_suffix(line, 0, n, ");"@);
    if r.stopped || r.failed {
        r
    } else if !r.started {
        if has_prefix(line, 0, n, "PARTS:"@) {
            Reading { started: true, ..r }
        } else {
            r
        }
    } else if line == "}"@ {
        Reading { stopped: true, ..closed(r) }
    } else if paren < n && ends {
        match part_wires(line.subrange(paren + 1, n - 2)) {
            Some(w) => Reading {
                parts: closed(r).parts.push(
                    PartSyntax { name: spec_trim(line.subrange(0, paren)), wires: w },
                ),
                ..closed(r)
            },
            None => Reading { failed: true, ..r },
        }
    } else if paren < n {
        with_wires(
            Reading { current: Some(spec_trim(line.subrange(0, paren))), ..closed(r) },
            line.subrange(paren + 1, n),
        )
    } else if ends {
        if part_wires(line.subrange(0, n - 2)) is Some {
            closed(with_wires(r, line.subrange(0, n - 2)))
        } else {
            Reading { failed: true, ..r }
        }
    } else {
        with_wires(r, line)
    }
}

/// The reading after the lines from place `k` on.
pub open spec fn read_lines(r: Reading, lines: Seq<Seq<char>>, k: int) -> Reading
    decreases lines.len() - k,
{
    if k >= lines.len() {
        r
    } else {
        read_lines(read_line(r, lines[k]), lines, k + 1)
    }
}

/// The reading before any line.
pub open spec fn blank_reading() -> Reading {
    Reading {
        started: false,
        stopped: false,
        failed: false,
        current: None,
        wires: Seq::empty(),
        parts: Seq::empty(),
    }
}

/// What the section `PARTS:` of a description says; nothing where a wire means nothing.
pub open spec fn spec_parts(lines: Seq<Seq<char>>) -> Option<Seq<PartSyntax>> {
    let r = read_lines(blank_reading(), lines, 0);
    if r.failed {
        None
    } else {
        Some(r.parts)
    }
}

pub proof fn lemma_read_stuck(r: Reading, lines: Seq<Seq<char>>, k: int)
    requires
        r.failed || r.stopped,
    ensures
        read_lines(r, lines, k) == r,
    decreases lines.len() - k,
{
    if k < lines.len() {
        lemma_read_stuck(r, lines, k + 1);
    }
}

/// Whether what the reader holds is what the reading says.
pub open spec fn holds(
    r: Reading,
    current: Option<String>,
    connections: Seq<Wire>,
    parts: Seq<Part>,
) -> bool {
    &&& wires_ok(connections)
    &&& parts_ok(parts)
    &&& wires_syntax(connections) == r.wires
    &&& parts_syntax(parts) == r.parts
    &&& match current {
        Some(name) => r.current == Some(name@),
        None => r.current is None,
    }
}

/// Closes the open part, if there is one.
fn close_part(
    current: &mut Option<String>,
    connections: &mut Vec<Wire>,
    parts: &mut Vec<Part>,
    Ghost(r): Ghost<Reading>,
)
    requires
        holds(r, *old(current), old(connections)@, old(parts)@),
    ensures
        holds(closed(r), *final(current), final(connections)@, final(parts)@),
        *final(current) is None,
{
    let taken = current.take();
    match taken {
        Some(name) => {
            let mut wires: Vec<Wire> = Vec::new();
            std::mem::swap(connections, &mut wires);
            let ghost before = parts@;
            let ghost p = PartSyntax { name: name@, wires: wires_syntax(wires@) };
            parts.push(Part { name, connections: wires });
            proof {
                assert(parts_syntax(parts@) =~= parts_syntax(before).push(p));
                assert(wires_syntax(connections@) =~= Seq::<WireSyntax>::empty());
                assert forall|i: int| 0 <= i < parts@.len() implies wires_ok(
                    (#[trigger] parts@[i]).connections@,
                ) by {
                    if i < before.len() {
                        assert(parts@[i] == before[i]);
                    }
                }
            }
        },
        None => {},
    }
}

/// Adds a complete part to the parts.
fn add_part(parts: &mut Vec<Part>, name: String, wires: Vec<Wire>)
    requires
        parts_ok(old(parts)@),
        wires_ok(wires@),
    ensures
        parts_ok(final(parts)@),
        parts_syntax(final(parts)@) == parts_syntax(old(parts)@).push(
            PartSyntax { name: name@, wires: wires_syntax(wires@) },
        ),
{
    let ghost before = parts@;
    let ghost p = PartSyntax { name: name@, wires: wires_syntax(wires@) };
    parts.push(Part { name, connections: wires });
    proof {
        assert(parts_syntax(parts@) =~= parts_syntax(before).push(p));
        assert forall|k: int| 0 <= k < parts@.len() implies wires_ok(
            (#[trigger] parts@[k]).connections@,
        ) by {
            if k < before.len() {
                assert(parts@[k] == before[k]);
            }
        }
    }
}

impl HdlParser {
    /// Reads the wires of a text into `connections`; a blank text has none.
    fn read_wires(&self, text: &str, connections: &mut Vec<Wire>) -> (r: Result<
        (),
        SimulatorError,
    >)
        requires
            wires_ok(old(connections)@),
        ensures
            wires_ok(final(connections)@),
            r is Ok <==> part_wires(text@) is Some,
            r is Ok ==> wires_syntax(final(connections)@) == wires_syntax(old(connections)@)
                + part_wires(text@)->Some_0,
            r is Err ==> r->Err_0 == SimulatorError::Parse(r->Err_0->Parse_0),
    {
        if trimmed(text).unicode_len() > 0 {
            self.parse_connections_line(text, connections)
        } else {
            assert(wires_syntax(connections@) + Seq::<WireSyntax>::empty() =~= wires_syntax(
                connections@,
            ));
            Ok(())
        }
    }

    /// Reads a line that holds a whole part.
    fn whole_part(
        &self,
        line: &str,
        paren: usize,
        current: &mut Option<String>,
        connections: &mut Vec<Wire>,
        parts: &mut Vec<Part>,
        Ghost(r): Ghost<Reading>,
    ) -> (res: Result<(), SimulatorError>)
        requires
            holds(r, *old(current), old(connections)@, old(parts)@),
            r.started && !r.stopped && !r.failed,
            line@ != "}"@,
            paren == index_of(line@, '(', 0, line@.len() as int),
            paren < line@.len(),
            line@[paren as int] == '(',
            has_suffix(line@, 0, line@.len() as int, ");"@),
        ensures
            res is Ok <==> !read_line(r, line@).failed,
            res is Ok ==> holds(
                read_line(r, line@),
                *final(current),
                final(connections)@,
                final(parts)@,
            ),
            res is Err ==> res->Err_0 == SimulatorError::Parse(res->Err_0->Parse_0),
    {
        let len: usize = line.unicode_len();
        proof {
            reveal_strlit(");");
            assert(line@.subrange(len - 2, len as int)[0] == ')');
            assert(line@.subrange(len - 2, len as int)[1] == ';');
        }
        close_part(current, connections, parts, Ghost(r));
        let name = String::from_str(trimmed(line.substring_char(0, paren)));
        let mut wires: Vec<Wire> = Vec::new();
        proof {
            assert(wires_syntax(wires@) =~= Seq::<WireSyntax>::empty());
        }
        match self.read_wires(line.substring_char(paren + 1, len - 2), &mut wires) {
            Ok(_) => {},
            Err(e) => {
                return Err(e);
            },
        }
        proof {
            assert(wires_syntax(wires@) =~= part_wires(
                line@.subrange(paren + 1, len - 2),
            )->Some_0);
        }
        add_part(parts, name, wires);
        Ok(())
    }

    /// Reads a line that opens a part.
    fn open_part(
        &self,
        line: &str,
        paren: usize,
        current: &mut Option<String>,
        connections: &mut Vec<Wire>,
        parts: &mut Vec<Part>,
        Ghost(r): Ghost<Reading>,
    ) -> (res: Result<(), SimulatorError>)
        requires
            holds(r, *old(current), old(connections)@, old(parts)@),
            r.started && !r.stopped && !r.failed,
            line@ != "}"@,
            paren == index_of(line@, '(', 0, line@.len() as int),
            paren < line@.len(),
            !has_suffix(line@, 0, line@.len() as int, ");"@),
        ensures
            res is Ok <==> !read_line(r, line@).failed,
            res is Ok ==> holds(
                read_line(r, line@),
                *final(current),
                final(connections)@,
                final(parts)@,
            ),
            res is Err ==> res->Err_0 == SimulatorError::Parse(res->Err_0->Parse_0),
    {
        let len: usize = line.unicode_len();
        close_part(current, connections, parts, Ghost(r));
        *current = Some(String::from_str(trimmed(line.substring_char(0, paren))));
        self.read_wires(line.substring_char(paren + 1, len), connections)
    }

    /// Reads a line that closes the open part.
    fn close_line(
        &self,
        line: &str,
        current: &mut Option<String>,
        connections: &mut Vec<Wire>,
        parts: &mut Vec<Part>,
        Ghost(r): Ghost<Reading>,
    ) -> (res: Result<(), SimulatorError>)
        requires
            holds(r, *old(current), old(connections)@, old(parts)@),
            r.started && !r.stopped && !r.failed,
            line@ != "}"@,
            index_of(line@, '(', 0, line@.len() as int) >= line@.len(),
            has_suffix(line@, 0, line@.len() as int, ");"@),
        ensures
            res is Ok <==> !read_line(r, line@).failed,
            res is Ok ==> holds(
                read_line(r, line@),
                *final(current),
                final(connections)@,
                final(parts)@,
            ),
            res is Err ==> res->Err_0 == SimulatorError::Parse(res->Err_0->Parse_0),
    {
        let len: usize = line.unicode_len();
        proof {
            reveal_strlit(");");
        }
        let text = line.substring_char(0, len - 2);
        match self.read_wires(text, connections) {
            Ok(_) => {},
            Err(e) => {
                return Err(e);
            },
        }
        close_part(current, connections, parts, Ghost(with_wires(r, text@)));
        Ok(())
    }

    /// Reads a line that holds more wires of the open part.
    fn more_wires(
        &self,
        line: &str,
        current: &mut Option<String>,
        connections: &mut Vec<Wire>,
        parts: &mut Vec<Part>,
        Ghost(r): Ghost<Reading>,
    ) -> (res: Result<(), SimulatorError>)
        requires
            holds(r, *old(current), old(connections)@, old(parts)@),
            r.started && !r.stopped && !r.failed,
            line@ != "}"@,
            index_of(line@, '(', 0, line@.len() as int) >= line@.len(),
            !has_suffix(line@, 0, line@.len() as int, ");"@),
        ensures
            res is Ok <==> !read_line(r, line@).failed,
            res is Ok ==> holds(
                read_line(r, line@),
                *final(current),
                final(connections)@,
                final(parts)@,
            ),
            res is Err ==> res->Err_0 == SimulatorError::Parse(res->Err_0->Parse_0),
    {
        self.read_wires(line, connections)
    }

    /// Reads the parts that stand after the line `PARTS:`.
    pub fn parse_parts_section(&self, lines: &Vec<&str>) -> (r: Result<Vec<Part>, SimulatorError>)
        ensures
            r is Ok <==> spec_parts(line_texts(lines@)) is Some,
            r is Ok ==> parts_syntax(r->Ok_0@) == spec_parts(line_texts(lines@))->Some_0
                && parts_ok(r->Ok_0@),
            r is Err ==> r->Err_0 == SimulatorError::Parse(r->Err_0->Parse_0),
    {
        let mut parts: Vec<Part> = Vec::new();
        let mut in_parts = false;
        let mut current_part: Option<String> = None;
        let mut current_connections: Vec<Wire> = Vec::new();
        let header = chars_of("PARTS:");
        let closing = chars_of(");");
        let ghost texts = line_texts(lines@);
        let ghost mut reading = blank_reading();
        proof {
            assert(parts_syntax(parts@) =~= reading.parts);
            assert(wires_syntax(current_connections@) =~= reading.wires);
        }
        let n: usize = lines.len();
        let mut i: usize = 0;
        while i < n
            invariant
                n == lines@.len(),
                i <= n,
                texts == line_texts(lines@),
                header@ == "PARTS:"@,
                closing@ == ");"@,
                holds(reading, current_part, current_connections@, parts@),
                !reading.failed,
                !reading.stopped,
                reading.started == in_parts,
                read_lines(reading, texts, i as int) == read_lines(blank_reading(), texts, 0),
            decreases n - i,
        {
            let line = lines[i];
            assert(texts[i as int] == line@);
            let ghost next = read_line(reading, line@);
            if !in_parts {
                let v = chars_of(line);
                if starts_with(&v, 0, v.len(), &header) {
                    in_parts = true;
                }
            } else if same(line, "}") {
                close_part(&mut current_part, &mut current_connections, &mut parts, Ghost(reading));
                proof {
                    lemma_read_stuck(next, texts, i + 1);
                }
                return Ok(parts);
            } else {
                let v = chars_of(line);
                let len: usize = v.len();
                let paren = find_char(&v, '(', 0, len);
                let ends = ends_with(&v, 0, len, &closing);
                let step = if paren < len && ends {
                    self.whole_part(
                        line,
                        paren,
                        &mut current_part,
                        &mut current_connections,
                        &mut parts,
                        Ghost(reading),
                    )
                } else if paren < len {
                    self.open_part(
                        line,
                        paren,
                        &mut current_part,
                        &mut current_connections,
                        &mut parts,
                        Ghost(reading),
                    )
                } else if ends {
                    self.close_line(
                        line,
                        &mut current_part,
                        &mut current_connections,
                        &mut parts,
                        Ghost(reading),
                    )
                } else {
                    self.more_wires(
                        line,
                        &mut current_part,
                        &mut current_connections,
                        &mut parts,
                        Ghost(reading),
                    )
                };
                match step {
                    Ok(_) => {},
                    Err(e) => {
                        proof {
                            lemma_read_stuck(next, texts, i + 1);
                        }
                        return Err(e);
                    },
                }
            }
            proof {
                reading = next;
            }
            i += 1;
        }
        Ok(parts)
    }
}

/// What a description says.
pub struct ChipSyntax {
    pub name: Seq<char>,
    pub inputs: Seq<(Seq<char>, Option<u16>)>,
    pub outputs: Seq<(Seq<char>, Option<u16>)>,
    pub parts: Seq<PartSyntax>,
    pub is_builtin: bool,
}

/// What a syntax tree says.
pub open spec fn chip_syntax(chip: HdlChip) -> ChipSyntax {
    ChipSyntax {
        name: chip.name@,
        inputs: decls_syntax(chip.inputs@),
        outputs: decls_syntax(chip.outputs@),
        parts: parts_syntax(chip.parts@),
        is_builtin: chip.is_builtin,
    }
}

/// What the text of a description means. Of its lines only those count
/// that are not blank and no comment. The first must begin with `CHIP `
/// and names the chip. The sections `IN` and `OUT` declare the pins. A
/// line `BUILTIN;` makes the chip built in, and its parts are then not
/// read; else the parts stand after `PARTS:`.
pub open spec fn spec_chip(source: Seq<char>) -> Option<ChipSyntax> {
    let lines = spec_lines(source);
    if lines.len() == 0 || !has_prefix(lines[0], 0, lines[0].len() as int, "CHIP "@) {
        None
    } else {
        match (spec_pin_section(lines, "IN"@), spec_pin_section(lines, "OUT"@)) {
            (Some(ins), Some(outs)) => if says_builtin(lines) {
                Some(
                    ChipSyntax {
                        name: spec_chip_name(lines[0]),
                        inputs: ins,
                        outputs: outs,
                        parts: Seq::empty(),
                        is_builtin: true,
                    },
                )
            } else {
                match spec_parts(lines) {
                    Some(parts) => Some(
                        ChipSyntax {
                            name: spec_chip_name(lines[0]),
                            inputs: ins,
                            outputs: outs,
                            parts: parts,
                            is_builtin: false,
                        },
                    ),
                    None => None,
                }
            },
            _ => None,
        }
    }
}

/// The name of the chip in the line `CHIP name {`.
fn chip_name(line: &str) -> (r: String)
    requires
        has_prefix(line@, 0, line@.len() as int, "CHIP "@),
    ensures
        r@ == spec_chip_name(line@),
{
    proof {
        reveal_strlit("CHIP ");
    }
    let len: usize = line.unicode_len();
    let rest = line.substring_char(5, len);
    let v = chars_of(rest);
    let brace = chars_of(" {");
    proof {
        reveal_strlit(" {");
    }
    let mut to: usize = v.len();
    while to >= 2 && ends_with(&v, 0, to, &brace)
        invariant
            to <= v@.len(),
            brace@ == " {"@,
            before_brace(v@, to as int) == before_brace(v@, v@.len() as int),
        decreases to,
    {
        to -= 2;
    }
    String::from_str(trimmed(rest.substring_char(0, to)))
}

/// Whether one of the lines is `BUILTIN;`.
fn has_builtin_line(lines: &Vec<&str>) -> (r: bool)
    ensures
        r == says_builtin(line_texts(lines@)),
{
    let n: usize = lines.len();
    let mut i: usize = 0;
    while i < n
        invariant
            n == lines@.len(),
            i <= n,
            forall|j: int| 0 <= j < i ==> line_texts(lines@)[j] != "BUILTIN;"@,
        decreases n - i,
    {
        if same(lines[i], "BUILTIN;") {
            assert(line_texts(lines@)[i as int] == "BUILTIN;"@);
            return true;
        }
        i += 1;
    }
    false
}

impl HdlParser {
    /// Reads the description of a chip.
    pub fn parse(&mut self, source: &str) -> (r: Result<HdlChip, SimulatorError>)
        ensures
            r is Ok <==> spec_chip(source@) is Some,
            r is Ok ==> chip_syntax(r->Ok_0) == spec_chip(source@)->Some_0 && parts_ok(
                r->Ok_0.parts@,
            ) && r->Ok_0.clocked_pins@.len() == 0,
            r is Err ==> r->Err_0 == SimulatorError::Parse(r->Err_0->Parse_0),
    {
        let lines = useful_lines(source);
        assert(line_texts(lines@) =~= spec_lines(source@));
        if lines.len() == 0 {
            return Err(parse_error("Empty HDL file", ""));
        }
        let head = chars_of(lines[0]);
        let word = chars_of("CHIP ");
        if !starts_with(&head, 0, head.len(), &word) {
            return Err(parse_error("Expected CHIP declaration", ""));
        }
        let name = chip_name(lines[0]);
        let is_builtin = has_builtin_line(&lines);
        let inputs = match self.parse_pin_section(&lines, "IN") {
            Ok(pins) => pins,
            Err(e) => {
                return Err(e);
            },
        };
        let outputs = match self.parse_pin_section(&lines, "OUT") {
            Ok(pins) => pins,
            Err(e) => {
                return Err(e);
            },
        };
        let parts = if !is_builtin {
            match self.parse_parts_section(&lines) {
                Ok(parts) => parts,
                Err(e) => {
                    return Err(e);
                },
            }
        } else {
            Vec::new()
        };
        proof {
            if is_builtin {
                assert(parts_syntax(parts@) =~= Seq::<PartSyntax>::empty());
            }
        }
        Ok(HdlChip { name, inputs, outputs, parts, is_builtin, clocked_pins: Vec::new() })
    }
}

} // verus!

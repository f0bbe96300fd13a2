use vstd::prelude::*;
use vstd::string::{StrSliceExecFns, StringExecFns};

verus! {

/// The decimal digit `d`, as a one-character text.
pub open spec fn digit(d: nat) -> Seq<char> {
    if d == 0 {
        "0"@
    } else if d == 1 {
        "1"@
    } else if d == 2 {
        "2"@
    } else if d == 3 {
        "3"@
    } else if d == 4 {
        "4"@
    } else if d == 5 {
        "5"@
    } else if d == 6 {
        "6"@
    } else if d == 7 {
        "7"@
    } else if d == 8 {
        "8"@
    } else {
        "9"@
    }
}

/// `n` written in decimal, without leading zeros.
pub open spec fn spec_decimal(n: nat) -> Seq<char>
    decreases n,
{
    if n < 10 {
        digit(n)
    } else {
        spec_decimal(n / 10) + digit(n % 10)
    }
}

fn digit_text(d: u64) -> (r: &'static str)
    requires
        d < 10,
    ensures
        r@ == digit(d as nat),
{
    if d == 0 {
        "0"
    } else if d == 1 {
        "1"
    } else if d == 2 {
        "2"
    } else if d == 3 {
        "3"
    } else if d == 4 {
        "4"
    } else if d == 5 {
        "5"
    } else if d == 6 {
        "6"
    } else if d == 7 {
        "7"
    } else if d == 8 {
        "8"
    } else {
        "9"
    }
}

/// Writes `n` in decimal.
pub fn decimal(n: u64) -> (r: String)
    ensures
        r@ == spec_decimal(n as nat),
    decreases n,
{
    if n < 10 {
        String::from_str(digit_text(n))
    } else {
        let mut head = decimal(n / 10);
        head.append(digit_text(n % 10));
        head
    }
}

/// `count` spaces.
pub open spec fn spaces(count: nat) -> Seq<char>
    decreases count,
{
    if count == 0 {
        Seq::empty()
    } else {
        spaces((count - 1) as nat) + " "@
    }
}

/// `text` followed by as many spaces as it takes to fill `len` characters.
pub open spec fn pad_right(text: Seq<char>, len: nat) -> Seq<char> {
    if text.len() >= len {
        text
    } else {
        text + spaces((len - text.len()) as nat)
    }
}

/// Fills `text` with spaces on the right up to `len` characters.
pub fn padded(text: String, len: usize) -> (r: String)
    ensures
        r@ == pad_right(text@, len as nat),
{
    let have: usize = text.as_str().unicode_len();
    let mut out = text;
    if have >= len {
        return out;
    }
    let mut i: usize = have;
    while i < len
        invariant
            have <= i <= len,
            out@ == text@ + spaces((i - have) as nat),
        decreases len - i,
    {
        out.append(" ");
        i += 1;
        assert(spaces((i - have) as nat) == spaces((i - 1 - have) as nat) + " "@);
        assert(out@ =~= text@ + spaces((i - have) as nat));
    }
    out
}

/// Whether two texts hold the same characters.
pub fn same(a: &str, b: &str) -> (r: bool)
    ensures
        r == (a@ == b@),
{
    let x = String::from_str(a);
    let y = String::from_str(b);
    x == y
}

/// What `char::is_whitespace` says of a character: whether it has the
/// Unicode property White_Space.
pub uninterp spec fn is_space(c: char) -> bool;

/// Asks `char::is_whitespace` of std. The answer depends on the
/// character alone; the contract gives it its name and claims nothing more.
#[verifier::external_body]
pub(crate) fn space(c: char) -> (r: bool)
    ensures
        r == is_space(c),
{
    c.is_whitespace()
}

/// The characters of a text.
pub fn chars_of(s: &str) -> (r: Vec<char>)
    ensures
        r@ == s@,
{
    let n: usize = s.unicode_len();
    let mut out: Vec<char> = Vec::new();
    let mut i: usize = 0;
    while i < n
        invariant
            n == s@.len(),
            i <= n,
            out@ == s@.subrange(0, i as int),
        decreases n - i,
    {
        out.push(s.get_char(i));
        i += 1;
        assert(out@ =~= s@.subrange(0, i as int));
    }
    assert(s@.subrange(0, n as int) =~= s@);
    out
}

/// The first place in `[from, to)` at which `s` holds `c`, or `to`.
pub open spec fn index_of(s: Seq<char>, c: char, from: int, to: int) -> int
    decreases to - from,
{
    if from >= to {
        to
    } else if s[from] == c {
        from
    } else {
        index_of(s, c, from + 1, to)
    }
}

pub fn find_char(v: &Vec<char>, c: char, from: usize, to: usize) -> (r: usize)
    requires
        from <= to <= v@.len(),
    ensures
        r == index_of(v@, c, from as int, to as int),
        from <= r <= to,
        r < to ==> v@[r as int] == c,
{
    let mut i: usize = from;
    while i < to
        invariant
            from <= i <= to <= v@.len(),
            index_of(v@, c, i as int, to as int) == index_of(v@, c, from as int, to as int),
        decreases to - i,
    {
        if v[i] == c {
            return i;
        }
        i += 1;
    }
    i
}

/// The first place in `[from, to)` at which `s` holds no white space, or `to`.
pub open spec fn first_ink(s: Seq<char>, from: int, to: int) -> int
    decreases to - from,
{
    if from >= to {
        to
    } else if !is_space(s[from]) {
        from
    } else {
        first_ink(s, from + 1, to)
    }
}

/// The end of what `[from, to)` holds before its trailing white space.
pub open spec fn last_ink(s: Seq<char>, from: int, to: int) -> int
    decreases to - from,
{
    if to <= from {
        from
    } else if !is_space(s[to - 1]) {
        to
    } else {
        last_ink(s, from, to - 1)
    }
}

/// The bounds of `[from, to)` without the white space at its two ends.
pub fn trim_range(v: &Vec<char>, from: usize, to: usize) -> (r: (usize, usize))
    requires
        from <= to <= v@.len(),
    ensures
        r.0 == first_ink(v@, from as int, to as int),
        r.1 == last_ink(v@, r.0 as int, to as int),
        from <= r.0 <= r.1 <= to,
{
    let mut a: usize = from;
    while a < to && space(v[a])
        invariant
            from <= a <= to <= v@.len(),
            first_ink(v@, a as int, to as int) == first_ink(v@, from as int, to as int),
        decreases to - a,
    {
        a += 1;
    }
    let mut b: usize = to;
    while b > a && space(v[b - 1])
        invariant
            a <= b <= to <= v@.len(),
            last_ink(v@, a as int, b as int) == last_ink(v@, a as int, to as int),
        decreases b,
    {
        b -= 1;
    }
    (a, b)
}

/// Whether `s` holds `pat` at `from`, within `[from, to)`.
pub open spec fn has_prefix(s: Seq<char>, from: int, to: int, pat: Seq<char>) -> bool {
    from + pat.len() <= to && s.subrange(from, from + pat.len()) == pat
}

pub fn starts_with(v: &Vec<char>, from: usize, to: usize, pat: &Vec<char>) -> (r: bool)
    requires
        from <= to <= v@.len(),
    ensures
        r == has_prefix(v@, from as int, to as int, pat@),
{
    let n: usize = pat.len();
    if n > to - from {
        return false;
    }
    let mut i: usize = 0;
    while i < n
        invariant
            from + n <= to <= v@.len(),
            n == pat@.len(),
            i <= n,
            v@.subrange(from as int, from + i) == pat@.subrange(0, i as int),
        decreases n - i,
    {
        if v[from + i] != pat[i] {
            assert(v@.subrange(from as int, from + n)[i as int] != pat@[i as int]);
            return false;
        }
        i += 1;
        assert(v@.subrange(from as int, from + i) =~= pat@.subrange(0, i as int)) by {
            assert forall|j: int| 0 <= j < i implies v@.subrange(from as int, from + i)[j]
                == pat@.subrange(0, i as int)[j] by {
                if j < i - 1 {
                    assert(v@.subrange(from as int, from + i - 1)[j] == pat@.subrange(
                        0,
                        i - 1,
                    )[j]);
                }
            }
        }
    }
    assert(pat@.subrange(0, n as int) =~= pat@);
    true
}

/// Whether `s` holds `pat` at its end, within `[from, to)`.
pub open spec fn has_suffix(s: Seq<char>, from: int, to: int, pat: Seq<char>) -> bool {
    from + pat.len() <= to && s.subrange(to - pat.len(), to) == pat
}

pub fn ends_with(v: &Vec<char>, from: usize, to: usize, pat: &Vec<char>) -> (r: bool)
    requires
        from <= to <= v@.len(),
    ensures
        r == has_suffix(v@, from as int, to as int, pat@),
{
    let n: usize = pat.len();
    if n > to - from {
        return false;
    }
    starts_with(v, to - n, to, pat)
}

/// The first place in `[from, to)` at which `s` holds `pat`, or `to`.
pub open spec fn find_pattern(s: Seq<char>, from: int, to: int, pat: Seq<char>) -> int
    decreases to - from,
{
    if from >= to {
        to
    } else if has_prefix(s, from, to, pat) {
        from
    } else {
        find_pattern(s, from + 1, to, pat)
    }
}

pub fn find_sub(v: &Vec<char>, from: usize, to: usize, pat: &Vec<char>) -> (r: usize)
    requires
        from <= to <= v@.len(),
    ensures
        r == find_pattern(v@, from as int, to as int, pat@),
        from <= r <= to,
        r < to ==> has_prefix(v@, r as int, to as int, pat@),
{
    let mut i: usize = from;
    while i < to
        invariant
            from <= i <= to <= v@.len(),
            find_pattern(v@, i as int, to as int, pat@) == find_pattern(
                v@,
                from as int,
                to as int,
                pat@,
            ),
        decreases to - i,
    {
        if starts_with(v, i, to, pat) {
            return i;
        }
        i += 1;
    }
    i
}

/// The value of a decimal digit.
pub open spec fn digit_value(c: char) -> int {
    c as int - '0' as int
}

pub open spec fn is_digit(c: char) -> bool {
    '0' <= c <= '9'
}

/// Whether `[from, to)` of `s` holds digits only.
pub open spec fn all_digits(s: Seq<char>, from: int, to: int) -> bool {
    forall|i: int| from <= i < to ==> is_digit(#[trigger] s[i])
}

/// The number that the digits `[from, to)` of `s` write.
pub open spec fn digits_value(s: Seq<char>, from: int, to: int) -> nat
    decreases to - from,
{
    if to <= from {
        0
    } else {
        (digits_value(s, from, to - 1) * 10 + digit_value(s[to - 1])) as nat
    }
}

/// The number that `[from, to)` of `s` writes: an optional plus sign, then
/// one digit or more; none above `limit`.
pub open spec fn number_at(s: Seq<char>, from: int, to: int, limit: nat) -> Option<nat> {
    let start = if from < to && s[from] == '+' {
        from + 1
    } else {
        from
    };
    if start < to && all_digits(s, start, to) && digits_value(s, start, to) <= limit {
        Some(digits_value(s, start, to))
    } else {
        None
    }
}

/// The value of digits grows with their number.
pub proof fn lemma_digits_grow(s: Seq<char>, from: int, mid: int, to: int)
    requires
        from <= mid <= to,
        all_digits(s, from, to),
    ensures
        digits_value(s, from, mid) <= digits_value(s, from, to),
    decreases to - mid,
{
    if mid < to {
        lemma_digits_grow(s, from, mid, to - 1);
        assert(is_digit(s[to - 1]));
    }
}

/// Reads the number that `[from, to)` writes.
pub fn parse_number(v: &Vec<char>, from: usize, to: usize, limit: u64) -> (r: Option<u64>)
    requires
        from <= to <= v@.len(),
    ensures
        match number_at(v@, from as int, to as int, limit as nat) {
            Some(n) => r == Some(n as u64),
            None => r is None,
        },
{
    let start: usize = if from < to && v[from] == '+' {
        from + 1
    } else {
        from
    };
    if start >= to {
        return None;
    }
    let mut value: u64 = 0;
    let mut i: usize = start;
    while i < to
        invariant
            start <= i <= to <= v@.len(),
            start as int == (if from < to && v@[from as int] == '+' {
                from + 1
            } else {
                from as int
            }),
            all_digits(v@, start as int, i as int),
            value == digits_value(v@, start as int, i as int),
            value <= limit,
        decreases to - i,
    {
        let c = v[i];
        if c < '0' || c > '9' {
            assert(!is_digit(v@[i as int]));
            assert(!all_digits(v@, start as int, to as int));
            return None;
        }
        let d: u64 = (c as u32 - '0' as u32) as u64;
        assert(d == digit_value(c));
        if limit < d || value > (limit - d) / 10 {
            proof {
                if all_digits(v@, start as int, to as int) {
                    lemma_digits_grow(v@, start as int, i + 1, to as int);
                    assert(digits_value(v@, start as int, i + 1) == value * 10 + d);
                }
            }
            return None;
        }
        assert(is_digit(v@[i as int]));
        value = value * 10 + d;
        i += 1;
    }
    Some(value)
}

/// A text without the white space at its two ends.
pub open spec fn spec_trim(s: Seq<char>) -> Seq<char> {
    let a = first_ink(s, 0, s.len() as int);
    s.subrange(a, last_ink(s, a, s.len() as int))
}

/// The text without the white space at its two ends.
pub fn trimmed<'a>(text: &'a str) -> (r: &'a str)
    ensures
        r@ == spec_trim(text@),
{
    let v = chars_of(text);
    let (a, b) = trim_range(&v, 0, v.len());
    text.substring_char(a, b)
}

/// The pieces of `s` from `from` on between the characters `c`.
pub open spec fn spec_split(s: Seq<char>, c: char, from: int) -> Seq<Seq<char>>
    decreases s.len() - from,
{
    let to = s.len() as int;
    let at = index_of(s, c, from, to);
    if from > to {
        Seq::empty()
    } else if at >= to || at < from {
        seq![s.subrange(from, to)]
    } else {
        seq![s.subrange(from, at)] + spec_split(s, c, at + 1)
    }
}

/// Whether the texts are the pieces, one for one.
pub open spec fn same_pieces(texts: Seq<&str>, pieces: Seq<Seq<char>>) -> bool {
    &&& texts.len() == pieces.len()
    &&& forall|i: int| 0 <= i < texts.len() ==> (#[trigger] texts[i])@ == pieces[i]
}

/// Cuts the text at every character `c`.
pub fn split<'a>(text: &'a str, c: char) -> (r: Vec<&'a str>)
    ensures
        same_pieces(r@, spec_split(text@, c, 0)),
{
    let v = chars_of(text);
    let n: usize = v.len();
    let mut out: Vec<&'a str> = Vec::new();
    let mut from: usize = 0;
    let ghost mut done: Seq<Seq<char>> = Seq::empty();
    loop
        invariant
            n == v@.len(),
            v@ == text@,
            from <= n,
            same_pieces(out@, done),
            done + spec_split(text@, c, from as int) == spec_split(text@, c, 0),
        decreases n - from,
    {
        let at = find_char(&v, c, from, n);
        let piece = text.substring_char(from, at);
        out.push(piece);
        if at >= n {
            proof {
                let full = done + spec_split(text@, c, from as int);
                assert(full =~= done.push(text@.subrange(from as int, n as int)));
                assert(same_pieces(out@, done.push(text@.subrange(from as int, n as int))));
            }
            return out;
        }
        proof {
            let rest = spec_split(text@, c, at + 1);
            assert(done + (seq![text@.subrange(from as int, at as int)] + rest) =~= done.push(
                text@.subrange(from as int, at as int),
            ) + rest);
            done = done.push(text@.subrange(from as int, at as int));
        }
        from = at + 1;
    }
}

} // verus!

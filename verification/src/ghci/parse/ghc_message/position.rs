//! Positions and position ranges in GHC diagnostics.
use vstd::prelude::*;

use crate::ghci::parse::scan::{
    digit_value, digits_value, is_digit, lemma_digits_end, parse_usize, starts_with_at, str_at, usize_at,
    digits_end, SyntaxError,
};
use crate::text::{chars_of, decimal_seq, push_char, push_decimal};

verus! {

/// A position in a file.
#[derive(Debug, Clone, Copy, PartialEq, Eq, Structural)]
pub struct Position {
    /// 1-based line number.
    line: usize,
    /// 1-based column number.
    column: usize,
}

impl Position {
    /// The line number.
    pub closed spec fn spec_line(&self) -> usize {
        self.line
    }

    /// The column number.
    pub closed spec fn spec_column(&self) -> usize {
        self.column
    }

    /// Construct a new [`Position`] from a line and column number.
    pub fn new(line: usize, column: usize) -> (r: Self)
        ensures
            r.spec_line() == line,
            r.spec_column() == column,
    {
        Position { line, column }
    }
}

/// A range (span) of positions in a file.
#[derive(Debug, Clone, Copy, PartialEq, Eq, Structural)]
pub struct PositionRange {
    /// The start position.
    start: Position,
    /// The end position. If the span is zero-length, this will be the same as the start position.
    end: Position,
}

impl PositionRange {
    /// The span as `(start line, start column, end line, end column)`.
    pub closed spec fn spec_parts(&self) -> (usize, usize, usize, usize) {
        (self.start.line, self.start.column, self.end.line, self.end.column)
    }

    /// Construct a new span from the given lines and columns.
    pub fn new(start_line: usize, start_column: usize, end_line: usize, end_column: usize) -> (r:
        Self)
        ensures
            r.spec_parts() == (start_line, start_column, end_line, end_column),
    {
        PositionRange {
            start: Position { line: start_line, column: start_column },
            end: Position { line: end_line, column: end_column },
        }
    }

    /// The all-zero span, used for diagnostics without a location.
    pub fn zero() -> (r: Self)
        ensures
            r.spec_parts() == (0usize, 0usize, 0usize, 0usize),
    {
        Self::new(0, 0, 0, 0)
    }

    /// Is this the all-zero span?
    pub fn is_zero(&self) -> (r: bool)
        ensures
            r == (self.spec_parts() == (0usize, 0usize, 0usize, 0usize)),
    {
        self.start.line == 0 && self.start.column == 0 && self.end.line == 0 && self.end.column
            == 0
    }

    /// The span as GHC prints it, without the trailing colon; see [`position_range_text`].
    pub fn to_string(&self) -> (r: String)
        ensures
            r@ == position_range_text(self.spec_parts()),
    {
        let mut r = String::new();
        if self.start.line == self.end.line {
            push_decimal(&mut r, self.start.line);
            push_char(&mut r, ':');
            push_decimal(&mut r, self.start.column);
            if self.start.column != self.end.column {
                push_char(&mut r, '-');
                push_decimal(&mut r, self.end.column);
            }
        } else {
            push_char(&mut r, '(');
            push_decimal(&mut r, self.start.line);
            push_char(&mut r, ',');
            push_decimal(&mut r, self.start.column);
            push_char(&mut r, ')');
            push_char(&mut r, '-');
            push_char(&mut r, '(');
            push_decimal(&mut r, self.end.line);
            push_char(&mut r, ',');
            push_decimal(&mut r, self.end.column);
            push_char(&mut r, ')');
        }
        assert(r@ =~= position_range_text(self.spec_parts()));
        r
    }
}

impl Default for PositionRange {
    fn default() -> (r: Self)
        ensures
            r.spec_parts() == (0usize, 0usize, 0usize, 0usize),
    {
        Self::zero()
    }
}

/// How GHC prints a span: `line:column` when it is one point, `line:start-end` on one line, and
/// `(line,column)-(line,column)` across lines.
pub open spec fn position_range_text(p: (usize, usize, usize, usize)) -> Seq<char> {
    let (l1, c1, l2, c2) = p;
    if l1 == l2 {
        if c1 == c2 {
            decimal_seq(l1 as nat) + seq![':'] + decimal_seq(c1 as nat)
        } else {
            decimal_seq(l1 as nat) + seq![':'] + decimal_seq(c1 as nat) + seq!['-'] + decimal_seq(
                c2 as nat,
            )
        }
    } else {
        seq!['('] + decimal_seq(l1 as nat) + seq![','] + decimal_seq(c1 as nat) + seq![')', '-', '(']
            + decimal_seq(l2 as nat) + seq![','] + decimal_seq(c2 as nat) + seq![')']
    }
}

/// The multi-line form `(l,c)-(l,c):` at `i`.
pub open spec fn full_position_range_at(s: Seq<char>, i: int) -> Option<(int, (usize, usize, usize, usize))> {
    if starts_with_at(s, i, seq!['(']) {
        match usize_at(s, i + 1) {
            Some((a, l1)) => if starts_with_at(s, a, seq![',']) {
                match usize_at(s, a + 1) {
                    Some((b, c1)) => if starts_with_at(s, b, seq![')', '-', '(']) {
                        match usize_at(s, b + 3) {
                            Some((c, l2)) => if starts_with_at(s, c, seq![',']) {
                                match usize_at(s, c + 1) {
                                    Some((d, c2)) => if starts_with_at(s, d, seq![')', ':']) {
                                        Some((d + 2, (l1 as usize, c1 as usize, l2 as usize, c2 as usize)))
                                    } else {
                                        None
                                    },
                                    None => None,
                                }
                            } else {
                                None
                            },
                            None => None,
                        }
                    } else {
                        None
                    },
                    None => None,
                }
            } else {
                None
            },
            None => None,
        }
    } else {
        None
    }
}

/// The single-line forms `l:c:` and `l:c-c:` at `i`.
pub open spec fn single_line_position_range_at(s: Seq<char>, i: int) -> Option<(int, (usize, usize, usize, usize))> {
    match usize_at(s, i) {
        Some((a, l)) => if starts_with_at(s, a, seq![':']) {
            match usize_at(s, a + 1) {
                Some((b, c1)) => {
                    let (k, c2) = if starts_with_at(s, b, seq!['-']) && usize_at(s, b + 1) is Some {
                        usize_at(s, b + 1)->0
                    } else {
                        (b, c1)
                    };
                    if starts_with_at(s, k, seq![':']) {
                        Some((k + 1, (l as usize, c1 as usize, l as usize, c2 as usize)))
                    } else {
                        None
                    }
                },
                None => None,
            }
        } else {
            None
        },
        None => None,
    }
}

/// A position range followed by a colon at `i`, in one of the forms `1:2:`, `1:2-4:` or
/// `(1,2)-(3,4):`; `Some` of the index after the colon and the span's parts.
pub open spec fn position_range_at(s: Seq<char>, i: int) -> Option<(int, (usize, usize, usize, usize))> {
    if full_position_range_at(s, i) is Some {
        full_position_range_at(s, i)
    } else {
        single_line_position_range_at(s, i)
    }
}

fn char_at(s: &Vec<char>, i: usize, c: char) -> (r: bool)
    ensures
        r == starts_with_at(s@, i as int, seq![c]),
        r ==> i < s.len(),
{
    if i < s.len() && s[i] == c {
        assert(s@.subrange(i as int, i + 1) =~= seq![c]);
        true
    } else {
        assert(!starts_with_at(s@, i as int, seq![c])) by {
            if starts_with_at(s@, i as int, seq![c]) {
                assert(s@.subrange(i as int, i + 1)[0] == s@[i as int]);
            }
        }
        false
    }
}

fn scan_usize(s: &Vec<char>, i: usize) -> (r: Option<(usize, usize)>)
    ensures
        match r {
            Some((e, v)) => usize_at(s@, i as int) == Some((e as int, v as nat)) && i < e <= s.len(),
            None => usize_at(s@, i as int) is None,
        },
{
    if i > s.len() {
        return None;
    }
    proof {
        lemma_digits_end(s@, i as int);
    }
    parse_usize(s, i)
}

fn scan_full_position_range(s: &Vec<char>, i: usize) -> (r: Option<(usize, PositionRange)>)
    ensures
        match r {
            Some((e, p)) => full_position_range_at(s@, i as int) == Some((e as int, p.spec_parts())),
            None => full_position_range_at(s@, i as int) is None,
        },
        r matches Some((e, _)) ==> e <= s.len(),
{
    if !char_at(s, i, '(') {
        return None;
    }
    let (a, l1) = match scan_usize(s, i + 1) { Some(x) => x, None => return None };
    if !char_at(s, a, ',') {
        return None;
    }
    let (b, c1) = match scan_usize(s, a + 1) { Some(x) => x, None => return None };
    if !(char_at(s, b, ')') && char_at(s, b + 1, '-') && char_at(s, b + 2, '(')) {
        assert(!starts_with_at(s@, b as int, seq![')', '-', '('])) by {
            if starts_with_at(s@, b as int, seq![')', '-', '(']) {
                let t = s@.subrange(b as int, b + 3);
                assert(t[0] == s@[b as int] && t[1] == s@[b + 1] && t[2] == s@[b + 2]);
                assert(s@.subrange(b as int, b + 1) =~= seq![')']);
                assert(s@.subrange(b + 1, b + 2) =~= seq!['-']);
                assert(s@.subrange(b + 2, b + 3) =~= seq!['(']);
            }
        }
        return None;
    }
    assert(s@.subrange(b as int, b + 1)[0] == s@[b as int]);
    assert(s@.subrange(b + 1, b + 2)[0] == s@[b + 1]);
    assert(s@.subrange(b + 2, b + 3)[0] == s@[b + 2]);
    assert(s@.subrange(b as int, b + 3) =~= seq![')', '-', '(']);
    let (c, l2) = match scan_usize(s, b + 3) { Some(x) => x, None => return None };
    if !char_at(s, c, ',') {
        return None;
    }
    let (d, c2) = match scan_usize(s, c + 1) { Some(x) => x, None => return None };
    if !(char_at(s, d, ')') && char_at(s, d + 1, ':')) {
        assert(!starts_with_at(s@, d as int, seq![')', ':'])) by {
            if starts_with_at(s@, d as int, seq![')', ':']) {
                let t = s@.subrange(d as int, d + 2);
                assert(t[0] == s@[d as int] && t[1] == s@[d + 1]);
                assert(s@.subrange(d as int, d + 1) =~= seq![')']);
                assert(s@.subrange(d + 1, d + 2) =~= seq![':']);
            }
        }
        return None;
    }
    assert(s@.subrange(d as int, d + 1)[0] == s@[d as int]);
    assert(s@.subrange(d + 1, d + 2)[0] == s@[d + 1]);
    assert(s@.subrange(d as int, d + 2) =~= seq![')', ':']);
    Some((d + 2, PositionRange::new(l1, c1, l2, c2)))
}

fn scan_single_line_position_range(s: &Vec<char>, i: usize) -> (r: Option<(usize, PositionRange)>)
    ensures
        match r {
            Some((e, p)) => single_line_position_range_at(s@, i as int) == Some((e as int, p.spec_parts())),
            None => single_line_position_range_at(s@, i as int) is None,
        },
        r matches Some((e, _)) ==> e <= s.len(),
{
    let (a, l) = match scan_usize(s, i) { Some(x) => x, None => return None };
    if !char_at(s, a, ':') {
        return None;
    }
    let (b, c1) = match scan_usize(s, a + 1) { Some(x) => x, None => return None };
    let mut k = b;
    let mut c2 = c1;
    if char_at(s, b, '-') {
        match scan_usize(s, b + 1) {
            Some((k2, v)) => {
                k = k2;
                c2 = v;
            },
            None => {},
        }
    }
    if !char_at(s, k, ':') {
        return None;
    }
    Some((k + 1, PositionRange::new(l, c1, l, c2)))
}

/// Parse a position range and its colon at `i`; see [`position_range_at`].
pub fn scan_position_range(s: &Vec<char>, i: usize) -> (r: Option<(usize, PositionRange)>)
    ensures
        match r {
            Some((e, p)) => position_range_at(s@, i as int) == Some((e as int, p.spec_parts())),
            None => position_range_at(s@, i as int) is None,
        },
        r matches Some((e, _)) ==> e <= s.len(),
{
    match scan_full_position_range(s, i) {
        Some(x) => Some(x),
        None => scan_single_line_position_range(s, i),
    }
}

/// Parse a complete input as a position range followed by a colon.
pub fn parse_position_range(input: &str) -> (r: Result<PositionRange, SyntaxError>)
    ensures
        match position_range_at(input@, 0) {
            Some((e, p)) if e == input@.len() => r is Ok && r->Ok_0.spec_parts() == p,
            _ => r is Err,
        },
{
    let s = chars_of(input);
    match scan_position_range(&s, 0) {
        Some((e, p)) if e == s.len() => Ok(p),
        _ => Err(SyntaxError),
    }
}

/// An "unhelpful" source location followed by a colon at `i`: `<no location info>:`,
/// `<compiler-generated code>:` or `<interactive>:`; `Some` of the index after it.
pub open spec fn unhelpful_position_at(s: Seq<char>, i: int) -> Option<int> {
    if starts_with_at(s, i, "<no location info>:"@) {
        Some(i + "<no location info>:"@.len())
    } else if starts_with_at(s, i, "<compiler-generated code>:"@) {
        Some(i + "<compiler-generated code>:"@.len())
    } else if starts_with_at(s, i, "<interactive>:"@) {
        Some(i + "<interactive>:"@.len())
    } else {
        None
    }
}

/// Parse an unhelpful source location at `i`; see [`unhelpful_position_at`].
pub fn scan_unhelpful_position(s: &Vec<char>, i: usize) -> (r: Option<usize>)
    requires
        i <= s.len(),
    ensures
        match r {
            Some(e) => unhelpful_position_at(s@, i as int) == Some(e as int),
            None => unhelpful_position_at(s@, i as int) is None,
        },
        r matches Some(e) ==> e <= s.len(),
{
    if str_at(s, i, "<no location info>:") {
        Some(i + chars_of("<no location info>:").len())
    } else if str_at(s, i, "<compiler-generated code>:") {
        Some(i + chars_of("<compiler-generated code>:").len())
    } else if str_at(s, i, "<interactive>:") {
        Some(i + chars_of("<interactive>:").len())
    } else {
        None
    }
}

/// Parse a complete input as an unhelpful source location followed by a colon.
pub fn parse_unhelpful_position(input: &str) -> (r: Result<String, SyntaxError>)
    ensures
        unhelpful_position_at(input@, 0) == Some(input@.len() as int) ==> r is Ok && r->Ok_0@
            == input@,
        unhelpful_position_at(input@, 0) != Some(input@.len() as int) ==> r is Err,
{
    let s = chars_of(input);
    match scan_unhelpful_position(&s, 0) {
        Some(e) if e == s.len() => {
            assert(s@.subrange(0, e as int) =~= s@);
            Ok(crate::text::string_of_range(&s, 0, e))
        },
        _ => Err(SyntaxError),
    }
}

/// The decimal notation of a number is one or more digits that read back as the number.
pub proof fn lemma_decimal_round_trip(n: nat)
    ensures
        decimal_seq(n).len() >= 1,
        forall|k: int| 0 <= k < decimal_seq(n).len() ==> is_digit(#[trigger] decimal_seq(n)[k]),
        digits_value(decimal_seq(n)) == n,
    decreases n,
{
    if n < 10 {
        let c = (('0' as nat) + n) as char;
        assert(decimal_seq(n) == seq![c]);
        assert(seq![c].drop_last() =~= Seq::<char>::empty());
        assert(c as nat == 48 + n);
        assert(digits_value(seq![c]) == digits_value(seq![c].drop_last()) * 10 + digit_value(seq![c].last()));
        assert(digits_value(Seq::<char>::empty()) == 0);
    } else {
        lemma_decimal_round_trip(n / 10);
        let d = (('0' as nat) + n % 10) as char;
        let t = decimal_seq(n / 10);
        assert(decimal_seq(n) == t.push(d));
        assert(t.push(d).drop_last() =~= t);
        assert(d as nat == 48 + n % 10);
        assert(digit_value(d) == n % 10);
        assert(t.push(d).last() == d);
        assert(digits_value(t.push(d)) == digits_value(t) * 10 + digit_value(d));
        assert(n == (n / 10) * 10 + n % 10);
        assert forall|k: int| 0 <= k < t.push(d).len() implies is_digit(#[trigger] t.push(d)[k]) by {
            if k < t.len() {
                assert(t.push(d)[k] == t[k]);
            }
        }
    }
}

/// A run of digits from `j` that stops at `e` ends the digits at `e`.
proof fn lemma_digits_end_run(s: Seq<char>, j: int, e: int)
    requires
        0 <= j <= e <= s.len(),
        forall|k: int| j <= k < e ==> is_digit(#[trigger] s[k]),
        e == s.len() || !is_digit(s[e]),
    ensures
        digits_end(s, j) == e,
    decreases e - j,
{
    if j < e {
        lemma_digits_end_run(s, j + 1, e);
    }
}

/// A number written in decimal at `i`, followed by the end or by something other than a digit,
/// reads back as the number.
proof fn lemma_usize_at_decimal(s: Seq<char>, i: int, n: usize)
    requires
        0 <= i,
        i + decimal_seq(n as nat).len() <= s.len(),
        s.subrange(i, i + decimal_seq(n as nat).len()) == decimal_seq(n as nat),
        i + decimal_seq(n as nat).len() == s.len() || !is_digit(s[i + decimal_seq(n as nat).len()]),
    ensures
        usize_at(s, i) == Some((i + decimal_seq(n as nat).len(), n as nat)),
{
    let d = decimal_seq(n as nat);
    let e = i + d.len();
    lemma_decimal_round_trip(n as nat);
    assert forall|k: int| i <= k < e implies is_digit(#[trigger] s[k]) by {
        assert(s[k] == s.subrange(i, e)[k - i]);
    }
    lemma_digits_end_run(s, i, e);
}

/// Where the `i`-th character of `pre + piece + post` comes from.
proof fn lemma_piece(pre: Seq<char>, piece: Seq<char>, post: Seq<char>)
    ensures
        (pre + piece + post).subrange(pre.len() as int, (pre.len() + piece.len()) as int) == piece,
        forall|k: int|
            0 <= k < post.len() ==> (pre + piece + post)[pre.len() + piece.len() + k] == post[k],
        (pre + piece + post).len() == pre.len() + piece.len() + post.len(),
{
    assert((pre + piece + post).subrange(pre.len() as int, (pre.len() + piece.len()) as int) =~= piece);
}

/// A span on one line, written and read back.
proof fn lemma_single_line_round_trip(l: usize, c1: usize, c2: usize)
    ensures
        position_range_at(position_range_text((l, c1, l, c2)) + seq![':'], 0) == Some(
            ((position_range_text((l, c1, l, c2)).len() + 1) as int, (l, c1, l, c2)),
        ),
{
    let dl = decimal_seq(l as nat);
    let dc1 = decimal_seq(c1 as nat);
    let dc2 = decimal_seq(c2 as nat);
    lemma_decimal_round_trip(l as nat);
    lemma_decimal_round_trip(c1 as nat);
    lemma_decimal_round_trip(c2 as nat);
    let s = position_range_text((l, c1, l, c2)) + seq![':'];
    assert(!is_digit(':'));
    assert(!is_digit('-'));
    assert(full_position_range_at(s, 0) is None) by {
        assert(s[0] == dl[0]);
        if starts_with_at(s, 0, seq!['(']) {
            assert(s.subrange(0, 1)[0] == s[0]);
        }
    }
    let a = dl.len() as int;
    let b = a + 1 + dc1.len();
    let tail1 = if c1 == c2 { seq![':'] } else { seq!['-'] + dc2 + seq![':'] };
    assert(s =~= Seq::<char>::empty() + dl + (seq![':'] + dc1 + tail1));
    lemma_piece(Seq::<char>::empty(), dl, seq![':'] + dc1 + tail1);
    lemma_usize_at_decimal(s, 0, l);
    assert(s.subrange(a, a + 1) =~= seq![':']);
    assert(s =~= (dl + seq![':']) + dc1 + tail1);
    lemma_piece(dl + seq![':'], dc1, tail1);
    lemma_usize_at_decimal(s, a + 1, c1);
    if c1 == c2 {
        assert(s.subrange(b, b + 1) =~= seq![':']);
        assert(!starts_with_at(s, b, seq!['-'])) by {
            if starts_with_at(s, b, seq!['-']) {
                assert(s.subrange(b, b + 1)[0] == s[b]);
            }
        }
    } else {
        assert(s.subrange(b, b + 1) =~= seq!['-']);
        let c = b + 1 + dc2.len();
        assert(s =~= (dl + seq![':'] + dc1 + seq!['-']) + dc2 + seq![':']);
        lemma_piece(dl + seq![':'] + dc1 + seq!['-'], dc2, seq![':']);
        lemma_usize_at_decimal(s, b + 1, c2);
        assert(s.subrange(c, c + 1) =~= seq![':']);
    }
}

/// A span across lines, written and read back.
#[verifier::rlimit(40)]
proof fn lemma_multi_line_round_trip(l1: usize, c1: usize, l2: usize, c2: usize)
    requires
        l1 != l2,
    ensures
        position_range_at(position_range_text((l1, c1, l2, c2)) + seq![':'], 0) == Some(
            ((position_range_text((l1, c1, l2, c2)).len() + 1) as int, (l1, c1, l2, c2)),
        ),
{
    let dl1 = decimal_seq(l1 as nat);
    let dc1 = decimal_seq(c1 as nat);
    let dl2 = decimal_seq(l2 as nat);
    let dc2 = decimal_seq(c2 as nat);
    let s = position_range_text((l1, c1, l2, c2)) + seq![':'];
    let p0 = seq!['('];
    let p1 = p0 + dl1 + seq![','];
    let p2 = p1 + dc1 + seq![')', '-', '('];
    let p3 = p2 + dl2 + seq![','];
    let end = seq![')', ':'];
    let r0 = seq![','] + dc1 + seq![')', '-', '('] + dl2 + seq![','] + dc2 + end;
    let r1 = seq![')', '-', '('] + dl2 + seq![','] + dc2 + end;
    let r2 = seq![','] + dc2 + end;
    let a = 1 + dl1.len() as int;
    let b = a + 1 + dc1.len() as int;
    let c = b + 3 + dl2.len() as int;
    let d = c + 1 + dc2.len() as int;
    assert(s =~= p0 + dl1 + r0);
    assert(starts_with_at(s, 0, seq!['('])) by {
        assert(s.subrange(0, 1) =~= seq!['(']);
    }
    assert(usize_at(s, 1) == Some((a, l1 as nat))) by {
        lemma_decimal_round_trip(l1 as nat);
        lemma_piece(p0, dl1, r0);
        lemma_usize_at_decimal(s, 1, l1);
    }
    assert(starts_with_at(s, a, seq![','])) by {
        lemma_piece(p0, dl1, r0);
        assert(s.subrange(a, a + 1) =~= seq![',']);
    }
    assert(s =~= p1 + dc1 + r1);
    assert(usize_at(s, a + 1) == Some((b, c1 as nat))) by {
        lemma_decimal_round_trip(c1 as nat);
        lemma_piece(p1, dc1, r1);
        lemma_usize_at_decimal(s, a + 1, c1);
    }
    assert(starts_with_at(s, b, seq![')', '-', '('])) by {
        lemma_piece(p1, dc1, r1);
        assert(s.subrange(b, b + 3) =~= seq![')', '-', '(']);
    }
    assert(s =~= p2 + dl2 + r2);
    assert(usize_at(s, b + 3) == Some((c, l2 as nat))) by {
        lemma_decimal_round_trip(l2 as nat);
        lemma_piece(p2, dl2, r2);
        lemma_usize_at_decimal(s, b + 3, l2);
    }
    assert(starts_with_at(s, c, seq![','])) by {
        lemma_piece(p2, dl2, r2);
        assert(s.subrange(c, c + 1) =~= seq![',']);
    }
    assert(s =~= p3 + dc2 + end);
    assert(usize_at(s, c + 1) == Some((d, c2 as nat))) by {
        lemma_decimal_round_trip(c2 as nat);
        lemma_piece(p3, dc2, end);
        lemma_usize_at_decimal(s, c + 1, c2);
    }
    assert(starts_with_at(s, d, end)) by {
        lemma_piece(p3, dc2, end);
        assert(s.subrange(d, d + 2) =~= end);
    }
    assert(s.len() == d + 2) by {
        lemma_piece(p3, dc2, end);
    }
}

/// Writing a span and reading it back, followed by its colon as in a diagnostic, gives the same
/// span.
pub proof fn lemma_position_range_round_trip(p: (usize, usize, usize, usize))
    ensures
        position_range_at(position_range_text(p) + seq![':'], 0) == Some(
            ((position_range_text(p).len() + 1) as int, p),
        ),
{
    let (l1, c1, l2, c2) = p;
    if l1 == l2 {
        lemma_single_line_round_trip(l1, c1, c2);
    } else {
        lemma_multi_line_round_trip(l1, c1, l2, c2);
    }
}

} // verus!

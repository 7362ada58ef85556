//! Reading the text a scoring tool prints.
//!
//! The tool writes its score as the first non-empty line of its output and
//! may write, on a line of its own that begins with `3-norm`, a second value
//! after the first `": "`. This module finds both pieces of text and checks
//! that each is written as a floating-point number; turning the text into a
//! number is left to the caller.

use vstd::prelude::*;
use vstd::string::StrSliceExecFns;
use crate::error::Error;

verus! {

/// Whether a character has the Unicode property `White_Space`.
pub open spec fn is_whitespace(c: char) -> bool {
    ||| '\u{9}' <= c <= '\u{d}'
    ||| c == ' '
    ||| c == '\u{85}'
    ||| c == '\u{a0}'
    ||| c == '\u{1680}'
    ||| '\u{2000}' <= c <= '\u{200a}'
    ||| c == '\u{2028}'
    ||| c == '\u{2029}'
    ||| c == '\u{202f}'
    ||| c == '\u{205f}'
    ||| c == '\u{3000}'
}

/// Whether a character has the Unicode property `White_Space`.
pub fn whitespace(c: char) -> (white: bool)
    ensures
        white == is_whitespace(c),
{
    ('\u{9}' <= c && c <= '\u{d}') || c == ' ' || c == '\u{85}' || c == '\u{a0}' || c
        == '\u{1680}' || ('\u{2000}' <= c && c <= '\u{200a}') || c == '\u{2028}' || c
        == '\u{2029}' || c == '\u{202f}' || c == '\u{205f}' || c == '\u{3000}'
}

/// Position of the first line feed at or after `from`, or the length of the
/// text if there is none.
pub open spec fn line_break(text: Seq<char>, from: int) -> int
    decreases text.len() - from,
{
    if from < 0 || from >= text.len() {
        text.len() as int
    } else if text[from] == '\n' {
        from
    } else {
        line_break(text, from + 1)
    }
}

/// Where the line that starts at `start` ends: at its line feed, or at the
/// carriage return directly before that line feed, or at the end of the text.
/// A carriage return that no line feed follows belongs to the line.
pub open spec fn line_end(text: Seq<char>, start: int) -> int {
    let at = line_break(text, start);
    if at < text.len() && start < at && text[at - 1] == '\r' {
        at - 1
    } else {
        at
    }
}

/// The line that starts at `start`, without its line ending.
pub open spec fn line_at(text: Seq<char>, start: int) -> Seq<char> {
    text.subrange(start, line_end(text, start))
}

/// The lines of the text from `start` on. A line ends with a line feed, which
/// a carriage return may precede; the last line needs no line ending, and a
/// text that ends with one has no empty line after it.
pub open spec fn lines_from(text: Seq<char>, start: int) -> Seq<Seq<char>>
    decreases text.len() + 1 - start,
{
    if start < 0 || start >= text.len() {
        Seq::empty()
    } else {
        proof {
            lemma_line_break_bounds(text, start);
        }
        seq![line_at(text, start)] + lines_from(text, line_break(text, start) + 1)
    }
}

/// The marker a norm line begins with.
pub open spec fn norm_marker() -> Seq<char> {
    seq!['3', '-', 'n', 'o', 'r', 'm']
}

/// What a line is looked for by.
#[derive(Clone, Copy, Debug, PartialEq, Eq, Structural)]
pub enum LineTest {
    /// The line holds at least one character.
    NonEmpty,
    /// The line begins with the norm marker.
    NormMarked,
}

/// Whether `line` begins with `prefix`.
pub open spec fn has_prefix(line: Seq<char>, prefix: Seq<char>) -> bool {
    prefix.len() <= line.len() && line.subrange(0, prefix.len() as int) == prefix
}

/// Whether a line passes a test.
pub open spec fn passes(test: LineTest, line: Seq<char>) -> bool {
    match test {
        LineTest::NonEmpty => line.len() > 0,
        LineTest::NormMarked => has_prefix(line, norm_marker()),
    }
}

/// Start of the first line, among those from `start` on, that passes the
/// test.
pub open spec fn first_line_from(text: Seq<char>, start: int, test: LineTest) -> Option<int>
    decreases text.len() + 1 - start,
{
    if start < 0 || start >= text.len() {
        None
    } else if passes(test, line_at(text, start)) {
        Some(start)
    } else {
        proof {
            lemma_line_break_bounds(text, start);
        }
        first_line_from(text, line_break(text, start) + 1, test)
    }
}

/// The first line of the text that passes the test.
pub open spec fn first_line(text: Seq<char>, test: LineTest) -> Option<Seq<char>> {
    match first_line_from(text, 0, test) {
        Some(start) => Some(line_at(text, start)),
        None => None,
    }
}

/// The line feed that ends a line lies at or after its start, and no line
/// feed lies before it.
pub proof fn lemma_line_break_bounds(text: Seq<char>, from: int)
    requires
        0 <= from <= text.len(),
    ensures
        from <= line_break(text, from) <= text.len(),
        line_break(text, from) < text.len() ==> text[line_break(text, from)] == '\n',
        forall|i: int| from <= i < line_break(text, from) ==> text[i] != '\n',
    decreases text.len() - from,
{
    if from < text.len() && text[from] != '\n' {
        lemma_line_break_bounds(text, from + 1);
    }
}

/// Finds the line feed that ends the line starting at `start`.
fn find_break(text: &Vec<char>, start: usize) -> (at: usize)
    requires
        start <= text@.len(),
    ensures
        at == line_break(text@, start as int),
        start <= at <= text@.len(),
{
    let mut at = start;
    while at < text.len() && text[at] != '\n'
        invariant
            start <= at <= text@.len(),
            line_break(text@, start as int) == line_break(text@, at as int),
        decreases text@.len() - at,
    {
        at += 1;
    }
    at
}

/// Whether the characters of `text` from `start` up to `end` begin with the
/// norm marker.
fn marked(text: &Vec<char>, start: usize, end: usize) -> (is: bool)
    requires
        start <= end <= text@.len(),
    ensures
        is == has_prefix(text@.subrange(start as int, end as int), norm_marker()),
{
    if end - start < 6 {
        return false;
    }
    proof {
        let head = text@.subrange(start as int, end as int).subrange(0, 6);
        assert(head =~= text@.subrange(start as int, start + 6));
        if head == norm_marker() {
            assert(head[0] == '3' && head[1] == '-' && head[2] == 'n');
            assert(head[3] == 'o' && head[4] == 'r' && head[5] == 'm');
        } else if text@[start as int] == '3' && text@[start + 1] == '-' && text@[start + 2] == 'n'
            && text@[start + 3] == 'o' && text@[start + 4] == 'r' && text@[start + 5] == 'm' {
            assert(head =~= norm_marker());
        }
    }
    text[start] == '3' && text[start + 1] == '-' && text[start + 2] == 'n' && text[start + 3] == 'o'
        && text[start + 4] == 'r' && text[start + 5] == 'm'
}

/// Finds the first line that passes the test: where it starts and where it
/// ends.
pub fn find_line(text: &Vec<char>, test: LineTest) -> (found: Option<(usize, usize)>)
    ensures
        found is Some <==> first_line_from(text@, 0, test) is Some,
        found matches Some((start, end)) ==> {
            &&& first_line_from(text@, 0, test) == Some(start as int)
            &&& end == line_end(text@, start as int)
            &&& start <= end <= text@.len()
        },
{
    let mut start: usize = 0;
    while start < text.len()
        invariant
            start <= text@.len(),
            first_line_from(text@, 0, test) == first_line_from(text@, start as int, test),
        decreases text@.len() - start,
    {
        let at = find_break(text, start);
        let end = if at < text.len() && start < at && text[at - 1] == '\r' {
            at - 1
        } else {
            at
        };
        let pass = match test {
            LineTest::NonEmpty => end > start,
            LineTest::NormMarked => marked(text, start, end),
        };
        if pass {
            return Some((start, end));
        }
        if at == text.len() {
            return None;
        }
        start = at + 1;
    }
    None
}

/// The first of the given lines that passes the test.
pub open spec fn first_passing(lines: Seq<Seq<char>>, test: LineTest) -> Option<Seq<char>>
    decreases lines.len(),
{
    if lines.len() == 0 {
        None
    } else if passes(test, lines[0]) {
        Some(lines[0])
    } else {
        first_passing(lines.skip(1), test)
    }
}

/// The line found from `start` on is the first of the lines from `start` on
/// that passes the test.
proof fn lemma_first_line_from_lines(text: Seq<char>, start: int, test: LineTest)
    requires
        0 <= start,
    ensures
        first_passing(lines_from(text, start), test) == (match first_line_from(text, start, test) {
            Some(at) => Some(line_at(text, at)),
            None => None,
        }),
    decreases text.len() + 1 - start,
{
    if start < text.len() {
        lemma_line_break_bounds(text, start);
        let next = line_break(text, start) + 1;
        let lines = lines_from(text, start);
        assert(lines[0] == line_at(text, start));
        assert(lines.skip(1) == lines_from(text, next));
        lemma_first_line_from_lines(text, next, test);
    }
}

/// The line a test finds in a text is the first of the text's lines that
/// passes the test.
pub proof fn lemma_first_line_is_first_passing(text: Seq<char>, test: LineTest)
    ensures
        first_line(text, test) == first_passing(lines_from(text, 0), test),
{
    lemma_first_line_from_lines(text, 0, test);
}

/// The text without the whitespace it begins with.
pub open spec fn trim_start(text: Seq<char>) -> Seq<char>
    decreases text.len(),
{
    if text.len() > 0 && is_whitespace(text[0]) {
        trim_start(text.skip(1))
    } else {
        text
    }
}

/// The text without the whitespace it ends with.
pub open spec fn trim_end(text: Seq<char>) -> Seq<char>
    decreases text.len(),
{
    if text.len() > 0 && is_whitespace(text.last()) {
        trim_end(text.drop_last())
    } else {
        text
    }
}

/// The text without the whitespace around it.
pub open spec fn trimmed(text: Seq<char>) -> Seq<char> {
    trim_end(trim_start(text))
}

/// Finds the part of `text` between `start` and `end` that is left when the
/// whitespace around it is taken away.
pub fn trim_span(text: &Vec<char>, start: usize, end: usize) -> (span: (usize, usize))
    requires
        start <= end <= text@.len(),
    ensures
        start <= span.0 <= span.1 <= end,
        end - span.0 == trim_start(text@.subrange(start as int, end as int)).len(),
        text@.subrange(span.0 as int, span.1 as int) == trimmed(
            text@.subrange(start as int, end as int),
        ),
{
    let mut first = start;
    while first < end && whitespace(text[first])
        invariant
            start <= first <= end <= text@.len(),
            trim_start(text@.subrange(start as int, end as int)) == trim_start(
                text@.subrange(first as int, end as int),
            ),
        decreases end - first,
    {
        assert(text@.subrange(first as int, end as int).skip(1) == text@.subrange(
            first + 1,
            end as int,
        ));
        first += 1;
    }
    let mut last = end;
    while first < last && whitespace(text[last - 1])
        invariant
            first <= last <= end <= text@.len(),
            trim_end(text@.subrange(first as int, end as int)) == trim_end(
                text@.subrange(first as int, last as int),
            ),
        decreases last - first,
    {
        assert(text@.subrange(first as int, last as int).drop_last() == text@.subrange(
            first as int,
            last - 1,
        ));
        last -= 1;
    }
    (first, last)
}

/// Position of the first `": "` in the line at or after `from`.
pub open spec fn delimiter_from(line: Seq<char>, from: int) -> Option<int>
    decreases line.len() - from,
{
    if from < 0 || from + 2 > line.len() {
        None
    } else if line[from] == ':' && line[from + 1] == ' ' {
        Some(from)
    } else {
        delimiter_from(line, from + 1)
    }
}

/// What follows the first `": "` of the line.
pub open spec fn after_delimiter(line: Seq<char>) -> Option<Seq<char>> {
    match delimiter_from(line, 0) {
        Some(at) => Some(line.skip(at + 2)),
        None => None,
    }
}

/// Finds where the text after the first `": "` begins, in the part of
/// `text` between `start` and `end`.
pub fn find_value(text: &Vec<char>, start: usize, end: usize) -> (found: Option<usize>)
    requires
        start <= end <= text@.len(),
    ensures
        found is Some <==> after_delimiter(text@.subrange(start as int, end as int)) is Some,
        found matches Some(at) ==> start <= at <= end && after_delimiter(
            text@.subrange(start as int, end as int),
        ) == Some(text@.subrange(at as int, end as int)),
{
    let ghost line = text@.subrange(start as int, end as int);
    let mut at = start;
    while end - at >= 2
        invariant
            start <= at <= end <= text@.len(),
            line == text@.subrange(start as int, end as int),
            delimiter_from(line, 0) == delimiter_from(line, at - start),
        decreases end - at,
    {
        assert(line[at - start] == text@[at as int]);
        assert(line[at - start + 1] == text@[at + 1]);
        if text[at] == ':' && text[at + 1] == ' ' {
            assert(line.skip(at - start + 2) == text@.subrange(at + 2, end as int));
            return Some(at + 2);
        }
        at += 1;
    }
    None
}

/// Whether a character is a decimal digit.
pub open spec fn is_digit(c: char) -> bool {
    '0' <= c <= '9'
}

/// Number of decimal digits the text begins with.
pub open spec fn digits(text: Seq<char>) -> nat
    decreases text.len(),
{
    if text.len() > 0 && is_digit(text[0]) {
        1 + digits(text.skip(1))
    } else {
        0
    }
}

/// The text without the one sign it may begin with.
pub open spec fn unsigned(text: Seq<char>) -> Seq<char> {
    if text.len() > 0 && (text[0] == '+' || text[0] == '-') {
        text.skip(1)
    } else {
        text
    }
}

/// Whether the text is an exponent: `e` or `E`, an optional sign, and at
/// least one digit.
pub open spec fn is_exponent(text: Seq<char>) -> bool {
    &&& text.len() > 0
    &&& text[0] == 'e' || text[0] == 'E'
    &&& unsigned(text.skip(1)).len() > 0
    &&& digits(unsigned(text.skip(1))) == unsigned(text.skip(1)).len()
}

/// Whether the text is nothing, or an exponent.
pub open spec fn is_number_end(text: Seq<char>) -> bool {
    text.len() == 0 || is_exponent(text)
}

/// Whether the text is a decimal number without a sign: digits, with an
/// optional point among, before or after them, and an optional exponent.
/// At least one digit stands before the exponent.
pub open spec fn is_number(text: Seq<char>) -> bool {
    let whole = digits(text);
    let rest = text.skip(whole as int);
    if rest.len() > 0 && rest[0] == '.' {
        let fraction = digits(rest.skip(1));
        whole + fraction > 0 && is_number_end(rest.skip(1 + fraction as int))
    } else {
        whole > 0 && is_number_end(rest)
    }
}

/// Whether a character is the given letter, in lower or in upper case.
pub open spec fn is_letter(c: char, lower: char, upper: char) -> bool {
    c == lower || c == upper
}

/// Whether the text is `inf`, `infinity` or `nan`, in any mix of cases.
pub open spec fn is_special(text: Seq<char>) -> bool {
    ||| {
        &&& text.len() == 3
        &&& is_letter(text[0], 'i', 'I')
        &&& is_letter(text[1], 'n', 'N')
        &&& is_letter(text[2], 'f', 'F')
    }
    ||| {
        &&& text.len() == 3
        &&& is_letter(text[0], 'n', 'N')
        &&& is_letter(text[1], 'a', 'A')
        &&& is_letter(text[2], 'n', 'N')
    }
    ||| {
        &&& text.len() == 8
        &&& is_letter(text[0], 'i', 'I')
        &&& is_letter(text[1], 'n', 'N')
        &&& is_letter(text[2], 'f', 'F')
        &&& is_letter(text[3], 'i', 'I')
        &&& is_letter(text[4], 'n', 'N')
        &&& is_letter(text[5], 'i', 'I')
        &&& is_letter(text[6], 't', 'T')
        &&& is_letter(text[7], 'y', 'Y')
    }
}

/// Whether the text is written as a floating-point number: an optional sign,
/// then a decimal number, or one of `inf`, `infinity` and `nan`.
pub open spec fn is_float_literal(text: Seq<char>) -> bool {
    is_number(unsigned(text)) || is_special(unsigned(text))
}

/// Finds the end of the digits that the part of `text` between `from` and
/// `end` begins with.
fn skip_digits(text: &Vec<char>, from: usize, end: usize) -> (to: usize)
    requires
        from <= end <= text@.len(),
    ensures
        from <= to <= end,
        to - from == digits(text@.subrange(from as int, end as int)),
{
    let mut to = from;
    while to < end && '0' <= text[to] && text[to] <= '9'
        invariant
            from <= to <= end <= text@.len(),
            digits(text@.subrange(from as int, end as int)) == (to - from) + digits(
                text@.subrange(to as int, end as int),
            ),
        decreases end - to,
    {
        assert(text@.subrange(to as int, end as int).skip(1) == text@.subrange(to + 1, end as int));
        to += 1;
    }
    to
}

/// Finds where the part of `text` between `from` and `end` goes on after the
/// one sign it may begin with.
fn skip_sign(text: &Vec<char>, from: usize, end: usize) -> (to: usize)
    requires
        from <= end <= text@.len(),
    ensures
        from <= to <= end,
        text@.subrange(to as int, end as int) == unsigned(text@.subrange(from as int, end as int)),
{
    if from < end && (text[from] == '+' || text[from] == '-') {
        assert(text@.subrange(from as int, end as int).skip(1) == text@.subrange(
            from + 1,
            end as int,
        ));
        from + 1
    } else {
        from
    }
}

/// Whether the part of `text` between `from` and `end` is nothing, or an
/// exponent.
fn number_end(text: &Vec<char>, from: usize, end: usize) -> (is: bool)
    requires
        from <= end <= text@.len(),
    ensures
        is == is_number_end(text@.subrange(from as int, end as int)),
{
    if from == end {
        return true;
    }
    if text[from] != 'e' && text[from] != 'E' {
        return false;
    }
    assert(text@.subrange(from as int, end as int).skip(1) == text@.subrange(from + 1, end as int));
    let first = skip_sign(text, from + 1, end);
    let last = skip_digits(text, first, end);
    first < end && last == end
}

/// Whether the part of `text` between `from` and `end` is a decimal number
/// without a sign.
fn number(text: &Vec<char>, from: usize, end: usize) -> (is: bool)
    requires
        from <= end <= text@.len(),
    ensures
        is == is_number(text@.subrange(from as int, end as int)),
{
    let ghost all = text@.subrange(from as int, end as int);
    let point = skip_digits(text, from, end);
    assert(all.skip(point - from) == text@.subrange(point as int, end as int));
    if point < end && text[point] == '.' {
        assert(text@.subrange(point as int, end as int).skip(1) == text@.subrange(
            point + 1,
            end as int,
        ));
        let tail = skip_digits(text, point + 1, end);
        assert(text@.subrange(point as int, end as int).skip(1 + (tail - (point + 1)))
            == text@.subrange(tail as int, end as int));
        (point > from || tail > point + 1) && number_end(text, tail, end)
    } else {
        point > from && number_end(text, point, end)
    }
}

/// Whether a character is the given letter, in lower or in upper case.
fn letter(c: char, lower: char, upper: char) -> (is: bool)
    ensures
        is == is_letter(c, lower, upper),
{
    c == lower || c == upper
}

/// Whether the part of `text` between `from` and `end` is `inf`, `infinity`
/// or `nan`, in any mix of cases.
fn special(text: &Vec<char>, from: usize, end: usize) -> (is: bool)
    requires
        from <= end <= text@.len(),
    ensures
        is == is_special(text@.subrange(from as int, end as int)),
{
    let ghost all = text@.subrange(from as int, end as int);
    if end - from == 3 {
        assert(all[0] == text@[from as int] && all[1] == text@[from + 1] && all[2] == text@[from
            + 2]);
        (letter(text[from], 'i', 'I') && letter(text[from + 1], 'n', 'N') && letter(
            text[from + 2],
            'f',
            'F',
        )) || (letter(text[from], 'n', 'N') && letter(text[from + 1], 'a', 'A') && letter(
            text[from + 2],
            'n',
            'N',
        ))
    } else if end - from == 8 {
        assert(all[0] == text@[from as int] && all[1] == text@[from + 1] && all[2] == text@[from
            + 2] && all[3] == text@[from + 3] && all[4] == text@[from + 4] && all[5] == text@[from
            + 5] && all[6] == text@[from + 6] && all[7] == text@[from + 7]);
        letter(text[from], 'i', 'I') && letter(text[from + 1], 'n', 'N') && letter(
            text[from + 2],
            'f',
            'F',
        ) && letter(text[from + 3], 'i', 'I') && letter(text[from + 4], 'n', 'N') && letter(
            text[from + 5],
            'i',
            'I',
        ) && letter(text[from + 6], 't', 'T') && letter(text[from + 7], 'y', 'Y')
    } else {
        false
    }
}

/// Whether the part of `text` between `from` and `end` is written as a
/// floating-point number.
pub fn float_literal(text: &Vec<char>, from: usize, end: usize) -> (is: bool)
    requires
        from <= end <= text@.len(),
    ensures
        is == is_float_literal(text@.subrange(from as int, end as int)),
{
    let body = skip_sign(text, from, end);
    number(text, body, end) || special(text, body, end)
}

/// The two pieces of text that make up a score, as sequences of characters.
pub struct ScoreFields {
    /// The primary score: the first non-empty line, without the whitespace
    /// around it.
    pub primary: Seq<char>,
    /// The norm value: what follows the first `": "` of the first line that
    /// begins with the norm marker.
    pub norm: Option<Seq<char>>,
}

/// The two pieces of text that make up a score, as parts of the output they
/// were found in.
#[derive(Clone, Copy, Debug)]
pub struct ScoreText<'a> {
    /// The primary score.
    pub primary: &'a str,
    /// The norm value, where the tool reported one.
    pub norm: Option<&'a str>,
}

impl<'a> View for ScoreText<'a> {
    type V = ScoreFields;

    open spec fn view(&self) -> ScoreFields {
        ScoreFields {
            primary: self.primary@,
            norm: match self.norm {
                Some(text) => Some(text@),
                None => None,
            },
        }
    }
}

/// The norm value of an output whose primary score was read.
///
/// An output without a norm line has none, and that is no error. A norm line
/// without `": "`, or with something other than a number after it, is one.
pub open spec fn norm_field(output: Seq<char>) -> Result<Option<Seq<char>>, Error> {
    match first_line(output, LineTest::NormMarked) {
        None => Ok(None),
        Some(line) => match after_delimiter(line) {
            Some(value) if is_float_literal(value) => Ok(Some(value)),
            _ => Err(Error::ScoreParse),
        },
    }
}

/// What a tool's output says.
///
/// The primary score is the first non-empty line, without the whitespace
/// around it; an output without such a line, or with one that is not written
/// as a number, is an error. The norm value is looked for after that.
pub open spec fn score_fields(output: Seq<char>) -> Result<ScoreFields, Error> {
    match first_line(output, LineTest::NonEmpty) {
        Some(line) if is_float_literal(trimmed(line)) => match norm_field(output) {
            Ok(norm) => Ok(ScoreFields { primary: trimmed(line), norm }),
            Err(e) => Err(e),
        },
        _ => Err(Error::ScoreParse),
    }
}

/// The characters of a string, one by one.
pub fn characters(text: &str) -> (chars: Vec<char>)
    ensures
        chars@ == text@,
{
    let mut chars: Vec<char> = Vec::new();
    for c in all: text.chars()
        invariant
            all.seq() == text@,
            chars@ == all.seq().take(all.index() as int),
    {
        chars.push(c);
    }
    chars
}

/// Reads what a scoring tool printed.
///
/// Succeeds exactly when the output holds a primary score written as a
/// number and no malformed norm line, and then hands back the text of the
/// score and, where there is a norm line, the text of the norm value. Every
/// failure is `ScoreParse`.
pub fn read_output<'a>(output: &'a str) -> (read: Result<ScoreText<'a>, Error>)
    ensures
        read is Ok <==> score_fields(output@) is Ok,
        read matches Ok(text) ==> score_fields(output@) == Ok::<ScoreFields, Error>(text@),
        read matches Err(e) ==> e == Error::ScoreParse,
{
    let chars = characters(output);
    let (line_start, line_end) = match find_line(&chars, LineTest::NonEmpty) {
        Some(span) => span,
        None => {
            return Err(Error::ScoreParse);
        },
    };
    let (first, last) = trim_span(&chars, line_start, line_end);
    if !float_literal(&chars, first, last) {
        return Err(Error::ScoreParse);
    }
    let primary = output.substring_char(first, last);
    match find_line(&chars, LineTest::NormMarked) {
        None => Ok(ScoreText { primary, norm: None }),
        Some((norm_start, norm_end)) => match find_value(&chars, norm_start, norm_end) {
            None => Err(Error::ScoreParse),
            Some(value) => {
                if float_literal(&chars, value, norm_end) {
                    let norm = output.substring_char(value, norm_end);
                    Ok(ScoreText { primary, norm: Some(norm) })
                } else {
                    Err(Error::ScoreParse)
                }
            },
        },
    }
}

} // verus!

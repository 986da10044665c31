//! Characters and runs of characters: what the grammar of the assembly
//! language is made of.

use vstd::prelude::*;
use vstd::string::StringExecFns;

verus! {

/// A set of characters that the grammar names.
#[derive(Debug, Copy, Clone, PartialEq, Eq, Structural)]
pub enum CharClass {
    /// A space or a tab: white space that does not end a line.
    InlineSpace,
    /// A character that ends a line: line feed, carriage return, vertical
    /// tab, form feed, next line, line separator, paragraph separator.
    Newline,
    /// An ASCII decimal digit.
    Digit,
    /// An ASCII letter or an underscore.
    IdentStart,
    /// An ASCII letter, an ASCII digit or an underscore.
    IdentContinue,
    /// An ASCII capital letter.
    Upper,
    /// A character with the Unicode property `White_Space`.
    WhiteSpace,
}

impl CharClass {
    /// Whether `c` belongs to the class.
    pub open spec fn has(self, c: char) -> bool {
        match self {
            CharClass::InlineSpace => c == ' ' || c == '\t',
            CharClass::Newline => c == '\n' || c == '\r' || c == '\x0B' || c == '\x0C' || c
                == '\u{85}' || c == '\u{2028}' || c == '\u{2029}',
            CharClass::Digit => '0' <= c <= '9',
            CharClass::IdentStart => 'a' <= c <= 'z' || 'A' <= c <= 'Z' || c == '_',
            CharClass::IdentContinue => 'a' <= c <= 'z' || 'A' <= c <= 'Z' || '0' <= c <= '9' || c
                == '_',
            CharClass::Upper => 'A' <= c <= 'Z',
            CharClass::WhiteSpace => '\t' <= c <= '\r' || c == ' ' || c == '\u{85}' || c
                == '\u{A0}' || c == '\u{1680}' || '\u{2000}' <= c <= '\u{200A}' || c == '\u{2028}'
                || c == '\u{2029}' || c == '\u{202F}' || c == '\u{205F}' || c == '\u{3000}',
        }
    }

    /// Tells whether `c` belongs to the class.
    pub fn contains(self, c: char) -> (found: bool)
        ensures
            found == self.has(c),
    {
        match self {
            CharClass::InlineSpace => c == ' ' || c == '\t',
            CharClass::Newline => c == '\n' || c == '\r' || c == '\x0B' || c == '\x0C' || c
                == '\u{85}' || c == '\u{2028}' || c == '\u{2029}',
            CharClass::Digit => '0' <= c && c <= '9',
            CharClass::IdentStart => ('a' <= c && c <= 'z') || ('A' <= c && c <= 'Z') || c == '_',
            CharClass::IdentContinue => ('a' <= c && c <= 'z') || ('A' <= c && c <= 'Z') || ('0'
                <= c && c <= '9') || c == '_',
            CharClass::Upper => 'A' <= c && c <= 'Z',
            CharClass::WhiteSpace => ('\t' <= c && c <= '\r') || c == ' ' || c == '\u{85}' || c
                == '\u{A0}' || c == '\u{1680}' || ('\u{2000}' <= c && c <= '\u{200A}') || c
                == '\u{2028}' || c == '\u{2029}' || c == '\u{202F}' || c == '\u{205F}' || c
                == '\u{3000}',
        }
    }
}

/// The characters of `text`, one by one.
pub fn characters(text: &str) -> (chars: Vec<char>)
    ensures
        chars@ == text@,
{
    let mut chars: Vec<char> = Vec::new();
    for c in it: text.chars()
        invariant
            it.seq() == text@,
            chars@ == it.seq().take(it.index() as int),
    {
        chars.push(c);
    }
    chars
}

/// Whether the character at `at` exists and belongs to `class`.
pub open spec fn has_at(text: Seq<char>, class: CharClass, at: int) -> bool {
    0 <= at < text.len() && class.has(text[at])
}

/// The end of the longest run of characters of `class` that starts at `from`:
/// the first position at or after `from` whose character is not of the class,
/// or the end of the text.
pub open spec fn run_end(text: Seq<char>, class: CharClass, from: int) -> int
    decreases text.len() - from,
{
    if has_at(text, class, from) {
        run_end(text, class, from + 1)
    } else {
        from
    }
}

/// A run ends where the class ends: all of it is of the class, and what
/// follows is not.
pub proof fn lemma_run_end(text: Seq<char>, class: CharClass, from: int)
    requires
        0 <= from <= text.len(),
    ensures
        from <= run_end(text, class, from) <= text.len(),
        forall|k: int| from <= k < run_end(text, class, from) ==> class.has(#[trigger] text[k]),
        !has_at(text, class, run_end(text, class, from)),
    decreases text.len() - from,
{
    if has_at(text, class, from) {
        lemma_run_end(text, class, from + 1);
    }
}

/// A position is the end of the run from `from` if all between is of the
/// class and the position itself is not.
pub proof fn lemma_run_end_is(text: Seq<char>, class: CharClass, from: int, end: int)
    requires
        0 <= from <= end <= text.len(),
        forall|k: int| from <= k < end ==> class.has(#[trigger] text[k]),
        !has_at(text, class, end),
    ensures
        run_end(text, class, from) == end,
    decreases end - from,
{
    if from < end {
        assert(class.has(text[from]));
        lemma_run_end_is(text, class, from + 1, end);
    }
}

/// Finds the end of the run of characters of `class` that starts at `from`.
pub fn scan(text: &Vec<char>, class: CharClass, from: usize) -> (end: usize)
    requires
        from <= text.len(),
    ensures
        end == run_end(text@, class, from as int),
        from <= end <= text.len(),
{
    let mut end = from;
    while end < text.len() && class.contains(text[end])
        invariant
            from <= end <= text.len(),
            forall|k: int| from <= k < end ==> class.has(#[trigger] text@[k]),
        decreases text.len() - end,
    {
        end += 1;
    }
    proof {
        lemma_run_end_is(text@, class, from as int, end as int);
    }
    end
}

/// The start of the longest run of characters of `class` that ends at `to`:
/// the last position at or before `to` whose predecessor is not of the
/// class, or the start of the text.
pub open spec fn run_start(text: Seq<char>, class: CharClass, to: int) -> int
    decreases to,
{
    if has_at(text, class, to - 1) {
        run_start(text, class, to - 1)
    } else {
        to
    }
}

/// A position is the start of the run up to `to` if all between is of the
/// class and what stands before the position is not.
pub proof fn lemma_run_start_is(text: Seq<char>, class: CharClass, start: int, to: int)
    requires
        0 <= start <= to <= text.len(),
        forall|k: int| start <= k < to ==> class.has(#[trigger] text[k]),
        !has_at(text, class, start - 1),
    ensures
        run_start(text, class, to) == start,
    decreases to - start,
{
    if start < to {
        assert(class.has(text[to - 1]));
        lemma_run_start_is(text, class, start, to - 1);
    }
}

/// Where `text` starts and ends once the white space at both ends is left
/// out. A text of white space alone starts and ends at its end.
pub open spec fn trim_bounds(text: Seq<char>) -> (int, int) {
    let start = run_end(text, CharClass::WhiteSpace, 0);
    let end = run_start(text, CharClass::WhiteSpace, text.len() as int);
    if start <= end {
        (start, end)
    } else {
        (start, start)
    }
}

/// `text` without the white space at its start and at its end.
pub open spec fn trimmed(text: Seq<char>) -> Seq<char> {
    text.subrange(trim_bounds(text).0, trim_bounds(text).1)
}

/// Finds where `text` starts and ends once the white space at both ends is
/// left out.
pub fn trim(text: &Vec<char>) -> (bounds: (usize, usize))
    ensures
        trim_bounds(text@) == (bounds.0 as int, bounds.1 as int),
        bounds.0 <= bounds.1 <= text.len(),
{
    let start = scan(text, CharClass::WhiteSpace, 0);
    let mut end = text.len();
    while end > start && CharClass::WhiteSpace.contains(text[end - 1])
        invariant
            start <= end <= text.len(),
            forall|k: int| end <= k < text.len() ==> CharClass::WhiteSpace.has(#[trigger] text@[k]),
        decreases end,
    {
        end -= 1;
    }
    proof {
        lemma_run_end(text@, CharClass::WhiteSpace, 0);
        if end > start {
            lemma_run_start_is(text@, CharClass::WhiteSpace, end as int, text.len() as int);
        } else {
            // All of the text from `start` on is white space, so the run that
            // ends the text starts at or before `start`.
            lemma_run_start_reaches(text@, CharClass::WhiteSpace, start as int, text.len() as int);
        }
    }
    (start, end)
}

/// A run that ends at `to` starts at or before any position from which all
/// up to `to` is of the class.
pub proof fn lemma_run_start_reaches(text: Seq<char>, class: CharClass, from: int, to: int)
    requires
        0 <= from <= to <= text.len(),
        forall|k: int| from <= k < to ==> class.has(#[trigger] text[k]),
    ensures
        run_start(text, class, to) <= from,
    decreases to - from,
{
    if from < to {
        assert(class.has(text[to - 1]));
        lemma_run_start_reaches(text, class, from, to - 1);
    } else {
        lemma_run_start_bound(text, class, to);
    }
}

/// A run starts no later than it ends.
pub proof fn lemma_run_start_bound(text: Seq<char>, class: CharClass, to: int)
    ensures
        run_start(text, class, to) <= to,
    decreases to,
{
    if has_at(text, class, to - 1) {
        lemma_run_start_bound(text, class, to - 1);
    }
}

/// The character that writes the digit `d`.
pub open spec fn digit_char(d: int) -> char {
    if d == 0 {
        '0'
    } else if d == 1 {
        '1'
    } else if d == 2 {
        '2'
    } else if d == 3 {
        '3'
    } else if d == 4 {
        '4'
    } else if d == 5 {
        '5'
    } else if d == 6 {
        '6'
    } else if d == 7 {
        '7'
    } else if d == 8 {
        '8'
    } else {
        '9'
    }
}

/// The decimal digits of `n`, without leading zeros.
pub open spec fn digits_of(n: nat) -> Seq<char>
    decreases n,
{
    if n < 10 {
        seq![digit_char(n as int)]
    } else {
        digits_of(n / 10).push(digit_char((n % 10) as int))
    }
}

/// `n` written in decimal, with `-` before it where it is negative.
pub open spec fn decimal_text(n: int) -> Seq<char> {
    if n < 0 {
        seq!['-'] + digits_of((-n) as nat)
    } else {
        digits_of(n as nat)
    }
}

/// The text of one decimal digit.
fn digit_str(d: u64) -> (text: &'static str)
    requires
        d < 10,
    ensures
        text@ == seq![digit_char(d as int)],
{
    proof {
        reveal_strlit("0");
        reveal_strlit("1");
        reveal_strlit("2");
        reveal_strlit("3");
        reveal_strlit("4");
        reveal_strlit("5");
        reveal_strlit("6");
        reveal_strlit("7");
        reveal_strlit("8");
        reveal_strlit("9");
    }
    let text = if d == 0 {
        "0"
    } else if d == 1 {
        "1"
    } else if d == 2 {
        "2"
    } else if d == 3 {
        "3"
    } else if d == 4 {
        "4"
    } else if d == 5 {
        "5"
    } else if d == 6 {
        "6"
    } else if d == 7 {
        "7"
    } else if d == 8 {
        "8"
    } else {
        "9"
    };
    assert(text@ =~= seq![digit_char(d as int)]);
    text
}

/// Writes the decimal digits of `n` at the end of `text`.
fn push_digits(text: &mut String, n: u64)
    ensures
        final(text)@ == old(text)@ + digits_of(n as nat),
    decreases n,
{
    if n >= 10 {
        push_digits(text, n / 10);
    }
    text.append(digit_str(n % 10));
    assert(text@ =~= old(text)@ + digits_of(n as nat));
}

/// Writes `n` in decimal at the end of `text`.
pub fn push_decimal(text: &mut String, n: i64)
    ensures
        final(text)@ == old(text)@ + decimal_text(n as int),
{
    if n < 0 {
        proof {
            reveal_strlit("-");
        }
        text.append("-");
        let magnitude = (-(n + 1)) as u64 + 1;
        push_digits(text, magnitude);
        assert(text@ =~= old(text)@ + decimal_text(n as int));
    } else {
        push_digits(text, n as u64);
    }
}

} // verus!

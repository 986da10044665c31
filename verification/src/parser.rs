//! The assembler: from source text to a sequence of instructions whose
//! operands are addresses.
//!
//! A program is a sequence of lines, separated by one or more line ends; line
//! ends may also come first and last. A line is an optional label, a mnemonic
//! and, where the mnemonic takes one, an operand, with spaces or tabs between
//! them and around them. The grammar commits as it reads: what an earlier part
//! has taken is not given back to a later one.
//!
//! The address of a label is the number of the line that bears it, counted
//! from zero. An operand `name` stands for the address of the label `name`, an
//! operand `@name` for that address plus the memory size: a pointer.

use vstd::prelude::*;
use vstd::string::StrSliceExecFns;
use crate::assembly::Instruction;
use crate::text::{
    characters, digit_char, digits_of, has_at, lemma_run_end, run_end, scan, CharClass,
};
use crate::MEMORY_SIZE;

verus! {

/// An operand as it is written.
#[derive(Debug, Clone, PartialEq, Eq)]
pub enum Operand {
    /// A decimal literal.
    Num(i64),
    /// The name of a label: the operand is the label's address.
    Label(String),
    /// The name of a label after `@`: the operand is a pointer to the
    /// label's cell.
    Pointer(String),
}

/// One line of a program: the label that it bears, if any, and its
/// instruction.
#[derive(Debug, Clone, PartialEq, Eq)]
pub struct Node {
    pub label: Option<String>,
    pub instruction: Instruction<Operand>,
}

/// Why a source text is no program.
#[derive(Debug, Clone, PartialEq, Eq)]
pub enum AssembleError {
    /// The text does not follow the grammar.
    Syntax,
    /// An operand names a label that no line bears.
    UnknownLabel(String),
}

/// An [`Operand`] as the contracts see it.
pub enum OperandView {
    Num(i64),
    Label(Seq<char>),
    Pointer(Seq<char>),
}

/// A [`Node`] as the contracts see it.
pub struct NodeView {
    pub label: Option<Seq<char>>,
    pub instruction: Instruction<OperandView>,
}

/// An [`AssembleError`] as the contracts see it.
pub enum AssembleErrorView {
    Syntax,
    UnknownLabel(Seq<char>),
}

impl View for Operand {
    type V = OperandView;

    open spec fn view(&self) -> OperandView {
        match self {
            Operand::Num(n) => OperandView::Num(*n),
            Operand::Label(name) => OperandView::Label(name@),
            Operand::Pointer(name) => OperandView::Pointer(name@),
        }
    }
}

impl View for Node {
    type V = NodeView;

    open spec fn view(&self) -> NodeView {
        NodeView {
            label: match self.label {
                Some(name) => Some(name@),
                None => None,
            },
            instruction: self.instruction.map_operand(|operand: Operand| operand@),
        }
    }
}

impl View for AssembleError {
    type V = AssembleErrorView;

    open spec fn view(&self) -> AssembleErrorView {
        match self {
            AssembleError::Syntax => AssembleErrorView::Syntax,
            AssembleError::UnknownLabel(name) => AssembleErrorView::UnknownLabel(name@),
        }
    }
}

/// The lines of a program as the contracts see them.
pub open spec fn node_views(nodes: Seq<Node>) -> Seq<NodeView> {
    Seq::new(nodes.len(), |i: int| nodes[i]@)
}

/// The value of a decimal digit.
pub open spec fn digit_value(c: char) -> nat {
    (c as u32 - '0' as u32) as nat
}

/// The number that a sequence of decimal digits writes.
pub open spec fn decimal(digits: Seq<char>) -> nat
    decreases digits.len(),
{
    if digits.len() == 0 {
        0
    } else {
        decimal(digits.drop_last()) * 10 + digit_value(digits.last())
    }
}

/// The end of the decimal literal that starts at `from`: a single `0`, or a
/// digit other than `0` with all the digits that follow it.
pub open spec fn literal_end(text: Seq<char>, from: int) -> int {
    if text[from] == '0' {
        from + 1
    } else {
        run_end(text, CharClass::Digit, from)
    }
}

/// The decimal literal at `from` and where it ends, if one starts there and
/// its value fits in a cell.
pub open spec fn number_at(text: Seq<char>, from: int) -> Option<(i64, int)> {
    if has_at(text, CharClass::Digit, from) && decimal(
        text.subrange(from, literal_end(text, from)),
    ) <= i64::MAX {
        Some(
            (decimal(text.subrange(from, literal_end(text, from))) as i64, literal_end(text, from)),
        )
    } else {
        None
    }
}

/// The operand at `from` and where it ends: a decimal literal, a name, or `@`
/// and a name. The name after `@` may be empty.
pub open spec fn operand_at(text: Seq<char>, from: int) -> Option<(OperandView, int)> {
    if let Some((value, end)) = number_at(text, from) {
        Some((OperandView::Num(value), end))
    } else if has_at(text, CharClass::IdentStart, from) {
        let end = run_end(text, CharClass::IdentContinue, from + 1);
        Some((OperandView::Label(text.subrange(from, end)), end))
    } else if 0 <= from < text.len() && text[from] == '@' {
        let end = run_end(text, CharClass::IdentContinue, from + 1);
        Some((OperandView::Pointer(text.subrange(from + 1, end)), end))
    } else {
        None
    }
}

/// Whether every character of `name` is an ASCII capital letter, as in a
/// mnemonic.
pub open spec fn all_upper(name: Seq<char>) -> bool {
    forall|k: int| 0 <= k < name.len() ==> CharClass::Upper.has(#[trigger] name[k])
}

/// The label at `from` and where the instruction after it starts: optional
/// spaces, a name that is not all capitals, and at least one space.
pub open spec fn label_at(text: Seq<char>, from: int) -> Option<(Seq<char>, int)> {
    let start = run_end(text, CharClass::InlineSpace, from);
    let end = run_end(text, CharClass::IdentContinue, start + 1);
    if has_at(text, CharClass::IdentStart, start) && !all_upper(text.subrange(start, end))
        && has_at(text, CharClass::InlineSpace, end) {
        Some((text.subrange(start, end), run_end(text, CharClass::InlineSpace, end)))
    } else {
        None
    }
}

/// Whether the three letters `a`, `b`, `c` stand at `at`.
pub open spec fn mnemonic_at(text: Seq<char>, at: int, a: char, b: char, c: char) -> bool {
    0 <= at && at + 3 <= text.len() && text[at] == a && text[at + 1] == b && text[at + 2] == c
}

/// The operand of an instruction that takes an address, and where it ends:
/// at least one space after the mnemonic, which ends at `from`, then the
/// operand.
pub open spec fn address_at(text: Seq<char>, from: int) -> Option<(OperandView, int)> {
    if has_at(text, CharClass::InlineSpace, from) {
        operand_at(text, run_end(text, CharClass::InlineSpace, from))
    } else {
        None
    }
}

/// The payload of a `DAT` whose mnemonic ends at `from`, and where it ends:
/// the decimal literal after at least one space, or 0 where none follows.
pub open spec fn payload_at(text: Seq<char>, from: int) -> (i64, int) {
    let at = run_end(text, CharClass::InlineSpace, from);
    if has_at(text, CharClass::InlineSpace, from) && number_at(text, at) is Some {
        number_at(text, at)->0
    } else {
        (0, from)
    }
}

/// The instruction that `make` builds from the address after a mnemonic that
/// ends at `from`.
pub open spec fn addressed(
    text: Seq<char>,
    from: int,
    make: spec_fn(OperandView) -> Instruction<OperandView>,
) -> Option<(Instruction<OperandView>, int)> {
    match address_at(text, from) {
        Some((operand, end)) => Some((make(operand), end)),
        None => None,
    }
}

/// The instruction at `from` and where it ends: optional spaces, a
/// mnemonic, and the operand that the mnemonic asks for.
pub open spec fn instruction_at(text: Seq<char>, from: int) -> Option<
    (Instruction<OperandView>, int),
> {
    let at = run_end(text, CharClass::InlineSpace, from);
    let after = at + 3;
    if mnemonic_at(text, at, 'I', 'N', 'P') {
        Some((Instruction::INP, after))
    } else if mnemonic_at(text, at, 'O', 'U', 'T') {
        Some((Instruction::OUT, after))
    } else if mnemonic_at(text, at, 'H', 'L', 'T') {
        Some((Instruction::HLT, after))
    } else if mnemonic_at(text, at, 'B', 'W', 'N') {
        Some((Instruction::BWN, after))
    } else if mnemonic_at(text, at, 'L', 'D', 'R') {
        Some((Instruction::LDR, after))
    } else if mnemonic_at(text, at, 'D', 'A', 'T') {
        Some(
            (
                Instruction::DAT(OperandView::Num(payload_at(text, after).0)),
                payload_at(text, after).1,
            ),
        )
    } else if mnemonic_at(text, at, 'A', 'D', 'D') {
        addressed(text, after, |o: OperandView| Instruction::ADD(o))
    } else if mnemonic_at(text, at, 'S', 'U', 'B') {
        addressed(text, after, |o: OperandView| Instruction::SUB(o))
    } else if mnemonic_at(text, at, 'S', 'T', 'A') {
        addressed(text, after, |o: OperandView| Instruction::STA(o))
    } else if mnemonic_at(text, at, 'L', 'D', 'A') {
        addressed(text, after, |o: OperandView| Instruction::LDA(o))
    } else if mnemonic_at(text, at, 'B', 'R', 'A') {
        addressed(text, after, |o: OperandView| Instruction::BRA(o))
    } else if mnemonic_at(text, at, 'B', 'R', 'Z') {
        addressed(text, after, |o: OperandView| Instruction::BRZ(o))
    } else if mnemonic_at(text, at, 'B', 'R', 'P') {
        addressed(text, after, |o: OperandView| Instruction::BRP(o))
    } else if mnemonic_at(text, at, 'B', 'W', 'A') {
        addressed(text, after, |o: OperandView| Instruction::BWA(o))
    } else if mnemonic_at(text, at, 'B', 'W', 'O') {
        addressed(text, after, |o: OperandView| Instruction::BWO(o))
    } else if mnemonic_at(text, at, 'B', 'W', 'X') {
        addressed(text, after, |o: OperandView| Instruction::BWX(o))
    } else {
        None
    }
}

/// The line at `from` and where it ends: an optional label, an instruction,
/// and the spaces after it.
pub open spec fn line_at(text: Seq<char>, from: int) -> Option<(NodeView, int)> {
    let (label, start) = match label_at(text, from) {
        Some((name, start)) => (Some(name), start),
        None => (None, from),
    };
    match instruction_at(text, start) {
        Some((instruction, end)) => Some(
            (NodeView { label, instruction }, run_end(text, CharClass::InlineSpace, end)),
        ),
        None => None,
    }
}

/// The lines from `from` on, where `from` is the start of a line or the end
/// of the text: each line ends the text or is followed by at least one line
/// end, and what follows the line ends is again lines.
pub open spec fn lines_from(text: Seq<char>, from: int) -> Option<Seq<NodeView>>
    decreases text.len() - from,
    via lines_from_decreases
{
    if from < 0 {
        None
    } else if from >= text.len() {
        Some(Seq::empty())
    } else {
        match line_at(text, from) {
            None => None,
            Some((node, end)) => {
                if end >= text.len() {
                    Some(seq![node])
                } else if !CharClass::Newline.has(text[end]) {
                    None
                } else {
                    prepend(seq![node], lines_from(text, run_end(text, CharClass::Newline, end)))
                }
            },
        }
    }
}

#[via_fn]
proof fn lines_from_decreases(text: Seq<char>, from: int) {
    if 0 <= from < text.len() && line_at(text, from) is Some {
        lemma_line_advances(text, from);
        lemma_run_end(text, CharClass::Newline, end_of(line_at(text, from)));
    }
}

/// Where what was found ends.
pub open spec fn end_of<T>(found: Option<(T, int)>) -> int
    recommends
        found is Some,
{
    match found {
        Some((_, end)) => end,
        None => 0,
    }
}

/// `first` followed by `rest`, where there is a `rest`.
pub open spec fn prepend<T>(first: Seq<T>, rest: Option<Seq<T>>) -> Option<Seq<T>> {
    match rest {
        Some(rest) => Some(first + rest),
        None => None,
    }
}

/// The lines of the program that `text` is, if it is one.
pub open spec fn program(text: Seq<char>) -> Option<Seq<NodeView>> {
    lines_from(text, run_end(text, CharClass::Newline, 0))
}

/// The address of the label `name`: the number of the last line that bears
/// it, counted from zero.
pub open spec fn label_address(nodes: Seq<NodeView>, name: Seq<char>) -> Option<int>
    decreases nodes.len(),
{
    if nodes.len() == 0 {
        None
    } else if nodes.last().label == Some(name) {
        Some(nodes.len() - 1)
    } else {
        label_address(nodes.drop_last(), name)
    }
}

/// The number that `operand` stands for in the program `nodes`.
pub open spec fn operand_value(nodes: Seq<NodeView>, operand: OperandView) -> Result<
    i64,
    AssembleErrorView,
> {
    match operand {
        OperandView::Num(n) => Ok(n),
        OperandView::Label(name) => match label_address(nodes, name) {
            Some(address) => Ok(address as i64),
            None => Err(AssembleErrorView::UnknownLabel(name)),
        },
        OperandView::Pointer(name) => match label_address(nodes, name) {
            Some(address) => Ok((address + MEMORY_SIZE) as i64),
            None => Err(AssembleErrorView::UnknownLabel(name)),
        },
    }
}

/// `instruction` with the number that its operand stands for in place of the
/// operand.
pub open spec fn resolved_instruction(
    nodes: Seq<NodeView>,
    instruction: Instruction<OperandView>,
) -> Result<Instruction<i64>, AssembleErrorView> {
    match instruction.operand() {
        Some(operand) => match operand_value(nodes, operand) {
            Ok(value) => Ok(instruction.map_operand(|o: OperandView| value)),
            Err(error) => Err(error),
        },
        None => Ok(instruction.map_operand(|o: OperandView| 0i64)),
    }
}

/// The first `count` instructions of the program `nodes`, resolved; or the
/// error of the first among them that cannot be.
pub open spec fn resolved_prefix(nodes: Seq<NodeView>, count: nat) -> Result<
    Seq<Instruction<i64>>,
    AssembleErrorView,
>
    decreases count,
{
    if count == 0 {
        Ok(Seq::empty())
    } else {
        match resolved_prefix(nodes, (count - 1) as nat) {
            Err(error) => Err(error),
            Ok(done) => match resolved_instruction(nodes, nodes[count - 1].instruction) {
                Ok(instruction) => Ok(done.push(instruction)),
                Err(error) => Err(error),
            },
        }
    }
}

/// The instructions of the program `nodes`, resolved.
pub open spec fn resolved(nodes: Seq<NodeView>) -> Result<
    Seq<Instruction<i64>>,
    AssembleErrorView,
> {
    resolved_prefix(nodes, nodes.len())
}

/// What `text` assembles to.
pub open spec fn assembled(text: Seq<char>) -> Result<Seq<Instruction<i64>>, AssembleErrorView> {
    match program(text) {
        Some(nodes) => resolved(nodes),
        None => Err(AssembleErrorView::Syntax),
    }
}

/// An operand ends inside the text, after at least one character.
proof fn lemma_operand_advances(text: Seq<char>, from: int)
    requires
        0 <= from,
        operand_at(text, from) is Some,
    ensures
        from < end_of(operand_at(text, from)) <= text.len(),
{
    lemma_run_end(text, CharClass::Digit, from);
    if from < text.len() {
        lemma_run_end(text, CharClass::IdentContinue, from + 1);
    }
}

/// An instruction ends inside the text, after at least its mnemonic.
proof fn lemma_instruction_advances(text: Seq<char>, from: int)
    requires
        0 <= from <= text.len(),
        instruction_at(text, from) is Some,
    ensures
        from + 3 <= end_of(instruction_at(text, from)) <= text.len(),
{
    lemma_run_end(text, CharClass::InlineSpace, from);
    let after = run_end(text, CharClass::InlineSpace, from) + 3;
    if after <= text.len() {
        lemma_run_end(text, CharClass::InlineSpace, after);
        let at = run_end(text, CharClass::InlineSpace, after);
        lemma_run_end(text, CharClass::Digit, at);
        if operand_at(text, at) is Some {
            lemma_operand_advances(text, at);
        }
    }
}

/// A line ends inside the text, after at least its mnemonic.
pub proof fn lemma_line_advances(text: Seq<char>, from: int)
    requires
        0 <= from <= text.len(),
        line_at(text, from) is Some,
    ensures
        from + 3 <= end_of(line_at(text, from)) <= text.len(),
{
    lemma_run_end(text, CharClass::InlineSpace, from);
    let start = match label_at(text, from) {
        Some((name, start)) => start,
        None => from,
    };
    if label_at(text, from) is Some {
        let begin = run_end(text, CharClass::InlineSpace, from);
        lemma_run_end(text, CharClass::IdentContinue, begin + 1);
        lemma_run_end(text, CharClass::InlineSpace, run_end(text, CharClass::IdentContinue, begin + 1));
    }
    lemma_instruction_advances(text, start);
    lemma_run_end(text, CharClass::InlineSpace, end_of(instruction_at(text, start)));
}

/// Reading undoes writing: the digits of a number write that number.
pub proof fn lemma_decimal_reads_digits(n: nat)
    ensures
        decimal(digits_of(n)) == n,
    decreases n,
{
    let last = digit_char((n % 10) as int);
    assert(digit_value(last) == n % 10);
    if n < 10 {
        assert(seq![last].drop_last() =~= Seq::<char>::empty());
        assert(decimal(seq![last].drop_last()) == 0);
    } else {
        lemma_decimal_reads_digits(n / 10);
        assert(digits_of(n / 10).push(last).drop_last() =~= digits_of(n / 10));
    }
}

/// One more digit on the right multiplies by ten and adds the digit.
proof fn lemma_decimal_step(text: Seq<char>, from: int, to: int)
    requires
        0 <= from <= to < text.len(),
    ensures
        decimal(text.subrange(from, to + 1)) == decimal(text.subrange(from, to)) * 10 + digit_value(
            text[to],
        ),
{
    assert(text.subrange(from, to + 1).drop_last() =~= text.subrange(from, to));
}

/// A longer literal from the same start writes no smaller a number.
proof fn lemma_decimal_grows(text: Seq<char>, from: int, mid: int, to: int)
    requires
        0 <= from <= mid <= to <= text.len(),
    ensures
        decimal(text.subrange(from, mid)) <= decimal(text.subrange(from, to)),
    decreases to - mid,
{
    if mid < to {
        lemma_decimal_grows(text, from, mid, to - 1);
        lemma_decimal_step(text, from, to - 1);
    }
}

/// Reads the decimal literal at `from`.
fn num(chars: &Vec<char>, from: usize) -> (found: Option<(i64, usize)>)
    requires
        from <= chars.len(),
    ensures
        match found {
            Some((value, end)) => number_at(chars@, from as int) == Some((value, end as int))
                && from < end <= chars.len(),
            None => number_at(chars@, from as int) is None,
        },
{
    if from >= chars.len() || !CharClass::Digit.contains(chars[from]) {
        return None;
    }
    let end = if chars[from] == '0' {
        from + 1
    } else {
        scan(chars, CharClass::Digit, from)
    };
    proof {
        lemma_run_end(chars@, CharClass::Digit, from as int);
    }
    let mut value: i64 = 0;
    let mut at = from;
    while at < end
        invariant
            from <= at <= end <= chars.len(),
            end == literal_end(chars@, from as int),
            forall|k: int| from <= k < end ==> CharClass::Digit.has(#[trigger] chars@[k]),
            0 <= value,
            value == decimal(chars@.subrange(from as int, at as int)),
        decreases end - at,
    {
        let digit = (chars[at] as u32 - '0' as u32) as i64;
        proof {
            lemma_decimal_step(chars@, from as int, at as int);
        }
        if value > (i64::MAX - digit) / 10 {
            proof {
                lemma_decimal_grows(chars@, from as int, at + 1, end as int);
            }
            return None;
        }
        value = value * 10 + digit;
        at += 1;
    }
    Some((value, end))
}

/// Reads the operand at `from`.
fn instruction_input(text: &str, chars: &Vec<char>, from: usize) -> (found: Option<
    (Operand, usize),
>)
    requires
        chars@ == text@,
        from <= chars.len(),
    ensures
        match found {
            Some((operand, end)) => operand_at(chars@, from as int) == Some(
                (operand@, end as int),
            ) && from < end <= chars.len(),
            None => operand_at(chars@, from as int) is None,
        },
{
    if let Some((value, end)) = num(chars, from) {
        return Some((Operand::Num(value), end));
    }
    if from >= chars.len() {
        return None;
    }
    let first = chars[from];
    if CharClass::IdentStart.contains(first) {
        let end = scan(chars, CharClass::IdentContinue, from + 1);
        let name = text.substring_char(from, end).to_owned();
        Some((Operand::Label(name), end))
    } else if first == '@' {
        let end = scan(chars, CharClass::IdentContinue, from + 1);
        let name = text.substring_char(from + 1, end).to_owned();
        Some((Operand::Pointer(name), end))
    } else {
        None
    }
}

/// Tells whether every character from `from` up to `to` is a capital letter.
fn is_all_upper(chars: &Vec<char>, from: usize, to: usize) -> (all: bool)
    requires
        from <= to <= chars.len(),
    ensures
        all == all_upper(chars@.subrange(from as int, to as int)),
{
    let mut at = from;
    while at < to
        invariant
            from <= at <= to <= chars.len(),
            forall|k: int| from <= k < at ==> CharClass::Upper.has(#[trigger] chars@[k]),
        decreases to - at,
    {
        if !CharClass::Upper.contains(chars[at]) {
            assert(!CharClass::Upper.has(chars@.subrange(from as int, to as int)[at - from]));
            return false;
        }
        at += 1;
    }
    assert forall|k: int| 0 <= k < to - from implies CharClass::Upper.has(
        #[trigger] chars@.subrange(from as int, to as int)[k],
    ) by {
        assert(CharClass::Upper.has(chars@[from + k]));
    }
    true
}

/// Reads the label at `from`.
fn label(text: &str, chars: &Vec<char>, from: usize) -> (found: Option<(String, usize)>)
    requires
        chars@ == text@,
        from <= chars.len(),
    ensures
        match found {
            Some((name, start)) => label_at(chars@, from as int) == Some((name@, start as int))
                && from < start <= chars.len(),
            None => label_at(chars@, from as int) is None,
        },
{
    let start = scan(chars, CharClass::InlineSpace, from);
    if start >= chars.len() || !CharClass::IdentStart.contains(chars[start]) {
        return None;
    }
    let end = scan(chars, CharClass::IdentContinue, start + 1);
    if is_all_upper(chars, start, end) {
        return None;
    }
    if end >= chars.len() || !CharClass::InlineSpace.contains(chars[end]) {
        return None;
    }
    let next = scan(chars, CharClass::InlineSpace, end);
    let name = text.substring_char(start, end).to_owned();
    Some((name, next))
}

/// Tells whether the three letters `a`, `b`, `c` stand at `at`.
fn is_mnemonic(chars: &Vec<char>, at: usize, a: char, b: char, c: char) -> (found: bool)
    requires
        at <= chars.len(),
    ensures
        found == mnemonic_at(chars@, at as int, a, b, c),
{
    chars.len() - at >= 3 && chars[at] == a && chars[at + 1] == b && chars[at + 2] == c
}

/// Reads the address that follows a mnemonic which ends at `from`.
fn address(text: &str, chars: &Vec<char>, from: usize) -> (found: Option<(Operand, usize)>)
    requires
        chars@ == text@,
        from <= chars.len(),
    ensures
        match found {
            Some((operand, end)) => address_at(chars@, from as int) == Some(
                (operand@, end as int),
            ) && from < end <= chars.len(),
            None => address_at(chars@, from as int) is None,
        },
{
    if from >= chars.len() || !CharClass::InlineSpace.contains(chars[from]) {
        return None;
    }
    let at = scan(chars, CharClass::InlineSpace, from);
    instruction_input(text, chars, at)
}

/// Reads the payload that follows a `DAT` which ends at `from`.
fn payload(chars: &Vec<char>, from: usize) -> (found: (i64, usize))
    requires
        from <= chars.len(),
    ensures
        payload_at(chars@, from as int) == (found.0, found.1 as int),
        from <= found.1 <= chars.len(),
{
    if from >= chars.len() || !CharClass::InlineSpace.contains(chars[from]) {
        return (0, from);
    }
    let at = scan(chars, CharClass::InlineSpace, from);
    match num(chars, at) {
        Some(found) => found,
        None => (0, from),
    }
}

/// Reads the instruction at `from`.
fn instruction(text: &str, chars: &Vec<char>, from: usize) -> (found: Option<
    (Instruction<Operand>, usize),
>)
    requires
        chars@ == text@,
        from <= chars.len(),
    ensures
        match found {
            Some((instruction, end)) => instruction_at(chars@, from as int) == Some(
                (instruction.map_operand(|operand: Operand| operand@), end as int),
            ) && from + 3 <= end <= chars.len(),
            None => instruction_at(chars@, from as int) is None,
        },
{
    let at = scan(chars, CharClass::InlineSpace, from);
    if chars.len() - at < 3 {
        return None;
    }
    let after = at + 3;
    if is_mnemonic(chars, at, 'I', 'N', 'P') {
        Some((Instruction::INP, after))
    } else if is_mnemonic(chars, at, 'O', 'U', 'T') {
        Some((Instruction::OUT, after))
    } else if is_mnemonic(chars, at, 'H', 'L', 'T') {
        Some((Instruction::HLT, after))
    } else if is_mnemonic(chars, at, 'B', 'W', 'N') {
        Some((Instruction::BWN, after))
    } else if is_mnemonic(chars, at, 'L', 'D', 'R') {
        Some((Instruction::LDR, after))
    } else if is_mnemonic(chars, at, 'D', 'A', 'T') {
        let (value, end) = payload(chars, after);
        Some((Instruction::DAT(Operand::Num(value)), end))
    } else if is_mnemonic(chars, at, 'A', 'D', 'D') {
        match address(text, chars, after) {
            Some((operand, end)) => Some((Instruction::ADD(operand), end)),
            None => None,
        }
    } else if is_mnemonic(chars, at, 'S', 'U', 'B') {
        match address(text, chars, after) {
            Some((operand, end)) => Some((Instruction::SUB(operand), end)),
            None => None,
        }
    } else if is_mnemonic(chars, at, 'S', 'T', 'A') {
        match address(text, chars, after) {
            Some((operand, end)) => Some((Instruction::STA(operand), end)),
            None => None,
        }
    } else if is_mnemonic(chars, at, 'L', 'D', 'A') {
        match address(text, chars, after) {
            Some((operand, end)) => Some((Instruction::LDA(operand), end)),
            None => None,
        }
    } else if is_mnemonic(chars, at, 'B', 'R', 'A') {
        match address(text, chars, after) {
            Some((operand, end)) => Some((Instruction::BRA(operand), end)),
            None => None,
        }
    } else if is_mnemonic(chars, at, 'B', 'R', 'Z') {
        match address(text, chars, after) {
            Some((operand, end)) => Some((Instruction::BRZ(operand), end)),
            None => None,
        }
    } else if is_mnemonic(chars, at, 'B', 'R', 'P') {
        match address(text, chars, after) {
            Some((operand, end)) => Some((Instruction::BRP(operand), end)),
            None => None,
        }
    } else if is_mnemonic(chars, at, 'B', 'W', 'A') {
        match address(text, chars, after) {
            Some((operand, end)) => Some((Instruction::BWA(operand), end)),
            None => None,
        }
    } else if is_mnemonic(chars, at, 'B', 'W', 'O') {
        match address(text, chars, after) {
            Some((operand, end)) => Some((Instruction::BWO(operand), end)),
            None => None,
        }
    } else if is_mnemonic(chars, at, 'B', 'W', 'X') {
        match address(text, chars, after) {
            Some((operand, end)) => Some((Instruction::BWX(operand), end)),
            None => None,
        }
    } else {
        None
    }
}

/// Reads the line at `from`.
fn labeled_line(text: &str, chars: &Vec<char>, from: usize) -> (found: Option<(Node, usize)>)
    requires
        chars@ == text@,
        from <= chars.len(),
    ensures
        match found {
            Some((node, end)) => line_at(chars@, from as int) == Some((node@, end as int))
                && from + 3 <= end <= chars.len(),
            None => line_at(chars@, from as int) is None,
        },
{
    let (name, start) = match label(text, chars, from) {
        Some((name, start)) => (Some(name), start),
        None => (None, from),
    };
    match instruction(text, chars, start) {
        Some((instruction, end)) => {
            let next = scan(chars, CharClass::InlineSpace, end);
            Some((Node { label: name, instruction }, next))
        },
        None => None,
    }
}

/// Reads the program that `text` is.
pub fn parse(text: &str) -> (parsed: Result<Vec<Node>, AssembleError>)
    ensures
        match parsed {
            Ok(nodes) => program(text@) == Some(node_views(nodes@)) && 3 * nodes.len()
                <= text@.len() <= usize::MAX,
            Err(error) => program(text@) is None && error@ == AssembleErrorView::Syntax,
        },
{
    let chars = characters(text);
    let mut nodes: Vec<Node> = Vec::new();
    let mut at = scan(&chars, CharClass::Newline, 0);
    loop
        invariant
            chars@ == text@,
            at <= chars.len(),
            3 * nodes.len() <= at,
            program(text@) == prepend(node_views(nodes@), lines_from(chars@, at as int)),
        decreases chars.len() - at,
    {
        if at >= chars.len() {
            assert(node_views(nodes@) + Seq::<NodeView>::empty() =~= node_views(nodes@));
            return Ok(nodes);
        }
        let ghost before = node_views(nodes@);
        match labeled_line(text, &chars, at) {
            None => {
                return Err(AssembleError::Syntax);
            },
            Some((node, end)) => {
                nodes.push(node);
                assert(node_views(nodes@) =~= before.push(node@));
                if end >= chars.len() {
                    assert(before + seq![node@] =~= before.push(node@));
                    return Ok(nodes);
                }
                if !CharClass::Newline.contains(chars[end]) {
                    return Err(AssembleError::Syntax);
                }
                at = scan(&chars, CharClass::Newline, end);
                proof {
                    match lines_from(chars@, at as int) {
                        Some(rest) => {
                            assert(before + (seq![node@] + rest) =~= before.push(node@) + rest);
                        },
                        None => {},
                    }
                }
            },
        }
    }
}

/// Finds the line that gives the label `name` its address.
fn find_label(ast: &Vec<Node>, name: &String) -> (found: Option<usize>)
    ensures
        match found {
            Some(address) => label_address(node_views(ast@), name@) == Some(address as int)
                && address < ast.len(),
            None => label_address(node_views(ast@), name@) is None,
        },
{
    let ghost nodes = node_views(ast@);
    let mut line = ast.len();
    assert(nodes.take(line as int) =~= nodes);
    while line > 0
        invariant
            line <= ast.len(),
            nodes == node_views(ast@),
            label_address(nodes, name@) == label_address(nodes.take(line as int), name@),
        decreases line,
    {
        line -= 1;
        assert(nodes.take(line + 1).drop_last() =~= nodes.take(line as int));
        assert(nodes.take(line + 1).last() == nodes[line as int]);
        if let Some(label) = &ast[line].label {
            if *label == *name {
                return Some(line);
            }
        }
    }
    None
}

/// Finds the number that `operand` stands for in the program `ast`.
fn operand_address(ast: &Vec<Node>, operand: &Operand) -> (value: Result<i64, AssembleError>)
    requires
        ast.len() + MEMORY_SIZE <= i64::MAX,
    ensures
        match value {
            Ok(number) => operand_value(node_views(ast@), operand@) == Ok::<
                i64,
                AssembleErrorView,
            >(number),
            Err(error) => operand_value(node_views(ast@), operand@) == Err::<
                i64,
                AssembleErrorView,
            >(error@),
        },
{
    match operand {
        Operand::Num(n) => Ok(*n),
        Operand::Label(name) => match find_label(ast, name) {
            Some(address) => Ok(address as i64),
            None => Err(AssembleError::UnknownLabel(name.clone())),
        },
        Operand::Pointer(name) => match find_label(ast, name) {
            Some(address) => Ok(address as i64 + MEMORY_SIZE as i64),
            None => Err(AssembleError::UnknownLabel(name.clone())),
        },
    }
}

/// Puts the number that its operand stands for in place of the operand of
/// `instruction`.
fn resolve_instruction(ast: &Vec<Node>, instruction: &Instruction<Operand>) -> (value: Result<
    Instruction<i64>,
    AssembleError,
>)
    requires
        ast.len() + MEMORY_SIZE <= i64::MAX,
    ensures
        match value {
            Ok(plain) => resolved_instruction(
                node_views(ast@),
                instruction.map_operand(|operand: Operand| operand@),
            ) == Ok::<Instruction<i64>, AssembleErrorView>(plain),
            Err(error) => resolved_instruction(
                node_views(ast@),
                instruction.map_operand(|operand: Operand| operand@),
            ) == Err::<Instruction<i64>, AssembleErrorView>(error@),
        },
{
    Ok(
        match instruction {
            Instruction::ADD(operand) => Instruction::ADD(operand_address(ast, operand)?),
            Instruction::SUB(operand) => Instruction::SUB(operand_address(ast, operand)?),
            Instruction::STA(operand) => Instruction::STA(operand_address(ast, operand)?),
            Instruction::LDA(operand) => Instruction::LDA(operand_address(ast, operand)?),
            Instruction::BRA(operand) => Instruction::BRA(operand_address(ast, operand)?),
            Instruction::BRZ(operand) => Instruction::BRZ(operand_address(ast, operand)?),
            Instruction::BRP(operand) => Instruction::BRP(operand_address(ast, operand)?),
            Instruction::BWA(operand) => Instruction::BWA(operand_address(ast, operand)?),
            Instruction::BWO(operand) => Instruction::BWO(operand_address(ast, operand)?),
            Instruction::BWX(operand) => Instruction::BWX(operand_address(ast, operand)?),
            Instruction::DAT(operand) => Instruction::DAT(operand_address(ast, operand)?),
            Instruction::LDR => Instruction::LDR,
            Instruction::BWN => Instruction::BWN,
            Instruction::INP => Instruction::INP,
            Instruction::OUT => Instruction::OUT,
            Instruction::HLT => Instruction::HLT,
        },
    )
}

/// Resolves every operand of the program `ast`: a literal stays, a label
/// becomes its address, a pointer its address plus the memory size. The
/// first operand that names no label of the program is the error.
///
/// The program must be short enough for a pointer to its last line to be a
/// cell value, as every program is that [`parse`] has read from a text.
pub fn resolve_labels(ast: Vec<Node>) -> (program: Result<Vec<Instruction<i64>>, AssembleError>)
    requires
        ast.len() + MEMORY_SIZE <= i64::MAX,
    ensures
        match program {
            Ok(instructions) => resolved(node_views(ast@)) == Ok::<
                Seq<Instruction<i64>>,
                AssembleErrorView,
            >(instructions@),
            Err(error) => resolved(node_views(ast@)) == Err::<
                Seq<Instruction<i64>>,
                AssembleErrorView,
            >(error@),
        },
{
    let mut instructions: Vec<Instruction<i64>> = Vec::new();
    let mut line: usize = 0;
    while line < ast.len()
        invariant
            line <= ast.len(),
            ast.len() + MEMORY_SIZE <= i64::MAX,
            resolved_prefix(node_views(ast@), line as nat) == Ok::<
                Seq<Instruction<i64>>,
                AssembleErrorView,
            >(instructions@),
        decreases ast.len() - line,
    {
        match resolve_instruction(&ast, &ast[line].instruction) {
            Ok(instruction) => instructions.push(instruction),
            Err(error) => {
                proof {
                    lemma_resolved_prefix_fails(node_views(ast@), (line + 1) as nat, ast.len() as nat);
                }
                return Err(error);
            },
        }
        line += 1;
    }
    Ok(instructions)
}

/// Once a prefix of a program cannot be resolved, no longer one can, and the
/// error is the same.
proof fn lemma_resolved_prefix_fails(nodes: Seq<NodeView>, count: nat, more: nat)
    requires
        count <= more,
        resolved_prefix(nodes, count) is Err,
    ensures
        resolved_prefix(nodes, more) == resolved_prefix(nodes, count),
    decreases more - count,
{
    if count < more {
        lemma_resolved_prefix_fails(nodes, count, (more - 1) as nat);
    }
}

/// Assembles `input`: reads the program and resolves its operands.
pub fn assemble(input: &str) -> (program: Result<Vec<Instruction<i64>>, AssembleError>)
    ensures
        match program {
            Ok(instructions) => assembled(input@) == Ok::<
                Seq<Instruction<i64>>,
                AssembleErrorView,
            >(instructions@),
            Err(error) => assembled(input@) == Err::<Seq<Instruction<i64>>, AssembleErrorView>(
                error@,
            ),
        },
{
    match parse(input) {
        Ok(ast) => resolve_labels(ast),
        Err(error) => Err(error),
    }
}

/// The address of a label is the number of the last line that bears it, and
/// a label has no address only where no line bears it.
pub proof fn lemma_label_address_is_line(nodes: Seq<NodeView>, name: Seq<char>)
    ensures
        match label_address(nodes, name) {
            Some(line) => 0 <= line < nodes.len() && nodes[line].label == Some(name) && forall|
                later: int,
            |
                line < later < nodes.len() ==> (#[trigger] nodes[later]).label != Some(name),
            None => forall|line: int|
                0 <= line < nodes.len() ==> (#[trigger] nodes[line]).label != Some(name),
        },
    decreases nodes.len(),
{
    if nodes.len() > 0 && nodes.last().label != Some(name) {
        let front = nodes.drop_last();
        lemma_label_address_is_line(front, name);
        assert forall|line: int| 0 <= line < front.len() implies front[line] == nodes[line] by {}
        match label_address(front, name) {
            Some(found) => {
                assert forall|later: int| found < later < nodes.len() implies (
                #[trigger] nodes[later]).label != Some(name) by {
                    if later < front.len() {
                        assert(front[later].label != Some(name));
                    }
                }
            },
            None => {
                assert forall|line: int| 0 <= line < nodes.len() implies (
                #[trigger] nodes[line]).label != Some(name) by {
                    if line < front.len() {
                        assert(front[line].label != Some(name));
                    }
                }
            },
        }
    }
}

/// Where one line alone bears a label, the address of the label is the
/// number of that line, counted from zero.
pub proof fn lemma_sole_label_address(nodes: Seq<NodeView>, name: Seq<char>, line: int)
    requires
        0 <= line < nodes.len(),
        nodes[line].label == Some(name),
        forall|other: int|
            0 <= other < nodes.len() && other != line ==> (#[trigger] nodes[other]).label != Some(
                name,
            ),
    ensures
        label_address(nodes, name) == Some(line),
{
    lemma_label_address_is_line(nodes, name);
}

/// Where a program resolves, it does so line by line: it keeps its length,
/// and each instruction is its line's instruction, resolved.
pub proof fn lemma_resolved_line_by_line(nodes: Seq<NodeView>, count: nat)
    requires
        count <= nodes.len(),
        resolved_prefix(nodes, count) is Ok,
    ensures
        resolved_prefix(nodes, count)->Ok_0.len() == count,
        forall|line: int|
            0 <= line < count ==> #[trigger] resolved_instruction(nodes, nodes[line].instruction)
                == Ok::<Instruction<i64>, AssembleErrorView>(
                resolved_prefix(nodes, count)->Ok_0[line],
            ),
    decreases count,
{
    if count > 0 {
        lemma_resolved_line_by_line(nodes, (count - 1) as nat);
        let done = resolved_prefix(nodes, (count - 1) as nat)->Ok_0;
        let all = resolved_prefix(nodes, count)->Ok_0;
        assert forall|line: int| 0 <= line < count implies #[trigger] resolved_instruction(
            nodes,
            nodes[line].instruction,
        ) == Ok::<Instruction<i64>, AssembleErrorView>(all[line]) by {
            if line < count - 1 {
                assert(all[line] == done[line]);
            }
        }
    }
}

/// Where a program does not resolve, the error is that of the first line
/// whose instruction does not, which is the line that is returned.
pub proof fn lemma_resolved_fails_at_first(nodes: Seq<NodeView>, count: nat) -> (line: int)
    requires
        count <= nodes.len(),
        resolved_prefix(nodes, count) is Err,
    ensures
        0 <= line < count,
        resolved_instruction(nodes, nodes[line].instruction) == Err::<
            Instruction<i64>,
            AssembleErrorView,
        >(resolved_prefix(nodes, count)->Err_0),
        forall|earlier: int|
            0 <= earlier < line ==> (#[trigger] resolved_instruction(
                nodes,
                nodes[earlier].instruction,
            )) is Ok,
    decreases count,
{
    if resolved_prefix(nodes, (count - 1) as nat) is Err {
        lemma_resolved_fails_at_first(nodes, (count - 1) as nat)
    } else {
        lemma_resolved_line_by_line(nodes, (count - 1) as nat);
        count - 1
    }
}

/// A program has a line for every three characters of its text at most.
pub proof fn lemma_program_is_shorter_than_text(text: Seq<char>, from: int)
    requires
        0 <= from <= text.len(),
        lines_from(text, from) is Some,
    ensures
        3 * lines_from(text, from)->0.len() <= text.len() - from,
    decreases text.len() - from,
{
    if from < text.len() {
        lemma_line_advances(text, from);
        let end = end_of(line_at(text, from));
        if end < text.len() {
            lemma_run_end(text, CharClass::Newline, end);
            lemma_program_is_shorter_than_text(text, run_end(text, CharClass::Newline, end));
        }
    }
}

/// Assembling is a function of the text: the same text assembles to the same
/// instructions or to the same error, whenever and wherever it is assembled.
pub proof fn lemma_assembling_is_deterministic(first: Seq<char>, second: Seq<char>)
    requires
        first == second,
    ensures
        assembled(first) == assembled(second),
{
}

} // verus!

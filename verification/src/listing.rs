//! Writing and reading agree: the text of an instruction is a program of one
//! line, and that line is the instruction.

use vstd::prelude::*;
use crate::assembly::Instruction;
use crate::parser::{
    address_at, all_upper, assembled, decimal, instruction_at, label_at, lemma_decimal_reads_digits,
    line_at, lines_from, literal_end, number_at, operand_at, payload_at, program, resolved,
    resolved_instruction, resolved_prefix, AssembleErrorView, NodeView, OperandView,
};
use crate::text::{digit_char, digits_of, has_at, lemma_run_end_is, run_end, CharClass};

verus! {

/// A number is written with at least one digit, with digits alone, and with
/// no `0` in front unless it is 0.
pub proof fn lemma_digits_shape(n: nat)
    ensures
        digits_of(n).len() >= 1,
        forall|k: int| 0 <= k < digits_of(n).len() ==> CharClass::Digit.has(#[trigger] digits_of(n)[k]),
        n > 0 ==> digits_of(n)[0] != '0',
        n == 0 ==> digits_of(n) =~= seq!['0'],
    decreases n,
{
    if n >= 10 {
        lemma_digits_shape(n / 10);
    }
}

/// A text that ends with the digits of a number has that number where the
/// digits start.
proof fn lemma_number_at_end(text: Seq<char>, at: int, n: nat)
    requires
        0 <= at <= text.len(),
        text.subrange(at, text.len() as int) == digits_of(n),
        n <= i64::MAX,
    ensures
        number_at(text, at) == Some((n as i64, text.len() as int)),
{
    let digits = digits_of(n);
    lemma_digits_shape(n);
    lemma_decimal_reads_digits(n);
    assert forall|k: int| at <= k < text.len() implies CharClass::Digit.has(#[trigger] text[k]) by {
        assert(text[k] == digits[k - at]);
    }
    assert(text[at] == digits[0]);
    if text[at] == '0' {
        assert(n == 0);
        assert(digits.len() == 1);
    } else {
        lemma_run_end_is(text, CharClass::Digit, at, text.len() as int);
    }
    assert(literal_end(text, at) == text.len());
}

/// The text of an instruction whose operand is not negative is one line, and
/// the line is the instruction, without a label.
pub proof fn lemma_text_is_a_line(instruction: Instruction<i64>)
    requires
        instruction.operand() is Some ==> instruction.operand()->0 >= 0,
    ensures
        line_at(instruction.text(), 0) == Some(
            (
                NodeView {
                    label: None,
                    instruction: instruction.map_operand(|value: i64| OperandView::Num(value)),
                },
                instruction.text().len() as int,
            ),
        ),
{
    let text = instruction.text();
    let name = instruction.mnemonic();
    assert(name.len() == 3);
    assert(text[0] == name[0] && text[1] == name[1] && text[2] == name[2]);
    assert(CharClass::Upper.has(name[0]) && CharClass::Upper.has(name[1]) && CharClass::Upper.has(
        name[2],
    ));
    assert(!has_at(text, CharClass::InlineSpace, 0));
    assert(!has_at(text, CharClass::IdentContinue, 3)) by {
        if instruction.operand() is Some {
            assert(text[3] == ' ');
        }
    }
    lemma_run_end_is(text, CharClass::IdentContinue, 1, 3);
    assert(all_upper(text.subrange(0, 3))) by {
        assert forall|k: int| 0 <= k < 3 implies CharClass::Upper.has(
            #[trigger] text.subrange(0, 3)[k],
        ) by {
            assert(text.subrange(0, 3)[k] == name[k]);
        }
    }
    assert(label_at(text, 0) is None);
    match instruction.operand() {
        Some(value) => {
            let digits = digits_of(value as nat);
            lemma_digits_shape(value as nat);
            assert(text.len() == 4 + digits.len());
            assert(text[3] == ' ');
            assert(text[4] == digits[0]);
            assert(text.subrange(4, text.len() as int) =~= digits);
            assert(!has_at(text, CharClass::InlineSpace, 4));
            lemma_run_end_is(text, CharClass::InlineSpace, 3, 4);
            lemma_number_at_end(text, 4, value as nat);
            assert(operand_at(text, 4) == Some((OperandView::Num(value), text.len() as int)));
            assert(address_at(text, 3) == Some((OperandView::Num(value), text.len() as int)));
            assert(payload_at(text, 3) == (value, text.len() as int));
        },
        None => {
            assert(text.len() == 3);
        },
    }
    assert(!has_at(text, CharClass::InlineSpace, text.len() as int));
    assert(instruction_at(text, 0) == Some(
        (
            instruction.map_operand(|value: i64| OperandView::Num(value)),
            text.len() as int,
        ),
    ));
}

/// The text of an instruction whose operand is not negative assembles to
/// that instruction, and to nothing else.
pub proof fn lemma_text_assembles(instruction: Instruction<i64>)
    requires
        instruction.operand() is Some ==> instruction.operand()->0 >= 0,
    ensures
        assembled(instruction.text()) == Ok::<Seq<Instruction<i64>>, AssembleErrorView>(
            seq![instruction],
        ),
{
    let text = instruction.text();
    let node = NodeView {
        label: None,
        instruction: instruction.map_operand(|value: i64| OperandView::Num(value)),
    };
    lemma_text_is_a_line(instruction);
    assert(text.len() >= 3);
    assert(!has_at(text, CharClass::Newline, 0)) by {
        assert(text[0] == instruction.mnemonic()[0]);
    }
    assert(program(text) == Some(seq![node]));
    let nodes = seq![node];
    assert(resolved_instruction(nodes, node.instruction) == Ok::<
        Instruction<i64>,
        AssembleErrorView,
    >(instruction));
    assert(resolved_prefix(nodes, 0) == Ok::<Seq<Instruction<i64>>, AssembleErrorView>(
        Seq::empty(),
    ));
    assert(Seq::<Instruction<i64>>::empty().push(instruction) =~= seq![instruction]);
    assert(resolved(nodes) == Ok::<Seq<Instruction<i64>>, AssembleErrorView>(seq![instruction]));
}

} // verus!

//! Reading a sheet line back: the words of a line, the question and the
//! answer they write, and the law that ties the two sheets together.

use crate::operation::SAOperation;
use crate::problem::SAProblem;
use crate::text::{
    int_text, is_digit, lemma_nat_text_value, lemma_parse_int_text, nat_text, parse_int,
};
use vstd::prelude::*;

verus! {

/// Whether `text` holds no space.
pub open spec fn no_space(text: Seq<char>) -> bool {
    forall|i: int| 0 <= i < text.len() ==> #[trigger] text[i] != ' '
}

/// The number of characters before the first space of `text`.
pub open spec fn word_len(text: Seq<char>) -> nat
    decreases text.len(),
{
    if text.len() == 0 || text[0] == ' ' {
        0
    } else {
        1 + word_len(text.skip(1))
    }
}

/// The first word of `text`: what stands before its first space.
pub open spec fn first_word(text: Seq<char>) -> Seq<char> {
    text.take(word_len(text) as int)
}

/// What follows the first space of `text`. Empty where there is no space.
pub open spec fn after_first_word(text: Seq<char>) -> Seq<char> {
    if word_len(text) < text.len() {
        text.skip(word_len(text) as int + 1)
    } else {
        Seq::empty()
    }
}

/// The word of `text` at position `k`, counted from 0, where single spaces
/// part the words.
pub open spec fn word(text: Seq<char>, k: nat) -> Seq<char>
    decreases k,
{
    if k == 0 {
        first_word(text)
    } else {
        word(after_first_word(text), (k - 1) as nat)
    }
}

/// The operation that a word names by its symbol.
pub open spec fn operation_of_symbol(symbol: Seq<char>) -> Option<SAOperation> {
    if symbol == seq!['+'] {
        Some(SAOperation::Addition)
    } else if symbol == seq!['-'] {
        Some(SAOperation::Subtraction)
    } else if symbol == seq!['*'] {
        Some(SAOperation::Multiplication)
    } else if symbol == seq!['/'] {
        Some(SAOperation::Division)
    } else {
        None
    }
}

/// The question that a sheet line asks: the operation named by its fourth
/// word, on the numbers that its third and fifth words write.
pub open spec fn read_question(line: Seq<char>) -> Option<(SAOperation, int, int)> {
    match (operation_of_symbol(word(line, 3)), parse_int(word(line, 2)), parse_int(word(line, 4))) {
        (Some(operation), Some(constant1), Some(constant2)) => Some(
            (operation, constant1, constant2),
        ),
        _ => None,
    }
}

/// The answer that a sheet line gives: the number that its seventh word
/// writes before the end of the line.
pub open spec fn read_answer(line: Seq<char>) -> Option<int> {
    let last = word(line, 6);
    if last.len() > 0 && last.last() == '\n' {
        parse_int(last.drop_last())
    } else {
        None
    }
}

/// A word without a space, a space, and a rest: the word is the first word,
/// and the rest is what follows it.
pub proof fn lemma_first_word(head: Seq<char>, rest: Seq<char>)
    requires
        no_space(head),
    ensures
        first_word(head + seq![' '] + rest) == head,
        after_first_word(head + seq![' '] + rest) == rest,
    decreases head.len(),
{
    let text = head + seq![' '] + rest;
    lemma_word_len(head, rest);
    assert(text.take(head.len() as int) =~= head);
    assert(text.skip(head.len() as int + 1) =~= rest);
}

/// The first word of a word without a space, a space, and a rest has the
/// length of the word.
pub proof fn lemma_word_len(head: Seq<char>, rest: Seq<char>)
    requires
        no_space(head),
    ensures
        word_len(head + seq![' '] + rest) == head.len(),
    decreases head.len(),
{
    let text = head + seq![' '] + rest;
    if head.len() == 0 {
        assert(text[0] == ' ');
    } else {
        assert(text[0] == head[0]);
        assert(text.skip(1) =~= head.skip(1) + seq![' '] + rest);
        assert forall|i: int| 0 <= i < head.skip(1).len() implies #[trigger] head.skip(1)[i]
            != ' ' by {
            assert(head.skip(1)[i] == head[i + 1]);
        }
        lemma_word_len(head.skip(1), rest);
    }
}

/// A text without a space is its own first word.
pub proof fn lemma_single_word(text: Seq<char>)
    requires
        no_space(text),
    ensures
        word_len(text) == text.len(),
        first_word(text) == text,
    decreases text.len(),
{
    if text.len() > 0 {
        assert(text[0] != ' ');
        assert forall|i: int| 0 <= i < text.skip(1).len() implies #[trigger] text.skip(1)[i]
            != ' ' by {
            assert(text.skip(1)[i] == text[i + 1]);
        }
        lemma_single_word(text.skip(1));
    }
    assert(text.take(text.len() as int) =~= text);
}

/// The decimal text of an integer holds no space.
pub proof fn lemma_int_text_no_space(v: int)
    ensures
        no_space(int_text(v)),
{
    let magnitude = if v < 0 {
        (-v) as nat
    } else {
        v as nat
    };
    lemma_nat_text_value(magnitude);
    assert forall|i: int| 0 <= i < int_text(v).len() implies #[trigger] int_text(v)[i] != ' ' by {
        if v < 0 {
            if i > 0 {
                assert(int_text(v)[i] == nat_text(magnitude)[i - 1]);
                assert(is_digit(nat_text(magnitude)[i - 1]));
            }
        } else {
            assert(is_digit(nat_text(magnitude)[i]));
        }
    }
}

/// The words of a line whose last word is `last`: the question stands in
/// the third, fourth and fifth word, and `last` is the seventh.
proof fn lemma_line_words(problem: SAProblem, last: Seq<char>)
    requires
        no_space(last),
    ensures
        word(problem.spec_question() + last, 2) == int_text(problem.constant1 as int),
        word(problem.spec_question() + last, 3) == seq![problem.operation.spec_symbol()],
        word(problem.spec_question() + last, 4) == int_text(problem.constant2 as int),
        word(problem.spec_question() + last, 6) == last,
{
    reveal_strlit("Problem ");
    reveal_strlit(": ");
    reveal_strlit(" ");
    reveal_strlit(" = ");
    let w0 = seq!['P', 'r', 'o', 'b', 'l', 'e', 'm'];
    let w1 = seq![problem.operation.spec_tag()] + int_text(problem.number as int) + seq![':'];
    let w2 = int_text(problem.constant1 as int);
    let w3 = seq![problem.operation.spec_symbol()];
    let w4 = int_text(problem.constant2 as int);
    let w5 = seq!['='];
    let t6 = last;
    let t5 = w5 + seq![' '] + t6;
    let t4 = w4 + seq![' '] + t5;
    let t3 = w3 + seq![' '] + t4;
    let t2 = w2 + seq![' '] + t3;
    let t1 = w1 + seq![' '] + t2;
    let t0 = w0 + seq![' '] + t1;
    assert(problem.spec_question() + last =~= t0);
    lemma_int_text_no_space(problem.number as int);
    lemma_int_text_no_space(problem.constant1 as int);
    lemma_int_text_no_space(problem.constant2 as int);
    assert(no_space(w1)) by {
        let number = int_text(problem.number as int);
        assert forall|i: int| 0 <= i < w1.len() implies #[trigger] w1[i] != ' ' by {
            if 1 <= i <= number.len() {
                assert(w1[i] == number[i - 1]);
            }
        }
    }
    lemma_first_word(w0, t1);
    lemma_first_word(w1, t2);
    lemma_first_word(w2, t3);
    lemma_first_word(w3, t4);
    lemma_first_word(w4, t5);
    lemma_first_word(w5, t6);
    lemma_single_word(t6);
    assert(word(t6, 0) == last);
    assert(word(t5, 1) == last);
    assert(word(t4, 0) == w4);
    assert(word(t4, 2) == last);
    assert(word(t3, 0) == w3);
    assert(word(t3, 1) == w4);
    assert(word(t3, 3) == last);
    assert(word(t2, 0) == w2);
    assert(word(t2, 1) == w3);
    assert(word(t2, 2) == w4);
    assert(word(t2, 4) == last);
    assert(word(t1, 1) == w2);
    assert(word(t1, 2) == w3);
    assert(word(t1, 3) == w4);
    assert(word(t1, 5) == last);
    assert(word(t0, 2) == w2);
    assert(word(t0, 3) == w3);
    assert(word(t0, 4) == w4);
    assert(word(t0, 6) == last);
}

/// Reading the student line of a consistent problem gives its operation and
/// operands, and the value of that operation on those operands is the answer
/// that the instructor line gives.
pub proof fn lemma_render_round_trip(problem: SAProblem)
    requires
        problem.consistent(),
    ensures
        read_question(problem.spec_student_line()) == Some(
            (problem.operation, problem.constant1 as int, problem.constant2 as int),
        ),
        read_answer(problem.spec_instructor_line()) == Some(
            problem.operation.spec_apply(problem.constant1 as int, problem.constant2 as int),
        ),
        read_answer(problem.spec_instructor_line()) == Some(problem.result as int),
{
    reveal_strlit("\n");
    let end = seq!['\n'];
    let answer = int_text(problem.result as int) + end;
    lemma_int_text_no_space(problem.result as int);
    lemma_line_words(problem, end);
    lemma_line_words(problem, answer);
    assert("\n"@ =~= end);
    assert(problem.spec_student_line() =~= problem.spec_question() + end);
    assert(problem.spec_instructor_line() =~= problem.spec_question() + answer);
    lemma_parse_int_text(problem.constant1 as int);
    lemma_parse_int_text(problem.constant2 as int);
    lemma_parse_int_text(problem.result as int);
    assert(answer.drop_last() =~= int_text(problem.result as int));
    let symbol = seq![problem.operation.spec_symbol()];
    assert(operation_of_symbol(symbol) == Some(problem.operation)) by {
        assert(symbol[0] == problem.operation.spec_symbol());
        assert(seq!['+'][0] == '+');
        assert(seq!['-'][0] == '-');
        assert(seq!['*'][0] == '*');
        assert(seq!['/'][0] == '/');
    }
}

} // verus!

//! One worksheet entry.

use crate::operation::SAOperation;
use crate::text::{int_text, render_i32};
use vstd::prelude::*;

verus! {

/// One arithmetic problem of a worksheet. `number` is its position on the
/// sheet, counted from 1.
#[derive(Copy, Clone, Debug, PartialEq, Eq, PartialOrd, Structural)]
pub struct SAProblem {
    pub number: i32,
    pub constant1: i32,
    pub constant2: i32,
    pub operation: SAOperation,
    pub result: i32,
}

/// The tag of an operation as a text of one character.
fn tag_text(operation: SAOperation) -> (text: &'static str)
    ensures
        text@ == seq![operation.spec_tag()],
{
    proof {
        reveal_strlit("A");
        reveal_strlit("S");
        reveal_strlit("M");
        reveal_strlit("D");
    }
    let text = match operation {
        SAOperation::Addition => "A",
        SAOperation::Subtraction => "S",
        SAOperation::Multiplication => "M",
        SAOperation::Division => "D",
    };
    assert(text@ =~= seq![operation.spec_tag()]);
    text
}

/// The symbol of an operation as a text of one character.
fn symbol_text(operation: SAOperation) -> (text: &'static str)
    ensures
        text@ == seq![operation.spec_symbol()],
{
    proof {
        reveal_strlit("+");
        reveal_strlit("-");
        reveal_strlit("*");
        reveal_strlit("/");
    }
    let text = match operation {
        SAOperation::Addition => "+",
        SAOperation::Subtraction => "-",
        SAOperation::Multiplication => "*",
        SAOperation::Division => "/",
    };
    assert(text@ =~= seq![operation.spec_symbol()]);
    text
}

impl SAProblem {
    /// What both sheets show of the problem: the heading with tag and
    /// number, then the operands around the symbol, up to the equals sign.
    pub open spec fn spec_question(self) -> Seq<char> {
        "Problem "@ + seq![self.operation.spec_tag()] + int_text(self.number as int) + ": "@
            + int_text(self.constant1 as int) + " "@ + seq![self.operation.spec_symbol()] + " "@
            + int_text(self.constant2 as int) + " = "@
    }

    /// The line of the student sheet: the question, left open.
    pub open spec fn spec_student_line(self) -> Seq<char> {
        self.spec_question() + "\n"@
    }

    /// The line of the instructor sheet: the question with the result.
    pub open spec fn spec_instructor_line(self) -> Seq<char> {
        self.spec_question() + int_text(self.result as int) + "\n"@
    }

    /// Writes what both sheets show of the problem.
    fn question(&self) -> (text: String)
        ensures
            text@ == self.spec_question(),
    {
        let mut text = String::from_str("Problem ");
        text.append(tag_text(self.operation));
        text.append(render_i32(self.number).as_str());
        text.append(": ");
        text.append(render_i32(self.constant1).as_str());
        text.append(" ");
        text.append(symbol_text(self.operation));
        text.append(" ");
        text.append(render_i32(self.constant2).as_str());
        text.append(" = ");
        text
    }

    pub fn student_string(&self) -> (line: String)
        ensures
            line@ == self.spec_student_line(),
    {
        let mut line = self.question();
        line.append("\n");
        line
    }

    pub fn instructor_string(&self) -> (line: String)
        ensures
            line@ == self.spec_instructor_line(),
    {
        let mut line = self.question();
        line.append(render_i32(self.result).as_str());
        line.append("\n");
        line
    }

    /// The result is the value of the operation on the two operands, and a
    /// division has a divisor other than zero.
    pub open spec fn consistent(self) -> bool {
        &&& self.operation.spec_defined(self.constant1 as int, self.constant2 as int)
        &&& self.result == self.operation.spec_apply(self.constant1 as int, self.constant2 as int)
    }

    pub fn new() -> (problem: Self)
        ensures
            problem == (SAProblem {
                number: 0,
                constant1: 0,
                constant2: 0,
                operation: SAOperation::Addition,
                result: 0,
            }),
            problem.consistent(),
    {
        SAProblem {
            number: 0,
            constant1: 0,
            constant2: 0,
            operation: SAOperation::new(),
            result: 0,
        }
    }
}

impl Default for SAProblem {
    fn default() -> (problem: Self)
        ensures
            problem == (SAProblem {
                number: 0,
                constant1: 0,
                constant2: 0,
                operation: SAOperation::Addition,
                result: 0,
            }),
    {
        Self::new()
    }
}

} // verus!

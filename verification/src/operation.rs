//! The four arithmetic operations, their names and symbols, and their
//! arithmetic on machine integers.

use vstd::prelude::*;
use vstd::string::StringExecFns;

verus! {

/// The operation of a worksheet.
#[derive(Copy, Clone, Debug, PartialEq, Eq, PartialOrd, Structural)]
pub enum SAOperation {
    Addition,
    Subtraction,
    Multiplication,
    Division,
}

/// Integer quotient rounded toward zero. Unspecified for a zero divisor.
pub open spec fn trunc_div(a: int, b: int) -> int {
    if a >= 0 {
        if b > 0 {
            a / b
        } else {
            -(a / (-b))
        }
    } else {
        if b > 0 {
            -((-a) / b)
        } else {
            (-a) / (-b)
        }
    }
}

/// Whether `v` can be stored in an `i32`.
pub open spec fn fits_i32(v: int) -> bool {
    i32::MIN <= v <= i32::MAX
}

/// The lowercase form of a text as `str::to_lowercase` computes it.
pub uninterp spec fn lowercase_of(text: Seq<char>) -> Seq<char>;

/// Calls `str::to_lowercase`. The result is the Unicode lowercase form of the
/// input, which is a function of the input alone; the contract gives it the
/// name `lowercase_of` and claims nothing more of it.
#[verifier::external_body]
fn lowercased(input: &str) -> (lowered: String)
    ensures
        lowered@ == lowercase_of(input@),
{
    input.to_lowercase()
}

impl SAOperation {
    /// The display name.
    pub open spec fn spec_name(self) -> Seq<char> {
        match self {
            SAOperation::Addition => "Addition"@,
            SAOperation::Subtraction => "Subtraction"@,
            SAOperation::Multiplication => "Multiplication"@,
            SAOperation::Division => "Division"@,
        }
    }

    /// The one-letter tag: the first character of the display name.
    pub open spec fn spec_tag(self) -> char {
        match self {
            SAOperation::Addition => 'A',
            SAOperation::Subtraction => 'S',
            SAOperation::Multiplication => 'M',
            SAOperation::Division => 'D',
        }
    }

    /// The infix symbol.
    pub open spec fn spec_symbol(self) -> char {
        match self {
            SAOperation::Addition => '+',
            SAOperation::Subtraction => '-',
            SAOperation::Multiplication => '*',
            SAOperation::Division => '/',
        }
    }

    /// Whether the operation has a value on `a` and `b`: everything but a
    /// division by zero.
    pub open spec fn spec_defined(self, a: int, b: int) -> bool {
        self == SAOperation::Division ==> b != 0
    }

    /// The value of the operation on `a` and `b`: sum, difference, product,
    /// or quotient rounded toward zero.
    pub open spec fn spec_apply(self, a: int, b: int) -> int {
        match self {
            SAOperation::Addition => a + b,
            SAOperation::Subtraction => a - b,
            SAOperation::Multiplication => a * b,
            SAOperation::Division => trunc_div(a, b),
        }
    }

    /// The operation that a lowercase token names: the full name or its
    /// three-letter abbreviation.
    pub open spec fn spec_from_token(token: Seq<char>) -> Option<SAOperation> {
        if token == "add"@ || token == "addition"@ {
            Some(SAOperation::Addition)
        } else if token == "sub"@ || token == "subtraction"@ {
            Some(SAOperation::Subtraction)
        } else if token == "mul"@ || token == "multiplication"@ {
            Some(SAOperation::Multiplication)
        } else if token == "div"@ || token == "division"@ {
            Some(SAOperation::Division)
        } else {
            None
        }
    }

    pub fn new() -> (op: Self)
        ensures
            op == SAOperation::Addition,
    {
        SAOperation::Addition
    }

    /// Resolves a token that is already in lowercase. `None` for a token that
    /// names no operation.
    pub fn from_token(token: &str) -> (op: Option<SAOperation>)
        ensures
            op == Self::spec_from_token(token@),
    {
        let text = String::from_str(token);
        if text == String::from_str("add") || text == String::from_str("addition") {
            Some(SAOperation::Addition)
        } else if text == String::from_str("sub") || text == String::from_str("subtraction") {
            Some(SAOperation::Subtraction)
        } else if text == String::from_str("mul") || text == String::from_str("multiplication") {
            Some(SAOperation::Multiplication)
        } else if text == String::from_str("div") || text == String::from_str("division") {
            Some(SAOperation::Division)
        } else {
            None
        }
    }

    /// Resolves a token without regard to case. A token that names no
    /// operation gives `Addition`, and nothing tells the two apart: no
    /// diagnostic is written. A caller that wants to warn of such a token
    /// asks `from_token`, which gives `None` for it.
    pub fn from(input: String) -> (op: SAOperation)
        ensures
            op == match Self::spec_from_token(lowercase_of(input@)) {
                Some(named) => named,
                None => SAOperation::Addition,
            },
    {
        let lowered = lowercased(input.as_str());
        match Self::from_token(lowered.as_str()) {
            Some(named) => named,
            None => SAOperation::Addition,
        }
    }

    pub fn as_string(&self) -> (name: String)
        ensures
            name@ == self.spec_name(),
    {
        match self {
            SAOperation::Addition => "Addition".to_owned(),
            SAOperation::Subtraction => "Subtraction".to_owned(),
            SAOperation::Multiplication => "Multiplication".to_owned(),
            SAOperation::Division => "Division".to_owned(),
        }
    }

    /// The one-letter tag, which is the first character of the display
    /// name.
    pub fn as_tag(&self) -> (tag: char)
        ensures
            tag == self.spec_tag(),
            self.spec_name().len() > 0,
            tag == self.spec_name()[0],
    {
        proof {
            reveal_strlit("Addition");
            reveal_strlit("Subtraction");
            reveal_strlit("Multiplication");
            reveal_strlit("Division");
        }
        match self {
            SAOperation::Addition => 'A',
            SAOperation::Subtraction => 'S',
            SAOperation::Multiplication => 'M',
            SAOperation::Division => 'D',
        }
    }

    pub fn as_symbol(&self) -> (symbol: char)
        ensures
            symbol == self.spec_symbol(),
    {
        match self {
            SAOperation::Addition => '+',
            SAOperation::Subtraction => '-',
            SAOperation::Multiplication => '*',
            SAOperation::Division => '/',
        }
    }

    /// Computes the operation on two operands. `None` where it has no value
    /// (a zero divisor) or the value does not fit in an `i32`.
    pub fn apply(&self, a: i32, b: i32) -> (value: Option<i32>)
        ensures
            value == (if self.spec_defined(a as int, b as int) && fits_i32(
                self.spec_apply(a as int, b as int),
            ) {
                Some(self.spec_apply(a as int, b as int) as i32)
            } else {
                None
            }),
    {
        let wide: i64 = match self {
            SAOperation::Addition => a as i64 + b as i64,
            SAOperation::Subtraction => a as i64 - b as i64,
            SAOperation::Multiplication => {
                assert(-0x8000_0000 * 0x8000_0000 <= (a as int) * (b as int) <= 0x8000_0000
                    * 0x8000_0000) by (nonlinear_arith)
                    requires
                        -0x8000_0000 <= a < 0x8000_0000,
                        -0x8000_0000 <= b < 0x8000_0000,
                ;
                a as i64 * b as i64
            },
            SAOperation::Division => {
                if b == 0 {
                    return None;
                }
                let left: i64 = if a < 0 { -(a as i64) } else { a as i64 };
                let right: i64 = if b < 0 { -(b as i64) } else { b as i64 };
                let magnitude: i64 = left / right;
                assert(0 <= magnitude <= left) by (nonlinear_arith)
                    requires
                        magnitude == left as int / right as int,
                        left >= 0,
                        right > 0,
                ;
                if (a < 0) != (b < 0) { -magnitude } else { magnitude }
            },
        };
        if wide < -0x8000_0000 || wide > 0x7fff_ffff {
            None
        } else {
            Some(wide as i32)
        }
    }
}

impl Default for SAOperation {
    fn default() -> (op: Self)
        ensures
            op == SAOperation::Addition,
    {
        Self::new()
    }
}

} // verus!

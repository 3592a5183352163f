//! What a worksheet request asks for.

use crate::operation::{trunc_div, SAOperation};
use vstd::prelude::*;

verus! {

/// A worksheet request: how many problems, of which operation, with operands
/// drawn from `problems_floor ..= problems_ceiling`, and whether a result of
/// zero or less is admitted.
#[derive(Copy, Clone, Debug, PartialEq, Eq, Structural)]
pub struct SAGeneratorOptions {
    pub problems_num: i32,
    pub problems_ceiling: i32,
    pub problems_floor: i32,
    pub allow_negatives: bool,
    pub operation: SAOperation,
}

impl SAGeneratorOptions {
    /// The width of the tolerance band: twelve times the hundredth part,
    /// rounded toward zero, of the width of the range.
    pub open spec fn spec_tolerance(self) -> int {
        trunc_div(self.problems_ceiling - self.problems_floor, 100) * 12
    }

    /// Whether `value` lies in the range that operands are drawn from.
    pub open spec fn spec_in_range(self, value: int) -> bool {
        self.problems_floor <= value <= self.problems_ceiling
    }

    pub fn new() -> (options: Self)
        ensures
            options == (SAGeneratorOptions {
                problems_num: 0,
                problems_ceiling: 0,
                problems_floor: 0,
                allow_negatives: false,
                operation: SAOperation::Addition,
            }),
    {
        SAGeneratorOptions {
            problems_num: 0,
            problems_ceiling: 0,
            problems_floor: 0,
            allow_negatives: false,
            operation: SAOperation::Addition,
        }
    }

    pub fn from(
        problems_num: i32,
        problems_ceiling: i32,
        problems_floor: i32,
        allow_negatives: bool,
        operation: SAOperation,
    ) -> (options: SAGeneratorOptions)
        ensures
            options == (SAGeneratorOptions {
                problems_num,
                problems_ceiling,
                problems_floor,
                allow_negatives,
                operation,
            }),
    {
        SAGeneratorOptions {
            problems_num,
            problems_ceiling,
            problems_floor,
            allow_negatives,
            operation,
        }
    }

    /// Computes the width of the tolerance band.
    pub fn tolerance(&self) -> (width: i64)
        ensures
            width == self.spec_tolerance(),
            -600_000_000 <= width <= 600_000_000,
    {
        let span: i64 = self.problems_ceiling as i64 - self.problems_floor as i64;
        if span >= 0 {
            let hundredth: i64 = span / 100;
            hundredth * 12
        } else {
            let hundredth: i64 = (-span) / 100;
            -hundredth * 12
        }
    }
}

impl Default for SAGeneratorOptions {
    fn default() -> (options: Self)
        ensures
            options == (SAGeneratorOptions {
                problems_num: 0,
                problems_ceiling: 0,
                problems_floor: 0,
                allow_negatives: false,
                operation: SAOperation::Addition,
            }),
    {
        Self::new()
    }
}

} // verus!

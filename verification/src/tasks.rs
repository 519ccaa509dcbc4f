//! The example task: adding two integers.

use vstd::prelude::*;

verus! {

/// The payload of an "add" job: the two numbers to add.
#[derive(Debug, Clone, Copy, PartialEq, Eq, Structural)]
pub struct SumPayload {
    pub arg1: i32,
    pub arg2: i32,
}

/// The result of an "add" job: the sum.
#[derive(Debug, Clone, Copy, PartialEq, Eq, Structural)]
pub struct SumResult {
    pub result: i32,
}

/// Whether the sum of the payload's numbers fits an `i32`.
pub open spec fn sum_fits(pl: SumPayload) -> bool {
    i32::MIN <= pl.arg1 + pl.arg2 <= i32::MAX
}

/// The sum of the payload's two numbers, which must fit an `i32`.
pub fn sum(pl: &SumPayload) -> (r: SumResult)
    requires
        sum_fits(*pl),
    ensures
        r.result == pl.arg1 + pl.arg2,
{
    SumResult { result: pl.arg1 + pl.arg2 }
}

} // verus!

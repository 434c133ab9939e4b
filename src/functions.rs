//! The values that the functions walkthrough computes and returns.

use vstd::prelude::*;

verus! {

/// A value returned as the body's last expression.
pub fn simple_return() -> (r: i32)
    ensures
        r == 5,
{
    5
}

/// A value returned with an explicit `return`.
pub fn return_sth() -> (r: i32)
    ensures
        r == 5,
{
    let x = simple_return();
    return x;
}

/// The value of a block expression that shadows `y = 6` with `y * 3` and
/// adds 32.
pub fn show_and_express() -> (r: i32)
    ensures
        r == 50,
{
    let y: i32 = 6;
    let x: i32 = {
        let y: i32 = y * 3;
        y + 32
    };
    x
}

} // verus!

//! A quadratic-funding matching pool: proposals, funded votes and a
//! capital-constrained distribution of a fixed matching budget, together
//! with a few small message types shared with sibling contracts.
use vstd::prelude::*;

pub mod asset;
pub mod error;
pub mod laws;
pub mod matching;
pub mod math;
pub mod period;
pub mod round;
pub mod wide;
pub mod poll;

verus! {

} // verus!

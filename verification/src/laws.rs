//! What holds of the gallery as a whole, over all inputs.
//!
//! Each law says what an operation is for by the values that go in and the values that come out.
use vstd::prelude::*;

pub mod arranging;
pub mod curves;
pub mod frames;
pub mod keeping;
pub mod keys;
pub mod pictures;
pub mod searching;
pub mod stacks;
pub mod viewing;
pub mod words;

verus! {

} // verus!

use vstd::prelude::*;

pub mod erasure;
pub mod driver;
pub mod error;
pub mod state;

verus! {

} // verus!

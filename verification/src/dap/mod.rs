//! Debugger support.

pub mod rewind;
pub mod view;

use vstd::prelude::*;

verus! {

} // verus!

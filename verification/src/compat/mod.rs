//! Compatibility boundaries for external workflow systems.
//!
//! Adapters translate external semantics into Nulang primitives. They are not
//! part of Nulang's core execution model and must not leak foreign protocol
//! types into the runtime or persistence APIs.

pub mod temporal;
pub mod temporal_laws;

use vstd::prelude::*;

verus! {

} // verus!

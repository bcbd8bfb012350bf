//! Widget templates for a small editor: counters and one-shot triggers that
//! carry interaction state between frames, and element/driver trees from which
//! the widgets are spawned.
use vstd::prelude::*;

pub mod context;
pub mod utils;
pub mod outside;
pub mod template;

verus! {

} // verus!

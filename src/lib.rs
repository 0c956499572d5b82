//! The core of a retained-mode UI toolkit: reactive state cells, a widget
//! tree whose layout, prepare and event passes are proved against a model of
//! the tree, a fixed-capacity batch of GPU-ready primitives, and the frame
//! loop's decisions.
use vstd::prelude::*;

pub mod geometry;
pub mod state;
pub mod layout;
pub mod render;
pub mod widgets;
pub mod driver;

verus! {

} // verus!

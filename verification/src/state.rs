//! Presentation state shared with the user interface layers.

use vstd::prelude::*;

verus! {

/// Which pane has the keyboard focus.
#[derive(Debug, Clone, Copy, PartialEq, Eq, Structural)]
pub enum ActivePane {
    /// The folder tree on the left.
    LeftSidebar,
    /// The entry list in the middle.
    MainList,
}

} // verus!

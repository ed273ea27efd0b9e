//! Widget-facing helpers.

use vstd::prelude::*;

verus! {

/// Whether the cursor clicked on the widget.
#[derive(Debug, Clone, PartialEq, Eq, Structural)]
#[must_use]
pub enum Interaction {
    /// The cursor clicked.
    Clicked,
    /// The cursor didn't click.
    NotClicked,
}

impl Interaction {
    /// True exactly on a click.
    pub fn clicked(&self) -> (r: bool)
        ensures
            r == (self is Clicked),
    {
        match self {
            Interaction::Clicked => true,
            Interaction::NotClicked => false,
        }
    }
}

} // verus!

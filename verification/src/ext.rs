//! Convenience methods on every error node.

use vstd::prelude::*;
use crate::node::ErrorNode;
use crate::private::Sealed;
use crate::render::{DisplayFullError, rendering};

verus! {

/// Extension trait that gives every [`ErrorNode`] the methods to render
/// itself with its causes. It is implemented for all of them here and cannot
/// be implemented anywhere else.
pub trait DisplayFullErrorExt: ErrorNode + Sealed {
    /// This node in the formatting wrapper that writes it with all its
    /// causes.
    fn display_full(&self) -> (wrapper: DisplayFullError<'_, Self>)
        ensures
            wrapper == DisplayFullError(self),
    {
        DisplayFullError(self)
    }

    /// Shorthand for `.display_full().to_string()`.
    fn to_string_full(&self) -> (text: String)
        ensures
            text@ == rendering(*self),
    {
        self.display_full().to_string()
    }
}

impl<E: ErrorNode> Sealed for E {

}

impl<E: ErrorNode> DisplayFullErrorExt for E {

}

} // verus!

//! The decisions taken while a chain is written.

use vstd::prelude::*;

verus! {

/// Maximum number of messages written for one chain, the root's included.
/// Where a cause is left after that many, `: ...` is written in its place.
pub const MESSAGE_LIMIT: u16 = 1024;

/// Written between two messages, and before the truncation marker.
pub const SEPARATOR: &'static str = ": ";

/// Written in the place of the causes that are left at the limit.
pub const TRUNCATION_MARKER: &'static str = "...";

/// Where the writing of one chain stands.
#[derive(Debug, Clone, Copy, PartialEq, Eq, Structural)]
pub enum RenderState {
    /// So many messages are written, and the cause of the last of them has
    /// not been looked at yet.
    Printing(u16),
    /// The limit was reached with a cause left: the separator and the
    /// truncation marker close the line.
    Truncated,
    /// The last node had no cause: the line is complete as it stands.
    Exhausted,
}

impl RenderState {
    /// The state that follows `self` once it is known whether the node
    /// written last has a cause. With none the chain is exhausted. With one
    /// at the limit the line is truncated. Below the limit the cause is the
    /// next to be written, and the count goes up by one; the limit keeps it
    /// from ever passing the largest count there is. The two closing states
    /// stay as they are.
    pub open spec fn advanced(self, cause_present: bool) -> RenderState {
        match self {
            RenderState::Printing(printed) => if !cause_present {
                RenderState::Exhausted
            } else if printed >= MESSAGE_LIMIT {
                RenderState::Truncated
            } else {
                RenderState::Printing((printed + 1) as u16)
            },
            RenderState::Truncated => RenderState::Truncated,
            RenderState::Exhausted => RenderState::Exhausted,
        }
    }

    /// The state in which the root's message, and no other, is written.
    pub fn start() -> (state: RenderState)
        ensures
            state == RenderState::Printing(1),
    {
        RenderState::Printing(1)
    }

    /// Moves on from `self`, given whether the node written last has a
    /// cause. A caller that reaches `Printing` writes the separator and the
    /// cause's message; one that reaches `Truncated` writes the separator
    /// and the truncation marker and reads no further node.
    pub fn advance(self, cause_present: bool) -> (next: RenderState)
        ensures
            next == self.advanced(cause_present),
    {
        match self {
            RenderState::Printing(printed) => {
                if !cause_present {
                    RenderState::Exhausted
                } else if printed >= MESSAGE_LIMIT {
                    RenderState::Truncated
                } else {
                    RenderState::Printing(printed.saturating_add(1))
                }
            },
            RenderState::Truncated => RenderState::Truncated,
            RenderState::Exhausted => RenderState::Exhausted,
        }
    }
}

} // verus!

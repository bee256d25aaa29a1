//! The rendering of a chain, and the wrapper that writes it.

use vstd::prelude::*;
use crate::node::{ErrorNode, node_at, messages_upto, nodes_within, lemma_nodes_within_ended,
    lemma_ended_stays_ended};
use crate::state::{RenderState, MESSAGE_LIMIT, SEPARATOR, TRUNCATION_MARKER};

verus! {

/// The text between two messages, and before the truncation marker.
pub open spec fn separator() -> Seq<char> {
    SEPARATOR@
}

/// The text that stands for the causes that were not written.
pub open spec fn truncation_marker() -> Seq<char> {
    TRUNCATION_MARKER@
}

/// `parts` in order, with `sep` between each two neighbours and nowhere else.
pub open spec fn joined(parts: Seq<Seq<char>>, sep: Seq<char>) -> Seq<char>
    decreases parts.len(),
{
    if parts.len() == 0 {
        Seq::empty()
    } else if parts.len() == 1 {
        parts[0]
    } else {
        joined(parts.drop_last(), sep) + sep + parts.last()
    }
}

/// The messages that are written for the chain from `root`: those of its
/// first `MESSAGE_LIMIT` nodes, or of all its nodes where it has fewer.
pub open spec fn printed_messages<E: ErrorNode>(root: E) -> Seq<Seq<char>> {
    messages_upto(root, nodes_within(root, MESSAGE_LIMIT as nat))
}

/// Whether the chain from `root` has a node after the last one written.
pub open spec fn is_truncated<E: ErrorNode>(root: E) -> bool {
    node_at(root, MESSAGE_LIMIT as nat) is Some
}

/// The line written for the chain from `root`.
pub open spec fn rendering<E: ErrorNode>(root: E) -> Seq<char> {
    joined(printed_messages(root), separator()) + if is_truncated(root) {
        separator() + truncation_marker()
    } else {
        Seq::empty()
    }
}

/// Formatting wrapper that writes an error with all its causes.
///
/// The messages stand on one line, separated by `: `; at most
/// `MESSAGE_LIMIT` of them are written, and `: ...` after them where the
/// chain goes on.
#[derive(Debug, Clone, Copy, PartialEq, Eq, PartialOrd, Ord, Hash)]
pub struct DisplayFullError<'e, E: ErrorNode>(pub &'e E);

impl<'e, E: ErrorNode> DisplayFullError<'e, E> {
    /// The line that this wrapper writes.
    pub open spec fn text(&self) -> Seq<char> {
        rendering(*self.0)
    }

    /// Appends the rendering of the chain to `f`, leaving what `f` held in
    /// front of it.
    pub fn fmt(&self, f: &mut String)
        ensures
            final(f)@ == old(f)@ + self.text(),
    {
        let ghost before = f@;
        let ghost root = *self.0;
        let first = self.0.message();
        f.append(first.as_str());
        let mut state = RenderState::start();
        let mut current = self.0.cause();
        let ghost mut printed: nat = 1;
        proof {
            assert(messages_upto(root, 1).len() == 1);
            assert(messages_upto(root, 1)[0] == first@);
        }
        loop
            invariant_except_break
                f@ == before + joined(messages_upto(root, printed), separator()),
                state == RenderState::Printing(printed as u16),
            invariant
                root == *self.0,
                1 <= printed <= MESSAGE_LIMIT,
                current == node_at(root, printed),
                node_at(root, (printed - 1) as nat) is Some,
            ensures
                f@ == before + rendering(root),
            decreases MESSAGE_LIMIT - printed,
        {
            state = state.advance(current.is_some());
            match (state, current) {
                (RenderState::Printing(_), Some(node)) => {
                    let message = node.message();
                    proof {
                        let wider = messages_upto(root, printed + 1);
                        assert(wider.drop_last() =~= messages_upto(root, printed));
                        assert(wider.last() == message@);
                        printed = printed + 1;
                    }
                    f.append(SEPARATOR);
                    f.append(message.as_str());
                    current = node.cause();
                },
                (RenderState::Truncated, _) => {
                    f.append(SEPARATOR);
                    f.append(TRUNCATION_MARKER);
                    assert(f@ =~= before + rendering(root));
                    break;
                },
                _ => {
                    proof {
                        lemma_nodes_within_ended(root, printed, MESSAGE_LIMIT as nat);
                        lemma_ended_stays_ended(root, printed, MESSAGE_LIMIT as nat);
                    }
                    break;
                },
            }
        }
    }

    /// The rendering of the chain as a text of its own.
    pub fn to_string(&self) -> (text: String)
        ensures
            text@ == self.text(),
    {
        let mut out = String::new();
        self.fmt(&mut out);
        out
    }
}

} // verus!

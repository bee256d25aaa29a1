//! What the renderer reads of an error: its message and its cause.

use vstd::prelude::*;

verus! {

/// An error that has a message and may name the error that caused it.
///
/// A value of the implementing type is a handle on one node of a chain:
/// `cause` hands out the handle of the next node. The two spec functions say
/// what the two methods return, so an implementation promises that both are
/// functions of the node alone.
pub trait ErrorNode: Sized {
    /// The text of this node's message.
    spec fn message_text(&self) -> Seq<char>;

    /// The node that caused this one, if there is one.
    spec fn cause_node(&self) -> Option<Self>;

    /// Renders this node's message.
    fn message(&self) -> (text: String)
        ensures
            text@ == self.message_text(),
    ;

    /// Looks up the direct cause of this node.
    fn cause(&self) -> (next: Option<Self>)
        ensures
            next == self.cause_node(),
    ;
}

/// The node that stands `depth` links below `root`, if the chain reaches
/// that far. Depth 0 is `root` itself.
pub open spec fn node_at<E: ErrorNode>(root: E, depth: nat) -> Option<E>
    decreases depth,
{
    if depth == 0 {
        Some(root)
    } else {
        match node_at(root, (depth - 1) as nat) {
            Some(above) => above.cause_node(),
            None => None,
        }
    }
}

/// The message of the node at `depth`, empty where the chain has ended.
pub open spec fn message_at<E: ErrorNode>(root: E, depth: nat) -> Seq<char> {
    match node_at(root, depth) {
        Some(node) => node.message_text(),
        None => Seq::empty(),
    }
}

/// The messages of the nodes at depths `0..count`, root first.
pub open spec fn messages_upto<E: ErrorNode>(root: E, count: nat) -> Seq<Seq<char>> {
    Seq::new(count, |depth: int| message_at(root, depth as nat))
}

/// How many of the nodes at depths `0..bound` the chain has.
pub open spec fn nodes_within<E: ErrorNode>(root: E, bound: nat) -> nat
    decreases bound,
{
    if bound == 0 {
        0
    } else if node_at(root, (bound - 1) as nat) is Some {
        bound
    } else {
        nodes_within(root, (bound - 1) as nat)
    }
}

/// The chain from `root` ends after exactly `len` nodes.
pub open spec fn has_length<E: ErrorNode>(root: E, len: nat) -> bool {
    &&& len >= 1
    &&& node_at(root, (len - 1) as nat) is Some
    &&& node_at(root, len) is None
}

/// Once a chain has ended it has no node further down.
pub proof fn lemma_ended_stays_ended<E: ErrorNode>(root: E, end: nat, depth: nat)
    requires
        node_at(root, end) is None,
        end <= depth,
    ensures
        node_at(root, depth) is None,
    decreases depth,
{
    if end < depth {
        lemma_ended_stays_ended(root, end, (depth - 1) as nat);
    }
}

/// A chain that has the node at `depth - 1` and none at `depth` has `depth`
/// nodes within every bound from `depth` on.
pub proof fn lemma_nodes_within_ended<E: ErrorNode>(root: E, depth: nat, bound: nat)
    requires
        depth >= 1,
        node_at(root, (depth - 1) as nat) is Some,
        node_at(root, depth) is None,
        depth <= bound,
    ensures
        nodes_within(root, bound) == depth,
    decreases bound,
{
    if depth < bound {
        lemma_ended_stays_ended(root, depth, (bound - 1) as nat);
        lemma_nodes_within_ended(root, depth, (bound - 1) as nat);
    }
}

} // verus!

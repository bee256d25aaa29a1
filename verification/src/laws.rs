//! What holds of the rendering of every chain.

use vstd::prelude::*;
use crate::node::{ErrorNode, node_at, message_at, messages_upto, nodes_within, has_length,
    lemma_ended_stays_ended, lemma_nodes_within_ended};
use crate::render::{separator, truncation_marker, joined, printed_messages, is_truncated,
    rendering};
use crate::state::{RenderState, MESSAGE_LIMIT};

verus! {

/// `unit` written `times` times in a row.
pub open spec fn repeated(unit: Seq<char>, times: nat) -> Seq<char>
    decreases times,
{
    if times == 0 {
        Seq::empty()
    } else {
        repeated(unit, (times - 1) as nat) + unit
    }
}

/// The lengths of `parts` added up.
pub open spec fn total_len(parts: Seq<Seq<char>>) -> nat
    decreases parts.len(),
{
    if parts.len() == 0 {
        0
    } else {
        total_len(parts.drop_last()) + parts.last().len()
    }
}

/// A chain that has a node at `depth` has one at every depth above it.
pub proof fn lemma_present_above<E: ErrorNode>(root: E, depth: nat, above: nat)
    requires
        node_at(root, depth) is Some,
        above <= depth,
    ensures
        node_at(root, above) is Some,
{
    if node_at(root, above) is None {
        lemma_ended_stays_ended(root, above, depth);
    }
}

/// A node without a cause is rendered as its message and nothing else.
pub proof fn law_no_cause_identity<E: ErrorNode>(node: E)
    requires
        node.cause_node() is None,
    ensures
        rendering(node) == node.message_text(),
{
    assert(node_at(node, 0) == Some(node));
    assert(node_at(node, 1) is None);
    lemma_nodes_within_ended(node, 1, MESSAGE_LIMIT as nat);
    lemma_ended_stays_ended(node, 1, MESSAGE_LIMIT as nat);
    assert(printed_messages(node).len() == 1);
    assert(printed_messages(node)[0] == node.message_text());
    assert(rendering(node) =~= node.message_text());
}

/// A node whose cause has no cause of its own is rendered as the two
/// messages with one separator between them.
pub proof fn law_single_hop<E: ErrorNode>(first: E, second: E)
    requires
        first.cause_node() == Some(second),
        second.cause_node() is None,
    ensures
        rendering(first) == first.message_text() + separator() + second.message_text(),
{
    assert(node_at(first, 0) == Some(first));
    assert(node_at(first, 1) == Some(second));
    assert(node_at(first, 2) is None);
    lemma_nodes_within_ended(first, 2, MESSAGE_LIMIT as nat);
    lemma_ended_stays_ended(first, 2, MESSAGE_LIMIT as nat);
    let parts = printed_messages(first);
    assert(parts.len() == 2);
    assert(parts[0] == first.message_text());
    assert(parts[1] == second.message_text());
    assert(parts.drop_last().len() == 1);
    assert(parts.drop_last()[0] == first.message_text());
    assert(joined(parts.drop_last(), separator()) == first.message_text());
    assert(rendering(first) =~= first.message_text() + separator() + second.message_text());
}

/// Below a node that is its own cause stands that node at every depth.
pub proof fn lemma_own_cause_everywhere<E: ErrorNode>(node: E, depth: nat)
    requires
        node.cause_node() == Some(node),
    ensures
        node_at(node, depth) == Some(node),
    decreases depth,
{
    if depth > 0 {
        lemma_own_cause_everywhere(node, (depth - 1) as nat);
    }
}

/// The first `count` messages of a node that is its own cause, joined and
/// followed by one more separator, are `count` times the message with a
/// separator behind it.
pub proof fn lemma_own_cause_joined<E: ErrorNode>(node: E, count: nat)
    requires
        node.cause_node() == Some(node),
        count >= 1,
    ensures
        joined(messages_upto(node, count), separator()) + separator() == repeated(
            node.message_text() + separator(),
            count,
        ),
    decreases count,
{
    let unit = node.message_text() + separator();
    let parts = messages_upto(node, count);
    lemma_own_cause_everywhere(node, (count - 1) as nat);
    assert(parts.last() == node.message_text());
    if count == 1 {
        assert(repeated(unit, 0) =~= Seq::<char>::empty());
        assert(repeated(unit, 1) =~= unit);
        assert(joined(parts, separator()) == node.message_text());
    } else {
        lemma_own_cause_joined(node, (count - 1) as nat);
        assert(parts.drop_last() =~= messages_upto(node, (count - 1) as nat));
        assert(joined(parts, separator()) + separator() =~= (joined(
            parts.drop_last(),
            separator(),
        ) + separator()) + unit);
    }
}

/// A node that is its own cause is rendered as its message with a separator
/// behind it, `MESSAGE_LIMIT` times, and then the truncation marker in the
/// place of one more message.
pub proof fn law_bounded_cycle<E: ErrorNode>(node: E)
    requires
        node.cause_node() == Some(node),
    ensures
        rendering(node) == repeated(node.message_text() + separator(), MESSAGE_LIMIT as nat)
            + truncation_marker(),
{
    lemma_own_cause_everywhere(node, (MESSAGE_LIMIT - 1) as nat);
    lemma_own_cause_everywhere(node, MESSAGE_LIMIT as nat);
    assert(nodes_within(node, MESSAGE_LIMIT as nat) == MESSAGE_LIMIT);
    lemma_own_cause_joined(node, MESSAGE_LIMIT as nat);
    assert(rendering(node) =~= (joined(printed_messages(node), separator()) + separator())
        + truncation_marker());
}

/// Within a bound of at least one, a chain has at least its root and at
/// most `bound` nodes, and it has the last of those that are counted.
pub proof fn lemma_nodes_within_bounds<E: ErrorNode>(root: E, bound: nat)
    requires
        bound >= 1,
    ensures
        1 <= nodes_within(root, bound) <= bound,
        node_at(root, (nodes_within(root, bound) - 1) as nat) is Some,
    decreases bound,
{
    if node_at(root, (bound - 1) as nat) is None {
        assert(bound > 1);
        lemma_nodes_within_bounds(root, (bound - 1) as nat);
    }
}

/// Of every chain, endless ones too: at least the root's message and at
/// most `MESSAGE_LIMIT` messages are written, each the message of the node
/// at its depth, and the truncation marker stands exactly where the last of
/// `MESSAGE_LIMIT` written nodes still has a cause.
pub proof fn law_written_messages<E: ErrorNode>(root: E)
    ensures
        1 <= printed_messages(root).len() <= MESSAGE_LIMIT,
        forall|depth: nat|
            depth < printed_messages(root).len() ==> {
                &&& #[trigger] node_at(root, depth) is Some
                &&& printed_messages(root)[depth as int] == message_at(root, depth)
            },
        is_truncated(root) <==> printed_messages(root).len() == MESSAGE_LIMIT && (node_at(
            root,
            (MESSAGE_LIMIT - 1) as nat,
        ) matches Some(last) && last.cause_node() is Some),
{
    lemma_nodes_within_bounds(root, MESSAGE_LIMIT as nat);
    let count = nodes_within(root, MESSAGE_LIMIT as nat);
    if is_truncated(root) {
        lemma_present_above(root, MESSAGE_LIMIT as nat, (MESSAGE_LIMIT - 1) as nat);
    }
    assert forall|depth: nat| depth < printed_messages(root).len() implies {
        &&& #[trigger] node_at(root, depth) is Some
        &&& printed_messages(root)[depth as int] == message_at(root, depth)
    } by {
        lemma_present_above(root, (count - 1) as nat, depth);
    }
}

/// A chain that ends after `len` nodes has exactly the smaller of `len` and
/// `MESSAGE_LIMIT` messages written, and the truncation marker exactly
/// where `len` is over `MESSAGE_LIMIT`.
pub proof fn law_exact_count<E: ErrorNode>(root: E, len: nat)
    requires
        has_length(root, len),
    ensures
        printed_messages(root).len() == if len <= MESSAGE_LIMIT {
            len
        } else {
            MESSAGE_LIMIT as nat
        },
        is_truncated(root) <==> len > MESSAGE_LIMIT,
{
    if len <= MESSAGE_LIMIT {
        lemma_nodes_within_ended(root, len, MESSAGE_LIMIT as nat);
        lemma_ended_stays_ended(root, len, MESSAGE_LIMIT as nat);
    } else {
        lemma_present_above(root, (len - 1) as nat, MESSAGE_LIMIT as nat);
        lemma_present_above(root, (len - 1) as nat, (MESSAGE_LIMIT - 1) as nat);
    }
}

/// Where the part at position `at` begins in `parts` joined with `sep`:
/// behind the parts before it and one separator for each of them.
pub open spec fn part_start(parts: Seq<Seq<char>>, sep: Seq<char>, at: nat) -> int {
    (total_len(parts.take(at as int)) + at * sep.len()) as int
}

/// The layout of a joined text: it is as long as its parts and one
/// separator fewer than it has parts, every part stands at its place, and
/// every part but the first has a separator right in front of it.
pub proof fn lemma_joined_layout(parts: Seq<Seq<char>>, sep: Seq<char>, at: nat)
    requires
        at < parts.len(),
    ensures
        joined(parts, sep).len() == total_len(parts) + (parts.len() - 1) * sep.len(),
        part_start(parts, sep, at) + parts[at as int].len() <= joined(parts, sep).len(),
        joined(parts, sep).subrange(
            part_start(parts, sep, at),
            part_start(parts, sep, at) + parts[at as int].len(),
        ) == parts[at as int],
        at >= 1 ==> part_start(parts, sep, at) >= sep.len() && joined(parts, sep).subrange(
            part_start(parts, sep, at) - sep.len(),
            part_start(parts, sep, at),
        ) == sep,
    decreases parts.len(),
{
    let count = parts.len();
    let line = joined(parts, sep);
    let start = part_start(parts, sep, at);
    if count == 1 {
        assert(parts.take(0) =~= Seq::<Seq<char>>::empty());
        assert(parts.drop_last() =~= Seq::<Seq<char>>::empty());
        assert(total_len(parts) == parts[0].len());
        assert(0 * sep.len() == 0);
        assert(line.subrange(0, parts[0].len() as int) =~= parts[0]);
    } else {
        let front = parts.drop_last();
        let front_line = joined(front, sep);
        assert((count - 2) * sep.len() + sep.len() == (count - 1) * sep.len())
            by (nonlinear_arith);
        if at < count - 1 {
            lemma_joined_layout(front, sep, at);
            assert(parts.take(at as int) =~= front.take(at as int));
            assert(line.subrange(start, start + parts[at as int].len())
                =~= front_line.subrange(start, start + front[at as int].len()));
            if at >= 1 {
                assert(line.subrange(start - sep.len(), start) =~= front_line.subrange(
                    start - sep.len(),
                    start,
                ));
            }
        } else {
            lemma_joined_layout(front, sep, (count - 2) as nat);
            assert(parts.take(at as int) =~= front);
            assert(start == front_line.len() + sep.len());
            assert(line.subrange(start, start + parts[at as int].len())
                =~= parts[at as int]);
            assert(line.subrange(start - sep.len(), start) =~= sep);
        }
    }
}

/// The separator stands between every two neighbouring messages of a
/// rendering and, but for what the messages themselves hold, nowhere else
/// except in front of the truncation marker. The line is as long as its
/// messages, one separator between each two of them and, where it is
/// truncated, one more separator and the marker; the message at position
/// `at` stands where the messages and separators before it end, with a
/// separator right in front of it unless it is the first; and a truncated
/// line ends in a separator and the marker.
pub proof fn law_separator_exactness<E: ErrorNode>(root: E, at: nat)
    requires
        at < printed_messages(root).len(),
    ensures
        separator().len() == 2,
        truncation_marker().len() == 3,
        rendering(root).len() == total_len(printed_messages(root)) + 2 * (printed_messages(
            root,
        ).len() - 1) + if is_truncated(root) {
            5int
        } else {
            0int
        },
        rendering(root).subrange(
            part_start(printed_messages(root), separator(), at),
            part_start(printed_messages(root), separator(), at) + printed_messages(
                root,
            )[at as int].len(),
        ) == printed_messages(root)[at as int],
        at >= 1 ==> rendering(root).subrange(
            part_start(printed_messages(root), separator(), at) - 2,
            part_start(printed_messages(root), separator(), at),
        ) == separator(),
        is_truncated(root) ==> rendering(root).subrange(
            rendering(root).len() - 5,
            rendering(root).len() - 3,
        ) == separator() && rendering(root).subrange(
            rendering(root).len() - 3,
            rendering(root).len() as int,
        ) == truncation_marker(),
{
    reveal_strlit(": ");
    reveal_strlit("...");
    let parts = printed_messages(root);
    let line = rendering(root);
    let body = joined(parts, separator());
    let start = part_start(parts, separator(), at);
    lemma_joined_layout(parts, separator(), at);
    assert(line.subrange(start, start + parts[at as int].len()) =~= body.subrange(
        start,
        start + parts[at as int].len(),
    ));
    if at >= 1 {
        assert(line.subrange(start - 2, start) =~= body.subrange(start - 2, start));
    }
    if is_truncated(root) {
        assert(line =~= body + separator() + truncation_marker());
        assert(line.subrange(line.len() - 5, line.len() - 3) =~= separator());
        assert(line.subrange(line.len() - 3, line.len() as int) =~= truncation_marker());
    } else {
        assert(line =~= body);
    }
}

/// The state reached from the start once the causes down to depth `looks`
/// have been looked for, one after the other.
pub open spec fn state_after<E: ErrorNode>(root: E, looks: nat) -> RenderState
    decreases looks,
{
    if looks == 0 {
        RenderState::Printing(1)
    } else {
        state_after(root, (looks - 1) as nat).advanced(node_at(root, looks) is Some)
    }
}

/// The states follow the chain. While the chain goes on below the limit,
/// the state counts the nodes down to the one looked for last, which are
/// the messages written. From the limit on it is `Truncated` where the
/// rendering is truncated. Everywhere else the chain has ended and the
/// state is `Exhausted`.
pub proof fn law_states_follow_chain<E: ErrorNode>(root: E, looks: nat)
    ensures
        state_after(root, looks) == if looks < MESSAGE_LIMIT && node_at(root, looks) is Some {
            RenderState::Printing((looks + 1) as u16)
        } else if looks >= MESSAGE_LIMIT && is_truncated(root) {
            RenderState::Truncated
        } else {
            RenderState::Exhausted
        },
    decreases looks,
{
    if looks > 0 {
        let before = (looks - 1) as nat;
        law_states_follow_chain(root, before);
        if node_at(root, looks) is Some {
            lemma_present_above(root, looks, before);
            if looks >= MESSAGE_LIMIT {
                lemma_present_above(root, looks, MESSAGE_LIMIT as nat);
            }
        }
    }
}

} // verus!

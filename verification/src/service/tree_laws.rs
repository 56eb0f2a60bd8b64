//! What holds of the tree service whatever is asked of it.

use vstd::prelude::*;
use crate::model::atom::AtomType;
use crate::repo::tree_invariants::lemma_move_consistent;
use crate::repo::tree_state::TreeState;
use crate::service::tree_service::TreeServiceError;
use crate::service::tree_service::atom_rejection;
use crate::service::tree_service::create_note_ref_rejection;
use crate::service::tree_service::move_rejection;
use crate::service::walk::lemma_walk_clear;
use crate::service::walk::lemma_walk_in_consistent_tree;
use crate::service::walk::lemma_walk_stop;
use crate::service::walk::meets_twice;
use crate::service::walk::on_chain;
use crate::service::walk::walk_end;
use crate::service::tree_service::parent_rejection;

verus! {

/// What one call of `move_node` may do to the tables: nothing, or the
/// move of a node that nothing speaks against.
pub open spec fn move_step(s: TreeState, t: TreeState) -> bool {
    t == s || exists|id: u128, new_parent: Option<u128>, target: Option<i64>, now: i64|
        move_rejection(s, id, new_parent) is None && t == #[trigger] s.after_move(
            id,
            new_parent,
            target,
            now,
        )
}

/// The tables after each of a sequence of calls of `move_node`.
pub open spec fn move_run(states: Seq<TreeState>) -> bool {
    forall|i: int| 0 <= i < states.len() - 1 ==> move_step(#[trigger] states[i], states[i + 1])
}

/// A call of `move_node` on a consistent tree leaves a consistent tree.
pub proof fn lemma_move_step_consistent(s: TreeState, t: TreeState)
    requires
        s.consistent(),
        move_step(s, t),
    ensures
        t.consistent(),
{
    if t != s {
        let (id, new_parent, target, now) = choose|
            id: u128,
            new_parent: Option<u128>,
            target: Option<i64>,
            now: i64,
        |
            move_rejection(s, id, new_parent) is None && t == #[trigger] s.after_move(
                id,
                new_parent,
                target,
                now,
            );
        if new_parent is Some {
            assert(parent_rejection(s, new_parent) is None);
            lemma_walk_clear(s, new_parent->0, id);
        }
        lemma_move_consistent(s, id, new_parent, target, now);
    }
}

/// **No-cycle invariant.** After any sequence of calls of `move_node` on a
/// consistent tree, no node is reached from itself by following parent
/// links upward: the chain of ancestors of a node never holds the node.
pub proof fn lemma_moves_make_no_cycle(states: Seq<TreeState>, x: u128, k: nat)
    requires
        states.len() > 0,
        states.first().consistent(),
        move_run(states),
        k >= 1,
    ensures
        states.last().consistent(),
        states.last().ancestor(x, k) != Some(x),
    decreases states.len(),
{
    if states.len() > 1 {
        let head = states.drop_last();
        assert(move_run(head)) by {
            assert forall|i: int| 0 <= i < head.len() - 1 implies move_step(
                #[trigger] head[i],
                head[i + 1],
            ) by {
                assert(move_step(states[i], states[i + 1]));
            }
        }
        lemma_moves_make_no_cycle(head, x, k);
        assert(move_step(states[states.len() - 2], states[states.len() - 2 + 1]));
        lemma_move_step_consistent(head.last(), states.last());
    }
}

/// **Self-parenting rejected.** To move a visible node under itself is
/// rejected as a cycle; of a node that is not visible the service says
/// that it is not found.
pub proof fn lemma_self_parenting_rejected(s: TreeState, x: u128)
    ensures
        move_rejection(s, x, Some(x)) is Some,
        s.visible_node(x) ==> move_rejection(s, x, Some(x)) == Some(
            TreeServiceError::CycleDetected { node_uuid: x, parent_uuid: x },
        ),
        !s.visible_node(x) ==> move_rejection(s, x, Some(x)) == Some(TreeServiceError::NodeNotFound(x)),
{
}

/// **Kind enforcement.** Under a parent that takes children, a note
/// reference to an atom that is absent or soft-deleted is rejected with
/// `AtomNotFound`, one to an atom that is no note with `AtomNotNote`; a
/// note reference that is created points at an active note.
pub proof fn lemma_kind_enforcement(s: TreeState, parent: Option<u128>, atom: u128, name: Option<Seq<char>>)
    requires
        parent_rejection(s, parent) is None,
    ensures
        s.atom_kind(atom) is None ==> create_note_ref_rejection(s, parent, atom, name) == Some(
            TreeServiceError::AtomNotFound(atom),
        ),
        s.atom_kind(atom) is Some && s.atom_kind(atom) != Some(AtomType::Note)
            ==> create_note_ref_rejection(s, parent, atom, name) == Some(
            TreeServiceError::AtomNotNote(atom),
        ),
        create_note_ref_rejection(s, parent, atom, name) is None ==> s.atom_kind(atom) == Some(
            AtomType::Note,
        ),
        atom_rejection(s, atom) is None <==> s.atom_kind(atom) == Some(AtomType::Note),
{
}

/// **A loop in the stored links is answered as a cycle.** Where the chain
/// of parents above the new parent meets a node twice, and every node on
/// it is visible, the move of a visible node under that parent is rejected
/// with `CycleDetected`, whether or not the chain holds the node.
pub proof fn lemma_looping_chain_rejected(s: TreeState, id: u128, p: u128)
    requires
        s.visible_node(id),
        p != id,
        parent_rejection(s, Some(p)) is None,
        meets_twice(s, p),
        forall|k: nat| (#[trigger] s.ancestor(p, k)) is Some ==> s.visible_node(s.ancestor(p, k)->0),
    ensures
        move_rejection(s, id, Some(p)) == Some(
            TreeServiceError::CycleDetected { node_uuid: id, parent_uuid: p },
        ),
{
    lemma_walk_stop(s, p, id);
    if walk_end(s, p, id) is Clear {
        lemma_walk_clear(s, p, id);
    }
    if walk_end(s, p, id) is Hidden {
        let c = walk_end(s, p, id)->0;
        let j = choose|j: nat| #[trigger] s.ancestor(p, j) == Some(c) && !s.visible_node(c);
        assert(s.ancestor(p, j) is Some);
    }
}

/// **In a consistent tree a move is rejected as a cycle exactly where the
/// node is the new parent or lies above it.**
pub proof fn lemma_cycle_in_consistent_tree(s: TreeState, id: u128, p: u128)
    requires
        s.consistent(),
        s.visible_node(id),
        parent_rejection(s, Some(p)) is None,
    ensures
        move_rejection(s, id, Some(p)) == (if on_chain(s, p, id) {
            Some(TreeServiceError::CycleDetected { node_uuid: id, parent_uuid: p })
        } else {
            None
        }),
{
    lemma_walk_in_consistent_tree(s, p, id);
    if p == id {
        assert(s.ancestor(p, 0) == Some(id));
    }
}

} // verus!

use vstd::prelude::*;
use crate::store::{Entity, EntityStore, TypeRegistry};
use crate::tree::{HoverEntity, NodeAction, TreeAction};

verus! {

/// A request to reparent an entity (`Some` target) or detach it (`None`),
/// as drag/drop resolution emits it.
#[derive(Debug, Clone, Copy, PartialEq, Eq, Structural)]
pub struct MoveEntity(pub Entity, pub Option<Entity>);

/// The hierarchy panel: the tree snapshot plus the dispatch of its actions
/// onto the live store.
pub struct Hierarchy;

/// What the store's parent link of `e` must read after a move to `target`.
pub open spec fn moved_parent(target: HoverEntity) -> Option<u32> {
    match target {
        HoverEntity::Node(p) => Some(p.index),
        HoverEntity::Root => None,
    }
}

/// Applies a `MoveEntity` request: a `Some` target becomes the entity's
/// parent, a `None` target detaches it to the top level.
pub fn move_entity(store: &mut EntityStore, ev: MoveEntity)
    requires
        old(store).wf(),
        old(store).valid(ev.0),
        ev.1 matches Some(p) ==> old(store).valid(p) && p.index != ev.0.index,
    ensures
        final(store).wf(),
        final(store).n() == old(store).n(),
        final(store).parent_ix(ev.0.index as int) == (match ev.1 {
            Some(p) => Some(p.index),
            None => None::<u32>,
        }),
        forall|i: int|
            0 <= i < old(store).n() && i != ev.0.index as int ==> final(store).slots@[i] == old(store).slots@[i],
{
    match ev.1 {
        Some(parent) => store.set_parent(ev.0, parent),
        None => store.clear_parent(ev.0),
    }
}

impl Hierarchy {
    /// Dispatches one frame's tree action onto the live store: select marks
    /// exactly the chosen entity, clone duplicates onto a fresh entity and
    /// selects it, remove despawns the subtree, and a move rewrites the
    /// dragged entity's parent link.
    ///
    /// Move invariant: after `Move(e, Node(p))` the store reads
    /// `parent_of(e) == Some(p)`; after `Move(e, Root)` it reads `None`.
    pub fn apply_action(
        store: &mut EntityStore,
        registry: &TypeRegistry,
        action: TreeAction,
    ) -> (cloned: Option<Entity>)
        requires
            old(store).wf(),
            old(store).n() < 0xffff_ffff,
            action matches TreeAction::Node(a) ==> old(store).valid(
                match a {
                    NodeAction::Select(e) => e,
                    NodeAction::Clone(e) => e,
                    NodeAction::Remove(e) => e,
                },
            ),
            action matches TreeAction::Move(e, h) ==> old(store).valid(e) && (
            h matches HoverEntity::Node(p) ==> old(store).valid(p) && p != e),
        ensures
            final(store).wf(),
            action matches TreeAction::Move(e, h) ==> final(store).parent_ix(e.index as int)
                == moved_parent(h),
            action matches TreeAction::Node(a) ==> ((a matches NodeAction::Select(e)
                ==> forall|i: int|
                0 <= i < final(store).n() ==> (final(store).sel_ix(i) <==> i == e.index as int)) && (
            a matches NodeAction::Remove(e) ==> !final(store).live_ix(e.index as int)) && (
            a matches NodeAction::Clone(e) ==> cloned matches Some(d) && final(store).valid(d)
                && d.index != e.index && forall|i: int|
                0 <= i < final(store).n() ==> (final(store).sel_ix(i) <==> i == d.index as int))),
            (cloned is Some) <==> (action matches TreeAction::Node(a) && a
                matches NodeAction::Clone(e)),
            action is NoAction ==> *final(store) == *old(store),
    {
        match action {
            TreeAction::Node(node_action) => match node_action {
                NodeAction::Select(e) => {
                    store.apply_select(e);
                    None
                },
                NodeAction::Clone(e) => {
                    let d = store.duplicate(registry, e);
                    store.apply_select(d);
                    Some(d)
                },
                NodeAction::Remove(e) => {
                    store.despawn_recursive(e);
                    None
                },
            },
            TreeAction::Move(dragged, hovered) => {
                match hovered {
                    HoverEntity::Node(parent) => {
                        proof {
                            if parent.index == dragged.index {
                                assert(parent == dragged);
                            }
                        }
                        store.set_parent(dragged, parent);
                    },
                    HoverEntity::Root => {
                        store.clear_parent(dragged);
                    },
                }
                None
            },
            TreeAction::NoAction => None,
        }
    }
}

} // verus!

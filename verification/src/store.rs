use vstd::prelude::*;

verus! {

/// A stable identifier for one object in the live scene store: a slot index
/// plus a generation that increments when the slot is reused, so that stale
/// references to a despawned entity never match its successor.
#[derive(Debug, Clone, Copy, PartialEq, Eq, Structural, Hash)]
pub struct Entity {
    pub index: u32,
    pub generation: u32,
}

/// Component type key of the wireframe overlay marker.
pub const WIREFRAME_KEY: u64 = 1;

/// Component type key of the marker that pins the wireframe overlay
/// independently of selection (lights and cameras carry it).
pub const FIXED_WIREFRAME_KEY: u64 = 2;

/// Component type key of the saved original-entity-id stamp written before a
/// scene snapshot, used to remap entities on restore.
pub const ORIGINAL_ID_KEY: u64 = 3;

/// One slot of the entity arena.
#[derive(Debug)]
pub struct Slot {
    pub live: bool,
    pub generation: u32,
    pub parent: Option<u32>,
    pub name: Option<String>,
    pub selected: bool,
    pub components: Vec<u64>,
}

/// The live entity/component store, modelled as a flat arena: parent/child
/// relationships are index links, names and the selection marker are per-slot
/// fields, and all further component types are held as plain type keys.
#[derive(Debug)]
pub struct EntityStore {
    pub slots: Vec<Slot>,
}

/// A parent-link path from `root` down to `last`: each later element is a
/// live slot whose parent link points at the previous element.
pub open spec fn path_connects(slots: Seq<Slot>, p: Seq<int>, root: int, last: int) -> bool {
    &&& p.len() >= 1
    &&& p[0] == root
    &&& p[p.len() - 1] == last
    &&& forall|j: int| 0 <= j < p.len() ==> 0 <= #[trigger] p[j] < slots.len()
    &&& forall|j: int|
        1 <= j < p.len() ==> slots[#[trigger] p[j]].live && slots[p[j]].parent == Some(
            p[j - 1] as u32,
        )
}

/// Whether slot `i` lies in the subtree rooted at slot `root` (the root
/// itself included): some chain of live parent links connects them.
pub open spec fn in_subtree(slots: Seq<Slot>, i: int, root: int) -> bool {
    exists|p: Seq<int>| path_connects(slots, p, root, i)
}

proof fn lemma_subtree_self(slots: Seq<Slot>, root: int)
    requires
        0 <= root < slots.len(),
    ensures
        in_subtree(slots, root, root),
{
    let p: Seq<int> = seq![root];
    assert(path_connects(slots, p, root, root));
}

proof fn lemma_subtree_extend(slots: Seq<Slot>, pnt: int, root: int, i: int)
    requires
        in_subtree(slots, pnt, root),
        0 <= i < slots.len(),
        slots[i].live,
        slots[i].parent == Some(pnt as u32),
        0 <= pnt < slots.len(),
    ensures
        in_subtree(slots, i, root),
{
    let p = choose|p: Seq<int>| path_connects(slots, p, root, pnt);
    let q = p.push(i);
    assert(q[q.len() - 1] == i);
    assert forall|j: int| 1 <= j < q.len() implies slots[#[trigger] q[j]].live && slots[q[j]].parent
        == Some(q[j - 1] as u32) by {
        if j < q.len() - 1 {
            assert(q[j] == p[j] && q[j - 1] == p[j - 1]);
        } else {
            assert(q[j] == i && q[j - 1] == p[p.len() - 1]);
        }
    }
    assert(path_connects(slots, q, root, i));
}

/// Under a marking that contains the root and is closed under live parent
/// links, every slot of the subtree is marked.
proof fn lemma_closed_subtree_marked(slots: Seq<Slot>, marked: Seq<bool>, root: int, i: int)
    requires
        slots.len() < 0x1_0000_0000,
        marked.len() == slots.len(),
        0 <= root < slots.len(),
        marked[root],
        forall|j: int|
            0 <= j < slots.len() && slots[j].live && (slots[j].parent matches Some(q) && 0 <= q
                < slots.len() && marked[q as int]) ==> #[trigger] marked[j],
        in_subtree(slots, i, root),
    ensures
        marked[i],
{
    let p = choose|p: Seq<int>| path_connects(slots, p, root, i);
    lemma_path_marked(slots, marked, root, p, i);
}

proof fn lemma_path_marked(slots: Seq<Slot>, marked: Seq<bool>, root: int, p: Seq<int>, i: int)
    requires
        slots.len() < 0x1_0000_0000,
        marked.len() == slots.len(),
        0 <= root < slots.len(),
        marked[root],
        forall|j: int|
            0 <= j < slots.len() && slots[j].live && (slots[j].parent matches Some(q) && 0 <= q
                < slots.len() && marked[q as int]) ==> #[trigger] marked[j],
        path_connects(slots, p, root, i),
    ensures
        marked[i],
    decreases p.len(),
{
    if p.len() == 1 {
        assert(i == root);
    } else {
        let p2 = p.drop_last();
        let prev = p[p.len() - 2];
        assert(path_connects(slots, p2, root, prev));
        lemma_path_marked(slots, marked, root, p2, prev);
        assert(0 <= p[p.len() - 2] < slots.len());
        assert(slots[i].live && slots[i].parent == Some(prev as u32));
        assert(0 <= (prev as u32) < slots.len() && marked[(prev as u32) as int]);
    }
}

impl EntityStore {
    /// Number of slots the arena holds (live or dead).
    pub open spec fn n(self) -> int {
        self.slots@.len() as int
    }

    pub open spec fn live_ix(self, i: int) -> bool {
        0 <= i < self.n() && self.slots@[i].live
    }

    /// An entity reference is valid when it names a live slot of its own
    /// generation; references to despawned entities are invalid.
    pub open spec fn valid(self, e: Entity) -> bool {
        self.live_ix(e.index as int) && self.slots@[e.index as int].generation == e.generation
    }

    pub open spec fn parent_ix(self, i: int) -> Option<u32> {
        self.slots@[i].parent
    }

    pub open spec fn sel_ix(self, i: int) -> bool {
        self.slots@[i].selected
    }

    pub open spec fn has_key_ix(self, i: int, k: u64) -> bool {
        self.slots@[i].components@.contains(k)
    }

    /// Well-formedness: despawned slots are fully cleared, and every parent
    /// link points at a distinct live slot.
    pub open spec fn wf(self) -> bool {
        &&& forall|i: int|
            0 <= i < self.n() && !(#[trigger] self.slots@[i]).live ==> self.slots@[i].parent
                is None && !self.slots@[i].selected && self.slots@[i].components@.len() == 0
                && self.slots@[i].name is None
        &&& forall|i: int|
            0 <= i < self.n() ==> ((#[trigger] self.slots@[i]).parent matches Some(p) ==> (
            p as int) < self.n() && self.slots@[p as int].live && p as int != i)
    }

    pub fn new() -> (r: EntityStore)
        ensures
            r.wf(),
            r.n() == 0,
    {
        EntityStore { slots: Vec::new() }
    }

    /// Spawns a fresh entity with the given display name: the first cleared
    /// slot is reused with its generation incremented, otherwise the arena
    /// grows by one slot at generation zero.
    pub fn spawn(&mut self, name: Option<String>) -> (e: Entity)
        requires
            old(self).wf(),
            old(self).n() < 0xffff_ffff,
        ensures
            final(self).wf(),
            final(self).valid(e),
            !old(self).live_ix(e.index as int),
            final(self).slots@[e.index as int].parent is None,
            !final(self).slots@[e.index as int].selected,
            final(self).slots@[e.index as int].components@.len() == 0,
            final(self).slots@[e.index as int].name == name,
            old(self).n() <= final(self).n() <= old(self).n() + 1,
            forall|i: int|
                0 <= i < old(self).n() && i != e.index as int ==> final(self).slots@[i] == old(
                    self,
                ).slots@[i],
            (e.index as int) < old(self).n() ==> final(self).n() == old(self).n() && e.generation
                == old(self).slots@[e.index as int].generation + 1,
            e.index as int == old(self).n() ==> final(self).n() == old(self).n() + 1
                && e.generation == 0,
    {
        let n = self.slots.len();
        let ghost s0 = self.slots@;
        assert(s0 == old(self).slots@);
        let mut i: usize = 0;
        while i < n
            invariant
                n == self.slots.len(),
                n < 0xffff_ffff,
                self.slots@ == s0,
                s0 == old(self).slots@,
                old(self).wf(),
                forall|j: int|
                    0 <= j < i ==> (#[trigger] self.slots@[j]).live || self.slots@[j].generation
                        == 0xffff_ffffu32,
            decreases n - i,
        {
            if !self.slots[i].live && self.slots[i].generation < 0xffff_ffff {
                let generation = self.slots[i].generation + 1;
                self.slots[i] = Slot {
                    live: true,
                    generation,
                    parent: None,
                    name,
                    selected: false,
                    components: Vec::new(),
                };
                return Entity { index: i as u32, generation };
            }
            i += 1;
        }
        let index = self.slots.len();
        self.slots.push(
            Slot {
                live: true,
                generation: 0,
                parent: None,
                name,
                selected: false,
                components: Vec::new(),
            },
        );
        Entity { index: index as u32, generation: 0 }
    }

    /// Sets `parent` as the parent of `child`, as a drop onto a node does.
    /// Reparenting an entity onto itself is refused upstream, so the two
    /// indices are required to differ here.
    pub fn set_parent(&mut self, child: Entity, parent: Entity)
        requires
            old(self).wf(),
            old(self).valid(child),
            old(self).valid(parent),
            child.index != parent.index,
        ensures
            final(self).wf(),
            final(self).n() == old(self).n(),
            final(self).parent_ix(child.index as int) == Some(parent.index),
            forall|i: int|
                0 <= i < old(self).n() && i != child.index as int ==> final(self).slots@[i] == old(
                    self,
                ).slots@[i],
            final(self).slots@[child.index as int] == (Slot {
                parent: Some(parent.index),
                ..old(self).slots@[child.index as int]
            }),
    {
        let i = child.index as usize;
        self.slots[i].parent = Some(parent.index);
    }

    /// Detaches `child` to the top level, as a drop onto the scene root does.
    pub fn clear_parent(&mut self, child: Entity)
        requires
            old(self).wf(),
            old(self).valid(child),
        ensures
            final(self).wf(),
            final(self).n() == old(self).n(),
            (final(self).parent_ix(child.index as int) is None),
            forall|i: int|
                0 <= i < old(self).n() && i != child.index as int ==> final(self).slots@[i] == old(
                    self,
                ).slots@[i],
            final(self).slots@[child.index as int] == (Slot {
                parent: None,
                ..old(self).slots@[child.index as int]
            }),
    {
        let i = child.index as usize;
        self.slots[i].parent = None;
    }

    /// Applies a `Select` action: after it, the selection marker sits on
    /// exactly the chosen entity. The wireframe overlay follows the
    /// selection, except on entities whose overlay is pinned.
    pub fn apply_select(&mut self, e: Entity)
        requires
            old(self).wf(),
            old(self).valid(e),
        ensures
            final(self).wf(),
            final(self).n() == old(self).n(),
            final(self).valid(e),
            forall|i: int|
                0 <= i < old(self).n() ==> (final(self).sel_ix(i) <==> i == e.index as int),
            final(self).has_key_ix(e.index as int, WIREFRAME_KEY),
            forall|i: int|
                0 <= i < old(self).n() && i != e.index as int ==> (final(self).has_key_ix(
                    i,
                    WIREFRAME_KEY,
                ) <==> (old(self).has_key_ix(i, WIREFRAME_KEY) && !(old(self).sel_ix(i) && !old(self).has_key_ix(i, FIXED_WIREFRAME_KEY)))),
            forall|i: int, k: u64|
                0 <= i < old(self).n() && k != WIREFRAME_KEY ==> (final(self).has_key_ix(i, k)
                    <==> old(self).has_key_ix(i, k)),
            forall|i: int|
                0 <= i < old(self).n() ==> final(self).slots@[i].live == old(self).slots@[i].live
                    && final(self).slots@[i].generation == old(self).slots@[i].generation
                    && final(self).slots@[i].parent == old(self).slots@[i].parent
                    && final(self).slots@[i].name == old(self).slots@[i].name,
    {
        let ghost s0 = self.slots@;
        let n = self.slots.len();
        let target = e.index as usize;
        let mut i: usize = 0;
        while i < n
            invariant
                old(self).wf(),
                n == self.slots.len(),
                s0 == old(self).slots@,
                s0.len() == n,
                target < n,
                forall|j: int| i <= j < n ==> self.slots@[j] == s0[j],
                forall|j: int|
                    0 <= j < i ==> !(#[trigger] self.slots@[j]).selected || j == target,
                forall|j: int|
                    0 <= j < i && (!s0[j].selected || j == target) ==> self.slots@[j] == s0[j],
                forall|j: int|
                    0 <= j < i && j != target ==> (self.slots@[j].components@.contains(
                        WIREFRAME_KEY,
                    ) <==> (s0[j].components@.contains(WIREFRAME_KEY) && !(s0[j].selected
                        && !s0[j].components@.contains(FIXED_WIREFRAME_KEY)))),
                forall|j: int|
                    0 <= j < i && j == target ==> self.slots@[j] == s0[j],
                forall|j: int, k: u64|
                    0 <= j < i && k != WIREFRAME_KEY ==> (self.slots@[j].components@.contains(k)
                        <==> s0[j].components@.contains(k)),
                forall|j: int|
                    0 <= j < i ==> (#[trigger] self.slots@[j]).live == s0[j].live
                        && self.slots@[j].generation == s0[j].generation && self.slots@[j].parent
                        == s0[j].parent && self.slots@[j].name == s0[j].name,
            decreases n - i,
        {
            if i != target && self.slots[i].selected {
                self.slots[i].selected = false;
                if !has_key(&self.slots[i].components, FIXED_WIREFRAME_KEY) {
                    remove_key(&mut self.slots[i].components, WIREFRAME_KEY);
                }
            }
            i += 1;
        }
        self.slots[target].selected = true;
        add_key(&mut self.slots[target].components, WIREFRAME_KEY);
    }

    /// Stamps every live entity with its original-id component, as done just
    /// before a scene snapshot is taken.
    pub fn stamp_original_ids(&mut self)
        requires
            old(self).wf(),
        ensures
            final(self).wf(),
            final(self).n() == old(self).n(),
            forall|i: int|
                0 <= i < old(self).n() ==> ((#[trigger] final(self).has_key_ix(
                    i,
                    ORIGINAL_ID_KEY,
                )) <==> (old(self).live_ix(i) || old(self).has_key_ix(i, ORIGINAL_ID_KEY))),
            forall|i: int, k: u64|
                0 <= i < old(self).n() && k != ORIGINAL_ID_KEY ==> (final(self).has_key_ix(i, k)
                    <==> old(self).has_key_ix(i, k)),
            forall|i: int|
                0 <= i < old(self).n() ==> final(self).slots@[i].live == old(self).slots@[i].live
                    && final(self).slots@[i].generation == old(self).slots@[i].generation
                    && final(self).slots@[i].parent == old(self).slots@[i].parent
                    && final(self).slots@[i].name == old(self).slots@[i].name
                    && final(self).slots@[i].selected == old(self).slots@[i].selected,
    {
        let ghost s0 = self.slots@;
        let n = self.slots.len();
        let mut i: usize = 0;
        while i < n
            invariant
                old(self).wf(),
                n == self.slots.len(),
                s0 == old(self).slots@,
                s0.len() == n,
                forall|j: int| i <= j < n ==> self.slots@[j] == s0[j],
                forall|j: int|
                    0 <= j < i ==> ((#[trigger] self.slots@[j]).components@.contains(
                        ORIGINAL_ID_KEY,
                    ) <==> (s0[j].live || s0[j].components@.contains(ORIGINAL_ID_KEY))),
                forall|j: int| 0 <= j < i && !s0[j].live ==> self.slots@[j] == s0[j],
                forall|j: int, k: u64|
                    0 <= j < i && k != ORIGINAL_ID_KEY ==> (self.slots@[j].components@.contains(k)
                        <==> s0[j].components@.contains(k)),
                forall|j: int|
                    0 <= j < i ==> (#[trigger] self.slots@[j]).live == s0[j].live
                        && self.slots@[j].generation == s0[j].generation && self.slots@[j].parent
                        == s0[j].parent && self.slots@[j].name == s0[j].name
                        && self.slots@[j].selected == s0[j].selected,
            decreases n - i,
        {
            if self.slots[i].live {
                add_key(&mut self.slots[i].components, ORIGINAL_ID_KEY);
            }
            i += 1;
        }
    }

    /// Applies a `Remove` action: despawns the entity and every transitive
    /// descendant, clearing their slots; no other slot changes, so no live
    /// slot is left with a dangling parent link.
    pub fn despawn_recursive(&mut self, e: Entity)
        requires
            old(self).wf(),
            old(self).valid(e),
            old(self).n() < 0xffff_ffff,
        ensures
            final(self).wf(),
            final(self).n() == old(self).n(),
            !final(self).live_ix(e.index as int),
            forall|i: int|
                0 <= i < old(self).n() && in_subtree(old(self).slots@, i, e.index as int)
                    ==> !(#[trigger] final(self).slots@[i]).live,
            forall|i: int|
                0 <= i < old(self).n() && !in_subtree(old(self).slots@, i, e.index as int)
                    ==> #[trigger] final(self).slots@[i] == old(self).slots@[i],
            forall|i: int|
                0 <= i < old(self).n() ==> (#[trigger] final(self).slots@[i]).generation == old(
                    self,
                ).slots@[i].generation,
    {
        let ghost s0 = self.slots@;
        let n = self.slots.len();
        let root = e.index as usize;
        proof {
            lemma_subtree_self(s0, root as int);
        }
        let marked = mark_subtree(&self.slots, root);
        let mut i: usize = 0;
        while i < n
            invariant
                n == self.slots.len(),
                n < 0xffff_ffff,
                marked@.len() == n,
                s0.len() == n,
                forall|j: int| 0 <= j < n ==> (marked@[j] <==> in_subtree(s0, j, root as int)),
                forall|j: int| i <= j < n ==> self.slots@[j] == s0[j],
                forall|j: int|
                    0 <= j < i && marked@[j] ==> (#[trigger] self.slots@[j]) == (Slot {
                        live: false,
                        generation: s0[j].generation,
                        parent: None,
                        name: None,
                        selected: false,
                        components: self.slots@[j].components,
                    }) && self.slots@[j].components@.len() == 0,
                forall|j: int| 0 <= j < i && !marked@[j] ==> self.slots@[j] == s0[j],
            decreases n - i,
        {
            if marked[i] {
                let generation = self.slots[i].generation;
                self.slots[i] = Slot {
                    live: false,
                    generation,
                    parent: None,
                    name: None,
                    selected: false,
                    components: Vec::new(),
                };
            }
            i += 1;
        }
        proof {
            assert(old(self).wf());
            assert forall|j: int|
                0 <= j < self.n() && (#[trigger] self.slots@[j]).parent is Some
                implies ((self.slots@[j].parent->0 as int) < self.n() && self.slots@[(
            self.slots@[j].parent->0) as int].live && self.slots@[j].parent->0 as int != j) by {
                assert(!marked@[j]);
                assert(self.slots@[j] == s0[j]);
                let p2 = self.slots@[j].parent->0;
                assert(s0[p2 as int].live && (p2 as int) < s0.len() && p2 as int != j);
                if marked@[p2 as int] {
                    lemma_subtree_extend(s0, p2 as int, root as int, j);
                    assert(false);
                }
            }
        }
    }

    /// Applies a `Clone` action: the source first loses its selection marker
    /// and wireframe overlay, then a fresh entity is spawned carrying the
    /// source's name, parent link, and exactly those of its component types
    /// that the reflection registry holds — unregistered types are silently
    /// omitted from the clone.
    pub fn duplicate(&mut self, registry: &TypeRegistry, src: Entity) -> (d: Entity)
        requires
            old(self).wf(),
            old(self).valid(src),
            old(self).n() < 0xffff_ffff,
        ensures
            final(self).wf(),
            final(self).valid(d),
            !old(self).live_ix(d.index as int),
            d.index != src.index,
            old(self).n() <= final(self).n() <= old(self).n() + 1,
            forall|k: u64|
                final(self).has_key_ix(d.index as int, k) <==> (old(self).has_key_ix(
                    src.index as int,
                    k,
                ) && registry.registered(k) && k != WIREFRAME_KEY),
            final(self).slots@[d.index as int].name == old(self).slots@[src.index as int].name,
            final(self).slots@[d.index as int].parent == old(self).slots@[src.index as int].parent,
            !final(self).slots@[d.index as int].selected,
            !final(self).slots@[src.index as int].selected,
            final(self).slots@[src.index as int].components@ == old(self).slots@[src.index as int]
                .components@.filter(not_key(WIREFRAME_KEY)),
            final(self).slots@[src.index as int].live,
            final(self).slots@[src.index as int].generation == old(self).slots@[src.index as int]
                .generation,
            final(self).slots@[src.index as int].name == old(self).slots@[src.index as int].name,
            final(self).slots@[src.index as int].parent == old(self).slots@[src.index as int]
                .parent,
            forall|i: int|
                0 <= i < old(self).n() && i != src.index as int && i != d.index as int
                    ==> final(self).slots@[i] == old(self).slots@[i],
    {
        let si = src.index as usize;
        let ghost c0 = self.slots@[si as int].components@;
        self.slots[si].selected = false;
        assert(self.slots@[si as int].components@ == c0);
        remove_key(&mut self.slots[si].components, WIREFRAME_KEY);
        let ghost c1 = self.slots@[si as int].components@;
        proof {
            lemma_filter_contains_iff(c0, WIREFRAME_KEY);
            assert(c1 == c0.filter(not_key(WIREFRAME_KEY)));
            assert(forall|x: u64| #[trigger] c1.contains(x) <==> (c0.contains(x) && x
                != WIREFRAME_KEY));
        }
        let copied = filter_registered(&self.slots, si, registry);
        let ghost cc = copied@;
        proof {
            assert(self.slots@[si as int].components@ == c1);
            assert(forall|x: u64| #[trigger] cc.contains(x) <==> (c0.contains(x)
                && registry.registered(x) && x != WIREFRAME_KEY));
        }
        let name = match &self.slots[si].name {
            Some(s) => Some(s.clone()),
            None => None,
        };
        let parent = self.slots[si].parent;
        let ghost mid = self.slots@;
        let d = self.spawn(name);
        let di = d.index as usize;
        self.slots[di].parent = parent;
        self.slots[di].components = copied;
        proof {
            assert(self.slots@[di as int].components@ == cc);
            assert(c0 == old(self).slots@[si as int].components@);
            if parent is Some {
                let p = parent->0;
                assert(mid[p as int].live);
                assert(self.slots@[p as int].live);
                assert(p as int != di as int);
            }
        }
        d
    }

    /// Despawns every live entity that carries no original-id stamp, as the
    /// reset after playing does; a surviving entity whose parent was removed
    /// is detached to the top level.
    pub fn despawn_unstamped(&mut self)
        requires
            old(self).wf(),
        ensures
            final(self).wf(),
            final(self).n() == old(self).n(),
            forall|i: int|
                0 <= i < old(self).n() ==> ((#[trigger] final(self).live_ix(i)) <==> (
                old(self).live_ix(i) && old(self).has_key_ix(i, ORIGINAL_ID_KEY))),
            forall|i: int|
                0 <= i < old(self).n() && final(self).live_ix(i) ==> final(self).slots@[i].name
                    == old(self).slots@[i].name && final(self).slots@[i].generation
                    == old(self).slots@[i].generation && final(self).slots@[i].selected
                    == old(self).slots@[i].selected && final(self).slots@[i].components
                    == old(self).slots@[i].components,
            forall|i: int|
                0 <= i < old(self).n() && final(self).live_ix(i) ==> final(self).slots@[i].parent
                    == (match old(self).slots@[i].parent {
                    Some(p) => if old(self).has_key_ix(p as int, ORIGINAL_ID_KEY) {
                        Some(p)
                    } else {
                        None
                    },
                    None => None,
                }),
    {
        let ghost s0 = self.slots@;
        let n = self.slots.len();
        let mut i: usize = 0;
        while i < n
            invariant
                old(self).wf(),
                n == self.slots.len(),
                s0 == old(self).slots@,
                s0.len() == n,
                forall|j: int| i <= j < n ==> self.slots@[j] == s0[j],
                forall|j: int|
                    0 <= j < i ==> ((#[trigger] self.slots@[j]).live <==> (s0[j].live
                        && s0[j].components@.contains(ORIGINAL_ID_KEY))),
                forall|j: int|
                    0 <= j < i && self.slots@[j].live ==> (#[trigger] self.slots@[j]) == (Slot {
                        parent: match s0[j].parent {
                            Some(p) => if s0[p as int].components@.contains(ORIGINAL_ID_KEY) {
                                Some(p)
                            } else {
                                None
                            },
                            None => None,
                        },
                        ..s0[j]
                    }),
                forall|j: int|
                    0 <= j < i && !self.slots@[j].live ==> (#[trigger] self.slots@[j]) == (Slot {
                        live: false,
                        generation: s0[j].generation,
                        parent: None,
                        name: None,
                        selected: false,
                        components: self.slots@[j].components,
                    }) && self.slots@[j].components@.len() == 0,
            decreases n - i,
        {
            if self.slots[i].live {
                if !has_key(&self.slots[i].components, ORIGINAL_ID_KEY) {
                    let generation = self.slots[i].generation;
                    self.slots[i] = Slot {
                        live: false,
                        generation,
                        parent: None,
                        name: None,
                        selected: false,
                        components: Vec::new(),
                    };
                } else {
                    let clear = match self.slots[i].parent {
                        Some(p) => !has_key(
                            &self.slots[p as usize].components,
                            ORIGINAL_ID_KEY,
                        ),
                        None => false,
                    };
                    if clear {
                        self.slots[i].parent = None;
                    }
                }
            }
            i += 1;
        }
    }
}

/// The process-wide reflection/type registry, modelled as the set of
/// component type keys that are registered as reflectable and clone-capable.
#[derive(Debug)]
pub struct TypeRegistry {
    pub keys: Vec<u64>,
}

impl TypeRegistry {
    pub open spec fn registered(self, k: u64) -> bool {
        self.keys@.contains(k)
    }

    pub fn new() -> (r: TypeRegistry)
        ensures
            forall|k: u64| !r.registered(k),
    {
        TypeRegistry { keys: Vec::new() }
    }

    pub fn register(&mut self, k: u64)
        ensures
            forall|x: u64| final(self).registered(x) <==> (old(self).registered(x) || x == k),
    {
        add_key(&mut self.keys, k);
    }

    pub fn contains(&self, k: u64) -> (r: bool)
        ensures
            r == self.registered(k),
    {
        has_key(&self.keys, k)
    }
}

/// The component keys of slot `si` that the registry holds, in order.
fn filter_registered(slots: &Vec<Slot>, si: usize, registry: &TypeRegistry) -> (r: Vec<u64>)
    requires
        si < slots@.len(),
    ensures
        forall|x: u64|
            #[trigger] r@.contains(x) <==> (slots@[si as int].components@.contains(x)
                && registry.registered(x)),
{
    let v = &slots[si].components;
    let ghost rp = |x: u64| registry.registered(x);
    let ghost s0 = v@;
    let n = v.len();
    let mut out: Vec<u64> = Vec::new();
    let mut i: usize = 0;
    while i < n
        invariant
            i <= n,
            n == v.len(),
            v@ == s0,
            out@ == s0.subrange(0, i as int).filter(rp),
            forall|x: u64| #[trigger] rp(x) == registry.registered(x),
        decreases n - i,
    {
        let ghost pre = s0.subrange(0, i as int);
        let ghost cur = s0.subrange(0, i as int + 1);
        proof {
            reveal(Seq::filter);
            assert(cur.drop_last() =~= pre);
            assert(cur.last() == s0[i as int]);
        }
        if registry.contains(v[i]) {
            out.push(v[i]);
        }
        i += 1;
    }
    proof {
        assert(s0.subrange(0, s0.len() as int) =~= s0);
        lemma_filter_contains_any(s0, rp);
    }
    out
}

/// Membership in a filtered sequence is membership plus the predicate.
pub proof fn lemma_filter_contains_any<A>(s: Seq<A>, p: spec_fn(A) -> bool)
    ensures
        forall|x: A| #[trigger] s.filter(p).contains(x) <==> (s.contains(x) && p(x)),
    decreases s.len(),
{
    reveal(Seq::filter);
    if s.len() == 0 {
    } else {
        lemma_filter_contains_any(s.drop_last(), p);
        let sub = s.drop_last();
        assert forall|x: A| s.contains(x) && p(x) implies #[trigger] s.filter(p).contains(x) by {
            let j = choose|j: int| 0 <= j < s.len() && s[j] == x;
            if j < s.len() - 1 {
                assert(sub[j] == x);
                assert(sub.contains(x));
                assert(sub.filter(p).contains(x));
                let m = choose|m: int| 0 <= m < sub.filter(p).len() && sub.filter(p)[m] == x;
                if p(s.last()) {
                    assert(s.filter(p)[m] == x);
                }
            } else {
                assert(s.last() == x);
                assert(s.filter(p) == sub.filter(p).push(x));
                assert(s.filter(p)[s.filter(p).len() - 1] == x);
            }
        }
        assert forall|x: A| #[trigger] s.filter(p).contains(x) implies s.contains(x) && p(x) by {
            let m = choose|m: int| 0 <= m < s.filter(p).len() && s.filter(p)[m] == x;
            s.lemma_filter_pred(p, m);
            if p(s.last()) && m == s.filter(p).len() - 1 {
                assert(x == s.last());
                assert(s[s.len() - 1] == x);
            } else {
                assert(sub.filter(p)[m] == x);
                assert(sub.filter(p).contains(x));
                let j = choose|j: int| 0 <= j < sub.len() && sub[j] == x;
                assert(s[j] == x);
            }
        }
    }
}

/// How many entries of a marking are still unset.
pub open spec fn count_false(s: Seq<bool>) -> nat
    decreases s.len(),
{
    if s.len() == 0 {
        0
    } else {
        count_false(s.drop_last()) + if s.last() {
            0nat
        } else {
            1nat
        }
    }
}

proof fn lemma_count_false_update(s: Seq<bool>, j: int)
    requires
        0 <= j < s.len(),
        !s[j],
    ensures
        count_false(s.update(j, true)) == count_false(s) - 1,
    decreases s.len(),
{
    let t = s.update(j, true);
    if j == s.len() - 1 {
        assert(t.drop_last() =~= s.drop_last());
        assert(t.last());
    } else {
        assert(t.drop_last() =~= s.drop_last().update(j, true));
        lemma_count_false_update(s.drop_last(), j);
        assert(t.last() == s.last());
    }
}

/// A marking is closed when every live slot whose parent is marked is
/// itself marked.
pub open spec fn closed_marking(slots: Seq<Slot>, m: Seq<bool>) -> bool {
    forall|j: int|
        0 <= j < slots.len() && slots[j].live && (slots[j].parent matches Some(q) && 0 <= q
            < slots.len() && m[q as int]) ==> #[trigger] m[j]
}

/// Marks exactly the subtree rooted at `root`: the root and every slot a
/// chain of live parent links connects to it.
fn mark_subtree(slots: &Vec<Slot>, root: usize) -> (m: Vec<bool>)
    requires
        root < slots@.len(),
        slots@.len() < 0x1_0000_0000,
    ensures
        m@.len() == slots@.len(),
        forall|i: int| 0 <= i < slots@.len() ==> (m@[i] <==> in_subtree(slots@, i, root as int)),
{
    let n = slots.len();
    let mut marked: Vec<bool> = vec![false; n];
    marked.set(root, true);
    proof {
        lemma_subtree_self(slots@, root as int);
    }
    let mut changed = true;
    while changed
        invariant
            n == slots.len(),
            n < 0x1_0000_0000,
            marked.len() == n,
            root < n,
            marked@[root as int],
            forall|i: int| 0 <= i < n && marked@[i] ==> in_subtree(slots@, i, root as int),
            !changed ==> closed_marking(slots@, marked@),
        decreases count_false(marked@) + if changed {
            1int
        } else {
            0int
        },
    {
        changed = false;
        let ghost c0 = count_false(marked@);
        let mut idx: usize = 0;
        while idx < n
            invariant
                n == slots.len(),
                n < 0x1_0000_0000,
                marked.len() == n,
                root < n,
                marked@[root as int],
                forall|i: int| 0 <= i < n && marked@[i] ==> in_subtree(slots@, i, root as int),
                count_false(marked@) <= c0,
                changed ==> count_false(marked@) < c0,
                !changed ==> forall|i: int|
                    0 <= i < idx ==> !(slots@[i].live && (slots@[i].parent matches Some(q) && 0
                        <= q < n && marked@[q as int]) && !(#[trigger] marked@[i])),
            decreases n - idx,
        {
            if !marked[idx] && slots[idx].live {
                if let Some(q) = slots[idx].parent {
                    let qi = q as usize;
                    if qi < n && marked[qi] {
                        proof {
                            lemma_count_false_update(marked@, idx as int);
                            lemma_subtree_extend(slots@, qi as int, root as int, idx as int);
                        }
                        marked.set(idx, true);
                        changed = true;
                    }
                }
            }
            idx += 1;
        }
    }
    proof {
        assert forall|i: int| 0 <= i < slots@.len() && in_subtree(slots@, i, root as int)
            implies marked@[i] by {
            lemma_closed_subtree_marked(slots@, marked@, root as int, i);
        }
    }
    marked
}

/// Whether `v` holds the component key `k`.
pub fn has_key(v: &Vec<u64>, k: u64) -> (r: bool)
    ensures
        r == v@.contains(k),
{
    let mut i: usize = 0;
    while i < v.len()
        invariant
            i <= v.len(),
            forall|j: int| 0 <= j < i ==> v@[j] != k,
        decreases v.len() - i,
    {
        if v[i] == k {
            return true;
        }
        i += 1;
    }
    false
}

/// The predicate selecting every key other than `k`.
pub open spec fn not_key(k: u64) -> spec_fn(u64) -> bool {
    |y: u64| y != k
}

/// Pushing an element extends the membership of a key sequence by it.
pub proof fn lemma_push_contains(s: Seq<u64>, k: u64)
    ensures
        forall|x: u64| #[trigger] s.push(k).contains(x) <==> (s.contains(x) || x == k),
{
    assert forall|x: u64| #[trigger] s.push(k).contains(x) implies (s.contains(x) || x == k) by {
        let j = choose|j: int| 0 <= j < s.push(k).len() && s.push(k)[j] == x;
        if j < s.len() {
            assert(s[j] == x);
        }
    }
    assert forall|x: u64| s.contains(x) || x == k implies #[trigger] s.push(k).contains(x) by {
        if s.contains(x) {
            let j = choose|j: int| 0 <= j < s.len() && s[j] == x;
            assert(s.push(k)[j] == x);
        } else {
            assert(s.push(k)[s.len() as int] == k);
        }
    }
}

/// Adds the component key `k` unless it is already present.
pub fn add_key(v: &mut Vec<u64>, k: u64)
    ensures
        old(v)@.contains(k) ==> final(v)@ == old(v)@,
        !old(v)@.contains(k) ==> final(v)@ == old(v)@.push(k),
        forall|x: u64| final(v)@.contains(x) <==> (old(v)@.contains(x) || x == k),
{
    let ghost s0 = v@;
    if !has_key(v, k) {
        v.push(k);
        proof {
            lemma_push_contains(s0, k);
        }
    }
}

/// Removes every occurrence of the component key `k`.
pub fn remove_key(v: &mut Vec<u64>, k: u64)
    ensures
        final(v)@ == old(v)@.filter(not_key(k)),
        forall|x: u64| final(v)@.contains(x) <==> (old(v)@.contains(x) && x != k),
{
    let ghost s0 = v@;
    let n = v.len();
    let mut out: Vec<u64> = Vec::new();
    let mut i: usize = 0;
    while i < n
        invariant
            i <= n,
            n == v.len(),
            v@ == s0,
            out@ == s0.subrange(0, i as int).filter(not_key(k)),
        decreases n - i,
    {
        let ghost pre = s0.subrange(0, i as int);
        let ghost cur = s0.subrange(0, i as int + 1);
        proof {
            reveal(Seq::filter);
            assert(cur.drop_last() =~= pre);
            assert(cur.last() == s0[i as int]);
        }
        if v[i] != k {
            out.push(v[i]);
        }
        i += 1;
    }
    proof {
        assert(s0.subrange(0, s0.len() as int) =~= s0);
    }
    *v = out;
    proof {
        lemma_filter_contains_iff(s0, k);
    }
}

/// Membership in a sequence filtered on `!= k` is membership minus `k`.
pub proof fn lemma_filter_contains_iff(s: Seq<u64>, k: u64)
    ensures
        forall|x: u64| #[trigger] s.filter(not_key(k)).contains(x) <==> (s.contains(x) && x != k),
{
    lemma_filter_contains_any(s, not_key(k));
    assert forall|x: u64| #[trigger] s.filter(not_key(k)).contains(x) <==> (s.contains(x) && x
        != k) by {
        assert(not_key(k)(x) == (x != k));
    }
}


impl EntityStore {
    /// The parent of `e`, as a full entity reference.
    pub fn parent_of(&self, e: Entity) -> (r: Option<Entity>)
        requires
            self.wf(),
            self.valid(e),
        ensures
            match self.parent_ix(e.index as int) {
                Some(p) => r matches Some(pe) && pe.index == p && self.valid(pe),
                None => r is None,
            },
    {
        match self.slots[e.index as usize].parent {
            Some(p) => {
                let pi = p as usize;
                Some(Entity { index: p, generation: self.slots[pi].generation })
            },
            None => None,
        }
    }

    /// The entity carrying the selection marker with the smallest index,
    /// if any entity is selected at all.
    pub fn selected_entity(&self) -> (r: Option<Entity>)
        requires
            self.wf(),
            self.n() < 0xffff_ffff,
        ensures
            (r is Some) <==> (exists|i: int| 0 <= i < self.n() && self.sel_ix(i)),
            r matches Some(e) ==> self.valid(e) && self.sel_ix(e.index as int) && forall|j: int|
                0 <= j < e.index as int ==> !self.sel_ix(j),
    {
        let n = self.slots.len();
        let mut i: usize = 0;
        while i < n
            invariant
                i <= n,
                n == self.slots@.len(),
                n < 0xffff_ffff,
                self.wf(),
                forall|j: int| 0 <= j < i ==> !self.sel_ix(j),
            decreases n - i,
        {
            if self.slots[i].selected {
                assert(self.slots@[i as int].live);
                assert(self.sel_ix(i as int));
                return Some(Entity { index: i as u32, generation: self.slots[i].generation });
            }
            i += 1;
        }
        None
    }

    /// Whether the entity carries the component type `k`.
    pub fn has_component(&self, e: Entity, k: u64) -> (r: bool)
        requires
            self.wf(),
            self.valid(e),
        ensures
            r == self.has_key_ix(e.index as int, k),
    {
        has_key(&self.slots[e.index as usize].components, k)
    }

    /// Whether the reference still names a live entity of its generation.
    pub fn is_valid(&self, e: Entity) -> (r: bool)
        ensures
            r == self.valid(e),
    {
        let i = e.index as usize;
        i < self.slots.len() && self.slots[i].live && self.slots[i].generation == e.generation
    }

    /// The display name of the entity, if it has one.
    pub fn name_of(&self, e: Entity) -> (r: &Option<String>)
        requires
            self.wf(),
            self.valid(e),
        ensures
            r == self.slots@[e.index as int].name,
    {
        &self.slots[e.index as usize].name
    }

    /// Whether the entity carries the selection marker.
    pub fn is_selected(&self, e: Entity) -> (r: bool)
        requires
            self.wf(),
            self.valid(e),
        ensures
            r == self.sel_ix(e.index as int),
    {
        self.slots[e.index as usize].selected
    }
}

} // verus!

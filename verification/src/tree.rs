use vstd::multiset::Multiset;
use vstd::prelude::*;
use crate::store::{Entity, EntityStore, Slot};

verus! {

/// The decimal digit character for `d`.
pub open spec fn digit_char(d: nat) -> char {
    if d == 0 {
        '0'
    } else if d == 1 {
        '1'
    } else if d == 2 {
        '2'
    } else if d == 3 {
        '3'
    } else if d == 4 {
        '4'
    } else if d == 5 {
        '5'
    } else if d == 6 {
        '6'
    } else if d == 7 {
        '7'
    } else if d == 8 {
        '8'
    } else {
        '9'
    }
}

/// The decimal rendering of `n`, most significant digit first.
pub open spec fn dec_digits(n: nat) -> Seq<char>
    decreases n,
{
    if n < 10 {
        seq![digit_char(n)]
    } else {
        dec_digits(n / 10).push(digit_char(n % 10))
    }
}

/// One decimal digit as a string slice.
fn digit_str(d: u32) -> (r: &'static str)
    requires
        d < 10,
    ensures
        r@ == seq![digit_char(d as nat)],
{
    proof {
        reveal_strlit("0");
        reveal_strlit("1");
        reveal_strlit("2");
        reveal_strlit("3");
        reveal_strlit("4");
        reveal_strlit("5");
        reveal_strlit("6");
        reveal_strlit("7");
        reveal_strlit("8");
        reveal_strlit("9");
    }
    match d {
        0 => "0",
        1 => "1",
        2 => "2",
        3 => "3",
        4 => "4",
        5 => "5",
        6 => "6",
        7 => "7",
        8 => "8",
        _ => "9",
    }
}

/// Renders `n` in decimal.
pub fn u32_dec_string(n: u32) -> (r: String)
    ensures
        r@ == dec_digits(n as nat),
    decreases n,
{
    if n < 10 {
        String::from_str(digit_str(n))
    } else {
        let mut s = u32_dec_string(n / 10);
        s.append(digit_str(n % 10));
        proof {
            assert(dec_digits(n as nat) == dec_digits(n as nat / 10).push(
                digit_char(n as nat % 10),
            ));
            assert(dec_digits(n as nat / 10).push(digit_char(n as nat % 10)) =~= dec_digits(
                n as nat / 10,
            ) + seq![digit_char(n as nat % 10)]);
        }
        s
    }
}

/// The display label of a node: `#<index> - <name>`, with `/` standing in
/// for a missing name.
pub open spec fn spec_label(index: u32, name: Option<Seq<char>>) -> Seq<char> {
    "#"@ + dec_digits(index as nat) + " - "@ + (match name {
        Some(s) => s,
        None => "/"@,
    })
}

pub fn get_label(entity: Entity, name: Option<&String>) -> (r: String)
    ensures
        r@ == spec_label(
            entity.index,
            match name {
                Some(s) => Some(s@),
                None => None,
            },
        ),
{
    let mut s = String::from_str("#");
    let digits = u32_dec_string(entity.index);
    s.append(digits.as_str());
    s.append(" - ");
    match name {
        Some(n) => s.append(n.as_str()),
        None => {
            s.append("/");
            proof {
                reveal_strlit("/");
            }
        },
    }
    s
}

/// One node of the per-frame hierarchy snapshot: the entity it stands for
/// with its display label (the root carries none), and its children.
pub struct Node(pub Option<(Entity, String)>, pub Vec<Node>);

/// The per-frame hierarchy snapshot, rebuilt wholesale from the live store
/// each tick and discarded after rendering.
pub struct Tree(pub Node);

/// The indices below `n` of live slots whose parent link equals `pl`,
/// in increasing order.
pub open spec fn kids_upto(slots: Seq<Slot>, pl: Option<u32>, n: int) -> Seq<int>
    decreases n,
{
    if n <= 0 {
        Seq::empty()
    } else {
        let rest = kids_upto(slots, pl, n - 1);
        if slots[n - 1].live && slots[n - 1].parent == pl {
            rest.push(n - 1)
        } else {
            rest
        }
    }
}

/// The child slot indices of parent link `pl`, in increasing order.
pub open spec fn kid_indices(slots: Seq<Slot>, pl: Option<u32>) -> Seq<int> {
    kids_upto(slots, pl, slots.len() as int)
}

/// Every listed child index is in range, live, and linked to `pl`; the
/// listing is strictly increasing.
pub proof fn lemma_kids_upto_facts(slots: Seq<Slot>, pl: Option<u32>, n: int)
    requires
        n <= slots.len(),
    ensures
        forall|j: int|
            0 <= j < kids_upto(slots, pl, n).len() ==> {
                let i = #[trigger] kids_upto(slots, pl, n)[j];
                0 <= i < n && slots[i].live && slots[i].parent == pl
            },
        forall|a: int, b: int|
            0 <= a < b < kids_upto(slots, pl, n).len() ==> kids_upto(slots, pl, n)[a] < kids_upto(
                slots,
                pl,
                n,
            )[b],
    decreases n,
{
    if n > 0 {
        lemma_kids_upto_facts(slots, pl, n - 1);
    }
}

/// Whether `node` is the snapshot of slot `i` cut off at `fuel` levels:
/// its label renders the slot, and its children snapshot the slot's
/// children in order (none when the fuel is exhausted).
pub open spec fn node_matches(slots: Seq<Slot>, node: Node, i: int, fuel: nat) -> bool
    decreases fuel,
{
    &&& node.0 matches Some(pair) && pair.0.index as int == i && pair.0.generation
        == slots[i].generation && pair.1@ == spec_label(
        pair.0.index,
        match slots[i].name {
            Some(s) => Some(s@),
            None => None,
        },
    )
    &&& if fuel == 0 {
        node.1@.len() == 0
    } else {
        let kids = kid_indices(slots, Some(i as u32));
        &&& node.1@.len() == kids.len()
        &&& forall|j: int|
            0 <= j < kids.len() ==> node_matches(slots, #[trigger] node.1@[j], kids[j], (fuel
                - 1) as nat)
    }
}

/// Whether `tree` is the snapshot of the whole store cut off at `fuel`
/// levels below the roots: its root node carries no entity, and its
/// children snapshot the parentless live slots in order.
pub open spec fn tree_matches(slots: Seq<Slot>, tree: Tree, fuel: nat) -> bool {
    &&& tree.0.0 is None
    &&& tree.0.1@.len() == kid_indices(slots, None).len()
    &&& forall|j: int|
        0 <= j < kid_indices(slots, None).len() ==> node_matches(
            slots,
            #[trigger] tree.0.1@[j],
            kid_indices(slots, None)[j],
            fuel,
        )
}

/// The live slot indices (below `n`) with parent link `pl`, in increasing
/// order, as an executable listing of `kids_upto`.
fn collect_kids(store: &EntityStore, pl: Option<u32>) -> (r: Vec<usize>)
    requires
        store.n() < 0xffff_ffff,
    ensures
        r@.map(|j: int, x: usize| x as int) == kid_indices(store.slots@, pl),
{
    let n = store.slots.len();
    let mut out: Vec<usize> = Vec::new();
    let mut i: usize = 0;
    while i < n
        invariant
            i <= n,
            n == store.slots@.len(),
            out@.map(|j: int, x: usize| x as int) == kids_upto(store.slots@, pl, i as int),
        decreases n - i,
    {
        let take = match (&store.slots[i].parent, &pl) {
            (Some(a), Some(b)) => *a == *b,
            (None, None) => true,
            _ => false,
        };
        let ghost outpre = out@;
        if store.slots[i].live && take {
            out.push(i);
            proof {
                assert(out@.map(|j: int, x: usize| x as int) =~= outpre.map(
                    |j: int, x: usize| x as int,
                ).push(i as int));
            }
        }
        i += 1;
    }
    out
}

/// Builds the snapshot node for the live slot `i`, recursing `fuel` levels.
fn build_node(store: &EntityStore, i: usize, fuel: usize) -> (r: Node)
    requires
        store.wf(),
        store.n() < 0xffff_ffff,
        store.live_ix(i as int),
    ensures
        node_matches(store.slots@, r, i as int, fuel as nat),
    decreases fuel,
{
    let entity = Entity { index: i as u32, generation: store.slots[i].generation };
    let label = get_label(
        entity,
        match &store.slots[i].name {
            Some(s) => Some(s),
            None => None,
        },
    );
    let mut children: Vec<Node> = Vec::new();
    if fuel > 0 {
        let kid_ixs = collect_kids(store, Some(i as u32));
        let ghost kids = kid_indices(store.slots@, Some(i as u32));
        proof {
            lemma_kids_upto_facts(store.slots@, Some(i as u32), store.slots@.len() as int);
        }
        let m = kid_ixs.len();
        let mut j: usize = 0;
        while j < m
            invariant
                j <= m,
                m == kid_ixs@.len(),
                fuel >= 1,
                store.wf(),
                store.n() < 0xffff_ffff,
                kid_ixs@.map(|q: int, x: usize| x as int) == kids,
                kids == kid_indices(store.slots@, Some(i as u32)),
                forall|q: int|
                    0 <= q < kids.len() ==> {
                        let ix = #[trigger] kids[q];
                        0 <= ix < store.n() && store.slots@[ix].live
                    },
                children@.len() == j,
                forall|q: int|
                    0 <= q < j ==> node_matches(
                        store.slots@,
                        #[trigger] children@[q],
                        kids[q],
                        (fuel - 1) as nat,
                    ),
            decreases m - j,
        {
            assert(kid_ixs@[j as int] as int == kids[j as int]);
            let child = build_node(store, kid_ixs[j], fuel - 1);
            children.push(child);
            j += 1;
        }
    }
    Node(Some((entity, label)), children)
}

/// Rebuilds the hierarchy snapshot from the live store, as done once per
/// tick: one child of the root per parentless live entity, in index order,
/// and below each node its children in index order. The recursion depth is
/// capped at the arena size, which no parent chain that reaches a root can
/// exceed.
pub fn build_tree(store: &EntityStore) -> (t: Tree)
    requires
        store.wf(),
        store.n() < 0xffff_ffff,
    ensures
        tree_matches(store.slots@, t, store.n() as nat),
{
    let n = store.slots.len();
    let root_ixs = collect_kids(store, None);
    let ghost roots = kid_indices(store.slots@, None);
    proof {
        lemma_kids_upto_facts(store.slots@, None, store.slots@.len() as int);
    }
    let m = root_ixs.len();
    let mut children: Vec<Node> = Vec::new();
    let mut j: usize = 0;
    while j < m
        invariant
            j <= m,
            m == root_ixs@.len(),
            n == store.slots@.len(),
            store.wf(),
            store.n() < 0xffff_ffff,
            root_ixs@.map(|q: int, x: usize| x as int) == roots,
            roots == kid_indices(store.slots@, None),
            forall|q: int|
                0 <= q < roots.len() ==> {
                    let ix = #[trigger] roots[q];
                    0 <= ix < store.n() && store.slots@[ix].live
                },
            children@.len() == j,
            forall|q: int|
                0 <= q < j ==> node_matches(
                    store.slots@,
                    #[trigger] children@[q],
                    roots[q],
                    store.n() as nat,
                ),
        decreases m - j,
    {
        assert(root_ixs@[j as int] as int == roots[j as int]);
        let child = build_node(store, root_ixs[j], n);
        children.push(child);
        j += 1;
    }
    Tree(Node(None, children))
}


/// Orders nodes by their entities' stable indices, smallest first, keeping
/// exactly the given nodes.
fn sort_by_index(nodes: Vec<Node>) -> (r: Vec<Node>)
    ensures
        r@.to_multiset() == nodes@.to_multiset(),
        forall|a: int, b: int|
            0 <= a < b < r@.len() ==> index_of(#[trigger] r@[a]) <= index_of(#[trigger] r@[b]),
{
    broadcast use vstd::seq_lib::group_to_multiset_ensures;

    let mut rest = nodes;
    let mut out: Vec<Node> = Vec::new();
    while rest.len() > 0
        invariant
            out@.to_multiset().add(rest@.to_multiset()) == nodes@.to_multiset(),
            forall|a: int, b: int|
                0 <= a < b < out@.len() ==> index_of(#[trigger] out@[a]) <= index_of(
                    #[trigger] out@[b],
                ),
            forall|a: int, j: int|
                0 <= a < out@.len() && 0 <= j < rest@.len() ==> index_of(#[trigger] out@[a])
                    <= index_of(#[trigger] rest@[j]),
        decreases rest@.len(),
    {
        let n = rest.len();
        let mut mi: usize = 0;
        let mut k: usize = 1;
        while k < n
            invariant
                mi < k <= n,
                n == rest@.len(),
                forall|j: int| 0 <= j < k ==> index_of(rest@[mi as int]) <= index_of(
                    #[trigger] rest@[j],
                ),
            decreases n - k,
        {
            let a = match &rest[k].0 {
                Some(p) => p.0.index,
                None => 0,
            };
            let b = match &rest[mi].0 {
                Some(p) => p.0.index,
                None => 0,
            };
            if a < b {
                mi = k;
            }
            k += 1;
        }
        let ghost rest0 = rest@;
        let ghost out0 = out@;
        let picked = rest.remove(mi);
        out.push(picked);
        proof {
            broadcast use vstd::multiset::group_multiset_axioms;

            rest0.to_multiset_ensures();
            out0.to_multiset_ensures();
            assert(rest@ == rest0.remove(mi as int));
            assert(picked == rest0[mi as int]);
            assert(rest0.remove(mi as int).to_multiset() =~= rest0.to_multiset().remove(picked));
            assert(out0.push(picked).to_multiset() =~= out0.to_multiset().insert(picked));
            assert(rest0.contains(picked)) by {
                assert(rest0[mi as int] == picked);
            }
            assert(rest0.to_multiset().count(picked) > 0);
            assert(out@.to_multiset().add(rest@.to_multiset()) =~= out0.to_multiset().add(
                rest0.to_multiset(),
            ));
            assert forall|a: int, j: int|
                0 <= a < out@.len() && 0 <= j < rest@.len() implies index_of(#[trigger] out@[a])
                <= index_of(#[trigger] rest@[j]) by {
                if a < out0.len() {
                    if j < mi {
                        assert(rest@[j] == rest0[j]);
                    } else {
                        assert(rest@[j] == rest0[j + 1]);
                    }
                } else {
                    assert(out@[a] == rest0[mi as int]);
                    if j < mi {
                        assert(rest@[j] == rest0[j]);
                    } else {
                        assert(rest@[j] == rest0[j + 1]);
                    }
                }
            }
        }
    }
    proof {
        broadcast use vstd::multiset::group_multiset_axioms;

        rest@.to_multiset_ensures();
        assert(rest@.to_multiset() =~= Multiset::<Node>::empty());
        assert(out@.to_multiset().add(Multiset::<Node>::empty()) =~= out@.to_multiset());
    }
    out
}

/// Every level of sibling nodes carries strictly increasing entity indices.
pub open spec fn siblings_sorted(node: Node) -> bool
    decreases node,
{
    &&& forall|a: int, b: int|
        0 <= a < b < node.1@.len() ==> index_of(#[trigger] node.1@[a]) < index_of(
            #[trigger] node.1@[b],
        )
    &&& forall|j: int| 0 <= j < node.1@.len() ==> siblings_sorted(#[trigger] node.1@[j])
}

/// The entity index a node stands for (the root reads as zero).
pub open spec fn index_of(node: Node) -> int {
    match node.0 {
        Some(pair) => pair.0.index as int,
        None => 0,
    }
}

/// Tree ordering invariant: in a snapshot built from the store, any two
/// sibling nodes appear in render order exactly when their entities' stable
/// indices are in increasing order.
pub proof fn lemma_node_siblings_sorted(slots: Seq<Slot>, node: Node, i: int, fuel: nat)
    requires
        node_matches(slots, node, i, fuel),
    ensures
        siblings_sorted(node),
    decreases node,
{
    if fuel > 0 {
        let kids = kid_indices(slots, Some(i as u32));
        lemma_kids_upto_facts(slots, Some(i as u32), slots.len() as int);
        assert forall|j: int| 0 <= j < node.1@.len() implies siblings_sorted(
            #[trigger] node.1@[j],
        ) by {
            lemma_node_siblings_sorted(slots, node.1@[j], kids[j], (fuel - 1) as nat);
        }
        assert forall|a: int, b: int| 0 <= a < b < node.1@.len() implies index_of(
            #[trigger] node.1@[a],
        ) < index_of(#[trigger] node.1@[b]) by {
            assert(node_matches(slots, node.1@[a], kids[a], (fuel - 1) as nat));
            assert(node_matches(slots, node.1@[b], kids[b], (fuel - 1) as nat));
            assert(kids[a] < kids[b]);
        }
    }
}

/// A per-node button or selection action produced by the tree widget.
#[derive(Debug, Clone, Copy, PartialEq, Eq, Structural)]
pub enum NodeAction {
    Select(Entity),
    Clone(Entity),
    Remove(Entity),
}

/// What a drop landed on: the scene root (detach) or a node (reparent).
#[derive(Debug, Clone, Copy, PartialEq, Eq, Structural)]
pub enum HoverEntity {
    Root,
    Node(Entity),
}

impl HoverEntity {
    pub fn entity(&self) -> (r: Option<Entity>)
        ensures
            r == (match self {
                HoverEntity::Root => None::<Entity>,
                HoverEntity::Node(e) => Some(*e),
            }),
    {
        match self {
            HoverEntity::Root => None,
            HoverEntity::Node(entity) => Some(*entity),
        }
    }
}

/// The outcome of rendering the tree for one frame.
#[derive(Debug, Clone, Copy, PartialEq, Eq, Structural)]
pub enum TreeAction {
    NoAction,
    Node(NodeAction),
    Move(Entity, HoverEntity),
}

/// Transient drag state collected while the tree is traversed and consumed
/// at the end of the same traversal.
#[derive(Debug, Clone, Copy, PartialEq, Eq, Structural)]
pub struct Context {
    pub drag_entity: Option<Entity>,
    pub hover_entity: Option<HoverEntity>,
}

/// What the widget toolkit reported for one node this frame.
#[derive(Debug, Clone, Copy, PartialEq, Eq, Structural)]
pub struct NodeInput {
    pub remove_clicked: bool,
    pub clone_clicked: bool,
    pub select_clicked: bool,
    pub drag_started: bool,
    pub hovered: bool,
    pub expanded: bool,
}

/// The node input with nothing reported.
pub open spec fn no_input() -> NodeInput {
    NodeInput {
        remove_clicked: false,
        clone_clicked: false,
        select_clicked: false,
        drag_started: false,
        hovered: false,
        expanded: false,
    }
}

/// Everything the widget toolkit reported for one frame of the tree.
#[derive(Debug)]
pub struct FrameInput {
    pub node_inputs: Vec<(Entity, NodeInput)>,
    pub root: NodeInput,
    pub anything_dragged: bool,
    pub pointer_released: bool,
}

/// The input recorded for `e` from position `i` on: the first entry that
/// names it, or the empty input.
pub open spec fn spec_input_from(inputs: Seq<(Entity, NodeInput)>, e: Entity, i: int) -> NodeInput
    decreases inputs.len() - i,
{
    if i < 0 || i >= inputs.len() {
        no_input()
    } else if inputs[i].0 == e {
        inputs[i].1
    } else {
        spec_input_from(inputs, e, i + 1)
    }
}

/// The input recorded for `e`: the first entry that names it, or the empty
/// input.
pub open spec fn spec_input_for(inputs: Seq<(Entity, NodeInput)>, e: Entity) -> NodeInput {
    spec_input_from(inputs, e, 0)
}

fn lookup_from(inputs: &Vec<(Entity, NodeInput)>, e: Entity, i: usize) -> (r: NodeInput)
    requires
        i <= inputs@.len(),
    ensures
        r == spec_input_from(inputs@, e, i as int),
    decreases inputs@.len() - i,
{
    if i >= inputs.len() {
        NodeInput {
            remove_clicked: false,
            clone_clicked: false,
            select_clicked: false,
            drag_started: false,
            hovered: false,
            expanded: false,
        }
    } else if inputs[i].0 == e {
        inputs[i].1
    } else {
        lookup_from(inputs, e, i + 1)
    }
}

/// The input recorded for `e` this frame.
pub fn lookup_input(inputs: &Vec<(Entity, NodeInput)>, e: Entity) -> (r: NodeInput)
    ensures
        r == spec_input_for(inputs@, e),
{
    lookup_from(inputs, e, 0)
}

/// The input a node reads: its entity's entry, or the root's input.
pub open spec fn spec_node_input(input: FrameInput, e: Option<(Entity, String)>) -> NodeInput {
    match e {
        Some(p) => spec_input_for(input.node_inputs@, p.0),
        None => input.root,
    }
}

/// The action a node's buttons produce, in button order: remove, then
/// clone, then select; the root row has no buttons.
pub open spec fn spec_node_action(ni: NodeInput, e: Option<(Entity, String)>) -> Option<
    NodeAction,
> {
    match e {
        Some(p) => if ni.remove_clicked {
            Some(NodeAction::Remove(p.0))
        } else if ni.clone_clicked {
            Some(NodeAction::Clone(p.0))
        } else if ni.select_clicked {
            Some(NodeAction::Select(p.0))
        } else {
            None
        },
        None => None,
    }
}

/// The drop target a node stands for.
pub open spec fn spec_hover_of(e: Option<(Entity, String)>) -> HoverEntity {
    match e {
        Some(p) => HoverEntity::Node(p.0),
        None => HoverEntity::Root,
    }
}

/// Records the node as drag source when a drag started on it; the root
/// cannot be dragged.
pub open spec fn spec_apply_drag(ctx: Context, ni: NodeInput, e: Option<(Entity, String)>) -> Context {
    match e {
        Some(p) => if ni.drag_started {
            Context { drag_entity: Some(p.0), ..ctx }
        } else {
            ctx
        },
        None => ctx,
    }
}

/// Records the node as drop target when something is being dragged over it.
pub open spec fn spec_apply_hover(
    ctx: Context,
    input: FrameInput,
    ni: NodeInput,
    e: Option<(Entity, String)>,
) -> Context {
    if input.anything_dragged && ni.hovered {
        Context { hover_entity: Some(spec_hover_of(e)), ..ctx }
    } else {
        ctx
    }
}

/// One node's pass of the tree render: a leaf reads its drag, buttons and
/// hover; a branch first folds its children (when expanded), keeping the
/// first button action while every child still records drag state, and only
/// when no child action fired reads its own header. This mirrors the
/// traversal order of the widget, so later drag or hover writes overwrite
/// earlier ones.
pub open spec fn spec_node_ui(node: Node, input: FrameInput, ctx: Context) -> (TreeAction, Context)
    decreases node, 1int, 0int,
{
    let ni = spec_node_input(input, node.0);
    if node.1@.len() == 0 {
        let ctx1 = spec_apply_drag(ctx, ni, node.0);
        let a = spec_node_action(ni, node.0);
        let ctx2 = spec_apply_hover(ctx1, input, ni, node.0);
        (
            match a {
                Some(na) => TreeAction::Node(na),
                None => TreeAction::NoAction,
            },
            ctx2,
        )
    } else {
        let body = if ni.expanded {
            spec_kids_ui(node, node.1@.len() as int, input, ctx)
        } else {
            (TreeAction::NoAction, ctx)
        };
        if body.0 is Node {
            body
        } else {
            let ctx1 = spec_apply_drag(body.1, ni, node.0);
            match spec_node_action(ni, node.0) {
                Some(na) => (TreeAction::Node(na), ctx1),
                None => (TreeAction::NoAction, spec_apply_hover(ctx1, input, ni, node.0)),
            }
        }
    }
}

/// The fold over the first `k` children of `node`: children are visited in
/// order, each threading the drag context, and the first button action wins.
pub open spec fn spec_kids_ui(node: Node, k: int, input: FrameInput, ctx: Context) -> (
    TreeAction,
    Context,
)
    decreases node, 0int, k,
{
    if k <= 0 || k > node.1@.len() {
        (TreeAction::NoAction, ctx)
    } else {
        let fst = spec_kids_ui(node, k - 1, input, ctx);
        let lst = spec_node_ui(node.1@[k - 1], input, fst.1);
        (
            if fst.0 is Node {
                fst.0
            } else {
                lst.0
            },
            lst.1,
        )
    }
}

impl Node {
    /// Builds a node, putting its children into stable render order: they
    /// are sorted by their entities' stable indices.
    pub fn new(entity: Option<(Entity, String)>, children: Vec<Node>) -> (r: Node)
        ensures
            r.0 == entity,
            r.1@.to_multiset() == children@.to_multiset(),
            forall|a: int, b: int|
                0 <= a < b < r.1@.len() ==> index_of(#[trigger] r.1@[a]) <= index_of(
                    #[trigger] r.1@[b],
                ),
    {
        Node(entity, sort_by_index(children))
    }

    /// Renders this node for one frame, given what the widget toolkit
    /// reported, collecting drag state and returning the first button
    /// action of the subtree.
    pub fn ui(&self, input: &FrameInput, context: &mut Context) -> (r: TreeAction)
        ensures
            r == spec_node_ui(*self, *input, *old(context)).0,
            *final(context) == spec_node_ui(*self, *input, *old(context)).1,
        decreases *self,
    {
        let ni = match &self.0 {
            Some(p) => lookup_input(&input.node_inputs, p.0),
            None => input.root,
        };
        if self.1.len() == 0 {
            if ni.drag_started {
                if let Some(p) = &self.0 {
                    context.drag_entity = Some(p.0);
                }
            }
            let a = match &self.0 {
                Some(p) => {
                    if ni.remove_clicked {
                        Some(NodeAction::Remove(p.0))
                    } else if ni.clone_clicked {
                        Some(NodeAction::Clone(p.0))
                    } else if ni.select_clicked {
                        Some(NodeAction::Select(p.0))
                    } else {
                        None
                    }
                },
                None => None,
            };
            if input.anything_dragged && ni.hovered {
                context.hover_entity = Some(
                    match &self.0 {
                        Some(p) => HoverEntity::Node(p.0),
                        None => HoverEntity::Root,
                    },
                );
            }
            match a {
                Some(na) => TreeAction::Node(na),
                None => TreeAction::NoAction,
            }
        } else {
            let ctx0 = *context;
            let mut body = TreeAction::NoAction;
            if ni.expanded {
                let m = self.1.len();
                let mut j: usize = 0;
                while j < m
                    invariant
                        j <= m,
                        m == self.1@.len(),
                        m > 0,
                        ni == spec_node_input(*input, self.0),
                        body == spec_kids_ui(*self, j as int, *input, ctx0).0,
                        *context == spec_kids_ui(*self, j as int, *input, ctx0).1,
                    decreases m - j,
                {
                    let a = self.1[j].ui(input, context);
                    match body {
                        TreeAction::Node(_) => {},
                        _ => {
                            body = a;
                        },
                    }
                    j += 1;
                }
            }
            match body {
                TreeAction::Node(_) => body,
                _ => {
                    if ni.drag_started {
                        if let Some(p) = &self.0 {
                            context.drag_entity = Some(p.0);
                        }
                    }
                    let a = match &self.0 {
                        Some(p) => {
                            if ni.remove_clicked {
                                Some(NodeAction::Remove(p.0))
                            } else if ni.clone_clicked {
                                Some(NodeAction::Clone(p.0))
                            } else if ni.select_clicked {
                                Some(NodeAction::Select(p.0))
                            } else {
                                None
                            }
                        },
                        None => None,
                    };
                    match a {
                        Some(na) => TreeAction::Node(na),
                        None => {
                            if input.anything_dragged && ni.hovered {
                                context.hover_entity = Some(
                                    match &self.0 {
                                        Some(p) => HoverEntity::Node(p.0),
                                        None => HoverEntity::Root,
                                    },
                                );
                            }
                            TreeAction::NoAction
                        },
                    }
                },
            }
        }
    }
}

/// The whole tree's pass for one frame: the root node's walk, then the
/// drag/drop resolution — a `Move` is emitted only when a drag and a hover
/// were both recorded, the pointer was released, no button action already
/// fired, and the target is not the dragged entity itself.
pub open spec fn spec_tree_ui(tree: Tree, input: FrameInput) -> TreeAction {
    let w = spec_node_ui(tree.0, input, Context { drag_entity: None, hover_entity: None });
    match (w.1.drag_entity, w.1.hover_entity) {
        (Some(d), Some(h)) => if input.pointer_released && w.0 is NoAction {
            match h {
                HoverEntity::Node(p) => if p != d {
                    TreeAction::Move(d, h)
                } else {
                    TreeAction::NoAction
                },
                HoverEntity::Root => TreeAction::Move(d, HoverEntity::Root),
            }
        } else {
            w.0
        },
        _ => w.0,
    }
}

impl Tree {
    pub fn new(root: Node) -> (t: Tree)
        ensures
            t.0 == root,
    {
        Tree(root)
    }

    /// Renders the tree for one frame and resolves drag/drop, producing at
    /// most one action.
    pub fn ui(&self, input: &FrameInput) -> (r: TreeAction)
        ensures
            r == spec_tree_ui(*self, *input),
            (r matches TreeAction::Move(d, h) ==> (h matches HoverEntity::Node(p) ==> p != d)),
    {
        let mut context = Context { drag_entity: None, hover_entity: None };
        let action = self.0.ui(input, &mut context);
        if let Some(dragged) = context.drag_entity {
            if let Some(hovered) = context.hover_entity {
                if input.pointer_released {
                    if let TreeAction::NoAction = &action {
                        if let HoverEntity::Node(entity) = hovered {
                            if entity != dragged {
                                return TreeAction::Move(dragged, hovered);
                            }
                        } else {
                            return TreeAction::Move(dragged, hovered);
                        }
                    }
                }
            }
        }
        action
    }
}

/// A button action pre-empts drag/drop resolution: whenever the node walk
/// produced an action, that action is the frame's result, and a `Move` is
/// only emitted on frames where no button action fired.
pub proof fn lemma_action_preempts_move(tree: Tree, input: FrameInput)
    ensures
        ({
            let w = spec_node_ui(
                tree.0,
                input,
                Context { drag_entity: None, hover_entity: None },
            );
            &&& (w.0 is Node ==> spec_tree_ui(tree, input) == w.0)
            &&& (spec_tree_ui(tree, input) is Move ==> w.0 is NoAction)
        }),
{
}

/// A `Move` is never emitted with the dragged entity as its own target.
pub proof fn lemma_move_never_self(tree: Tree, input: FrameInput)
    ensures
        spec_tree_ui(tree, input) matches TreeAction::Move(d, h) ==> (h
            matches HoverEntity::Node(p) ==> p != d),
{
}

/// Tree ordering invariant, at the snapshot root.
pub proof fn lemma_tree_siblings_sorted(slots: Seq<Slot>, tree: Tree, fuel: nat)
    requires
        tree_matches(slots, tree, fuel),
    ensures
        siblings_sorted(tree.0),
{
    let roots = kid_indices(slots, None);
    lemma_kids_upto_facts(slots, None, slots.len() as int);
    assert forall|j: int| 0 <= j < tree.0.1@.len() implies siblings_sorted(
        #[trigger] tree.0.1@[j],
    ) by {
        lemma_node_siblings_sorted(slots, tree.0.1@[j], roots[j], fuel);
    }
    assert forall|a: int, b: int| 0 <= a < b < tree.0.1@.len() implies index_of(
        #[trigger] tree.0.1@[a],
    ) < index_of(#[trigger] tree.0.1@[b]) by {
        assert(node_matches(slots, tree.0.1@[a], roots[a], fuel));
        assert(node_matches(slots, tree.0.1@[b], roots[b], fuel));
        assert(roots[a] < roots[b]);
    }
}

} // verus!

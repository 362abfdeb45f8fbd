use bevytor::store::{Entity, EntityStore};
use bevytor::tree::{
    build_tree, get_label, u32_dec_string, Context, FrameInput, HoverEntity, Node, NodeAction,
    NodeInput, Tree, TreeAction,
};

fn quiet() -> NodeInput {
    NodeInput {
        remove_clicked: false,
        clone_clicked: false,
        select_clicked: false,
        drag_started: false,
        hovered: false,
        expanded: true,
    }
}

fn frame(node_inputs: Vec<(Entity, NodeInput)>, released: bool, dragging: bool) -> FrameInput {
    FrameInput {
        node_inputs,
        root: quiet(),
        anything_dragged: dragging,
        pointer_released: released,
    }
}

#[test]
fn dec_string_renders_decimal() {
    assert_eq!(u32_dec_string(0), "0");
    assert_eq!(u32_dec_string(42), "42");
    assert_eq!(u32_dec_string(4294967295), "4294967295");
}

#[test]
fn label_renders_index_and_name() {
    let e = Entity { index: 42, generation: 0 };
    let name = String::from("Cube");
    assert_eq!(get_label(e, Some(&name)), "#42 - Cube");
    let f = Entity { index: 7, generation: 3 };
    assert_eq!(get_label(f, None), "#7 - /");
}

#[test]
fn build_tree_orders_siblings_by_index() {
    let mut store = EntityStore::new();
    let a = store.spawn(Some(String::from("a")));
    let b = store.spawn(Some(String::from("b")));
    let c = store.spawn(Some(String::from("c")));
    let child = store.spawn(Some(String::from("kid")));
    store.set_parent(child, b);
    let tree = build_tree(&store);
    let roots = &tree.0 .1;
    assert_eq!(roots.len(), 3);
    assert_eq!(roots[0].0.as_ref().unwrap().0, a);
    assert_eq!(roots[1].0.as_ref().unwrap().0, b);
    assert_eq!(roots[2].0.as_ref().unwrap().0, c);
    assert_eq!(roots[0].0.as_ref().unwrap().1, "#0 - a");
    let kids = &roots[1].1;
    assert_eq!(kids.len(), 1);
    assert_eq!(kids[0].0.as_ref().unwrap().0, child);
    assert_eq!(kids[0].0.as_ref().unwrap().1, "#3 - kid");
}

fn three_leaf_tree(a: Entity, b: Entity, c: Entity) -> Tree {
    Tree::new(Node(
        None,
        vec![
            Node(Some((a, String::from("#0 - a"))), vec![]),
            Node(Some((b, String::from("#1 - b"))), vec![]),
            Node(Some((c, String::from("#2 - c"))), vec![]),
        ],
    ))
}

#[test]
fn select_preempts_drag_and_drop() {
    // node A is dragged and the pointer released over node B, while B's
    // select button was clicked in the same frame: only the select wins.
    let a = Entity { index: 0, generation: 0 };
    let b = Entity { index: 1, generation: 0 };
    let c = Entity { index: 2, generation: 0 };
    let tree = three_leaf_tree(a, b, c);
    let mut a_in = quiet();
    a_in.drag_started = true;
    let mut b_in = quiet();
    b_in.hovered = true;
    b_in.select_clicked = true;
    let input = frame(vec![(a, a_in), (b, b_in)], true, true);
    let action = tree.ui(&input);
    assert_eq!(action, TreeAction::Node(NodeAction::Select(b)));
}

#[test]
fn drag_release_emits_one_move() {
    let a = Entity { index: 0, generation: 0 };
    let b = Entity { index: 1, generation: 0 };
    let c = Entity { index: 2, generation: 0 };
    let tree = three_leaf_tree(a, b, c);
    let mut a_in = quiet();
    a_in.drag_started = true;
    let mut b_in = quiet();
    b_in.hovered = true;
    let input = frame(vec![(a, a_in), (b, b_in)], true, true);
    assert_eq!(tree.ui(&input), TreeAction::Move(a, HoverEntity::Node(b)));
}

#[test]
fn no_move_without_release() {
    let a = Entity { index: 0, generation: 0 };
    let b = Entity { index: 1, generation: 0 };
    let c = Entity { index: 2, generation: 0 };
    let tree = three_leaf_tree(a, b, c);
    let mut a_in = quiet();
    a_in.drag_started = true;
    let mut b_in = quiet();
    b_in.hovered = true;
    let input = frame(vec![(a, a_in), (b, b_in)], false, true);
    assert_eq!(tree.ui(&input), TreeAction::NoAction);
}

#[test]
fn drop_on_self_is_no_action() {
    let a = Entity { index: 0, generation: 0 };
    let b = Entity { index: 1, generation: 0 };
    let c = Entity { index: 2, generation: 0 };
    let tree = three_leaf_tree(a, b, c);
    let mut a_in = quiet();
    a_in.drag_started = true;
    a_in.hovered = true;
    let input = frame(vec![(a, a_in)], true, true);
    assert_eq!(tree.ui(&input), TreeAction::NoAction);
}

#[test]
fn drop_on_root_detaches() {
    let a = Entity { index: 0, generation: 0 };
    let b = Entity { index: 1, generation: 0 };
    let c = Entity { index: 2, generation: 0 };
    let tree = three_leaf_tree(a, b, c);
    let mut a_in = quiet();
    a_in.drag_started = true;
    let mut input = frame(vec![(a, a_in)], true, true);
    input.root.hovered = true;
    assert_eq!(tree.ui(&input), TreeAction::Move(a, HoverEntity::Root));
}

#[test]
fn remove_button_wins_over_later_buttons() {
    let a = Entity { index: 0, generation: 0 };
    let b = Entity { index: 1, generation: 0 };
    let c = Entity { index: 2, generation: 0 };
    let tree = three_leaf_tree(a, b, c);
    let mut a_in = quiet();
    a_in.remove_clicked = true;
    a_in.clone_clicked = true;
    a_in.select_clicked = true;
    let input = frame(vec![(a, a_in)], false, false);
    assert_eq!(tree.ui(&input), TreeAction::Node(NodeAction::Remove(a)));
}

#[test]
fn first_child_action_wins() {
    let a = Entity { index: 0, generation: 0 };
    let b = Entity { index: 1, generation: 0 };
    let c = Entity { index: 2, generation: 0 };
    let tree = three_leaf_tree(a, b, c);
    let mut a_in = quiet();
    a_in.clone_clicked = true;
    let mut c_in = quiet();
    c_in.select_clicked = true;
    let input = frame(vec![(a, a_in), (c, c_in)], false, false);
    assert_eq!(tree.ui(&input), TreeAction::Node(NodeAction::Clone(a)));
}

#[test]
fn collapsed_branch_hides_child_buttons() {
    let parent = Entity { index: 0, generation: 0 };
    let child = Entity { index: 1, generation: 0 };
    let tree = Tree::new(Node(
        None,
        vec![Node(
            Some((parent, String::from("#0 - p"))),
            vec![Node(Some((child, String::from("#1 - c"))), vec![])],
        )],
    ));
    let mut p_in = quiet();
    p_in.expanded = false;
    let mut c_in = quiet();
    c_in.select_clicked = true;
    let input = frame(vec![(parent, p_in), (child, c_in)], false, false);
    assert_eq!(tree.ui(&input), TreeAction::NoAction);
}

#[test]
fn context_and_hover_entity_accessors() {
    let e = Entity { index: 4, generation: 1 };
    assert_eq!(HoverEntity::Root.entity(), None);
    assert_eq!(HoverEntity::Node(e).entity(), Some(e));
    let ctx = Context { drag_entity: None, hover_entity: None };
    assert_eq!(ctx.drag_entity, None);
}

#[test]
fn node_new_sorts_children_by_index() {
    let a = Entity { index: 0, generation: 0 };
    let b = Entity { index: 1, generation: 0 };
    let c = Entity { index: 2, generation: 0 };
    let node = Node::new(
        None,
        vec![
            Node(Some((c, String::from("c"))), vec![]),
            Node(Some((a, String::from("a"))), vec![]),
            Node(Some((b, String::from("b"))), vec![]),
        ],
    );
    let order: Vec<u32> = node.1.iter().map(|n| n.0.as_ref().unwrap().0.index).collect();
    assert_eq!(order, vec![0, 1, 2]);
}

use frameloop::diff::{build_dom_tree, compute_diff, DomOp, DomTree, load_dom_tree};
use frameloop::registry::CallbackRegistry;
use frameloop::sched::RenderScheduler;
use frameloop::text::u32_dec_string;
use frameloop::tree::{Attr, BindingHandle, EventBinding, FrameArena, VNode};

fn text(content: &str) -> DomTree {
    DomTree::Text { content: content.to_string() }
}

fn element(tag: &str, attributes: Vec<Attr>, bindings: Vec<EventBinding>, children: Vec<DomTree>) -> DomTree {
    DomTree::Element { tag: tag.to_string(), attributes, bindings, children }
}

fn attr(name: &str, value: &str) -> Attr {
    Attr { name: name.to_string(), value: value.to_string() }
}

fn click_binding(index: usize) -> EventBinding {
    EventBinding {
        event_name: "click".to_string(),
        capture: false,
        passive: false,
        handle: BindingHandle { index },
    }
}

fn diff_trees(prev: &DomTree, next: &DomTree, depth: u32) -> Vec<DomOp> {
    let mut a = FrameArena::new();
    let p = load_dom_tree(&mut a, prev);
    let mut b = FrameArena::new();
    let n = load_dom_tree(&mut b, next);
    compute_diff(&a, p, &b, n, depth)
}

#[test]
fn identical_trees_diff_to_zero_mutations() {
    let t = element(
        "DIV",
        vec![attr("class", "x")],
        vec![click_binding(0)],
        vec![text("hello"), element("P", vec![], vec![], vec![text("inner")])],
    );
    let u = element(
        "DIV",
        vec![attr("class", "x")],
        vec![click_binding(0)],
        vec![text("hello"), element("P", vec![], vec![], vec![text("inner")])],
    );
    let ops = diff_trees(&t, &u, 20);
    assert_eq!(ops.len(), 0);
}

#[test]
fn changed_text_updates_in_place() {
    let ops = diff_trees(&text("old"), &text("new"), 20);
    assert_eq!(ops.len(), 1);
    match &ops[0] {
        DomOp::SetText { path, content } => {
            assert_eq!(path, &vec![0usize]);
            assert_eq!(content, "new");
        }
        _ => panic!("expected a text update"),
    }
}

#[test]
fn changed_attribute_value_is_set_in_place() {
    let prev = element("DIV", vec![attr("class", "a")], vec![], vec![]);
    let next = element("DIV", vec![attr("class", "b")], vec![], vec![]);
    let ops = diff_trees(&prev, &next, 20);
    assert_eq!(ops.len(), 1);
    match &ops[0] {
        DomOp::SetAttribute { path, name, value } => {
            assert_eq!(path, &vec![0usize]);
            assert_eq!(name, "class");
            assert_eq!(value, "b");
        }
        _ => panic!("expected an attribute update"),
    }
}

#[test]
fn renamed_attribute_removes_the_old_name_first() {
    let prev = element("DIV", vec![attr("id", "a")], vec![], vec![]);
    let next = element("DIV", vec![attr("class", "a")], vec![], vec![]);
    let ops = diff_trees(&prev, &next, 20);
    assert_eq!(ops.len(), 2);
    assert!(matches!(&ops[0], DomOp::RemoveAttribute { name, .. } if name == "id"));
    assert!(matches!(&ops[1], DomOp::SetAttribute { name, value, .. } if name == "class" && value == "a"));
}

#[test]
fn dropped_attribute_is_removed() {
    let prev = element("DIV", vec![attr("id", "a")], vec![], vec![]);
    let next = element("DIV", vec![], vec![], vec![]);
    let ops = diff_trees(&prev, &next, 20);
    assert_eq!(ops.len(), 1);
    assert!(matches!(&ops[0], DomOp::RemoveAttribute { name, .. } if name == "id"));
}

#[test]
fn changed_binding_is_detached_then_attached() {
    let prev = element("DIV", vec![], vec![click_binding(0)], vec![]);
    let next = element("DIV", vec![], vec![click_binding(1)], vec![]);
    let ops = diff_trees(&prev, &next, 20);
    assert_eq!(ops.len(), 2);
    assert!(matches!(&ops[0], DomOp::DetachListener { binding, .. } if binding.handle.index == 0));
    assert!(matches!(&ops[1], DomOp::AttachListener { binding, .. } if binding.handle.index == 1));
}

#[test]
fn tag_mismatch_replaces_the_whole_node() {
    let prev = element("DIV", vec![], vec![], vec![text("x")]);
    let next = element("SPAN", vec![], vec![], vec![text("x")]);
    let ops = diff_trees(&prev, &next, 20);
    assert_eq!(ops.len(), 1);
    match &ops[0] {
        DomOp::Replace { path, next } => {
            assert_eq!(path, &vec![0usize]);
            assert!(matches!(next, DomTree::Element { tag, .. } if tag == "SPAN"));
        }
        _ => panic!("expected a replacement"),
    }
}

#[test]
fn extra_new_children_are_appended_in_order() {
    let prev = element("DIV", vec![], vec![], vec![text("a")]);
    let next = element("DIV", vec![], vec![], vec![text("a"), text("b"), text("c")]);
    let ops = diff_trees(&prev, &next, 20);
    assert_eq!(ops.len(), 2);
    assert!(matches!(&ops[0], DomOp::AppendChild { path, next: DomTree::Text { content } }
        if path == &vec![0usize] && content == "b"));
    assert!(matches!(&ops[1], DomOp::AppendChild { path, next: DomTree::Text { content } }
        if path == &vec![0usize] && content == "c"));
}

#[test]
fn extra_old_children_are_removed_last_first() {
    let prev = element("DIV", vec![], vec![], vec![text("a"), text("b"), text("c")]);
    let next = element("DIV", vec![], vec![], vec![text("a")]);
    let ops = diff_trees(&prev, &next, 20);
    assert_eq!(ops.len(), 2);
    assert!(matches!(&ops[0], DomOp::RemoveChild { path } if path == &vec![0usize, 2usize]));
    assert!(matches!(&ops[1], DomOp::RemoveChild { path } if path == &vec![0usize, 1usize]));
}

#[test]
fn children_match_by_position_not_by_content() {
    // The engine is keyless: shifting a child is seen as rewriting both
    // positions, not as a move.
    let prev = element("DIV", vec![], vec![], vec![text("a"), text("b")]);
    let next = element("DIV", vec![], vec![], vec![text("b"), text("a")]);
    let ops = diff_trees(&prev, &next, 20);
    assert_eq!(ops.len(), 2);
    assert!(matches!(&ops[0], DomOp::SetText { path, content } if path == &vec![0usize, 0usize] && content == "b"));
    assert!(matches!(&ops[1], DomOp::SetText { path, content } if path == &vec![0usize, 1usize] && content == "a"));
}

#[test]
fn exhausted_depth_budget_leaves_children_alone() {
    let prev = element("DIV", vec![attr("id", "x")], vec![], vec![text("old")]);
    let next = element("DIV", vec![attr("id", "y")], vec![], vec![text("new")]);
    // Depth zero: the matched element still updates its attribute, but the
    // engine does not descend into the children.
    let ops = diff_trees(&prev, &next, 0);
    assert_eq!(ops.len(), 1);
    assert!(matches!(&ops[0], DomOp::SetAttribute { value, .. } if value == "y"));
    // One more level of budget reaches the text child.
    let ops = diff_trees(&prev, &next, 1);
    assert_eq!(ops.len(), 2);
}

#[test]
fn loading_and_exporting_a_tree_round_trips() {
    let t = element(
        "DIV",
        vec![attr("a", "1")],
        vec![click_binding(3)],
        vec![text("x"), element("P", vec![], vec![], vec![])],
    );
    let mut a = FrameArena::new();
    let r = load_dom_tree(&mut a, &t);
    let back = build_dom_tree(&a, r);
    // The exported copy diffs against the loaded one with zero mutations.
    let mut b = FrameArena::new();
    let rb = load_dom_tree(&mut b, &back);
    let ops = compute_diff(&a, r, &b, rb, 20);
    assert_eq!(ops.len(), 0);
}

#[test]
fn arena_allocate_get_and_reset() {
    let mut a = FrameArena::new();
    assert_eq!(a.len(), 0);
    let r = a.allocate(VNode::Text { content: "t".to_string() });
    assert_eq!(a.len(), 1);
    assert!(matches!(a.get(r), VNode::Text { content } if content == "t"));
    a.reset();
    assert_eq!(a.len(), 0);
}

#[test]
fn arena_allocates_a_sequence_in_order() {
    let mut a = FrameArena::new();
    let rs = a.allocate_sequence(vec![
        VNode::Text { content: "x".to_string() },
        VNode::Text { content: "y".to_string() },
    ]);
    assert_eq!(rs.len(), 2);
    assert_eq!(a.len(), 2);
    assert_eq!(rs[0].index, 0);
    assert_eq!(rs[1].index, 1);
    assert!(matches!(a.get(rs[1]), VNode::Text { content } if content == "y"));
}

#[test]
fn registry_lookup_revoke_and_revoke_all() {
    let mut reg = CallbackRegistry::new();
    let h1 = reg.register(7, 40);
    let h2 = reg.register(8, 41);
    assert_eq!(reg.len(), 2);
    assert_eq!(reg.lookup(h1), Some((7, 40)));
    assert_eq!(reg.lookup(h2), Some((8, 41)));

    reg.revoke(h1);
    assert_eq!(reg.lookup(h1), None);
    assert_eq!(reg.lookup(h2), Some((8, 41)));

    // A handle foreign to the registry finds nothing, and revoking it
    // changes nothing.
    let foreign = BindingHandle { index: 10 };
    assert_eq!(reg.lookup(foreign), None);
    reg.revoke(foreign);
    assert_eq!(reg.len(), 2);

    reg.revoke_all();
    assert_eq!(reg.lookup(h2), None);
    assert_eq!(reg.len(), 2);
}

#[test]
fn scheduler_requests_once_until_the_tick() {
    let mut s = RenderScheduler::new();
    assert!(!s.scheduled);
    assert!(s.schedule());
    assert!(!s.schedule());
    assert!(!s.schedule());
    assert!(s.scheduled);
    s.tick();
    assert!(!s.scheduled);
    assert!(s.schedule());
}

#[test]
fn decimal_rendering_of_the_counter() {
    assert_eq!(u32_dec_string(0), "0");
    assert_eq!(u32_dec_string(7), "7");
    assert_eq!(u32_dec_string(10), "10");
    assert_eq!(u32_dec_string(409), "409");
    assert_eq!(u32_dec_string(u32::MAX), "4294967295");
}

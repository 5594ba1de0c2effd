//! The diff engine: compares the previous frame's virtual tree against the
//! next frame's and emits the minimal batch of document mutation commands.
//!
//! The policy is a structural, keyless, positional diff. Children are paired
//! by position only; a text node against a text node updates content only
//! when it changed; elements with the same tag update attributes, listeners
//! and recurse into children under a depth budget; any kind or tag mismatch
//! replaces the live node wholesale. Siblings are never matched by key: that
//! positional identity is a deliberate, compatibility-relevant limitation.
//!
//! The commands address live nodes by the path of child positions from the
//! reconciled container, and are meant to be applied in emission order. The
//! host applies them with its primitive operations (create element, create
//! text, set/remove attribute, append/replace/remove child, attach/detach
//! listener); `Replace` and `AppendChild` carry the whole subtree to create.

use vstd::prelude::*;

use crate::tree::{
    Attr, AttrModel, BindingModel, EventBinding, FrameArena, NodeRef, TreeModel, VNode,
    node_wf, view_at,
};

verus! {

/// An owned subtree, free of any arena: the shape in which new content is
/// handed to the host, and in which the host describes the initial content
/// of the container it mounts.
#[derive(Debug)]
pub enum DomTree {
    Text { content: String },
    Element { tag: String, attributes: Vec<Attr>, bindings: Vec<EventBinding>, children: Vec<DomTree> },
}

/// The mathematical value of an owned subtree.
pub open spec fn dom_tree_model(t: DomTree) -> TreeModel
    decreases t, 0int,
{
    match t {
        DomTree::Text { content } => TreeModel::Text { content: content@ },
        DomTree::Element { .. } => TreeModel::Element {
            tag: t->Element_tag@,
            attrs: t->Element_attributes@.map_values(|a: Attr| a@),
            bindings: t->Element_bindings@.map_values(|b: EventBinding| b@),
            children: dom_forest_model(t->Element_children@, 0),
        },
    }
}

/// The values of the subtrees of `ts` from position `j` on.
pub open spec fn dom_forest_model(ts: Seq<DomTree>, j: int) -> Seq<TreeModel>
    decreases ts, ts.len() - j,
{
    if 0 <= j < ts.len() {
        seq![dom_tree_model(ts[j])] + dom_forest_model(ts, j + 1)
    } else {
        Seq::<TreeModel>::empty()
    }
}

impl View for DomTree {
    type V = TreeModel;

    open spec fn view(&self) -> TreeModel {
        dom_tree_model(*self)
    }
}

/// One mutation command against the live document. `path` is the sequence of
/// child positions leading from the reconciled container to the target node;
/// for `AppendChild` it leads to the parent, and for `RemoveChild` it ends
/// with the position of the child to remove.
#[derive(Debug)]
pub enum DomOp {
    SetText { path: Vec<usize>, content: String },
    SetAttribute { path: Vec<usize>, name: String, value: String },
    RemoveAttribute { path: Vec<usize>, name: String },
    Replace { path: Vec<usize>, next: DomTree },
    AppendChild { path: Vec<usize>, next: DomTree },
    RemoveChild { path: Vec<usize> },
    AttachListener { path: Vec<usize>, binding: EventBinding },
    DetachListener { path: Vec<usize>, binding: EventBinding },
}

/// The mathematical value of a mutation command.
pub enum OpModel {
    SetText { path: Seq<int>, content: Seq<char> },
    SetAttribute { path: Seq<int>, name: Seq<char>, value: Seq<char> },
    RemoveAttribute { path: Seq<int>, name: Seq<char> },
    Replace { path: Seq<int>, next: TreeModel },
    AppendChild { path: Seq<int>, next: TreeModel },
    RemoveChild { path: Seq<int> },
    AttachListener { path: Seq<int>, binding: BindingModel },
    DetachListener { path: Seq<int>, binding: BindingModel },
}

pub open spec fn path_model(p: Seq<usize>) -> Seq<int> {
    p.map_values(|x: usize| x as int)
}

pub open spec fn dom_op_model(o: DomOp) -> OpModel {
    match o {
        DomOp::SetText { path, content } => OpModel::SetText {
            path: path_model(path@),
            content: content@,
        },
        DomOp::SetAttribute { path, name, value } => OpModel::SetAttribute {
            path: path_model(path@),
            name: name@,
            value: value@,
        },
        DomOp::RemoveAttribute { path, name } => OpModel::RemoveAttribute {
            path: path_model(path@),
            name: name@,
        },
        DomOp::Replace { path, next } => OpModel::Replace {
            path: path_model(path@),
            next: next@,
        },
        DomOp::AppendChild { path, next } => OpModel::AppendChild {
            path: path_model(path@),
            next: next@,
        },
        DomOp::RemoveChild { path } => OpModel::RemoveChild { path: path_model(path@) },
        DomOp::AttachListener { path, binding } => OpModel::AttachListener {
            path: path_model(path@),
            binding: binding@,
        },
        DomOp::DetachListener { path, binding } => OpModel::DetachListener {
            path: path_model(path@),
            binding: binding@,
        },
    }
}

impl View for DomOp {
    type V = OpModel;

    open spec fn view(&self) -> OpModel {
        dom_op_model(*self)
    }
}

/// The value of a whole command batch.
pub open spec fn ops_model(v: Seq<DomOp>) -> Seq<OpModel> {
    v.map_values(|o: DomOp| dom_op_model(o))
}

/// Attribute reconciliation for one matched element, from position `i` on:
/// positions present on both sides update the value when anything differs
/// (removing the old name first when even the name changed), extra old
/// positions are removed, extra new positions are set.
pub open spec fn attr_update_ops(
    path: Seq<int>,
    prev: Seq<AttrModel>,
    next: Seq<AttrModel>,
    i: int,
) -> Seq<OpModel>
    decreases prev.len() + next.len() - i,
{
    if i < prev.len() && i < next.len() {
        (if prev[i] == next[i] {
            Seq::<OpModel>::empty()
        } else if prev[i].name == next[i].name {
            seq![OpModel::SetAttribute { path, name: next[i].name, value: next[i].value }]
        } else {
            seq![
                OpModel::RemoveAttribute { path, name: prev[i].name },
                OpModel::SetAttribute { path, name: next[i].name, value: next[i].value },
            ]
        }) + attr_update_ops(path, prev, next, i + 1)
    } else if i < prev.len() {
        seq![OpModel::RemoveAttribute { path, name: prev[i].name }] + attr_update_ops(
            path,
            prev,
            next,
            i + 1,
        )
    } else if i < next.len() {
        seq![OpModel::SetAttribute { path, name: next[i].name, value: next[i].value }]
            + attr_update_ops(path, prev, next, i + 1)
    } else {
        Seq::<OpModel>::empty()
    }
}

/// Listener reconciliation for one matched element, from position `i` on:
/// a changed position detaches the old listener and attaches the new one,
/// extra old positions are detached, extra new positions are attached.
pub open spec fn binding_update_ops(
    path: Seq<int>,
    prev: Seq<BindingModel>,
    next: Seq<BindingModel>,
    i: int,
) -> Seq<OpModel>
    decreases prev.len() + next.len() - i,
{
    if i < prev.len() && i < next.len() {
        (if prev[i] == next[i] {
            Seq::<OpModel>::empty()
        } else {
            seq![
                OpModel::DetachListener { path, binding: prev[i] },
                OpModel::AttachListener { path, binding: next[i] },
            ]
        }) + binding_update_ops(path, prev, next, i + 1)
    } else if i < prev.len() {
        seq![OpModel::DetachListener { path, binding: prev[i] }] + binding_update_ops(
            path,
            prev,
            next,
            i + 1,
        )
    } else if i < next.len() {
        seq![OpModel::AttachListener { path, binding: next[i] }] + binding_update_ops(
            path,
            prev,
            next,
            i + 1,
        )
    } else {
        Seq::<OpModel>::empty()
    }
}

/// The commands the diff emits for the node at `path`: the whole positional
/// policy of the engine, stated once; the executable diff returns exactly
/// this sequence.
pub open spec fn node_diff_ops(prev: TreeModel, next: TreeModel, path: Seq<int>, d: nat) -> Seq<
    OpModel,
>
    decreases d, 0int, 0int,
{
    match prev {
        TreeModel::Text { content: pc } => match next {
            TreeModel::Text { content: nc } => if pc == nc {
                Seq::<OpModel>::empty()
            } else {
                seq![OpModel::SetText { path, content: nc }]
            },
            TreeModel::Element { .. } => seq![OpModel::Replace { path, next }],
        },
        TreeModel::Element { tag: pt, attrs: pa, bindings: pb, children: pc } => match next {
            TreeModel::Text { .. } => seq![OpModel::Replace { path, next }],
            TreeModel::Element { tag: nt, attrs: na, bindings: nb, children: nc } => if pt == nt {
                attr_update_ops(path, pa, na, 0) + binding_update_ops(path, pb, nb, 0) + (
                if d == 0 {
                    Seq::<OpModel>::empty()
                } else {
                    child_pair_ops(pc, nc, path, (d - 1) as nat, 0) + child_remove_ops(
                        path,
                        pc.len() as int,
                        nc.len() as int,
                    ) + child_append_ops(nc, path, pc.len() as int)
                })
            } else {
                seq![OpModel::Replace { path, next }]
            },
        },
    }
}

/// Pairwise reconciliation of the children both sides have, from position
/// `i` on.
pub open spec fn child_pair_ops(
    prev: Seq<TreeModel>,
    next: Seq<TreeModel>,
    path: Seq<int>,
    d: nat,
    i: int,
) -> Seq<OpModel>
    decreases d, prev.len() + next.len() - i, 1int,
{
    if i < prev.len() && i < next.len() {
        node_diff_ops(prev[i], next[i], path.push(i), d) + child_pair_ops(
            prev,
            next,
            path,
            d,
            i + 1,
        )
    } else {
        Seq::<OpModel>::empty()
    }
}

/// Removal of the old children past the new count, last first so that each
/// command's position is still live when it is applied.
pub open spec fn child_remove_ops(path: Seq<int>, hi: int, lo: int) -> Seq<OpModel>
    decreases hi - lo,
{
    if hi > lo {
        seq![OpModel::RemoveChild { path: path.push(hi - 1) }] + child_remove_ops(path, hi - 1, lo)
    } else {
        Seq::<OpModel>::empty()
    }
}

/// Creation of the new children past the old count, in order.
pub open spec fn child_append_ops(next: Seq<TreeModel>, path: Seq<int>, i: int) -> Seq<OpModel>
    decreases next.len() - i,
{
    if i < next.len() {
        seq![OpModel::AppendChild { path, next: next[i] }] + child_append_ops(next, path, i + 1)
    } else {
        Seq::<OpModel>::empty()
    }
}

/// The batch one render pass emits: the previous root against the next root,
/// each standing as child number zero of the reconciled container.
pub open spec fn root_diff_ops(prev: TreeModel, next: TreeModel, d: nat) -> Seq<OpModel> {
    node_diff_ops(prev, next, seq![0int], d)
}

proof fn lemma_attr_update_ops_identical(path: Seq<int>, a: Seq<AttrModel>, i: int)
    ensures
        attr_update_ops(path, a, a, i) == Seq::<OpModel>::empty(),
    decreases a.len() + a.len() - i,
{
    if i < a.len() {
        lemma_attr_update_ops_identical(path, a, i + 1);
        assert(attr_update_ops(path, a, a, i) =~= Seq::<OpModel>::empty());
    }
}

proof fn lemma_binding_update_ops_identical(path: Seq<int>, b: Seq<BindingModel>, i: int)
    ensures
        binding_update_ops(path, b, b, i) == Seq::<OpModel>::empty(),
    decreases b.len() + b.len() - i,
{
    if i < b.len() {
        lemma_binding_update_ops_identical(path, b, i + 1);
        assert(binding_update_ops(path, b, b, i) =~= Seq::<OpModel>::empty());
    }
}

proof fn lemma_child_pair_ops_identical(c: Seq<TreeModel>, path: Seq<int>, d: nat, i: int)
    ensures
        child_pair_ops(c, c, path, d, i) == Seq::<OpModel>::empty(),
    decreases d, c.len() + c.len() - i, 1int,
{
    if i < c.len() {
        lemma_diff_of_identical_is_empty(c[i], path.push(i), d);
        lemma_child_pair_ops_identical(c, path, d, i + 1);
        assert(child_pair_ops(c, c, path, d, i) =~= Seq::<OpModel>::empty());
    }
}

/// Diff minimality: a next tree identical to the previous tree makes the
/// engine emit no mutation command at all, at any path and any depth budget.
pub proof fn lemma_diff_of_identical_is_empty(t: TreeModel, path: Seq<int>, d: nat)
    ensures
        node_diff_ops(t, t, path, d) == Seq::<OpModel>::empty(),
    decreases d, 0int, 0int,
{
    match t {
        TreeModel::Text { content } => {}
        TreeModel::Element { tag, attrs, bindings, children } => {
            lemma_attr_update_ops_identical(path, attrs, 0);
            lemma_binding_update_ops_identical(path, bindings, 0);
            if d > 0 {
                lemma_child_pair_ops_identical(children, path, (d - 1) as nat, 0);
            }
            assert(node_diff_ops(t, t, path, d) =~= Seq::<OpModel>::empty());
        }
    }
}

/// Diff minimality at the root: one render against an unchanged tree issues
/// zero document mutations.
pub proof fn lemma_root_diff_of_identical_is_empty(t: TreeModel, d: nat)
    ensures
        root_diff_ops(t, t, d) == Seq::<OpModel>::empty(),
{
    lemma_diff_of_identical_is_empty(t, seq![0int], d);
}

proof fn lemma_ops_model_push(v: Seq<DomOp>, o: DomOp)
    ensures
        ops_model(v.push(o)) == ops_model(v).push(dom_op_model(o)),
{
    assert(ops_model(v.push(o)) =~= ops_model(v).push(dom_op_model(o)));
}

proof fn lemma_path_model_push(p: Seq<usize>, x: usize)
    ensures
        path_model(p.push(x)) == path_model(p).push(x as int),
{
    assert(path_model(p.push(x)) =~= path_model(p).push(x as int));
}

/// Positions `j` and beyond of a forest's value, related to the single
/// subtrees.
proof fn lemma_dom_forest_model_index(ts: Seq<DomTree>, j: int)
    requires
        0 <= j <= ts.len(),
    ensures
        dom_forest_model(ts, j).len() == ts.len() - j,
        forall|k: int|
            0 <= k < ts.len() - j ==> #[trigger] dom_forest_model(ts, j)[k] == dom_tree_model(
                ts[j + k],
            ),
    decreases ts.len() - j,
{
    if j < ts.len() {
        lemma_dom_forest_model_index(ts, j + 1);
    }
}

fn clone_path(p: &Vec<usize>) -> (r: Vec<usize>)
    ensures
        r@ == p@,
{
    let mut r: Vec<usize> = Vec::new();
    let mut i: usize = 0;
    while i < p.len()
        invariant
            i <= p.len(),
            r@ == p@.subrange(0, i as int),
        decreases p.len() - i,
    {
        r.push(p[i]);
        proof {
            assert(r@ =~= p@.subrange(0, i + 1));
        }
        i += 1;
    }
    proof {
        assert(r@ =~= p@);
    }
    r
}

fn push_path(p: &Vec<usize>, x: usize) -> (r: Vec<usize>)
    ensures
        path_model(r@) == path_model(p@).push(x as int),
{
    let mut r = clone_path(p);
    r.push(x);
    proof {
        lemma_path_model_push(p@, x);
    }
    r
}

fn clone_attr(a: &Attr) -> (r: Attr)
    ensures
        r == *a,
{
    Attr { name: a.name.clone(), value: a.value.clone() }
}

fn clone_attrs(v: &Vec<Attr>) -> (r: Vec<Attr>)
    ensures
        r@ == v@,
{
    let mut r: Vec<Attr> = Vec::new();
    let mut i: usize = 0;
    while i < v.len()
        invariant
            i <= v.len(),
            r@ == v@.subrange(0, i as int),
        decreases v.len() - i,
    {
        r.push(clone_attr(&v[i]));
        proof {
            assert(r@ =~= v@.subrange(0, i + 1));
        }
        i += 1;
    }
    proof {
        assert(r@ =~= v@);
    }
    r
}

fn clone_binding(b: &EventBinding) -> (r: EventBinding)
    ensures
        r == *b,
{
    EventBinding {
        event_name: b.event_name.clone(),
        capture: b.capture,
        passive: b.passive,
        handle: b.handle,
    }
}

fn clone_bindings(v: &Vec<EventBinding>) -> (r: Vec<EventBinding>)
    ensures
        r@ == v@,
{
    let mut r: Vec<EventBinding> = Vec::new();
    let mut i: usize = 0;
    while i < v.len()
        invariant
            i <= v.len(),
            r@ == v@.subrange(0, i as int),
        decreases v.len() - i,
    {
        r.push(clone_binding(&v[i]));
        proof {
            assert(r@ =~= v@.subrange(0, i + 1));
        }
        i += 1;
    }
    proof {
        assert(r@ =~= v@);
    }
    r
}

fn attr_eq(a: &Attr, b: &Attr) -> (r: bool)
    ensures
        r == (a@ == b@),
{
    let r = a.name == b.name && a.value == b.value;
    r
}

fn binding_eq(a: &EventBinding, b: &EventBinding) -> (r: bool)
    ensures
        r == (a@ == b@),
{
    let r = a.event_name == b.event_name && a.capture == b.capture && a.passive == b.passive
        && a.handle == b.handle;
    r
}

/// Copy the subtree a reference roots out of its arena, as an owned tree.
pub fn build_dom_tree(arena: &FrameArena, r: NodeRef) -> (t: DomTree)
    requires
        arena.wf(),
        r.index < arena@.len(),
    ensures
        t@ == view_at(arena@, r.index as int),
    decreases r.index,
{
    proof {
        assert(node_wf(arena@[r.index as int], r.index as int));
    }
    match arena.get(r) {
        VNode::Text { content } => DomTree::Text { content: content.clone() },
        VNode::Element { tag, attributes, children, bindings } => {
            let mut kids: Vec<DomTree> = Vec::new();
            let mut k: usize = 0;
            while k < children.len()
                invariant
                    arena.wf(),
                    r.index < arena@.len(),
                    arena@[r.index as int] == (VNode::Element {
                        tag: *tag,
                        attributes: *attributes,
                        children: *children,
                        bindings: *bindings,
                    }),
                    k <= children.len(),
                    kids@.len() == k,
                    forall|j: int|
                        0 <= j < k ==> dom_tree_model(#[trigger] kids@[j]) == view_at(
                            arena@,
                            children@[j].index as int,
                        ),
                decreases children.len() - k,
            {
                proof {
                    assert(node_wf(arena@[r.index as int], r.index as int));
                    assert(arena@[r.index as int]->Element_children@[k as int].index < r.index);
                    assert(children@[k as int].index < r.index);
                }
                let kid = build_dom_tree(arena, children[k]);
                kids.push(kid);
                k += 1;
            }
            let t = DomTree::Element {
                tag: tag.clone(),
                attributes: clone_attrs(attributes),
                bindings: clone_bindings(bindings),
                children: kids,
            };
            proof {
                lemma_dom_forest_model_index(kids@, 0);
                let target = view_at(arena@, r.index as int);
                assert(node_wf(arena@[r.index as int], r.index as int));
                assert(target->Element_children.len() == children@.len());
                assert forall|j: int|
                    0 <= j < children@.len() implies target->Element_children[j]
                    == dom_forest_model(kids@, 0)[j] by {
                    assert(arena@[r.index as int]->Element_children@[j].index < r.index);
                    assert(children@[j].index < r.index);
                    assert(target->Element_children[j] == view_at(
                        arena@,
                        children@[j].index as int,
                    ));
                    assert(dom_forest_model(kids@, 0)[j] == dom_tree_model(kids@[0 + j]));
                }
                assert(target->Element_children =~= dom_forest_model(kids@, 0));
                assert(t@ =~= target);
            }
            t
        }
    }
}

fn diff_attrs(path: &Vec<usize>, prev: &Vec<Attr>, next: &Vec<Attr>, out: &mut Vec<DomOp>)
    ensures
        ops_model(final(out)@) == ops_model(old(out)@) + attr_update_ops(
            path_model(path@),
            prev@.map_values(|a: Attr| a@),
            next@.map_values(|a: Attr| a@),
            0,
        ),
{
    let ghost pm = path_model(path@);
    let ghost pa = prev@.map_values(|a: Attr| a@);
    let ghost na = next@.map_values(|a: Attr| a@);
    let ghost base = out@;
    let mut i: usize = 0;
    while i < prev.len() || i < next.len()
        invariant
            pm == path_model(path@),
            pa == prev@.map_values(|a: Attr| a@),
            na == next@.map_values(|a: Attr| a@),
            ops_model(base) + attr_update_ops(pm, pa, na, 0) == ops_model(out@)
                + attr_update_ops(pm, pa, na, i as int),
        decreases prev.len() + next.len() - i,
    {
        let ghost before = out@;
        if i < prev.len() && i < next.len() {
            if attr_eq(&prev[i], &next[i]) {
            } else if prev[i].name == next[i].name {
                out.push(
                    DomOp::SetAttribute {
                        path: clone_path(path),
                        name: next[i].name.clone(),
                        value: next[i].value.clone(),
                    },
                );
            } else {
                out.push(DomOp::RemoveAttribute { path: clone_path(path), name: prev[i].name.clone() });
                out.push(
                    DomOp::SetAttribute {
                        path: clone_path(path),
                        name: next[i].name.clone(),
                        value: next[i].value.clone(),
                    },
                );
            }
        } else if i < prev.len() {
            out.push(DomOp::RemoveAttribute { path: clone_path(path), name: prev[i].name.clone() });
        } else {
            out.push(
                DomOp::SetAttribute {
                    path: clone_path(path),
                    name: next[i].name.clone(),
                    value: next[i].value.clone(),
                },
            );
        }
        proof {
            assert(ops_model(out@) =~= ops_model(before) + ops_model(
                out@.subrange(before.len() as int, out@.len() as int),
            ));
            assert(attr_update_ops(pm, pa, na, i as int) =~= ops_model(
                out@.subrange(before.len() as int, out@.len() as int),
            ) + attr_update_ops(pm, pa, na, i + 1));
            assert(ops_model(base) + attr_update_ops(pm, pa, na, 0) =~= ops_model(out@)
                + attr_update_ops(pm, pa, na, i + 1));
        }
        i += 1;
    }
    proof {
        assert(attr_update_ops(pm, pa, na, i as int) =~= Seq::<OpModel>::empty());
        assert(ops_model(final(out)@) =~= ops_model(base) + attr_update_ops(pm, pa, na, 0));
    }
}

fn diff_bindings(
    path: &Vec<usize>,
    prev: &Vec<EventBinding>,
    next: &Vec<EventBinding>,
    out: &mut Vec<DomOp>,
)
    ensures
        ops_model(final(out)@) == ops_model(old(out)@) + binding_update_ops(
            path_model(path@),
            prev@.map_values(|b: EventBinding| b@),
            next@.map_values(|b: EventBinding| b@),
            0,
        ),
{
    let ghost pm = path_model(path@);
    let ghost pb = prev@.map_values(|b: EventBinding| b@);
    let ghost nb = next@.map_values(|b: EventBinding| b@);
    let ghost base = out@;
    let mut i: usize = 0;
    while i < prev.len() || i < next.len()
        invariant
            pm == path_model(path@),
            pb == prev@.map_values(|b: EventBinding| b@),
            nb == next@.map_values(|b: EventBinding| b@),
            ops_model(base) + binding_update_ops(pm, pb, nb, 0) == ops_model(out@)
                + binding_update_ops(pm, pb, nb, i as int),
        decreases prev.len() + next.len() - i,
    {
        let ghost before = out@;
        if i < prev.len() && i < next.len() {
            if binding_eq(&prev[i], &next[i]) {
            } else {
                out.push(
                    DomOp::DetachListener { path: clone_path(path), binding: clone_binding(&prev[i]) },
                );
                out.push(
                    DomOp::AttachListener { path: clone_path(path), binding: clone_binding(&next[i]) },
                );
            }
        } else if i < prev.len() {
            out.push(
                DomOp::DetachListener { path: clone_path(path), binding: clone_binding(&prev[i]) },
            );
        } else {
            out.push(
                DomOp::AttachListener { path: clone_path(path), binding: clone_binding(&next[i]) },
            );
        }
        proof {
            assert(ops_model(out@) =~= ops_model(before) + ops_model(
                out@.subrange(before.len() as int, out@.len() as int),
            ));
            assert(binding_update_ops(pm, pb, nb, i as int) =~= ops_model(
                out@.subrange(before.len() as int, out@.len() as int),
            ) + binding_update_ops(pm, pb, nb, i + 1));
            assert(ops_model(base) + binding_update_ops(pm, pb, nb, 0) =~= ops_model(out@)
                + binding_update_ops(pm, pb, nb, i + 1));
        }
        i += 1;
    }
    proof {
        assert(binding_update_ops(pm, pb, nb, i as int) =~= Seq::<OpModel>::empty());
        assert(ops_model(final(out)@) =~= ops_model(base) + binding_update_ops(pm, pb, nb, 0));
    }
}

/// Reconcile the node `p` roots in `prev` against the node `n` roots in
/// `next`, appending to `out` exactly the commands `node_diff_ops` states.
#[verifier::rlimit(50)]
fn diff_nodes(
    prev: &FrameArena,
    p: NodeRef,
    next: &FrameArena,
    n: NodeRef,
    path: &Vec<usize>,
    d: u32,
    out: &mut Vec<DomOp>,
)
    requires
        prev.wf(),
        next.wf(),
        p.index < prev@.len(),
        n.index < next@.len(),
    ensures
        ops_model(final(out)@) == ops_model(old(out)@) + node_diff_ops(
            view_at(prev@, p.index as int),
            view_at(next@, n.index as int),
            path_model(path@),
            d as nat,
        ),
    decreases p.index,
{
    let ghost pm = path_model(path@);
    let ghost pv = view_at(prev@, p.index as int);
    let ghost nv = view_at(next@, n.index as int);
    let ghost base = out@;
    match (prev.get(p), next.get(n)) {
        (VNode::Text { content: pc }, VNode::Text { content: nc }) => {
            if *pc == *nc {
                proof {
                    assert(ops_model(out@) =~= ops_model(base) + node_diff_ops(
                        pv,
                        nv,
                        pm,
                        d as nat,
                    ));
                }
            } else {
                let op = DomOp::SetText { path: clone_path(path), content: nc.clone() };
                proof {
                    lemma_ops_model_push(out@, op);
                }
                out.push(op);
                proof {
                    assert(ops_model(out@) =~= ops_model(base) + node_diff_ops(
                        pv,
                        nv,
                        pm,
                        d as nat,
                    ));
                }
            }
        }
        (
            VNode::Element { tag: pt, attributes: pa, children: pch, bindings: pb },
            VNode::Element { tag: nt, attributes: na, children: nch, bindings: nb },
        ) => {
            proof {
                assert(prev@[p.index as int] == (VNode::Element {
                    tag: *pt,
                    attributes: *pa,
                    children: *pch,
                    bindings: *pb,
                }));
                assert(next@[n.index as int] == (VNode::Element {
                    tag: *nt,
                    attributes: *na,
                    children: *nch,
                    bindings: *nb,
                }));
                assert(node_wf(prev@[p.index as int], p.index as int));
                assert(node_wf(next@[n.index as int], n.index as int));
            }
            if *pt == *nt {
                let ghost aops = attr_update_ops(
                    pm,
                    pa@.map_values(|x: Attr| x@),
                    na@.map_values(|x: Attr| x@),
                    0,
                );
                let ghost bops = binding_update_ops(
                    pm,
                    pb@.map_values(|x: EventBinding| x@),
                    nb@.map_values(|x: EventBinding| x@),
                    0,
                );
                diff_attrs(path, pa, na, out);
                diff_bindings(path, pb, nb, out);
                let ghost after_ab = out@;
                let ghost pcs = pv->Element_children;
                let ghost ncs = nv->Element_children;
                proof {
                    assert(ops_model(after_ab) =~= ops_model(base) + aops + bops);
                    assert(pcs.len() == pch@.len());
                    assert(ncs.len() == nch@.len());
                    assert forall|j: int| 0 <= j < pch@.len() implies #[trigger] pcs[j] == view_at(
                        prev@,
                        pch@[j].index as int,
                    ) by {
                        assert(prev@[p.index as int]->Element_children@[j].index < p.index);
                    }
                    assert forall|j: int| 0 <= j < nch@.len() implies #[trigger] ncs[j] == view_at(
                        next@,
                        nch@[j].index as int,
                    ) by {
                        assert(next@[n.index as int]->Element_children@[j].index < n.index);
                    }
                }
                if d > 0 {
                    let dd = d - 1;
                    let mut i: usize = 0;
                    while i < pch.len() && i < nch.len()
                        invariant
                            prev.wf(),
                            next.wf(),
                            p.index < prev@.len(),
                            n.index < next@.len(),
                            prev@[p.index as int] == (VNode::Element {
                                tag: *pt,
                                attributes: *pa,
                                children: *pch,
                                bindings: *pb,
                            }),
                            next@[n.index as int] == (VNode::Element {
                                tag: *nt,
                                attributes: *na,
                                children: *nch,
                                bindings: *nb,
                            }),
                            pm == path_model(path@),
                            pcs.len() == pch@.len(),
                            ncs.len() == nch@.len(),
                            forall|j: int|
                                0 <= j < pch@.len() ==> #[trigger] pcs[j] == view_at(
                                    prev@,
                                    pch@[j].index as int,
                                ),
                            forall|j: int|
                                0 <= j < nch@.len() ==> #[trigger] ncs[j] == view_at(
                                    next@,
                                    nch@[j].index as int,
                                ),
                            ops_model(out@) + child_pair_ops(pcs, ncs, pm, dd as nat, i as int)
                                == ops_model(after_ab) + child_pair_ops(pcs, ncs, pm, dd as nat, 0),
                        decreases pch.len() - i,
                    {
                        proof {
                            assert(node_wf(prev@[p.index as int], p.index as int));
                            assert(node_wf(next@[n.index as int], n.index as int));
                            assert(prev@[p.index as int]->Element_children@[i as int].index
                                < p.index);
                            assert(next@[n.index as int]->Element_children@[i as int].index
                                < n.index);
                            assert(pch@[i as int].index < p.index);
                            assert(nch@[i as int].index < n.index);
                        }
                        let child_path = push_path(path, i);
                        let ghost before_child = out@;
                        diff_nodes(prev, pch[i], next, nch[i], &child_path, dd, out);
                        proof {
                            assert(child_pair_ops(pcs, ncs, pm, dd as nat, i as int)
                                == node_diff_ops(pcs[i as int], ncs[i as int], pm.push(i as int), dd as nat)
                                + child_pair_ops(pcs, ncs, pm, dd as nat, i + 1));
                            assert(ops_model(out@) + child_pair_ops(pcs, ncs, pm, dd as nat, i + 1)
                                =~= ops_model(after_ab) + child_pair_ops(
                                pcs,
                                ncs,
                                pm,
                                dd as nat,
                                0,
                            ));
                        }
                        i += 1;
                    }
                    let ghost after_pair = out@;
                    proof {
                        assert(child_pair_ops(pcs, ncs, pm, dd as nat, i as int)
                            == Seq::<OpModel>::empty());
                        assert(ops_model(after_pair) =~= ops_model(after_ab) + child_pair_ops(
                            pcs,
                            ncs,
                            pm,
                            dd as nat,
                            0,
                        ));
                    }
                    let mut j: usize = pch.len();
                    while j > nch.len()
                        invariant
                            nch@.len() <= j <= pch@.len() || j == pch@.len(),
                            pm == path_model(path@),
                            ops_model(out@) + child_remove_ops(pm, j as int, nch@.len() as int)
                                == ops_model(after_pair) + child_remove_ops(
                                pm,
                                pch@.len() as int,
                                nch@.len() as int,
                            ),
                        decreases j,
                    {
                        let op = DomOp::RemoveChild { path: push_path(path, j - 1) };
                        proof {
                            lemma_ops_model_push(out@, op);
                        }
                        out.push(op);
                        proof {
                            assert(child_remove_ops(pm, j as int, nch@.len() as int) == seq![
                                OpModel::RemoveChild { path: pm.push(j - 1) },
                            ] + child_remove_ops(pm, j - 1, nch@.len() as int));
                            assert(ops_model(out@) + child_remove_ops(pm, j - 1, nch@.len() as int)
                                =~= ops_model(after_pair) + child_remove_ops(
                                pm,
                                pch@.len() as int,
                                nch@.len() as int,
                            ));
                        }
                        j -= 1;
                    }
                    let ghost after_rem = out@;
                    proof {
                        assert(child_remove_ops(pm, j as int, nch@.len() as int)
                            == Seq::<OpModel>::empty());
                        assert(ops_model(after_rem) =~= ops_model(after_pair) + child_remove_ops(
                            pm,
                            pch@.len() as int,
                            nch@.len() as int,
                        ));
                    }
                    let mut a: usize = pch.len();
                    if a > nch.len() {
                        a = nch.len();
                        proof {
                            assert(child_append_ops(ncs, pm, pch@.len() as int)
                                == Seq::<OpModel>::empty());
                            assert(child_append_ops(ncs, pm, a as int) == Seq::<OpModel>::empty());
                        }
                    }
                    proof {
                        assert(child_append_ops(ncs, pm, a as int) == child_append_ops(
                            ncs,
                            pm,
                            pch@.len() as int,
                        ));
                    }
                    while a < nch.len()
                        invariant
                            next.wf(),
                            n.index < next@.len(),
                            next@[n.index as int] == (VNode::Element {
                                tag: *nt,
                                attributes: *na,
                                children: *nch,
                                bindings: *nb,
                            }),
                            pm == path_model(path@),
                            ncs.len() == nch@.len(),
                            forall|j2: int|
                                0 <= j2 < nch@.len() ==> #[trigger] ncs[j2] == view_at(
                                    next@,
                                    nch@[j2].index as int,
                                ),
                            ops_model(out@) + child_append_ops(ncs, pm, a as int) == ops_model(
                                after_rem,
                            ) + child_append_ops(ncs, pm, pch@.len() as int),
                        decreases nch.len() - a,
                    {
                        proof {
                            assert(node_wf(next@[n.index as int], n.index as int));
                            assert(next@[n.index as int]->Element_children@[a as int].index
                                < n.index);
                            assert(nch@[a as int].index < n.index);
                        }
                        let t = build_dom_tree(next, nch[a]);
                        let op = DomOp::AppendChild { path: clone_path(path), next: t };
                        proof {
                            lemma_ops_model_push(out@, op);
                        }
                        out.push(op);
                        proof {
                            assert(child_append_ops(ncs, pm, a as int) == seq![
                                OpModel::AppendChild { path: pm, next: ncs[a as int] },
                            ] + child_append_ops(ncs, pm, a + 1));
                            assert(ops_model(out@) + child_append_ops(ncs, pm, a + 1)
                                =~= ops_model(after_rem) + child_append_ops(
                                ncs,
                                pm,
                                pch@.len() as int,
                            ));
                        }
                        a += 1;
                    }
                    proof {
                        assert(child_append_ops(ncs, pm, a as int) == Seq::<OpModel>::empty());
                        let ptotal = child_pair_ops(pcs, ncs, pm, dd as nat, 0);
                        let rtotal = child_remove_ops(pm, pch@.len() as int, nch@.len() as int);
                        let atotal = child_append_ops(ncs, pm, pch@.len() as int);
                        assert(ops_model(out@) =~= ops_model(after_rem) + atotal);
                        assert(node_diff_ops(pv, nv, pm, d as nat) == aops + bops + (ptotal
                            + rtotal + atotal));
                        assert(ops_model(out@) =~= ops_model(base) + node_diff_ops(
                            pv,
                            nv,
                            pm,
                            d as nat,
                        ));
                    }
                } else {
                    proof {
                        assert(node_diff_ops(pv, nv, pm, d as nat) == aops + bops
                            + Seq::<OpModel>::empty());
                        assert(ops_model(out@) =~= ops_model(base) + node_diff_ops(
                            pv,
                            nv,
                            pm,
                            d as nat,
                        ));
                    }
                }
            } else {
                let t = build_dom_tree(next, n);
                let op = DomOp::Replace { path: clone_path(path), next: t };
                proof {
                    lemma_ops_model_push(out@, op);
                }
                out.push(op);
                proof {
                    assert(ops_model(out@) =~= ops_model(base) + node_diff_ops(
                        pv,
                        nv,
                        pm,
                        d as nat,
                    ));
                }
            }
        }
        _ => {
            let t = build_dom_tree(next, n);
            let op = DomOp::Replace { path: clone_path(path), next: t };
            proof {
                lemma_ops_model_push(out@, op);
            }
            out.push(op);
            proof {
                assert(ops_model(out@) =~= ops_model(base) + node_diff_ops(pv, nv, pm, d as nat));
            }
        }
    }
}

/// The number of nodes of an owned subtree: the measure by which loading
/// such a tree terminates.
pub open spec fn tree_size(t: DomTree) -> nat
    decreases t, 0int,
{
    match t {
        DomTree::Text { .. } => 1,
        DomTree::Element { .. } => 1 + forest_size(t->Element_children@, 0),
    }
}

/// The number of nodes of the subtrees of `ts` from position `j` on.
pub open spec fn forest_size(ts: Seq<DomTree>, j: int) -> nat
    decreases ts, ts.len() - j,
{
    if 0 <= j < ts.len() {
        tree_size(ts[j]) + forest_size(ts, j + 1)
    } else {
        0
    }
}

proof fn lemma_forest_size_bound(ts: Seq<DomTree>, j: int, k: int)
    requires
        0 <= j <= k < ts.len(),
    ensures
        tree_size(ts[k]) <= forest_size(ts, j),
    decreases k - j,
{
    if j < k {
        lemma_forest_size_bound(ts, j + 1, k);
    }
}

/// Place a copy of an owned subtree into an arena and return the reference
/// that roots it, so that a tree the host read out of the mounted container
/// can serve as the first frame's baseline.
pub fn load_dom_tree(arena: &mut FrameArena, t: &DomTree) -> (r: NodeRef)
    requires
        old(arena).wf(),
    ensures
        final(arena).wf(),
        r.index < final(arena)@.len(),
        view_at(final(arena)@, r.index as int) == dom_tree_model(*t),
        forall|k: int| 0 <= k < old(arena)@.len() ==> final(arena)@[k] == old(arena)@[k],
        final(arena)@.len() > old(arena)@.len(),
    decreases tree_size(*t),
{
    match t {
        DomTree::Text { content } => {
            let r = arena.allocate(VNode::Text { content: content.clone() });
            r
        }
        DomTree::Element { tag, attributes, bindings, children } => {
            let mut kid_refs: Vec<NodeRef> = Vec::new();
            let mut k: usize = 0;
            while k < children.len()
                invariant
                    arena.wf(),
                    k <= children.len(),
                    kid_refs@.len() == k,
                    *t is Element,
                    t->Element_children == *children,
                    forall|k2: int|
                        0 <= k2 < old(arena)@.len() ==> #[trigger] arena@[k2] == old(arena)@[k2],
                    arena@.len() >= old(arena)@.len(),
                    forall|j: int|
                        0 <= j < k ==> (#[trigger] kid_refs@[j]).index < arena@.len(),
                    forall|j: int|
                        0 <= j < k ==> view_at(arena@, (#[trigger] kid_refs@[j]).index as int)
                            == dom_tree_model(children@[j]),
                decreases children.len() - k,
            {
                let ghost pre = arena@;
                proof {
                    assert(*t is Element);
                    assert(t->Element_children == *children);
                    assert(tree_size(*t) == 1 + forest_size(children@, 0));
                    lemma_forest_size_bound(children@, 0, k as int);
                }
                let kid = load_dom_tree(arena, &children[k]);
                proof {
                    assert forall|j: int|
                        0 <= j < k implies view_at(
                        arena@,
                        (#[trigger] kid_refs@[j]).index as int,
                    ) == dom_tree_model(children@[j]) by {
                        crate::tree::lemma_view_at_prefix(pre, arena@, kid_refs@[j].index as int);
                    }
                }
                kid_refs.push(kid);
                k += 1;
            }
            let element = VNode::Element {
                tag: tag.clone(),
                attributes: clone_attrs(attributes),
                children: kid_refs,
                bindings: clone_bindings(bindings),
            };
            proof {
                assert(node_wf(element, arena@.len() as int));
            }
            let ghost pre2 = arena@;
            let r = arena.allocate(element);
            proof {
                let target = dom_tree_model(*t);
                let got = view_at(arena@, r.index as int);
                lemma_dom_forest_model_index(children@, 0);
                assert(got->Element_children.len() == element->Element_children@.len());
                assert forall|j: int|
                    0 <= j < element->Element_children@.len() implies got->Element_children[j]
                    == target->Element_children[j] by {
                    assert(element->Element_children@[j].index < r.index);
                    assert(got->Element_children[j] == view_at(
                        arena@,
                        element->Element_children@[j].index as int,
                    ));
                    crate::tree::lemma_view_at_prefix(
                        pre2,
                        arena@,
                        element->Element_children@[j].index as int,
                    );
                    assert(target->Element_children[j] == dom_tree_model(children@[j]));
                }
                assert(got->Element_children =~= target->Element_children);
                assert(got =~= target);
            }
            r
        }
    }
}

/// Reconcile the previous frame's root against the next frame's root, both
/// standing as child number zero of the mounted container, and return the
/// command batch the host must apply, in order.
pub fn compute_diff(prev: &FrameArena, p: NodeRef, next: &FrameArena, n: NodeRef, d: u32) -> (ops:
    Vec<DomOp>)
    requires
        prev.wf(),
        next.wf(),
        p.index < prev@.len(),
        n.index < next@.len(),
    ensures
        ops_model(ops@) == root_diff_ops(
            view_at(prev@, p.index as int),
            view_at(next@, n.index as int),
            d as nat,
        ),
{
    let mut out: Vec<DomOp> = Vec::new();
    let mut path: Vec<usize> = Vec::new();
    path.push(0);
    proof {
        assert(path_model(path@) =~= seq![0int]);
        assert(ops_model(out@) =~= Seq::<OpModel>::empty());
    }
    diff_nodes(prev, p, next, n, &path, d, &mut out);
    proof {
        assert(ops_model(out@) =~= root_diff_ops(
            view_at(prev@, p.index as int),
            view_at(next@, n.index as int),
            d as nat,
        ));
    }
    out
}

} // verus!


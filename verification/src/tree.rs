//! The virtual tree data model and the frame arena that owns one frame's
//! nodes.
//!
//! A node lives in exactly one `FrameArena` and refers to its children by
//! `NodeRef` indices into that arena. A child always has a strictly smaller
//! index than its parent (`node_wf`), so a well-formed arena holds a forest
//! with no cycles. `FrameArena::get` demands a reference that lies inside the
//! arena, so after `reset` no stale reference can be read: the verifier
//! rejects any caller that cannot show its reference is in bounds.

use vstd::prelude::*;

verus! {

/// A handle naming an entry of the callback registry.
///
/// Bindings refer to registry entries only through this index, never through
/// an address, so a stale handle can at worst name a revoked entry.
#[derive(Clone, Copy, PartialEq, Eq, Structural, Debug)]
pub struct BindingHandle {
    pub index: usize,
}

/// A reference to a node inside one frame arena.
#[derive(Clone, Copy, PartialEq, Eq, Structural, Debug)]
pub struct NodeRef {
    pub index: usize,
}

/// One attribute of an element: a name and a value.
#[derive(Clone, Debug)]
pub struct Attr {
    pub name: String,
    pub value: String,
}

/// The mathematical value of an `Attr`.
pub struct AttrModel {
    pub name: Seq<char>,
    pub value: Seq<char>,
}

impl View for Attr {
    type V = AttrModel;

    open spec fn view(&self) -> AttrModel {
        AttrModel { name: self.name@, value: self.value@ }
    }
}

/// An event binding of an element: an event name, the listener options, and
/// the handle of the registry entry that owns the handler.
#[derive(Clone, Debug)]
pub struct EventBinding {
    pub event_name: String,
    pub capture: bool,
    pub passive: bool,
    pub handle: BindingHandle,
}

/// The mathematical value of an `EventBinding`.
pub struct BindingModel {
    pub event_name: Seq<char>,
    pub capture: bool,
    pub passive: bool,
    pub handle: BindingHandle,
}

impl View for EventBinding {
    type V = BindingModel;

    open spec fn view(&self) -> BindingModel {
        BindingModel {
            event_name: self.event_name@,
            capture: self.capture,
            passive: self.passive,
            handle: self.handle,
        }
    }
}

/// One virtual tree node as stored in a frame arena. An element's children
/// are references into the same arena.
#[derive(Clone, Debug)]
pub enum VNode {
    Text { content: String },
    Element { tag: String, attributes: Vec<Attr>, children: Vec<NodeRef>, bindings: Vec<EventBinding> },
}

/// The mathematical value of a whole subtree, with children inlined.
#[verifier::ext_equal]
pub enum TreeModel {
    Text { content: Seq<char> },
    Element {
        tag: Seq<char>,
        attrs: Seq<AttrModel>,
        bindings: Seq<BindingModel>,
        children: Seq<TreeModel>,
    },
}

/// A node is well formed below `bound` when all its child references lie
/// strictly below `bound`.
pub open spec fn node_wf(n: VNode, bound: int) -> bool {
    match n {
        VNode::Text { content } => true,
        VNode::Element { tag, attributes, children, bindings } =>
            forall|j: int| 0 <= j < children@.len() ==> (#[trigger] children@[j]).index < bound,
    }
}

/// Every node's children lie strictly below the node itself: the arena is a
/// forest, and any reference below `nodes.len()` roots a finite tree.
pub open spec fn arena_wf(nodes: Seq<VNode>) -> bool {
    forall|i: int| 0 <= i < nodes.len() ==> node_wf(#[trigger] nodes[i], i)
}

/// The subtree rooted at index `i` of `nodes`, as a `TreeModel`. Out-of-range
/// references (which a well-formed arena never holds) read as empty text.
pub open spec fn view_at(nodes: Seq<VNode>, i: int) -> TreeModel
    decreases i,
{
    if 0 <= i < nodes.len() {
        match nodes[i] {
            VNode::Text { content } => TreeModel::Text { content: content@ },
            VNode::Element { tag, attributes, children, bindings } => TreeModel::Element {
                tag: tag@,
                attrs: attributes@.map_values(|a: Attr| a@),
                bindings: bindings@.map_values(|b: EventBinding| b@),
                children: Seq::new(
                    children@.len(),
                    |j: int| if 0 <= children@[j].index < i {
                        view_at(nodes, children@[j].index as int)
                    } else {
                        TreeModel::Text { content: Seq::empty() }
                    },
                ),
            },
        }
    } else {
        TreeModel::Text { content: Seq::empty() }
    }
}

/// The subtree a reference roots does not change when the arena merely grows:
/// `view_at` reads only indices at or below its argument.
pub proof fn lemma_view_at_prefix(n1: Seq<VNode>, n2: Seq<VNode>, i: int)
    requires
        0 <= i < n1.len(),
        n1.len() <= n2.len(),
        forall|k: int| 0 <= k < n1.len() ==> n1[k] == #[trigger] n2[k],
    ensures
        view_at(n2, i) == view_at(n1, i),
    decreases i,
{
    match n1[i] {
        VNode::Text { content } => {}
        VNode::Element { tag, attributes, children, bindings } => {
            let v1 = view_at(n1, i);
            let v2 = view_at(n2, i);
            assert(v1->Element_children.len() == children@.len());
            assert(v2->Element_children.len() == children@.len());
            assert forall|j: int|
                0 <= j < children@.len() implies v1->Element_children[j]
                == v2->Element_children[j] by {
                if 0 <= children@[j].index < i {
                    lemma_view_at_prefix(n1, n2, children@[j].index as int);
                }
            }
            assert(v1->Element_children =~= v2->Element_children);
            assert(v1 =~= v2);
        }
    }
}

/// Arena lifetime safety: an arena that has been reset holds nothing, so no
/// reference — in particular none handed out before the reset — meets the
/// precondition of `get` any more. Together with the renderers' invariant
/// that the tree kept across frames always lies in the arena still holding
/// its memory, no node of a reclaimed frame can ever be read.
pub proof fn lemma_reset_invalidates_all_references(nodes: Seq<VNode>)
    requires
        nodes.len() == 0,
    ensures
        forall|r: NodeRef| !(r.index < nodes.len()),
{
}

/// A region that owns every node of one frame. `allocate` appends, `reset`
/// reclaims the whole region at once, and `get` hands a node out only against
/// a reference that provably lies inside the region.
#[derive(Debug)]
pub struct FrameArena {
    nodes: Vec<VNode>,
}

impl View for FrameArena {
    type V = Seq<VNode>;

    closed spec fn view(&self) -> Seq<VNode> {
        self.nodes@
    }
}

impl FrameArena {
    pub open spec fn wf(self) -> bool {
        arena_wf(self@)
    }

    pub fn new() -> (r: FrameArena)
        ensures
            r@ == Seq::<VNode>::empty(),
            r.wf(),
    {
        FrameArena { nodes: Vec::new() }
    }

    pub fn len(&self) -> (r: usize)
        ensures
            r == self@.len(),
    {
        self.nodes.len()
    }

    /// Place one node into the arena and hand back a stable reference to it,
    /// valid until the next `reset`.
    pub fn allocate(&mut self, node: VNode) -> (r: NodeRef)
        requires
            node_wf(node, old(self)@.len() as int),
        ensures
            final(self)@ == old(self)@.push(node),
            r.index == old(self)@.len(),
            old(self).wf() ==> final(self).wf(),
    {
        let r = NodeRef { index: self.nodes.len() };
        self.nodes.push(node);
        proof {
            if arena_wf(old(self)@) {
                assert forall|i: int| 0 <= i < self@.len() implies node_wf(#[trigger] self@[i], i) by {
                    if i < old(self)@.len() {
                        assert(self@[i] == old(self)@[i]);
                    }
                }
            }
        }
        r
    }

    /// Place a batch of nodes into the arena in order and hand back their
    /// references. A node of the batch may refer to nodes placed before it,
    /// earlier batch members included.
    pub fn allocate_sequence(&mut self, nodes: Vec<VNode>) -> (rs: Vec<NodeRef>)
        requires
            forall|i: int|
                0 <= i < nodes@.len() ==> node_wf(#[trigger] nodes@[i], old(self)@.len() + i),
        ensures
            final(self)@ == old(self)@ + nodes@,
            rs@.len() == nodes@.len(),
            forall|i: int| 0 <= i < rs@.len() ==> (#[trigger] rs@[i]).index == old(self)@.len() + i,
            old(self).wf() ==> final(self).wf(),
    {
        let ghost base = self@;
        let ghost all = nodes@;
        let total = nodes.len();
        let mut nodes = nodes;
        let mut rs: Vec<NodeRef> = Vec::new();
        let mut i: usize = 0;
        while i < total
            invariant
                i <= total,
                total == all.len(),
                nodes@ == all.subrange(i as int, total as int),
                self@ == base + all.subrange(0, i as int),
                rs@.len() == i,
                forall|k: int| 0 <= k < i ==> (#[trigger] rs@[k]).index == base.len() + k,
                forall|k: int| 0 <= k < all.len() ==> node_wf(#[trigger] all[k], base.len() + k),
                arena_wf(base) ==> arena_wf(self@),
            decreases total - i,
        {
            let node = nodes.remove(0);
            proof {
                assert(node == all[i as int]);
                assert(self@.len() == base.len() + i);
                assert(node_wf(node, self@.len() as int));
            }
            let r = self.allocate(node);
            rs.push(r);
            proof {
                assert(self@ =~= base + all.subrange(0, i + 1));
                assert(nodes@ =~= all.subrange(i + 1, total as int));
            }
            i += 1;
        }
        proof {
            assert(self@ =~= base + all);
        }
        rs
    }

    /// Reclaim the whole region. Every `NodeRef` previously handed out is
    /// invalidated: `get` refuses all of them from here on.
    pub fn reset(&mut self)
        ensures
            final(self)@ == Seq::<VNode>::empty(),
            final(self).wf(),
    {
        self.nodes.clear();
    }

    /// Read a node. The reference must lie inside the arena, so a reference
    /// kept across a `reset` cannot be read.
    pub fn get(&self, r: NodeRef) -> (n: &VNode)
        requires
            r.index < self@.len(),
        ensures
            *n == self@[r.index as int],
    {
        &self.nodes[r.index]
    }
}

} // verus!

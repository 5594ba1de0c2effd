//! The demo view: the model rendered as one paragraph element holding a
//! greeting with the live counter, with a click binding on the paragraph.
//!
//! The render loop consumes this as its view function; it allocates
//! exclusively from the frame arena it is handed and retains nothing.

use vstd::prelude::*;
use vstd::string::StringExecFns;

use crate::model::Model;
use crate::model::ModelData;
use crate::text::dec_digits;
use crate::text::u32_dec_string;
use crate::tree::{
    Attr, BindingHandle, BindingModel, EventBinding, FrameArena, NodeRef, TreeModel, VNode,
    node_wf, view_at,
};

verus! {

/// The text the view shows for a given model.
pub open spec fn view_text_model(area: Seq<char>, counter: u32) -> Seq<char> {
    "Hello from "@ + area + " of your full-stack Rust app! Counter is "@ + dec_digits(
        counter as nat,
    )
}

/// The whole tree the view builds for a given model and click binding: a
/// paragraph with no attributes, one text child, and one click listener.
pub open spec fn view_model(m: ModelData, h: BindingHandle) -> TreeModel {
    TreeModel::Element {
        tag: "P"@,
        attrs: Seq::<crate::tree::AttrModel>::empty(),
        bindings: seq![
            BindingModel { event_name: "click"@, capture: false, passive: false, handle: h },
        ],
        children: seq![TreeModel::Text { content: view_text_model(m.area@, m.counter) }],
    }
}

/// Build the view's tree for `model` in `arena` and return its root. The
/// click listener is bound through `h`, the handle of the model's click
/// registration.
pub fn view(arena: &mut FrameArena, model: &Model, h: BindingHandle) -> (r: NodeRef)
    requires
        old(arena).wf(),
    ensures
        final(arena).wf(),
        r.index < final(arena)@.len(),
        view_at(final(arena)@, r.index as int) == view_model(model.data, h),
        forall|k: int| 0 <= k < old(arena)@.len() ==> final(arena)@[k] == old(arena)@[k],
        final(arena)@.len() > old(arena)@.len(),
{
    let mut content = "Hello from ".to_owned();
    content.append(model.data.area.as_str());
    content.append(" of your full-stack Rust app! Counter is ");
    let num = u32_dec_string(model.data.counter);
    content.append(num.as_str());
    proof {
        assert(content@ =~= view_text_model(model.data.area@, model.data.counter));
    }
    let text_ref = arena.allocate(VNode::Text { content });
    let mut children: Vec<NodeRef> = Vec::new();
    children.push(text_ref);
    let mut bindings: Vec<EventBinding> = Vec::new();
    bindings.push(
        EventBinding { event_name: "click".to_owned(), capture: false, passive: false, handle: h },
    );
    let element = VNode::Element {
        tag: "P".to_owned(),
        attributes: Vec::new(),
        children,
        bindings,
    };
    proof {
        assert(node_wf(element, arena@.len() as int));
    }
    let r = arena.allocate(element);
    proof {
        let target = view_model(model.data, h);
        let got = view_at(arena@, r.index as int);
        assert(got->Element_tag =~= "P"@);
        assert(got->Element_attrs =~= Seq::<crate::tree::AttrModel>::empty());
        assert(got->Element_bindings =~= target->Element_bindings);
        assert(got->Element_children.len() == 1);
        assert(view_at(arena@, text_ref.index as int) == (TreeModel::Text {
            content: view_text_model(model.data.area@, model.data.counter),
        }));
        assert(got->Element_children[0] == view_at(arena@, text_ref.index as int));
        assert(got->Element_children =~= target->Element_children);
        assert(got =~= target);
    }
    r
}

} // verus!

//! The renderer (double-buffered frame arenas plus the diff engine's
//! invocation) and the render loop that owns model, registry, scheduler and
//! renderer.
//!
//! One render pass reads the previous tree out of the active arena, builds
//! the next tree in the spare arena, diffs the two, and only after the diff
//! has returned does it overwrite the previous-tree reference, reclaim the
//! arena that held the old tree, and swap the two arenas' roles. That
//! ordering is the central invariant of the pass: the old tree stays intact
//! until nothing reads it any more, and the reference kept across frames
//! always points into the arena now playing the active role.

use vstd::prelude::*;

use crate::diff::{
    DomOp, DomTree, compute_diff, dom_tree_model, load_dom_tree, ops_model, root_diff_ops,
};
use crate::diff::lemma_root_diff_of_identical_is_empty;
use crate::model::{Model, ModelData};
use crate::registry::{CallbackRegistry, RegistryEntry, spec_live_in, spec_lookup_in, spec_register};
use crate::sched::{RenderScheduler, spec_schedule};
use crate::tree::{BindingHandle, FrameArena, NodeRef, TreeModel, view_at};
use crate::view::{view, view_model};

verus! {

/// The depth budget handed to the diff engine each pass.
pub const RENDER_DEPTH: u32 = 20;

/// The receiver identity under which the loop registers its model.
pub const MODEL_RECEIVER: u64 = 1;

/// The handler identity of the model's click handler.
pub const CLICK_HANDLER: u64 = 1;

/// The double buffer: two frame arenas exchanging the active and spare
/// roles, and the reference to the previous frame's tree, always rooted in
/// the arena currently active.
#[derive(Debug)]
pub struct Renderer {
    active: FrameArena,
    spare: FrameArena,
    previous: NodeRef,
}

impl Renderer {
    /// The previous tree lies inside the active arena — so no reference the
    /// renderer keeps can ever survive into a reset arena — and the spare
    /// arena rests empty between passes.
    pub closed spec fn wf(self) -> bool {
        &&& self.active.wf()
        &&& self.spare.wf()
        &&& self.previous.index < self.active@.len()
        &&& self.spare@.len() == 0
    }

    /// The previous frame's tree, as displayed by the host document.
    pub closed spec fn prev_model(self) -> TreeModel {
        view_at(self.active@, self.previous.index as int)
    }

    /// Mount on a container whose current content the host has read into
    /// `initial`: that tree becomes the first diff's baseline.
    pub fn attach(initial: &DomTree) -> (r: Renderer)
        ensures
            r.wf(),
            r.prev_model() == dom_tree_model(*initial),
    {
        let mut active = FrameArena::new();
        let previous = load_dom_tree(&mut active, initial);
        Renderer { active, spare: FrameArena::new(), previous }
    }

    /// One render pass: build the view's tree for `model` in the spare
    /// arena, diff it against the previous tree, and hand back the command
    /// batch. Only after the diff has returned is the old tree's arena
    /// reclaimed and are the two arenas' roles exchanged.
    pub fn render(&mut self, model: &Model, h: BindingHandle) -> (ops: Vec<DomOp>)
        requires
            old(self).wf(),
        ensures
            final(self).wf(),
            ops_model(ops@) == root_diff_ops(
                old(self).prev_model(),
                view_model(model.data, h),
                RENDER_DEPTH as nat,
            ),
            final(self).prev_model() == view_model(model.data, h),
    {
        let root = view(&mut self.spare, model, h);
        let ops = compute_diff(&self.active, self.previous, &self.spare, root, RENDER_DEPTH);
        self.previous = root;
        self.active.reset();
        core::mem::swap(&mut self.active, &mut self.spare);
        ops
    }

    /// Discard both arenas. Every reference into them is dead; the caller
    /// must have revoked the bindings of the frame being discarded first.
    pub fn clear(&mut self)
        ensures
            final(self).cleared(),
    {
        self.active.reset();
        self.spare.reset();
    }

    /// Both arenas empty: nothing the renderer ever handed out survives.
    pub closed spec fn cleared(self) -> bool {
        self.active@.len() == 0 && self.spare@.len() == 0
    }
}

/// What dispatching an event produced: whether a live binding handled it,
/// and whether the host must now register a frame callback.
#[derive(Clone, Copy, PartialEq, Eq, Structural, Debug)]
pub struct DispatchOutcome {
    pub handled: bool,
    pub request_frame: bool,
}

/// The top-level owner: model, double buffer, callback registry and
/// scheduling state. Created by `attach`, torn down by `detach`.
#[derive(Debug)]
pub struct RenderLoop {
    model: Model,
    renderer: Renderer,
    registry: CallbackRegistry,
    scheduler: RenderScheduler,
    click_handle: BindingHandle,
    attached: bool,
}

impl RenderLoop {
    pub closed spec fn wf(self) -> bool {
        self.attached ==> self.renderer.wf()
    }

    pub closed spec fn attached_spec(self) -> bool {
        self.attached
    }

    pub closed spec fn model_data(self) -> ModelData {
        self.model.data
    }

    pub closed spec fn prev_model(self) -> TreeModel {
        self.renderer.prev_model()
    }

    /// The tree the view would build for the present model state.
    pub open spec fn current_view_model(self) -> TreeModel {
        view_model(self.model_data(), self.click_handle_spec())
    }

    pub closed spec fn registry_table(self) -> Seq<RegistryEntry> {
        self.registry@
    }

    pub closed spec fn scheduled_spec(self) -> bool {
        self.scheduler.scheduled
    }

    pub closed spec fn click_handle_spec(self) -> BindingHandle {
        self.click_handle
    }

    pub closed spec fn renderer_spec(self) -> Renderer {
        self.renderer
    }

    pub closed spec fn scheduler_spec(self) -> RenderScheduler {
        self.scheduler
    }

    /// The handle of the model's click registration, for the host to route
    /// click events back through `dispatch`.
    pub fn click_handle(&self) -> (h: BindingHandle)
        ensures
            h == self.click_handle_spec(),
    {
        self.click_handle
    }

    pub fn counter(&self) -> (c: u32)
        ensures
            c == self.model_data().counter,
    {
        self.model.data.counter
    }

    pub fn is_scheduled(&self) -> (b: bool)
        ensures
            b == self.scheduled_spec(),
    {
        self.scheduler.scheduled
    }

    pub fn is_attached(&self) -> (b: bool)
        ensures
            b == self.attached_spec(),
    {
        self.attached
    }

    /// Mount: register the model's click handler — the one registry entry
    /// that lives as long as the loop stays attached — and seed the previous
    /// tree from the container's initial content.
    pub fn attach(model: ModelData, initial: &DomTree) -> (r: RenderLoop)
        ensures
            r.wf(),
            r.attached_spec(),
            r.model_data() == model,
            r.prev_model() == dom_tree_model(*initial),
            r.registry_table() == spec_register(
                Seq::<RegistryEntry>::empty(),
                MODEL_RECEIVER,
                CLICK_HANDLER,
            ),
            spec_live_in(r.registry_table(), r.click_handle_spec()),
            spec_lookup_in(r.registry_table(), r.click_handle_spec()) == Some(
                (MODEL_RECEIVER, CLICK_HANDLER),
            ),
            !r.scheduled_spec(),
    {
        let mut registry = CallbackRegistry::new();
        let click_handle = registry.register(MODEL_RECEIVER, CLICK_HANDLER);
        RenderLoop {
            model: Model::new(model),
            renderer: Renderer::attach(initial),
            registry,
            scheduler: RenderScheduler::new(),
            click_handle,
            attached: true,
        }
    }

    /// One synchronous render pass: clear the scheduled state, build the
    /// next tree, diff, swap, and return the command batch the host must
    /// apply to its document.
    pub fn render(&mut self) -> (ops: Vec<DomOp>)
        requires
            old(self).wf(),
            old(self).attached_spec(),
        ensures
            final(self).wf(),
            final(self).attached_spec(),
            final(self).model_data() == old(self).model_data(),
            final(self).click_handle_spec() == old(self).click_handle_spec(),
            final(self).registry_table() == old(self).registry_table(),
            !final(self).scheduled_spec(),
            ops_model(ops@) == root_diff_ops(
                old(self).prev_model(),
                old(self).current_view_model(),
                RENDER_DEPTH as nat,
            ),
            final(self).prev_model() == old(self).current_view_model(),
    {
        self.scheduler.tick();
        let ops = self.renderer.render(&self.model, self.click_handle);
        ops
    }

    /// Note that the model changed and a render is wanted. Returns whether
    /// the host must register a frame callback now: true at most once
    /// between two ticks, however often this is called.
    pub fn schedule_render(&mut self) -> (request: bool)
        ensures
            (final(self).scheduler_spec(), request) == spec_schedule(old(self).scheduler_spec()),
            final(self).scheduled_spec(),
            request == !old(self).scheduled_spec(),
            final(self).model_data() == old(self).model_data(),
            final(self).registry_table() == old(self).registry_table(),
            final(self).renderer_spec() == old(self).renderer_spec(),
            final(self).click_handle_spec() == old(self).click_handle_spec(),
            final(self).attached_spec() == old(self).attached_spec(),
            final(self).wf() == old(self).wf(),
    {
        self.scheduler.schedule()
    }

    /// Deliver an event for the binding `h` names. While the binding is
    /// live, the bound handler runs against the model and a render is
    /// scheduled; once it has been revoked — or if the handle is foreign —
    /// nothing at all happens: the stale dispatch is a clean no-op.
    pub fn dispatch(&mut self, h: BindingHandle) -> (r: DispatchOutcome)
        ensures
            final(self).wf() == old(self).wf(),
            spec_lookup_in(old(self).registry_table(), h) is None ==> *final(self) == *old(self)
                && r == (DispatchOutcome { handled: false, request_frame: false }),
            spec_lookup_in(old(self).registry_table(), h) matches Some((_, handler))
                && handler == CLICK_HANDLER ==> {
                &&& final(self).model_data().counter as int == (old(self).model_data().counter + 1)
                    % 0x1_0000_0000
                &&& final(self).model_data().area == old(self).model_data().area
                &&& (final(self).scheduler_spec(), r.request_frame) == spec_schedule(
                    old(self).scheduler_spec(),
                )
                &&& r.handled
            },
            spec_lookup_in(old(self).registry_table(), h) matches Some((_, handler)) && handler
                != CLICK_HANDLER ==> *final(self) == *old(self) && r == (DispatchOutcome {
                handled: false,
                request_frame: false,
            }),
            final(self).registry_table() == old(self).registry_table(),
            final(self).renderer_spec() == old(self).renderer_spec(),
            final(self).prev_model() == old(self).prev_model(),
            final(self).click_handle_spec() == old(self).click_handle_spec(),
            final(self).attached_spec() == old(self).attached_spec(),
    {
        match self.registry.lookup(h) {
            None => DispatchOutcome { handled: false, request_frame: false },
            Some((_receiver, handler)) => {
                if handler == CLICK_HANDLER {
                    self.model.on_click();
                    let request = self.scheduler.schedule();
                    DispatchOutcome { handled: true, request_frame: request }
                } else {
                    DispatchOutcome { handled: false, request_frame: false }
                }
            }
        }
    }

    /// Unmount: revoke every registry entry, then discard both arenas, in
    /// that order, so that no binding can reach memory being reclaimed. Must
    /// run before the host removes the container; any dispatch arriving
    /// afterwards finds only revoked entries and is a no-op.
    pub fn detach(&mut self)
        ensures
            final(self).wf(),
            !final(self).attached_spec(),
            final(self).renderer_spec().cleared(),
            final(self).model_data() == old(self).model_data(),
            !final(self).scheduled_spec(),
            final(self).registry_table().len() == old(self).registry_table().len(),
            forall|h: BindingHandle| !spec_live_in(final(self).registry_table(), h),
            forall|h: BindingHandle| spec_lookup_in(final(self).registry_table(), h) is None,
    {
        self.registry.revoke_all();
        self.renderer.clear();
        self.scheduler.tick();
        self.attached = false;
    }
}

/// Render idempotence: immediately after a render pass the previous tree
/// equals the tree the view builds for the present model, so a second pass
/// with no model change in between diffs a tree against itself and issues
/// zero document mutations.
pub proof fn lemma_second_render_emits_nothing(lp: RenderLoop, d: nat)
    requires
        lp.prev_model() == lp.current_view_model(),
    ensures
        root_diff_ops(lp.prev_model(), lp.current_view_model(), d) == Seq::<
            crate::diff::OpModel,
        >::empty(),
{
    lemma_root_diff_of_identical_is_empty(lp.current_view_model(), d);
}

} // verus!

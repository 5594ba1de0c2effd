use frameloop::diff::{DomOp, DomTree};
use frameloop::model::ModelData;
use frameloop::render_loop::RenderLoop;
use frameloop::tree::BindingHandle;

fn empty_container() -> DomTree {
    DomTree::Text { content: String::new() }
}

fn greeting(area: &str, counter: u32) -> String {
    format!(
        "Hello from {} of your full-stack Rust app! Counter is {}",
        area, counter
    )
}

#[test]
fn attach_then_first_render_replaces_the_container_content() {
    let model = ModelData::new("the frontend");
    let initial = empty_container();
    let mut lp = RenderLoop::attach(model, &initial);
    assert!(lp.is_attached());
    assert_eq!(lp.counter(), 0);

    let ops = lp.render();
    // A text baseline against an element view: one wholesale replacement.
    assert_eq!(ops.len(), 1);
    match &ops[0] {
        DomOp::Replace { path, next } => {
            assert_eq!(path, &vec![0usize]);
            match next {
                DomTree::Element { tag, attributes, bindings, children } => {
                    assert_eq!(tag, "P");
                    assert!(attributes.is_empty());
                    assert_eq!(bindings.len(), 1);
                    assert_eq!(bindings[0].event_name, "click");
                    assert_eq!(children.len(), 1);
                    match &children[0] {
                        DomTree::Text { content } => {
                            assert_eq!(content, &greeting("the frontend", 0));
                        }
                        _ => panic!("child should be the greeting text"),
                    }
                }
                _ => panic!("replacement should be the paragraph element"),
            }
        }
        _ => panic!("first render should replace the placeholder"),
    }
}

#[test]
fn click_dispatch_updates_only_the_text_node() {
    let model = ModelData::new("the frontend");
    let initial = empty_container();
    let mut lp = RenderLoop::attach(model, &initial);
    lp.render();

    let h = lp.click_handle();
    let outcome = lp.dispatch(h);
    assert!(outcome.handled);
    assert!(outcome.request_frame);
    assert_eq!(lp.counter(), 1);
    assert!(lp.is_scheduled());

    let ops = lp.render();
    assert!(!lp.is_scheduled());
    // Only the text content changes: the element, its attributes and its
    // click binding all stay in place.
    assert_eq!(ops.len(), 1);
    match &ops[0] {
        DomOp::SetText { path, content } => {
            assert_eq!(path, &vec![0usize, 0usize]);
            assert_eq!(content, &greeting("the frontend", 1));
        }
        _ => panic!("the one mutation should be the text update"),
    }
}

#[test]
fn render_without_model_change_emits_nothing() {
    let model = ModelData::new("the frontend");
    let initial = empty_container();
    let mut lp = RenderLoop::attach(model, &initial);
    lp.render();
    let ops = lp.render();
    assert_eq!(ops.len(), 0);
}

#[test]
fn two_schedule_calls_coalesce_into_one_frame_request() {
    let model = ModelData::new("the frontend");
    let initial = empty_container();
    let mut lp = RenderLoop::attach(model, &initial);
    lp.render();

    let first = lp.schedule_render();
    let second = lp.schedule_render();
    assert!(first);
    assert!(!second);
    assert!(lp.is_scheduled());

    // Two rapid clicks before the tick: only the first dispatch may ask for
    // a frame, and the one render reflects the final counter value.
    let h = lp.click_handle();
    lp.render();
    let o1 = lp.dispatch(h);
    let o2 = lp.dispatch(h);
    assert!(o1.request_frame);
    assert!(!o2.request_frame);
    assert_eq!(lp.counter(), 2);
    let ops = lp.render();
    assert_eq!(ops.len(), 1);
    match &ops[0] {
        DomOp::SetText { content, .. } => {
            assert_eq!(content, &greeting("the frontend", 2));
        }
        _ => panic!("one text update for two coalesced clicks"),
    }
}

#[test]
fn dispatch_after_detach_is_a_no_op() {
    let model = ModelData::new("the frontend");
    let initial = empty_container();
    let mut lp = RenderLoop::attach(model, &initial);
    lp.render();
    let h = lp.click_handle();
    lp.dispatch(h);
    assert_eq!(lp.counter(), 1);

    lp.detach();
    assert!(!lp.is_attached());

    // A late-arriving event for a binding created before the detach.
    let outcome = lp.dispatch(h);
    assert!(!outcome.handled);
    assert!(!outcome.request_frame);
    assert_eq!(lp.counter(), 1);
    assert!(!lp.is_scheduled());
}

#[test]
fn dispatch_through_a_foreign_handle_is_a_no_op() {
    let model = ModelData::new("the frontend");
    let initial = empty_container();
    let mut lp = RenderLoop::attach(model, &initial);
    lp.render();

    let stale = BindingHandle { index: 999 };
    let outcome = lp.dispatch(stale);
    assert!(!outcome.handled);
    assert!(!outcome.request_frame);
    assert_eq!(lp.counter(), 0);
}

#[test]
fn counter_wraps_at_the_unsigned_limit() {
    let mut model = ModelData::new("the frontend");
    model.counter = u32::MAX;
    let initial = empty_container();
    let mut lp = RenderLoop::attach(model, &initial);
    lp.render();
    let h = lp.click_handle();
    lp.dispatch(h);
    assert_eq!(lp.counter(), 0);
}

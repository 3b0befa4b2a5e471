use scd30::context::ContextInner;

#[test]
fn new_context_is_not_cancelled() {
    assert!(!ContextInner::new().is_cancelled());
}

#[test]
fn cancel_raises_the_flag_for_good() {
    let mut context = ContextInner::new();
    context.cancel();
    assert!(context.is_cancelled());
    context.cancel();
    assert!(context.is_cancelled());
}

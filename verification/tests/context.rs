use std::sync::Arc;

use wasm_component_middleware::{Chain, InvocationContext, InvocationIds, MiddlewareCtx};

struct State;

#[test]
fn invocation_extensions_are_keyed_by_type() {
    let mut context = InvocationContext::new("greeter", &mut InvocationIds::new());

    assert_eq!(context.insert(4_u32), None);
    assert_eq!(context.insert(String::from("blue")), None);
    *context.get_mut::<u32>().unwrap() += 1;

    assert_eq!(context.plugin(), "greeter");
    assert_eq!(context.get::<u32>(), Some(&5));
    assert_eq!(context.get::<String>().map(String::as_str), Some("blue"));
}

#[test]
fn middleware_context_retains_chain_and_invocation() {
    let chain = Arc::new(Chain::<State>::builder().build());
    let context = MiddlewareCtx::new(Arc::clone(&chain), InvocationContext::new("greeter", &mut InvocationIds::new()));

    assert!(Arc::ptr_eq(context.chain(), &chain));
    assert_eq!(context.context().plugin(), "greeter");
}

#[test]
fn inserting_again_returns_the_previous_value() {
    let mut context = InvocationContext::new(String::from("plugin"), &mut InvocationIds::new());

    assert_eq!(context.insert(1_u64), None);
    assert_eq!(context.insert(2_u64), Some(1));
    assert_eq!(context.get::<u64>(), Some(&2));
    assert_eq!(context.get::<i32>(), None);
}

#[test]
fn contexts_drawn_from_one_counter_have_distinct_ids() {
    let chain = Arc::new(Chain::<State>::builder().build());
    let mut ids = InvocationIds::new();
    let first = MiddlewareCtx::new(Arc::clone(&chain), InvocationContext::new("a", &mut ids));
    let second = MiddlewareCtx::new(Arc::clone(&chain), InvocationContext::new("b", &mut ids));
    let third = InvocationContext::new("c", &mut ids);

    assert_eq!(first.context().id(), 1);
    assert_eq!(second.context().id(), 2);
    assert_eq!(third.id(), 3);
    assert_eq!(second.context().plugin(), "b");
}

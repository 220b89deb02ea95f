use std::sync::Arc;

use wasm_component_middleware::{
    ArgumentList, ArgumentValue, Arguments, Call, CallDepths, Chain, Completion, Denied, Direction, Failure,
    InvocationContext, InvocationIds, Logger, MiddlewareCtx, MiddlewareView, Outcome,
};
use wasm_component_middleware::logger::{render_call_line, render_ending, render_outcome_line};

struct State {
    middleware: Option<MiddlewareCtx<Self>>,
}

impl MiddlewareView for State {
    fn middleware(&mut self) -> &mut MiddlewareCtx<Self> {
        self.middleware.as_mut().unwrap()
    }
}

#[test]
fn indents_an_import_nested_inside_an_export() {
    let logger = Logger::new(Vec::new());
    let output = logger.writer();
    let chain = Arc::new(Chain::builder().layer(logger).build());
    let mut state = State {
        middleware: Some(MiddlewareCtx::new(Arc::clone(&chain), InvocationContext::new("greeter", &mut InvocationIds::new()))),
    };
    let greeting = Arguments::new().with("greeting", "Hello");
    let export = Call {
        id: chain.next_id(),
        direction: Direction::Export,
        interface: None,
        version: None,
        function: "greet",
        handles: &[],
        args: greeting.list(),
    };

    chain
        .dispatch(&mut state, &export, |state| {
            let import = Call {
                id: chain.next_id(),
                direction: Direction::Import,
                interface: Some("example:hello/host"),
                version: Some("1.0.0"),
                function: "user-name",
                handles: &[],
                args: ArgumentList::empty(),
            };
            chain
                .dispatch(state, &import, |_| Ok(((), Completion::default())))
                .map_err(|_| wasmtime::Error::msg("nested call failed"))?;
            Ok(((), Completion::default()))
        })
        .unwrap();

    let bytes = { let read = output.acquire_read(); let bytes = read.borrow().clone(); read.release_read(); bytes };
    assert_eq!(
        String::from_utf8(bytes).unwrap(),
        "→ #1 export greet(\"Hello\")\n  → #2 import example:hello/host@1.0.0.user-name()\n  ← #2 returned\n← #1 returned\n"
    );
}

#[test]
fn overlapping_calls_finish_out_of_order_without_stale_depth() {
    let logger = Logger::new(Vec::new());
    let output = logger.writer();
    let chain = Arc::new(Chain::builder().layer(logger).build());
    let mut state = State {
        middleware: Some(MiddlewareCtx::new(Arc::clone(&chain), InvocationContext::new("greeter", &mut InvocationIds::new()))),
    };
    let first = Call {
        id: chain.next_id(),
        direction: Direction::Import,
        interface: None,
        version: None,
        function: "first",
        handles: &[],
        args: ArgumentList::empty(),
    };
    let second = Call {
        id: chain.next_id(),
        direction: Direction::Import,
        interface: None,
        version: None,
        function: "second",
        handles: &[],
        args: ArgumentList::empty(),
    };
    let (first_frames, first_denial, _) = chain.before(&mut state, &first);
    let (second_frames, second_denial, _) = chain.before(&mut state, &second);
    let completion = Completion::default();

    assert!(first_denial.is_none());
    assert!(second_denial.is_none());
    let _ = Chain::after(&mut state, &first, first_frames, Outcome::Returned(&completion));
    let _ = Chain::after(&mut state, &second, second_frames, Outcome::Returned(&completion));
    let third = Call {
        id: chain.next_id(),
        direction: Direction::Import,
        interface: None,
        version: None,
        function: "third",
        handles: &[],
        args: ArgumentList::empty(),
    };
    chain.dispatch(&mut state, &third, |_| Ok(((), Completion::default()))).unwrap();

    let bytes = { let read = output.acquire_read(); let bytes = read.borrow().clone(); read.release_read(); bytes };
    assert_eq!(
        String::from_utf8(bytes).unwrap(),
        "→ #1 import first()\n  → #2 import second()\n← #1 returned\n  ← #2 returned\n→ #3 import third()\n← #3 returned\n"
    );
}

#[test]
fn logger_instances_track_depth_independently() {
    let outer = Logger::new(Vec::new());
    let outer_output = outer.writer();
    let inner = Logger::new(Vec::new());
    let inner_output = inner.writer();
    let chain = Arc::new(Chain::builder().layer(outer).layer(inner).build());
    let mut state = State {
        middleware: Some(MiddlewareCtx::new(Arc::clone(&chain), InvocationContext::new("greeter", &mut InvocationIds::new()))),
    };
    let greeting = Arguments::new().with("greeting", "Hello");
    let call = Call {
        id: chain.next_id(),
        direction: Direction::Export,
        interface: None,
        version: None,
        function: "greet",
        handles: &[],
        args: greeting.list(),
    };

    chain.dispatch(&mut state, &call, |_| Ok(((), Completion::default()))).unwrap();

    for output in [outer_output, inner_output] {
        let bytes = { let read = output.acquire_read(); let bytes = read.borrow().clone(); read.release_read(); bytes };
        assert_eq!(String::from_utf8(bytes).unwrap(), "→ #1 export greet(\"Hello\")\n← #1 returned\n");
    }
}

#[test]
fn failures_and_refusals_are_logged_with_their_reason() {
    let logger = Logger::new(Vec::new());
    let output = logger.writer();
    let chain = Arc::new(Chain::builder().layer(logger).build());
    let mut state = State {
        middleware: Some(MiddlewareCtx::new(Arc::clone(&chain), InvocationContext::new("greeter", &mut InvocationIds::new()))),
    };
    let call = Call::new(chain.next_id(), Direction::Import, "work");
    let _ = chain.dispatch::<(), _>(&mut state, &call, |_| Err(wasmtime::Error::msg("disk full")));

    let bytes = { let read = output.acquire_read(); let bytes = read.borrow().clone(); read.release_read(); bytes };
    assert_eq!(String::from_utf8(bytes).unwrap(), "→ #1 import work()\n← #1 failed: disk full\n");

    let refused = Failure::Denied(Denied::new("not today"));
    assert_eq!(render_ending(Outcome::Failed(&refused)), "failed: not today");
    assert_eq!(render_ending(Outcome::Cancelled), "cancelled");
}

#[test]
fn clones_share_their_writer_and_depths() {
    let logger = Logger::new(Vec::new());
    let output = logger.writer();
    let copy = logger.clone();
    let chain = Arc::new(Chain::builder().layer(logger).layer(copy).build());
    let mut state = State {
        middleware: Some(MiddlewareCtx::new(Arc::clone(&chain), InvocationContext::new("p", &mut InvocationIds::new()))),
    };
    let call = Call::new(chain.next_id(), Direction::Import, "f");
    chain.dispatch(&mut state, &call, |_| Ok(((), Completion::default()))).unwrap();

    let bytes = { let read = output.acquire_read(); let bytes = read.borrow().clone(); read.release_read(); bytes };
    assert_eq!(
        String::from_utf8(bytes).unwrap(),
        "→ #1 import f()
  → #1 import f()
  ← #1 returned
← #1 returned
"
    );
}

#[test]
fn call_lines_render_every_argument_kind() {
    let args = Arguments::new()
        .with("flag", true)
        .with("count", 42_u64)
        .with("delta", -7_i64)
        .with("name", "Ada")
        .with_value("bytes", ArgumentValue::bytes(&[1, 2, 3]))
        .with("items", vec![ArgumentValue::from(1_u64), ArgumentValue::from(false)])
        .with_value("case", ArgumentValue::Variant { case: "some", value: Some(Box::new(ArgumentValue::U64(0))) })
        .with_value("none", ArgumentValue::Variant { case: "none", value: None })
        .with_debug("debug", &(1, 2));
    let call = Call::new(12, Direction::Import, "write")
        .in_interface("wasi:io/streams", Some("0.2.0"))
        .with_args(&args);

    assert_eq!(
        render_call_line(2, &call),
        "    → #12 import wasi:io/streams@0.2.0.write(true, 42, -7, \"Ada\", <3 bytes>, [1, false], some(0), none, (1, 2))"
    );
    assert_eq!(render_outcome_line(1, 12, "returned"), "  ← #12 returned");
}

#[test]
fn call_depths_open_and_close_per_invocation() {
    let mut depths = CallDepths::new();

    assert_eq!(depths.begin(7), 0);
    assert_eq!(depths.begin(7), 1);
    assert_eq!(depths.begin(8), 0);
    depths.end(7);
    assert_eq!(depths.begin(7), 1);
    depths.end(7);
    depths.end(7);
    depths.end(7);
    assert_eq!(depths.begin(7), 0);
    assert_eq!(depths.begin(8), 1);
}

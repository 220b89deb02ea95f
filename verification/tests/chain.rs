use std::sync::Arc;

use wasm_component_middleware::{
    ArgumentList, Call, Chain, Completion, Denied, Direction, Failure, Layer, MiddlewareCtx, MiddlewareView, Outcome,
    StateAccess,
};
use wasm_component_middleware::{Cancellations, InvocationContext, InvocationIds, OwnedCall};

#[derive(Default)]
struct State {
    events: Vec<String>,
    body_runs: usize,
}

struct RecordingLayer {
    name: &'static str,
    deny: bool,
}

impl Layer<State> for RecordingLayer {
    type Frame = &'static str;

    fn before(&self, state: &mut State, _: &Call<'_>) -> Result<Self::Frame, Denied> {
        state.events.push(format!("before {}", self.name));
        if self.deny {
            Err(Denied::new(format!("{} refused", self.name)))
        } else {
            Ok(self.name)
        }
    }

    fn after(&self, state: &mut State, _: &Call<'_>, frame: Self::Frame, outcome: Outcome<'_>) {
        assert_eq!(frame, self.name);
        let outcome = match outcome {
            Outcome::Returned(completion) => format!("returned {:?}", completion.produced),
            Outcome::Failed(Failure::Denied(_)) => "denied".to_owned(),
            Outcome::Failed(_) => "failed".to_owned(),
            Outcome::Cancelled => "cancelled".to_owned(),
            _ => "other".to_owned(),
        };
        state.events.push(format!("after {} {outcome}", self.name));
    }
}

fn call(id: u64) -> Call<'static> {
    Call {
        id,
        direction: Direction::Import,
        interface: Some("example:test/host"),
        version: None,
        function: "work",
        handles: &[],
        args: ArgumentList::empty(),
    }
}

#[test]
fn hooks_are_an_onion_and_frames_return_to_their_layers() {
    let chain = Chain::builder()
        .layer(RecordingLayer { name: "outer", deny: false })
        .layer(RecordingLayer { name: "inner", deny: false })
        .build();
    let mut state = State::default();

    let value = chain
        .dispatch(&mut state, &call(chain.next_id()), |state| {
            state.body_runs += 1;
            Ok((42, Completion { produced: vec![7] }))
        })
        .unwrap();

    assert_eq!(value, 42);
    assert_eq!(state.body_runs, 1);
    assert_eq!(
        state.events,
        ["before outer", "before inner", "after inner returned [7]", "after outer returned [7]"]
    );
}

#[test]
fn denial_stops_before_body_and_inner_after_hooks() {
    let chain = Chain::builder()
        .layer(RecordingLayer { name: "outermost", deny: false })
        .layer(RecordingLayer { name: "outer", deny: false })
        .layer(RecordingLayer { name: "refusing", deny: true })
        .layer(RecordingLayer { name: "inner", deny: false })
        .build();
    let mut state = State::default();

    let error = chain
        .dispatch(&mut state, &call(chain.next_id()), |state| {
            state.body_runs += 1;
            Ok(((), Completion::default()))
        })
        .unwrap_err();

    match error {
        Failure::Denied(denied) => assert_eq!(denied.reason(), "refusing refused"),
        Failure::Error(error) => panic!("unexpected error {error}"),
    }
    assert_eq!(state.body_runs, 0);
    assert_eq!(
        state.events,
        ["before outermost", "before outer", "before refusing", "after outer denied", "after outermost denied"]
    );
}

#[test]
fn body_failure_reaches_every_after_hook() {
    let chain = Chain::builder()
        .layer(RecordingLayer { name: "outer", deny: false })
        .layer(RecordingLayer { name: "inner", deny: false })
        .build();
    let mut state = State::default();

    let error = chain
        .dispatch::<(), _>(&mut state, &call(chain.next_id()), |state| {
            state.body_runs += 1;
            Err(wasmtime::Error::msg("handler failed"))
        })
        .unwrap_err();

    match error {
        Failure::Error(error) => assert_eq!(error.to_string(), "handler failed"),
        Failure::Denied(denied) => panic!("unexpected refusal {}", denied.reason()),
    }
    assert_eq!(
        state.events,
        ["before outer", "before inner", "after inner failed", "after outer failed"]
    );
}

#[test]
fn identifiers_are_unique_within_a_chain() {
    let chain = Chain::<State>::builder().build();

    assert_eq!(chain.next_id(), 1);
    assert_eq!(chain.next_id(), 2);
}

#[test]
fn the_builder_counts_layers_in_order() {
    let builder = Chain::<State>::builder();
    let chain = builder
        .layer(RecordingLayer { name: "a", deny: false })
        .layer(RecordingLayer { name: "b", deny: false })
        .layer(RecordingLayer { name: "c", deny: false })
        .build();

    assert_eq!(chain.layer_count(), 3);
}

#[test]
fn before_and_after_can_be_driven_separately() {
    let chain = Chain::builder()
        .layer(RecordingLayer { name: "outer", deny: false })
        .layer(RecordingLayer { name: "refusing", deny: true })
        .build();
    let mut state = State::default();
    let work = call(1);

    let (frames, denial, _) = chain.before(&mut state, &work);
    assert_eq!(frames.count(), 1);
    assert_eq!(denial.unwrap().reason(), "refusing refused");
    let _ = Chain::after(&mut state, &work, frames, Outcome::Cancelled);

    assert_eq!(state.events, ["before outer", "before refusing", "after outer cancelled"]);
}

#[test]
fn dispatch_access_lends_the_state_to_the_hooks() {
    let chain = Chain::builder().layer(RecordingLayer { name: "observer", deny: false }).build();
    let mut state = State::default();

    let value = chain
        .dispatch_access(&mut state, &call(1), |access: &mut &mut State| {
            access.with_state(|state: &mut State| state.body_runs += 1);
            Ok((17, Completion { produced: vec![9] }))
        })
        .unwrap();

    assert_eq!(value, 17);
    assert_eq!(state.body_runs, 1);
    assert_eq!(state.events, ["before observer", "after observer returned [9]"]);
}

#[test]
fn dispatch_access_reports_denial_without_running_body() {
    let chain = Chain::builder().layer(RecordingLayer { name: "observer", deny: true }).build();
    let mut state = State::default();
    let mut body_ran = false;

    let error = chain
        .dispatch_access(&mut state, &call(1), |_: &mut &mut State| {
            body_ran = true;
            Ok(((), Completion::default()))
        })
        .unwrap_err();

    assert!(matches!(error, Failure::Denied(_)));
    assert!(!body_ran);
    assert_eq!(state.events, ["before observer"]);
}

struct Routed {
    middleware: MiddlewareCtx<Routed>,
    events: Vec<String>,
}

impl MiddlewareView for Routed {
    fn middleware(&mut self) -> &mut MiddlewareCtx<Self> {
        &mut self.middleware
    }
}

struct Observer;

impl Layer<Routed> for Observer {
    type Frame = ();

    fn before(&self, state: &mut Routed, call: &Call<'_>) -> Result<(), Denied> {
        state.events.push(format!("before {} {}", call.direction.as_str(), call.function));
        Ok(())
    }

    fn after(&self, state: &mut Routed, call: &Call<'_>, (): (), _: Outcome<'_>) {
        state.events.push(format!("after {}", call.function));
    }
}

#[test]
fn dispatch_export_runs_the_body_with_the_store() {
    let chain = Arc::new(Chain::builder().layer(Observer).build());
    let engine = wasmtime::Engine::default();
    let mut store = wasmtime::Store::new(
        &engine,
        Routed { middleware: MiddlewareCtx::new(Arc::clone(&chain), InvocationContext::new("test", &mut InvocationIds::new())), events: Vec::new() },
    );
    let export = Call::new(chain.next_id(), Direction::Export, "greet");

    let value = chain
        .dispatch_export(wasmtime::AsContextMut::as_context_mut(&mut store), &export, |mut store| {
            store.data_mut().events.push("body".to_owned());
            Ok(5)
        })
        .unwrap();

    assert_eq!(value, 5);
    assert_eq!(store.data().events, ["before export greet", "body", "after greet"]);
}

#[test]
fn queued_cancellation_precedes_the_next_call() {
    let chain = Chain::builder()
        .layer(RecordingLayer { name: "outer", deny: false })
        .layer(RecordingLayer { name: "inner", deny: false })
        .build();
    let mut state = State::default();
    let mut queue = Cancellations::new();
    let dropped = call(1);

    let (frames, denial, _) = chain.before(&mut state, &dropped);
    assert!(denial.is_none());
    queue.push(OwnedCall::from_call(&dropped), frames);
    assert_eq!(queue.len(), 1);
    assert_eq!(state.events, ["before outer", "before inner"]);

    let _ = queue.deliver(&mut state);
    assert_eq!(queue.len(), 0);
    chain.dispatch(&mut state, &call(2), |_| Ok(((), Completion::default()))).unwrap();

    assert_eq!(
        state.events,
        [
            "before outer",
            "before inner",
            "after inner cancelled",
            "after outer cancelled",
            "before outer",
            "before inner",
            "after inner returned []",
            "after outer returned []",
        ]
    );
}

#[test]
fn kept_calls_keep_their_identity() {
    let handles = [3, 4];
    let original = Call::new(5, Direction::Import, "read").in_interface("wasi:io/streams", Some("0.2.0")).with_handles(&handles);
    let owned = OwnedCall::from_call(&original);
    let call = owned.call();

    assert_eq!(call.id, 5);
    assert_eq!(call.direction, Direction::Import);
    assert_eq!(call.interface, Some("wasi:io/streams"));
    assert_eq!(call.version, Some("0.2.0"));
    assert_eq!(call.function, "read");
    assert_eq!(call.handles, [3, 4]);
    assert_eq!(call.args.len(), 0);
}

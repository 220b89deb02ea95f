use std::sync::Arc;

use wasm_component_middleware::{dispatch_gated, Arguments};

use wasm_component_middleware::{
    Call, Chain, Completion, Direction, Failure, InvocationContext, InvocationIds, Layer, MiddlewareCtx, MiddlewareView, OpenFileState,
    OpenFiles, Outcome, DROP_DESCRIPTOR, FILESYSTEM_PREOPENS, FILESYSTEM_TYPES, GET_DIRECTORIES, OPEN_AT,
};

struct State {
    middleware: MiddlewareCtx<Self>,
}

impl MiddlewareView for State {
    fn middleware(&mut self) -> &mut MiddlewareCtx<Self> {
        &mut self.middleware
    }
}

fn state(chain: Arc<Chain<State>>) -> State {
    State { middleware: MiddlewareCtx::new(chain, InvocationContext::new("files", &mut InvocationIds::new())) }
}

fn call<'a>(function: &'a str, handles: &'a [u32]) -> Call<'a> {
    Call::new(1, Direction::Import, function).in_interface(FILESYSTEM_TYPES, Some("0.2.12")).with_handles(handles)
}

#[test]
fn a_drop_frees_a_slot() {
    let layer = OpenFiles::new(1);
    let chain = Arc::new(Chain::builder().build());
    let mut state = state(chain);
    let open = call(OPEN_AT, &[3]);
    let frame = layer.before(&mut state, &open).unwrap();
    let completion = Completion { produced: vec![4] };
    layer.after(&mut state, &open, frame, Outcome::Returned(&completion));
    assert!(layer.before(&mut state, &open).is_err());

    let drop = call(DROP_DESCRIPTOR, &[4]);
    layer.before(&mut state, &drop).unwrap();

    assert!(layer.before(&mut state, &open).is_ok());
}

#[test]
fn a_failed_open_releases_its_reservation() {
    let layer = OpenFiles::new(1);
    let chain = Arc::new(Chain::builder().build());
    let mut state = state(chain);
    let open = call(OPEN_AT, &[3]);
    let frame = layer.before(&mut state, &open).unwrap();
    let error = Failure::Error(wasmtime::Error::msg("missing file"));
    layer.after(&mut state, &open, frame, Outcome::Failed(&error));

    assert!(layer.before(&mut state, &open).is_ok());
}

#[test]
fn the_limit_counts_preopens_and_names_itself() {
    let chain = Arc::new(Chain::builder().layer(OpenFiles::new(2)).build());
    let mut state = state(Arc::clone(&chain));
    let preopens = Call::new(1, Direction::Import, GET_DIRECTORIES).in_interface(FILESYSTEM_PREOPENS, Some("0.3.0"));
    chain.dispatch(&mut state, &preopens, |_| Ok(((), Completion { produced: vec![1] }))).unwrap();
    let handles = [1];
    let open = Call::new(2, Direction::Import, OPEN_AT).in_interface(FILESYSTEM_TYPES, Some("0.3.0")).with_handles(&handles);
    chain.dispatch(&mut state, &open, |_| Ok(((), Completion { produced: vec![2] }))).unwrap();

    match chain.dispatch(&mut state, &open, |_| Ok(((), Completion { produced: vec![3] }))) {
        Err(Failure::Denied(denied)) => assert_eq!(denied.reason(), "open file limit of 2 reached"),
        _ => panic!("the third descriptor should be refused"),
    }
    let open_files = state.middleware().context().get::<OpenFileState>().unwrap();
    assert_eq!(open_files.live_count(), 2);
    assert_eq!(open_files.pending_count(), 0);
    assert!(open_files.is_live(1));
    assert!(open_files.is_live(2));
    assert!(!open_files.is_live(3));
}

#[test]
fn reservations_are_held_until_opens_finish() {
    let mut files = OpenFileState::new();
    let handles = [];
    let open = call(OPEN_AT, &handles);

    assert_eq!(files.decide(2, &open), Ok(Some(true)));
    assert_eq!(files.decide(2, &open), Ok(Some(true)));
    assert_eq!(files.pending_count(), 2);
    assert!(files.decide(2, &open).is_err());
    files.settle(Some(true), Outcome::Cancelled);
    assert_eq!(files.pending_count(), 1);
    assert_eq!(files.decide(2, &open), Ok(Some(true)));
}

#[test]
fn other_calls_pass_without_a_frame() {
    let mut files = OpenFileState::new();
    let stat = call("[method]descriptor.stat", &[]);

    assert_eq!(files.decide(0, &stat), Ok(None));
    assert_eq!(files.live_count(), 0);
}

#[test]
fn gated_calls_report_the_handles_they_produce() {
    let chain = Arc::new(Chain::builder().layer(OpenFiles::new(1)).build());
    let mut state = state(Arc::clone(&chain));
    let arguments = Arguments::new().with("path", "notes.txt");

    let opened = dispatch_gated(&mut state, FILESYSTEM_TYPES, "0.2.12", OPEN_AT, &[3], &arguments, |_| Ok(9_u32), |handle: &u32| vec![*handle]);
    assert_eq!(opened.unwrap(), 9);
    let files = state.middleware().context().get::<OpenFileState>().unwrap();
    assert!(files.is_live(9));

    let refused = dispatch_gated(&mut state, FILESYSTEM_TYPES, "0.2.12", OPEN_AT, &[3], &arguments, |_| Ok(10_u32), |handle: &u32| vec![*handle]);
    assert!(matches!(refused, Err(Failure::Denied(_))));

    dispatch_gated(&mut state, FILESYSTEM_TYPES, "0.2.12", DROP_DESCRIPTOR, &[9], &Arguments::new(), |_| Ok(()), |_: &()| Vec::new()).unwrap();
    let again = dispatch_gated(&mut state, FILESYSTEM_TYPES, "0.2.12", OPEN_AT, &[3], &arguments, |_| Ok(11_u32), |handle: &u32| vec![*handle]);
    assert_eq!(again.unwrap(), 11);
}

use std::sync::Arc;

use wasm_component_middleware::{
    dispatch_import, route_export, Arguments, Call, Chain, Denied, Failure, InvocationContext, InvocationIds, Layer, MiddlewareCtx,
    MiddlewareView, Outcome, Routed, RoutedInterface, Routing,
};
use wasmtime::{AsContextMut, Engine, Store};

struct State {
    middleware: Option<MiddlewareCtx<Self>>,
    calls: usize,
}

impl State {
    fn new() -> Self {
        Self::with_chain(Chain::builder().build())
    }

    fn with_chain(chain: Chain<Self>) -> Self {
        Self { middleware: Some(MiddlewareCtx::new(Arc::new(chain), InvocationContext::new("test", &mut InvocationIds::new()))), calls: 0 }
    }
}

impl MiddlewareView for State {
    fn middleware(&mut self) -> &mut MiddlewareCtx<Self> {
        self.middleware.as_mut().unwrap()
    }
}

fn into_error(failure: Failure) -> wasmtime::Error {
    match failure {
        Failure::Denied(denied) => wasmtime::Error::msg(denied.reason().to_owned()),
        Failure::Error(error) => error,
    }
}

trait TestHost {
    fn generated_call(&mut self, increment: usize) -> wasmtime::Result<usize>;
}

impl TestHost for State {
    fn generated_call(&mut self, increment: usize) -> wasmtime::Result<usize> {
        self.calls += increment;
        Ok(self.calls)
    }
}

impl TestHost for Routing<'_, State> {
    fn generated_call(&mut self, increment: usize) -> wasmtime::Result<usize> {
        let arguments = Arguments::new().with_debug("increment", &increment);
        self.dispatch("example:test/host", "generated-call", &arguments, |state| {
            <State as TestHost>::generated_call(state, increment)
        })
        .map_err(into_error)
    }
}

#[test]
fn routes_generated_and_plain_import_shapes() {
    let test_host = RoutedInterface::from_static("example:test/host");
    let mut state = State::new();
    let first = dispatch_import(&mut state, None, "plain", &Arguments::new(), |state| {
        state.calls += 1;
        Ok(state.calls)
    })
    .unwrap();
    let second = TestHost::generated_call(&mut Routing::new(&mut state), 1).unwrap();

    assert_eq!((first, second), (1, 2));
    assert_eq!(test_host.name(), "example:test/host");
}

#[test]
fn routes_export_in_one_expression() {
    let engine = Engine::default();
    let mut store = Store::new(&engine, State::new());

    let args = Arguments::new().with("greeting", "Hello");
    let value = route_export(store.as_context_mut(), None, "greet", &args, |_store| Ok("Hello, Ada!")).unwrap();

    assert_eq!(value, "Hello, Ada!");
}

struct Recorder {
    seen: Arc<std::sync::Mutex<Vec<String>>>,
    refuse: bool,
}

impl Layer<State> for Recorder {
    type Frame = ();

    fn before(&self, _: &mut State, call: &Call<'_>) -> Result<(), Denied> {
        let interface = call.interface.unwrap_or("-");
        let rendered = format!(
            "#{} {} {} {} {:?} {}",
            call.id,
            call.direction.as_str(),
            interface,
            call.function,
            call.version,
            call.args.render()
        );
        self.seen.lock().unwrap().push(rendered);
        if self.refuse {
            Err(Denied::new("refused"))
        } else {
            Ok(())
        }
    }

    fn after(&self, _: &mut State, _: &Call<'_>, (): (), _: Outcome<'_>) {}
}

#[test]
fn routed_calls_carry_the_chain_identifier_interface_and_arguments() {
    let seen = Arc::new(std::sync::Mutex::new(Vec::new()));
    let mut state = State::with_chain(Chain::builder().layer(Recorder { seen: Arc::clone(&seen), refuse: false }).build());

    let mut routing = Routed::get(&mut state);
    TestHost::generated_call(&mut routing, 3).unwrap();
    dispatch_import(&mut state, Some("example:other/host"), "log", &Arguments::new().with("line", "hi"), |_| Ok(())).unwrap();

    assert_eq!(
        *seen.lock().unwrap(),
        [
            "#1 import example:test/host generated-call None 3".to_owned(),
            "#2 import example:other/host log None \"hi\"".to_owned(),
        ]
    );
    assert_eq!(state.calls, 3);
}

#[test]
fn a_refused_import_does_not_run_its_handler() {
    let seen = Arc::new(std::sync::Mutex::new(Vec::new()));
    let mut state = State::with_chain(Chain::builder().layer(Recorder { seen, refuse: true }).build());

    let result = dispatch_import(&mut state, None, "plain", &Arguments::new(), |state| {
        state.calls += 1;
        Ok(state.calls)
    });

    assert!(matches!(result, Err(Failure::Denied(_))));
    assert_eq!(state.calls, 0);
}

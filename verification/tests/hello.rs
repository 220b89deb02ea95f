use std::collections::HashSet;
use std::error::Error;
use std::fmt::{self, Display};
use std::sync::{Arc, Mutex};

use wasm_component_middleware::{
    dispatch_import, route_export, Arguments, Call, Chain, Denied, Failure, InvocationContext, InvocationIds, Layer, MiddlewareCtx,
    MiddlewareView, Outcome,
};
use wasmtime::component::{Component, Linker};
use wasmtime::{AsContextMut, Engine, Store, StoreContextMut};

const GUEST: &str = r#"
(component
  (import "example:hello/host" (instance $host
    (export "user-name" (func (result u32)))
    (export "log" (func (param "message" u32)))
  ))
  (core func $user_name (canon lower (func $host "user-name")))
  (core func $log (canon lower (func $host "log")))
  (core module $m
    (import "host" "user-name" (func $user_name (result i32)))
    (import "host" "log" (func $log (param i32)))
    (func (export "greet") (result i32)
      (local $name i32)
      call $user_name
      local.set $name
      local.get $name
      call $log
      local.get $name
      i32.const 100
      i32.add))
  (core instance $host_core (export "user-name" (func $user_name)) (export "log" (func $log)))
  (core instance $guest (instantiate $m (with "host" (instance $host_core))))
  (func (export "greet") (result u32) (canon lift (core func $guest "greet")))
)
"#;

#[derive(Clone, Copy)]
enum UserName {
    Ada,
    Fail,
}

struct State {
    middleware: MiddlewareCtx<Self>,
    user_name: UserName,
    logged: Vec<u32>,
}

impl MiddlewareView for State {
    fn middleware(&mut self) -> &mut MiddlewareCtx<Self> {
        &mut self.middleware
    }
}

#[derive(Debug)]
struct Refused(String);

impl Display for Refused {
    fn fmt(&self, formatter: &mut fmt::Formatter<'_>) -> fmt::Result {
        formatter.write_str(&self.0)
    }
}

impl Error for Refused {}

fn into_error(failure: Failure) -> wasmtime::Error {
    match failure {
        Failure::Denied(denied) => wasmtime::Error::new(Refused(denied.reason().to_owned())),
        Failure::Error(error) => error,
    }
}

#[derive(Default)]
struct Observations {
    ids: Vec<u64>,
    failed_user_name: bool,
}

struct Observer(Arc<Mutex<Observations>>);

impl Layer<State> for Observer {
    type Frame = ();

    fn before(&self, _state: &mut State, call: &Call<'_>) -> Result<(), Denied> {
        self.0.lock().unwrap().ids.push(call.id);
        Ok(())
    }

    fn after(&self, _state: &mut State, call: &Call<'_>, (): (), outcome: Outcome<'_>) {
        if call.function == "user-name" && matches!(outcome, Outcome::Failed(_)) {
            self.0.lock().unwrap().failed_user_name = true;
        }
    }
}

struct DenyUserName;

impl Layer<State> for DenyUserName {
    type Frame = ();

    fn before(&self, _state: &mut State, call: &Call<'_>) -> Result<(), Denied> {
        if call.function == "user-name" {
            Err(Denied::new(format!("{} is denied", call.function)))
        } else {
            Ok(())
        }
    }

    fn after(&self, _state: &mut State, _call: &Call<'_>, (): (), _outcome: Outcome<'_>) {}
}

fn invoke(chain: Chain<State>, user_name: UserName) -> Result<u32, Failure> {
    let engine = Engine::default();
    let component = Component::new(&engine, GUEST).unwrap();
    let mut linker = Linker::<State>::new(&engine);
    let mut host = linker.instance("example:hello/host").unwrap();
    host.func_wrap("user-name", |mut store: StoreContextMut<'_, State>, (): ()| {
        dispatch_import(store.data_mut(), Some("example:hello/host"), "user-name", &Arguments::new(), |state: &mut State| {
            match state.user_name {
                UserName::Ada => Ok(7_u32),
                UserName::Fail => Err(wasmtime::Error::msg("identity backend failed")),
            }
        })
        .map(|name| (name,))
        .map_err(into_error)
    })
    .unwrap();
    host.func_wrap("log", |mut store: StoreContextMut<'_, State>, (message,): (u32,)| {
        let arguments = Arguments::new().with("message", u64::from(message));
        dispatch_import(store.data_mut(), Some("example:hello/host"), "log", &arguments, |state: &mut State| {
            state.logged.push(message);
            Ok(())
        })
        .map_err(into_error)
    })
    .unwrap();
    let mut store = Store::new(
        &engine,
        State {
            middleware: MiddlewareCtx::new(Arc::new(chain), InvocationContext::new("hello", &mut InvocationIds::new())),
            user_name,
            logged: Vec::new(),
        },
    );
    let instance = linker.instantiate(&mut store, &component).unwrap();
    let greet = instance.get_typed_func::<(), (u32,)>(&mut store, "greet").unwrap();

    let result = route_export(store.as_context_mut(), None, "greet", &Arguments::new(), |mut store| {
        greet.call(store.as_context_mut(), ()).map(|(greeting,)| greeting)
    });
    if result.is_ok() {
        assert_eq!(store.data().logged, [7]);
    }
    result
}

#[test]
fn denial_from_user_name_survives_the_component_boundary() {
    let observations = Arc::new(Mutex::new(Observations::default()));
    let chain = Chain::builder().layer(Observer(Arc::clone(&observations))).layer(DenyUserName).build();

    let error = match invoke(chain, UserName::Ada).unwrap_err() {
        Failure::Error(error) => error,
        Failure::Denied(denied) => panic!("the export itself was refused: {}", denied.reason()),
    };
    let denied = error.downcast_ref::<Refused>().unwrap();

    assert_eq!(denied.0, "user-name is denied");
}

#[test]
fn handler_failure_reaches_layers() {
    let observations = Arc::new(Mutex::new(Observations::default()));
    let chain = Chain::builder().layer(Observer(Arc::clone(&observations))).build();

    let result = invoke(chain, UserName::Fail);

    assert!(result.is_err());
    assert!(observations.lock().unwrap().failed_user_name);
}

#[test]
fn call_ids_are_unique_within_an_invocation() {
    let observations = Arc::new(Mutex::new(Observations::default()));
    let chain = Chain::builder().layer(Observer(Arc::clone(&observations))).build();

    assert_eq!(invoke(chain, UserName::Ada).unwrap(), 107);
    let ids = &observations.lock().unwrap().ids;
    let unique = ids.iter().copied().collect::<HashSet<_>>();

    assert_eq!(ids.len(), 3);
    assert_eq!(unique.len(), ids.len());
}

use std::marker::PhantomData;
use std::sync::Arc;

use vstd::prelude::*;

use crate::arguments::Arguments;
use wasmtime::StoreContextMut;

use crate::chain::{dispatched, store_data, Chain, Frames};
use crate::context::{MiddlewareCtx, MiddlewareView};
use crate::types::{Call, Completion, Direction, Failure, Outcome};

verus! {

/// Identifies an interface whose imports are routed through middleware.
///
/// Pass these markers to the routing check before instantiating a component.
#[derive(Clone, Copy, Debug, PartialEq, Eq, Hash)]
pub struct RoutedInterface(&'static str);

impl RoutedInterface {
    /// The canonical WIT interface name, as characters.
    pub closed spec fn view(self) -> Seq<char> {
        self.0@
    }

    /// Creates the marker for the interface named `name`.
    pub fn from_static(name: &'static str) -> (marker: RoutedInterface)
        ensures
            marker@ == name@,
    {
        RoutedInterface(name)
    }

    /// Returns the canonical WIT interface name.
    pub fn name(self) -> (name: &'static str)
        ensures
            name@ == self@,
    {
        self.0
    }
}

/// Marks store data of type `S` for bindings whose host traits are
/// implemented on [`Routing`].
#[verifier::reject_recursive_types(S)]
pub struct Routed<S>(PhantomData<S>);

impl<S> Routed<S> {
    /// Projects store data for a generated `add_to_linker` function.
    pub fn get(state: &mut S) -> (routing: Routing<'_, S>)
        ensures
            routing.state_view() == *old(state),
    {
        Routing::new(state)
    }
}

/// A temporary host-trait receiver that routes every call into the store's
/// chain.
pub struct Routing<'a, S> {
    state: &'a mut S,
}

impl<'a, S> Routing<'a, S> {
    /// The store data the receiver routes into.
    pub closed spec fn state_view(&self) -> S {
        *self.state
    }

    /// Projects a routing receiver from an application's store data.
    pub fn new(state: &'a mut S) -> (routing: Routing<'a, S>)
        ensures
            routing.state_view() == *old(state),
    {
        Routing { state }
    }
}

impl<'a, S: MiddlewareView> Routing<'a, S> {
    /// Dispatches one host-trait method of `interface` through the store's
    /// chain, with `body` as the host implementation.
    pub fn dispatch<R, B>(&mut self, interface: &'static str, function: &str, args: &Arguments, body: B) -> (result: Result<R, Failure>)
        where B: FnOnce(&mut S) -> Result<R, wasmtime::Error>,
        requires
            forall|s: &mut S| call_requires(body, (s,)),
        ensures
            result matches Ok(value) ==> exists|s: &mut S| call_ensures(body, (s,), Ok(value)),
            result matches Err(Failure::Error(e)) ==> exists|s: &mut S| call_ensures(body, (s,), Err(e)),
            exists|lent: &mut S, middleware: &mut MiddlewareCtx<S>| {
                &&& *lent == old(self).state_view()
                &&& call_ensures(S::middleware, (lent,), middleware)
                &&& routed_through(*middleware, Direction::Import, Some(interface), None, function@, Seq::empty(), *args, result)
            },
    {
        dispatch_import(&mut *self.state, Some(interface), function, args, body)
    }
}

/// Whether `result` came from dispatching, through the chain `middleware`
/// holds, a call of `function` in `direction` with `interface`, `version`,
/// `handles` and `args`, under some identifier: the hooks ran on that call
/// as [`dispatched`] says.
pub open spec fn routed_through<S, R>(
    middleware: MiddlewareCtx<S>,
    direction: Direction,
    interface: Option<&str>,
    version: Option<&str>,
    function: Seq<char>,
    handles: Seq<u32>,
    args: Arguments,
    result: Result<R, Failure>,
) -> bool {
    exists|call: Call, start: S, admitted: nat, entered: Seq<S>, frames: Frames<S>, outcome: Outcome, left: Seq<S>| {
        &&& call.direction == direction
        &&& call.interface == interface
        &&& call.version == version
        &&& call.function@ == function
        &&& call.handles@ == handles
        &&& call.args.view() == args.view()
        &&& dispatched(*middleware.chain_view(), start, call, result, admitted, entered, frames, outcome, left)
    }
}

/// Builds the call that routes `function` of `interface` in `direction`.
fn routed_call<'a>(id: u64, direction: Direction, interface: Option<&'a str>, function: &'a str, args: &'a Arguments) -> (call: Call<'a>)
    ensures
        call.id == id,
        call.direction == direction,
        call.interface == interface,
        call.version.is_none(),
        call.function@ == function@,
        call.handles@ == Seq::<u32>::empty(),
        call.args.view() == args.view(),
{
    let call = Call::new(id, direction, function).with_args(args);
    match interface {
        Some(interface) => call.in_interface(interface, None),
        None => call,
    }
}

/// Routes a host import through the chain in `state`, with `body` as the
/// host handler.
///
/// The call gets the chain's next identifier, the import direction, the
/// given interface (with no version) and function, and `args`.
pub fn dispatch_import<S: MiddlewareView, R, B>(state: &mut S, interface: Option<&str>, function: &str, args: &Arguments, body: B) -> (result: Result<R, Failure>)
    where B: FnOnce(&mut S) -> Result<R, wasmtime::Error>,
    requires
        forall|s: &mut S| call_requires(body, (s,)),
    ensures
        result matches Ok(value) ==> exists|s: &mut S| call_ensures(body, (s,), Ok(value)),
        result matches Err(Failure::Error(e)) ==> exists|s: &mut S| call_ensures(body, (s,), Err(e)),
        exists|lent: &mut S, middleware: &mut MiddlewareCtx<S>| {
            &&& *lent == *old(state)
            &&& call_ensures(S::middleware, (lent,), middleware)
            &&& routed_through(*middleware, Direction::Import, interface, None, function@, Seq::empty(), *args, result)
        },
{
    let middleware = S::middleware;
    let chain: Arc<Chain<S>> = Arc::clone(middleware(state).chain());
    let call = routed_call(chain.next_id(), Direction::Import, interface, function, args);
    let nothing = |_value: &R| -> (handles: Vec<u32>) { Vec::new() };
    run_between_hooks(&chain, state, &call, body, nothing)
}

/// Runs `body` between the hooks of `chain` for `call`; a value it returns
/// is reported to the `after` hooks with the handles `produced` finds in it.
fn run_between_hooks<S, R, B, P>(chain: &Chain<S>, state: &mut S, call: &Call<'_>, body: B, produced: P) -> (result: Result<R, Failure>)
    where B: FnOnce(&mut S) -> Result<R, wasmtime::Error>, P: FnOnce(&R) -> Vec<u32>,
    requires
        forall|s: &mut S| call_requires(body, (s,)),
        forall|value: &R| call_requires(produced, (value,)),
    ensures
        result matches Ok(value) ==> exists|s: &mut S| call_ensures(body, (s,), Ok(value)),
        result matches Err(Failure::Error(e)) ==> exists|s: &mut S| call_ensures(body, (s,), Err(e)),
        exists|admitted: nat, entered: Seq<S>, frames: Frames<S>, outcome: Outcome, left: Seq<S>|
            dispatched(*chain, *old(state), *call, result, admitted, entered, frames, outcome, left),
{
    let (frames, denial, entry) = chain.before(state, call);
    let ghost all_frames = frames;
    let ghost mut from_body: Option<Result<R, wasmtime::Error>> = None;
    let ran: Result<(R, Completion), Failure> = match denial {
        Some(denied) => Err(Failure::Denied(denied)),
        None => {
            let returned = body(state);
            proof {
                from_body = Some(returned);
            }
            match returned {
                Ok(value) => {
                    let done = Completion { produced: produced(&value) };
                    Ok((value, done))
                },
                Err(error) => Err(Failure::Error(error)),
            }
        },
    };
    let ghost ran_copy = ran;
    let outcome = match &ran {
        Ok((_, completion)) => Outcome::Returned(completion),
        Err(failure) => Outcome::Failed(failure),
    };
    let ghost seen_outcome = outcome;
    let ended = Chain::after(state, call, frames, outcome);
    let result = match ran {
        Ok((value, _)) => Ok(value),
        Err(failure) => Err(failure),
    };
    assert(result matches Ok(v) ==> (ran_copy matches Ok(p) && p.0 == v));
    assert(result matches Ok(v) ==> from_body == Some(Ok::<R, wasmtime::Error>(v)));
    assert(result matches Err(Failure::Error(e)) ==> from_body == Some(Err::<R, wasmtime::Error>(e)));
    assert(from_body matches Some(returned) ==> exists|s: &mut S| call_ensures(body, (s,), returned));
    assert(dispatched(*chain, *old(state), *call, result, all_frames.len(), entry@.1, all_frames, seen_outcome, ended@.1));
    result
}

/// Builds the call of a gated host function: an import of `function` in
/// `interface` at `version`, consuming `handles`.
pub fn gated_call<'a>(id: u64, interface: &'a str, version: &'a str, function: &'a str, handles: &'a [u32], args: &'a Arguments) -> (call: Call<'a>)
    ensures
        call.id == id,
        call.direction == Direction::Import,
        call.interface == Some(interface),
        call.version == Some(version),
        call.function@ == function@,
        call.handles == handles,
        call.args.view() == args.view(),
{
    Call::new(id, Direction::Import, function).in_interface(interface, Some(version)).with_handles(handles).with_args(args)
}

/// Routes one gated host function through the chain in `state`, with `body`
/// as the host implementation.
///
/// The call gets the chain's next identifier, the import direction,
/// `interface` at `version`, `function`, the `handles` it consumes and
/// `args`; the `after` hooks of a call that returns see the handles
/// `produced` finds in its value.
pub fn dispatch_gated<S: MiddlewareView, R, B, P>(state: &mut S, interface: &str, version: &str, function: &str, handles: &[u32], args: &Arguments, body: B, produced: P) -> (result: Result<R, Failure>)
    where B: FnOnce(&mut S) -> Result<R, wasmtime::Error>, P: FnOnce(&R) -> Vec<u32>,
    requires
        forall|s: &mut S| call_requires(body, (s,)),
        forall|value: &R| call_requires(produced, (value,)),
    ensures
        result matches Ok(value) ==> exists|s: &mut S| call_ensures(body, (s,), Ok(value)),
        result matches Err(Failure::Error(e)) ==> exists|s: &mut S| call_ensures(body, (s,), Err(e)),
        exists|lent: &mut S, middleware: &mut MiddlewareCtx<S>| {
            &&& *lent == *old(state)
            &&& call_ensures(S::middleware, (lent,), middleware)
            &&& routed_through(*middleware, Direction::Import, Some(interface), Some(version), function@, handles@, *args, result)
        },
{
    let middleware = S::middleware;
    let chain: Arc<Chain<S>> = Arc::clone(middleware(state).chain());
    let call = gated_call(chain.next_id(), interface, version, function, handles, args);
    run_between_hooks(&chain, state, &call, body, produced)
}

/// Routes one component export call through the store's chain, with `body`
/// making the call into the component.
///
/// The call gets the chain's next identifier, the export direction, the
/// given interface (with no version) and function, and `args`.
pub fn route_export<S: MiddlewareView + 'static, R, B>(store: StoreContextMut<'_, S>, interface: Option<&str>, function: &str, args: &Arguments, body: B) -> (result: Result<R, Failure>)
    where B: FnOnce(StoreContextMut<'_, S>) -> Result<R, wasmtime::Error>,
    requires
        forall|handle: StoreContextMut<'_, S>| call_requires(body, (handle,)),
    ensures
        result matches Ok(value) ==> exists|handle: StoreContextMut<'_, S>| call_ensures(body, (handle,), Ok(value)),
        result matches Err(Failure::Error(e)) ==> exists|handle: StoreContextMut<'_, S>| call_ensures(body, (handle,), Err(e)),
        exists|lent: &mut S, middleware: &mut MiddlewareCtx<S>| {
            &&& call_ensures(S::middleware, (lent,), middleware)
            &&& routed_through(*middleware, Direction::Export, interface, None, function@, Seq::empty(), *args, result)
        },
{
    let mut store = store;
    let middleware = S::middleware;
    let chain: Arc<Chain<S>> = Arc::clone(middleware(store_data(&mut store)).chain());
    let call = routed_call(chain.next_id(), Direction::Export, interface, function, args);
    chain.dispatch_export(store, &call, body)
}

} // verus!

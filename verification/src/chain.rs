use std::sync::Arc;
use std::sync::atomic::{AtomicU64, Ordering};

use vstd::prelude::*;
use wasmtime::{AsContextMut, StoreContextMut};

use crate::types::{Call, Completion, Denied, Failure, Layer, Outcome};

verus! {

#[verifier::external_type_specification]
#[verifier::external_body]
#[verifier::reject_recursive_types(T)]
pub struct ExStoreContextMut<'a, T: 'static>(StoreContextMut<'a, T>);

/// The store's data (`StoreContextMut::data_mut`).
#[verifier::external_body]
pub(crate) fn store_data<'a, 'b, T: 'static>(store: &'a mut StoreContextMut<'b, T>) -> &'a mut T {
    store.data_mut()
}

/// A shorter-lived handle to the same store (`AsContextMut::as_context_mut`).
#[verifier::external_body]
fn reborrow_store<'a, 'b, T: 'static>(store: &'a mut StoreContextMut<'b, T>) -> StoreContextMut<'a, T> {
    store.as_context_mut()
}

/// Lends mutable store data to a synchronous operation.
///
/// This is the narrow capability needed to bracket a body that cannot hold a
/// mutable borrow of the store data for its whole run.
pub trait StateAccess<S> {
    /// Runs `operation` with temporary mutable access to the store data and
    /// returns what it returned.
    fn with_state<R, F: FnOnce(&mut S) -> R>(&mut self, operation: F) -> (result: R)
        requires
            forall|state: &mut S| call_requires(operation, (state,)),
        ensures
            exists|state: &mut S| call_ensures(operation, (state,), result),
    ;
}

impl<'a, S> StateAccess<S> for &'a mut S {
    fn with_state<R, F: FnOnce(&mut S) -> R>(&mut self, operation: F) -> (result: R) {
        operation(&mut **self)
    }
}

/// One step of a dispatched call, as seen from the chain.
#[derive(Clone, Copy, Debug, PartialEq, Eq)]
pub enum Hook {
    /// The `before` hook of the layer at this position ran.
    Before(usize),
    /// The call body ran.
    Body,
    /// The `after` hook of the layer at this position ran.
    After(usize),
}

/// `before` hooks of the first `count` layers, outermost first.
pub open spec fn befores(count: nat) -> Seq<Hook> {
    Seq::new(count, |i: int| Hook::Before(i as usize))
}

/// `after` hooks of the first `count` layers, innermost first.
pub open spec fn afters(count: nat) -> Seq<Hook> {
    Seq::new(count, |i: int| Hook::After((count - 1 - i) as usize))
}

/// The hooks a chain of `layers` layers runs when the first `admitted`
/// layers allow a call: when all allow it, every `before` hook, the body,
/// then every `after` hook in reverse; otherwise the `before` hooks up to and
/// including the refusing layer, no body, and the `after` hooks of the layers
/// that allowed it, in reverse.
pub open spec fn onion(layers: nat, admitted: nat) -> Seq<Hook> {
    if admitted >= layers {
        befores(layers) + seq![Hook::Body] + afters(layers)
    } else {
        befores(admitted + 1) + afters(admitted)
    }
}

/// In every dispatch the body runs exactly when every layer allowed the
/// call; each layer's `before` hook runs before anything inside it; a layer's
/// `after` hook runs exactly when that layer allowed the call, after
/// everything inside it; and the refusing layer's `before` hook is the last
/// `before` hook to run, with no `after` hook of its own.
pub proof fn onion_brackets(layers: nat, admitted: nat)
    requires
        admitted <= layers <= usize::MAX,
    ensures
        onion(layers, admitted).contains(Hook::Body) <==> admitted == layers,
        forall|i: nat| i < layers ==> (#[trigger] onion(layers, admitted).contains(Hook::After(i as usize)) <==> i < admitted),
        forall|i: nat| i < layers ==> (#[trigger] onion(layers, admitted).contains(Hook::Before(i as usize)) <==> i <= admitted),
        admitted < layers ==> onion(layers, admitted).last() == (if admitted == 0 { Hook::Before(0) } else { Hook::After(0) }),
        forall|i: int, j: int| 0 <= i < j < onion(layers, admitted).len() ==> hook_order(#[trigger] onion(layers, admitted)[i], #[trigger] onion(layers, admitted)[j]),
{
    let trace = onion(layers, admitted);
    let b = if admitted >= layers { layers } else { admitted + 1 };
    let mid: nat = if admitted >= layers { 1 } else { 0 };
    assert forall|k: int| 0 <= k < trace.len() implies #[trigger] trace[k] == (if k < b {
        Hook::Before(k as usize)
    } else if k < b + mid {
        Hook::Body
    } else {
        Hook::After((admitted - 1 - (k - b - mid)) as usize)
    }) by {
        if admitted >= layers {
            assert(trace == befores(layers) + seq![Hook::Body] + afters(layers));
        } else {
            assert(trace == befores(admitted + 1) + afters(admitted));
        }
    }
    assert(trace.len() == b + mid + admitted);
    if admitted == layers {
        assert(trace[b as int] == Hook::Body);
    } else {
        assert forall|k: int| 0 <= k < trace.len() implies trace[k] != Hook::Body by {}
    }
    assert forall|i: nat| i < layers implies (#[trigger] trace.contains(Hook::After(i as usize)) <==> i < admitted) by {
        if i < admitted {
            let k = b + mid + (admitted - 1 - i);
            assert(trace[k as int] == Hook::After(i as usize));
        }
        if trace.contains(Hook::After(i as usize)) {
            let k = choose|k: int| 0 <= k < trace.len() && trace[k] == Hook::After(i as usize);
            assert(k >= b + mid);
            assert((admitted - 1 - (k - b - mid)) as usize == i as usize);
            assert(admitted - 1 - (k - b - mid) == i);
        }
    }
    assert forall|i: nat| i < layers implies (#[trigger] trace.contains(Hook::Before(i as usize)) <==> i <= admitted) by {
        if i <= admitted && i < b {
            assert(trace[i as int] == Hook::Before(i as usize));
        }
        if trace.contains(Hook::Before(i as usize)) {
            let k = choose|k: int| 0 <= k < trace.len() && trace[k] == Hook::Before(i as usize);
            assert(k < b);
            assert(k as usize == i as usize);
            assert(k == i);
        }
    }
}

/// Whether a dispatch of `call` through `chain`, started on the store data
/// `start` and ending with `result`, ran its hooks as an onion: each of the
/// first `admitted` layers allowed `call`, its `before` hook run on the store
/// data that `entered` gives in turn, starting from `start`; the next layer,
/// if there is one, refused it with the very refusal returned; and the
/// frames of the layers that allowed it then observed `call` ending as
/// `outcome`, innermost first, each run on the store data `left` gives.
pub open spec fn dispatched<S, R>(
    chain: Chain<S>,
    start: S,
    call: Call,
    result: Result<R, Failure>,
    admitted: nat,
    entered: Seq<S>,
    frames: Frames<S>,
    outcome: Outcome,
    left: Seq<S>,
) -> bool {
    &&& admitted <= chain.len()
    &&& (admitted < chain.len() <==> result matches Err(Failure::Denied(_)))
    &&& entered.len() == (if admitted < chain.len() { admitted + 1 } else { admitted })
    &&& entered.len() > 0 ==> entered[0] == start
    &&& forall|j: int| 0 <= j < admitted ==> #[trigger] chain.answers(j, entered[j], call, None)
    &&& (result matches Err(Failure::Denied(denied)) ==> chain.answers(admitted as int, entered[admitted as int], call, Some(denied)))
    &&& frames.len() == admitted
    &&& left.len() == admitted
    &&& forall|j: int| 0 <= j < admitted ==> #[trigger] frames.observes(admitted - 1 - j, left[j], call, outcome)
    &&& match result {
        Ok(_) => outcome is Returned,
        Err(failure) => outcome == Outcome::Failed(&failure),
    }
}

/// The order in which hooks may follow one another in a dispatch: `before`
/// hooks outside-in, then the body, then `after` hooks inside-out.
pub open spec fn hook_order(first: Hook, second: Hook) -> bool {
    match (first, second) {
        (Hook::Before(i), Hook::Before(j)) => i < j,
        (Hook::Before(_), _) => true,
        (Hook::Body, Hook::After(_)) => true,
        (Hook::After(i), Hook::After(j)) => i > j,
        _ => false,
    }
}

/// The refusal in `answer`, or `None` when it allowed the call.
pub open spec fn refusal_of<A>(answer: Result<A, Denied>) -> Option<Denied> {
    match answer {
        Ok(_) => None,
        Err(denied) => Some(denied),
    }
}

/// A layer that allowed a call, holding its frame until the call ends.
trait ActiveLayer<S>: Send {
    /// Whether the layer's `after` hook, run on the store data `before`,
    /// could have observed `call` ending as `outcome`.
    spec fn observes(&self, before: S, call: Call, outcome: Outcome) -> bool;

    fn after(self: Box<Self>, state: &mut S, call: &Call<'_>, outcome: Outcome<'_>)
        ensures
            self.observes(*old(state), *call, outcome),
    ;
}

/// A layer of a chain with its frame type hidden.
trait ErasedLayer<S>: Send + Sync {
    /// Whether the layer's `before` hook, run on the store data `before`,
    /// could have answered `call` with `refusal` (`None` when it allowed the
    /// call).
    spec fn answers(&self, before: S, call: Call, refusal: Option<Denied>) -> bool;

    fn before(&self, state: &mut S, call: &Call<'_>) -> (admission: Result<Box<dyn ActiveLayer<S>>, Denied>)
        ensures
            self.answers(*old(state), *call, refusal_of(admission)),
    ;
}

struct ActiveFrame<L, F> {
    layer: Arc<L>,
    frame: F,
}

impl<S, F: Send, L: Layer<S, Frame = F>> ActiveLayer<S> for ActiveFrame<L, F> {
    closed spec fn observes(&self, before: S, call: Call, outcome: Outcome) -> bool {
        exists|lent: &mut S| *lent == before && call_ensures(L::after, (&*self.layer, lent, &call, self.frame, outcome), ())
    }

    fn after(self: Box<Self>, state: &mut S, call: &Call<'_>, outcome: Outcome<'_>)
        ensures
            exists|lent: &mut S| {
                &&& *lent == *old(state)
                &&& *final(lent) == *final(state)
                &&& call_ensures(L::after, (&*self.layer, lent, call, self.frame, outcome), ())
            },
    {
        let ghost erased = *self;
        let active = *self;
        let after = L::after;
        after(&*active.layer, state, call, active.frame, outcome);
        assert(forall|lent: &mut S| *lent == *old(state) && #[trigger] call_ensures(L::after, (&*erased.layer, lent, call, erased.frame, outcome), ())
            ==> erased.observes(*old(state), *call, outcome));
    }
}

struct SharedLayer<L> {
    layer: Arc<L>,
}

impl<S, L: Layer<S> + 'static> ErasedLayer<S> for SharedLayer<L> where L::Frame: 'static {
    closed spec fn answers(&self, before: S, call: Call, refusal: Option<Denied>) -> bool {
        exists|lent: &mut S, reply: Result<L::Frame, Denied>| {
            &&& *lent == before
            &&& call_ensures(L::before, (&*self.layer, lent, &call), reply)
            &&& refusal == refusal_of(reply)
        }
    }

    fn before(&self, state: &mut S, call: &Call<'_>) -> (admission: Result<Box<dyn ActiveLayer<S>>, Denied>)
        ensures
            exists|lent: &mut S, reply: Result<L::Frame, Denied>| {
                &&& *lent == *old(state)
                &&& *final(lent) == *final(state)
                &&& call_ensures(L::before, (&*self.layer, lent, call), reply)
                &&& admission is Ok <==> reply is Ok
                &&& reply is Err ==> admission == Err::<Box<dyn ActiveLayer<S>>, Denied>(reply->Err_0)
            },
    {
        let before = L::before;
        let admitted = before(&*self.layer, state, call);
        let ghost reply = admitted;
        let result: Result<Box<dyn ActiveLayer<S>>, Denied> = match admitted {
            Ok(frame) => {
                let active = ActiveFrame { layer: Arc::clone(&self.layer), frame };
                Ok(Box::new(active))
            },
            Err(denied) => Err(denied),
        };
        assert(refusal_of(result) == refusal_of(reply));
        assert(forall|lent: &mut S| *lent == *old(state) && #[trigger] call_ensures(L::before, (&*self.layer, lent, call), reply)
            ==> self.answers(*old(state), *call, refusal_of(reply)));
        result
    }
}

#[verifier::reject_recursive_types(S)]
struct LayerSlot<S> {
    layer: Box<dyn ErasedLayer<S>>,
}

#[verifier::reject_recursive_types(S)]
struct FrameSlot<S> {
    frame: Box<dyn ActiveLayer<S>>,
}

fn push_layer<S>(slots: &mut Vec<LayerSlot<S>>, slot: LayerSlot<S>)
    ensures
        final(slots)@.len() == old(slots)@.len() + 1,
{
    slots.push(slot);
}

fn push_frame<S>(slots: &mut Vec<FrameSlot<S>>, slot: FrameSlot<S>)
    ensures
        final(slots)@.len() == old(slots)@.len() + 1,
{
    slots.push(slot);
}

fn pop_frame<S>(slots: &mut Vec<FrameSlot<S>>) -> (slot: FrameSlot<S>)
    requires
        old(slots)@.len() > 0,
    ensures
        final(slots)@ == old(slots)@.drop_last(),
        slot == old(slots)@.last(),
{
    slots.pop().unwrap()
}

/// The frames of the layers that allowed a call, outermost first.
#[verifier::reject_recursive_types(S)]
pub struct Frames<S> {
    slots: Vec<FrameSlot<S>>,
}

impl<S> Frames<S> {
    /// The number of layers that allowed the call.
    pub closed spec fn len(&self) -> nat {
        self.slots@.len()
    }

    /// Whether the `after` hook of the frame at `index`, run on the store
    /// data `before`, could have observed `call` ending as `outcome`.
    pub closed spec fn observes(&self, index: int, before: S, call: Call, outcome: Outcome) -> bool {
        self.slots@[index].frame.observes(before, call, outcome)
    }

    /// Returns the number of layers that allowed the call.
    pub fn count(&self) -> (count: usize)
        ensures
            count == self.len(),
    {
        self.slots.len()
    }
}

/// An ordered, type-erased collection of middleware layers.
#[verifier::reject_recursive_types(S)]
pub struct Chain<S> {
    layers: Vec<LayerSlot<S>>,
    next_id: AtomicU64,
}

/// Builds a [`Chain`] while preserving layer registration order.
#[verifier::reject_recursive_types(S)]
pub struct ChainBuilder<S> {
    layers: Vec<LayerSlot<S>>,
}

impl<S> ChainBuilder<S> {
    /// The number of layers registered so far.
    pub closed spec fn len(&self) -> nat {
        self.layers@.len()
    }

    /// Appends a layer to the inside of the chain.
    pub fn layer<L: Layer<S> + 'static>(self, layer: L) -> (builder: ChainBuilder<S>)
        where L::Frame: 'static,
        ensures
            builder.len() == self.len() + 1,
    {
        let mut layers = self.layers;
        let shared: Box<dyn ErasedLayer<S>> = Box::new(SharedLayer { layer: Arc::new(layer) });
        push_layer(&mut layers, LayerSlot { layer: shared });
        ChainBuilder { layers }
    }

    /// Finishes the chain and starts its call identifiers at one.
    pub fn build(self) -> (chain: Chain<S>)
        ensures
            chain.len() == self.len(),
    {
        Chain { layers: self.layers, next_id: AtomicU64::new(1) }
    }
}

impl<S> Chain<S> {
    /// The number of layers in the chain.
    pub closed spec fn len(&self) -> nat {
        self.layers@.len()
    }

    /// Whether the `before` hook of the layer at `index`, run on the store
    /// data `before`, could have answered `call` with `refusal` (`None` when
    /// it allowed the call).
    pub closed spec fn answers(&self, index: int, before: S, call: Call, refusal: Option<Denied>) -> bool {
        self.layers@[index].layer.answers(before, call, refusal)
    }

    /// Starts building a chain for store data of type `S`.
    pub fn builder() -> (builder: ChainBuilder<S>)
        ensures
            builder.len() == 0,
    {
        ChainBuilder { layers: Vec::new() }
    }

    /// Returns the number of layers in the chain.
    pub fn layer_count(&self) -> (count: usize)
        ensures
            count == self.len(),
    {
        self.layers.len()
    }

    /// Returns the next call identifier of this chain.
    ///
    /// Identifiers come from an atomic counter that starts at one.
    pub fn next_id(&self) -> u64 {
        self.next_id.fetch_add(1, Ordering::Relaxed)
    }

    /// Runs the `before` hooks outside-in until one refuses the call.
    ///
    /// Returns the frames of the layers that allowed the call, the refusal if
    /// any, and, as ghost values, the hooks that ran and the store data each
    /// of them was run on, in order.
    pub fn before(&self, state: &mut S, call: &Call<'_>) -> (admission: (Frames<S>, Option<Denied>, Ghost<(Seq<Hook>, Seq<S>)>))
        ensures
            admission.0.len() <= self.len(),
            admission.1.is_none() <==> admission.0.len() == self.len(),
            admission.1.is_none() ==> admission.2@.0 == befores(self.len()),
            admission.1.is_some() ==> admission.2@.0 == befores(admission.0.len() + 1),
            admission.2@.1.len() == admission.2@.0.len(),
            admission.2@.1.len() > 0 ==> admission.2@.1[0] == *old(state),
            admission.2@.1.len() == 0 ==> *final(state) == *old(state),
            forall|j: int| 0 <= j < admission.0.len() ==> #[trigger] self.answers(j, admission.2@.1[j], *call, None),
            admission.1 matches Some(denied) ==> self.answers(admission.0.len() as int, admission.2@.1[admission.0.len() as int], *call, Some(denied)),
    {
        let mut slots: Vec<FrameSlot<S>> = Vec::new();
        let ghost mut hooks: Seq<Hook> = Seq::empty();
        let ghost mut seen: Seq<S> = Seq::empty();
        let mut i: usize = 0;
        while i < self.layers.len()
            invariant
                i <= self.layers@.len(),
                slots@.len() == i,
                hooks == befores(i as nat),
                seen.len() == i,
                i > 0 ==> seen[0] == *old(state),
                i == 0 ==> *state == *old(state),
                forall|j: int| 0 <= j < i ==> #[trigger] self.answers(j, seen[j], *call, None),
            decreases self.layers@.len() - i,
        {
            proof {
                hooks = hooks.push(Hook::Before(i));
                assert(hooks =~= befores((i + 1) as nat));
            }
            let ghost before_call = *state;
            let answer = self.layers[i].layer.before(state, call);
            proof {
                let previous = seen;
                seen = seen.push(before_call);
                assert(seen[i as int] == before_call);
                assert(self.answers(i as int, seen[i as int], *call, refusal_of(answer)));
                assert forall|j: int| 0 <= j < i implies #[trigger] self.answers(j, seen[j], *call, None) by {
                    assert(seen[j] == previous[j]);
                }
                if i > 0 {
                    assert(seen[0] == previous[0]);
                }
            }
            match answer {
                Ok(active) => push_frame(&mut slots, FrameSlot { frame: active }),
                Err(denied) => {
                    return (Frames { slots }, Some(denied), Ghost((hooks, seen)));
                },
            }
            i = i + 1;
        }
        (Frames { slots }, None, Ghost((hooks, seen)))
    }

    /// Runs the `after` hooks of `frames` inside-out with `outcome`.
    ///
    /// Returns, as ghost values, the hooks that ran and the store data each
    /// of them was run on, in order.
    pub fn after(state: &mut S, call: &Call<'_>, frames: Frames<S>, outcome: Outcome<'_>) -> (ended: Ghost<(Seq<Hook>, Seq<S>)>)
        ensures
            ended@.0 == afters(frames.len()),
            ended@.1.len() == frames.len(),
            ended@.1.len() > 0 ==> ended@.1[0] == *old(state),
            ended@.1.len() == 0 ==> *final(state) == *old(state),
            forall|j: int| 0 <= j < frames.len() ==> #[trigger] frames.observes(frames.len() - 1 - j, ended@.1[j], *call, outcome),
    {
        let ghost count = frames.len();
        let ghost all = frames;
        let mut slots = frames.slots;
        let ghost mut hooks: Seq<Hook> = Seq::empty();
        let ghost mut seen: Seq<S> = Seq::empty();
        while slots.len() > 0
            invariant
                slots@.len() <= count,
                count == all.len(),
                slots@ == all.slots@.subrange(0, slots@.len() as int),
                hooks == Seq::new((count - slots@.len()) as nat, |i: int| Hook::After((count - 1 - i) as usize)),
                seen.len() == count - slots@.len(),
                seen.len() > 0 ==> seen[0] == *old(state),
                seen.len() == 0 ==> *state == *old(state),
                forall|j: int| 0 <= j < seen.len() ==> #[trigger] all.observes(count - 1 - j, seen[j], *call, outcome),
            decreases slots@.len(),
        {
            let ghost remaining = slots@;
            let slot = pop_frame(&mut slots);
            proof {
                let next = Hook::After(slots@.len() as usize);
                assert(Seq::new((count - slots@.len()) as nat, |i: int| Hook::After((count - 1 - i) as usize))
                    =~= hooks.push(next));
                hooks = hooks.push(next);
                assert(slot == all.slots@[slots@.len() as int]);
                assert(slots@ =~= all.slots@.subrange(0, slots@.len() as int));
            }
            let ghost before_call = *state;
            slot.frame.after(state, call, outcome);
            proof {
                let previous = seen;
                seen = seen.push(before_call);
                assert(all.observes(count - 1 - previous.len(), seen[previous.len() as int], *call, outcome));
                assert forall|j: int| 0 <= j < seen.len() implies #[trigger] all.observes(count - 1 - j, seen[j], *call, outcome) by {
                    if j < previous.len() {
                        assert(seen[j] == previous[j]);
                    }
                }
                if previous.len() > 0 {
                    assert(seen[0] == previous[0]);
                }
            }
        }
        proof {
            assert(hooks =~= afters(count));
        }
        Ghost((hooks, seen))
    }

    /// Runs a body between the chain's hooks and reports the hooks that ran.
    pub fn dispatch_traced<R, B>(&self, state: &mut S, call: &Call<'_>, body: B) -> (out: (Result<R, Failure>, Ghost<Seq<Hook>>))
        where B: FnOnce(&mut S) -> Result<(R, Completion), wasmtime::Error>,
        requires
            forall|s: &mut S| call_requires(body, (s,)),
        ensures
            exists|admitted: nat, entered: Seq<S>, frames: Frames<S>, outcome: Outcome, left: Seq<S>| {
                &&& dispatched(*self, *old(state), *call, out.0, admitted, entered, frames, outcome, left)
                &&& out.1@ == onion(self.len(), admitted)
            },
            out.0 matches Ok(value) ==> exists|s: &mut S, c: Completion| call_ensures(body, (s,), Ok((value, c))),
            out.0 matches Err(Failure::Error(e)) ==> exists|s: &mut S| call_ensures(body, (s,), Err(e)),
    {
        let (frames, denial, entry) = self.before(state, call);
        let ghost entered = entry@.0;
        let ghost admitted = frames.len();
        let ghost all_frames = frames;
        let ghost mut from_body: Option<Result<(R, Completion), wasmtime::Error>> = None;
        let ran: Result<(R, Completion), Failure> = match denial {
            Some(denied) => Err(Failure::Denied(denied)),
            None => {
                let returned = body(state);
                proof {
                    from_body = Some(returned);
                }
                match returned {
                    Ok(value) => Ok(value),
                    Err(error) => Err(Failure::Error(error)),
                }
            },
        };
        assert(ran matches Ok(pair) ==> from_body == Some(Ok::<(R, Completion), wasmtime::Error>(pair)));
        assert(ran matches Err(Failure::Error(e)) ==> from_body == Some(Err::<(R, Completion), wasmtime::Error>(e)));
        assert(from_body matches Some(returned) ==> exists|s: &mut S| call_ensures(body, (s,), returned));
        let ghost ran_copy = ran;
        let ghost middle: Seq<Hook> = if admitted == self.len() { seq![Hook::Body] } else { Seq::empty() };
        let outcome = match &ran {
            Ok((_, completion)) => Outcome::Returned(completion),
            Err(failure) => Outcome::Failed(failure),
        };
        let ghost seen_outcome = outcome;
        let ended = Self::after(state, call, frames, outcome);
        let ghost left = ended@.0;
        let result = match ran {
            Ok((value, _)) => Ok(value),
            Err(failure) => Err(failure),
        };
        assert(result matches Ok(v) ==> (ran_copy matches Ok(p) && p.0 == v));
        proof {
            assert(entered + middle + left =~= onion(self.len(), admitted));
            assert(dispatched(*self, *old(state), *call, result, admitted, entry@.1, all_frames, seen_outcome, ended@.1));
            if let Some(returned) = from_body {
                let w = choose|s: &mut S| call_ensures(body, (s,), returned);
                assert(call_ensures(body, (w,), returned));
                if let Ok(pair) = returned {
                    assert(ran_copy == Ok::<(R, Completion), Failure>(pair));
                    assert(call_ensures(body, (w,), Ok((pair.0, pair.1))));
                }
            }
        }
        (result, Ghost(entered + middle + left))
    }

    /// Runs an export-like body, which needs the whole store, between the
    /// chain's hooks.
    ///
    /// The hooks see the store's data; the body runs only when every layer
    /// allows the call.
    pub fn dispatch_export<R, B>(&self, store: StoreContextMut<'_, S>, call: &Call<'_>, body: B) -> (result: Result<R, Failure>)
        where S: 'static, B: FnOnce(StoreContextMut<'_, S>) -> Result<R, wasmtime::Error>,
        requires
            forall|handle: StoreContextMut<'_, S>| call_requires(body, (handle,)),
        ensures
            result matches Ok(value) ==> exists|handle: StoreContextMut<'_, S>| call_ensures(body, (handle,), Ok(value)),
            result matches Err(Failure::Error(e)) ==> exists|handle: StoreContextMut<'_, S>| call_ensures(body, (handle,), Err(e)),
            exists|start: S, admitted: nat, entered: Seq<S>, frames: Frames<S>, outcome: Outcome, left: Seq<S>|
                dispatched(*self, start, *call, result, admitted, entered, frames, outcome, left),
    {
        let mut store = store;
        let (frames, denial, entry) = self.before(store_data(&mut store), call);
        let ghost all_frames = frames;
        let ghost mut from_body: Option<Result<R, wasmtime::Error>> = None;
        let result: Result<R, Failure> = match denial {
            Some(denied) => Err(Failure::Denied(denied)),
            None => {
                let returned = body(reborrow_store(&mut store));
                proof {
                    from_body = Some(returned);
                }
                match returned {
                    Ok(value) => Ok(value),
                    Err(error) => Err(Failure::Error(error)),
                }
            },
        };
        let done = Completion::default();
        let outcome = match &result {
            Ok(_) => Outcome::Returned(&done),
            Err(failure) => Outcome::Failed(failure),
        };
        let ghost seen_outcome = outcome;
        let ended = Self::after(store_data(&mut store), call, frames, outcome);
        assert(result matches Ok(v) ==> from_body == Some(Ok::<R, wasmtime::Error>(v)));
        assert(result matches Err(Failure::Error(e)) ==> from_body == Some(Err::<R, wasmtime::Error>(e)));
        assert(from_body matches Some(returned) ==> exists|handle: StoreContextMut<'_, S>| call_ensures(body, (handle,), returned));
        proof {
            let start = if entry@.1.len() > 0 { entry@.1[0] } else { arbitrary() };
            assert(dispatched(*self, start, *call, result, all_frames.len(), entry@.1, all_frames, seen_outcome, ended@.1));
        }
        result
    }

    /// Runs a body that reaches the store data through `access` between the
    /// chain's hooks, lending the data to the hooks only while they run.
    pub fn dispatch_access<A: StateAccess<S>, R, B>(&self, access: A, call: &Call<'_>, body: B) -> (result: Result<R, Failure>)
        where B: FnOnce(&mut A) -> Result<(R, Completion), wasmtime::Error>,
        requires
            forall|a: &mut A| call_requires(body, (a,)),
        ensures
            result matches Ok(value) ==> exists|a: &mut A, c: Completion| call_ensures(body, (a,), Ok((value, c))),
            result matches Err(Failure::Error(e)) ==> exists|a: &mut A| call_ensures(body, (a,), Err(e)),
            exists|start: S, admitted: nat, entered: Seq<S>, frames: Frames<S>, outcome: Outcome, left: Seq<S>|
                dispatched(*self, start, *call, result, admitted, entered, frames, outcome, left),
    {
        let mut access = access;
        let (frames, denial, entry) = access.with_state(|state: &mut S| -> (admission: (Frames<S>, Option<Denied>, Ghost<(Seq<Hook>, Seq<S>)>))
            ensures
                admission.0.len() <= self.len(),
                admission.1.is_none() <==> admission.0.len() == self.len(),
                admission.2@.1.len() == (if admission.1.is_none() { admission.0.len() } else { admission.0.len() + 1 }),
                forall|j: int| 0 <= j < admission.0.len() ==> #[trigger] self.answers(j, admission.2@.1[j], *call, None),
                admission.1 matches Some(denied) ==> self.answers(admission.0.len() as int, admission.2@.1[admission.0.len() as int], *call, Some(denied)),
            {
                self.before(state, call)
            });
        let ghost all_frames = frames;
        let ghost mut from_body: Option<Result<(R, Completion), wasmtime::Error>> = None;
        let ran: Result<(R, Completion), Failure> = match denial {
            Some(denied) => Err(Failure::Denied(denied)),
            None => {
                let returned = body(&mut access);
                proof {
                    from_body = Some(returned);
                }
                match returned {
                    Ok(pair) => Ok(pair),
                    Err(error) => Err(Failure::Error(error)),
                }
            },
        };
        let ghost ran_copy = ran;
        let outcome = match &ran {
            Ok((_, completion)) => Outcome::Returned(completion),
            Err(failure) => Outcome::Failed(failure),
        };
        let ghost seen_outcome = outcome;
        let ended = access.with_state(|state: &mut S| -> (ended: Ghost<(Seq<Hook>, Seq<S>)>)
            ensures
                ended@.1.len() == all_frames.len(),
                forall|j: int| 0 <= j < all_frames.len() ==> #[trigger] all_frames.observes(all_frames.len() - 1 - j, ended@.1[j], *call, seen_outcome),
            {
                Self::after(state, call, frames, outcome)
            });
        let result = match ran {
            Ok((value, _)) => Ok(value),
            Err(failure) => Err(failure),
        };
        assert(result matches Ok(v) ==> (ran_copy matches Ok(p) && p.0 == v));
        assert(ran_copy matches Ok(pair) ==> from_body == Some(Ok::<(R, Completion), wasmtime::Error>(pair)));
        assert(result matches Err(Failure::Error(e)) ==> from_body == Some(Err::<(R, Completion), wasmtime::Error>(e)));
        assert(from_body matches Some(returned) ==> exists|a: &mut A| call_ensures(body, (a,), returned));
        proof {
            if let Some(Ok(p)) = from_body {
                let w = choose|a: &mut A| call_ensures(body, (a,), Ok::<(R, Completion), wasmtime::Error>(p));
                assert(call_ensures(body, (w,), Ok((p.0, p.1))));
            }
            let start = if entry@.1.len() > 0 { entry@.1[0] } else { arbitrary() };
            assert(dispatched(*self, start, *call, result, all_frames.len(), entry@.1, all_frames, seen_outcome, ended@.1));
        }
        result
    }

    /// Runs an import-like body between the chain's hooks.
    ///
    /// The body runs only when every layer allows the call. A refusal is
    /// returned as [`Failure::Denied`] and a body error as [`Failure::Error`].
    pub fn dispatch<R, B>(&self, state: &mut S, call: &Call<'_>, body: B) -> (result: Result<R, Failure>)
        where B: FnOnce(&mut S) -> Result<(R, Completion), wasmtime::Error>,
        requires
            forall|s: &mut S| call_requires(body, (s,)),
        ensures
            result matches Ok(value) ==> exists|s: &mut S, c: Completion| call_ensures(body, (s,), Ok((value, c))),
            result matches Err(Failure::Error(e)) ==> exists|s: &mut S| call_ensures(body, (s,), Err(e)),
            exists|admitted: nat, entered: Seq<S>, frames: Frames<S>, outcome: Outcome, left: Seq<S>|
                dispatched(*self, *old(state), *call, result, admitted, entered, frames, outcome, left),
    {
        let (result, _) = self.dispatch_traced(state, call, body);
        result
    }
}

} // verus!

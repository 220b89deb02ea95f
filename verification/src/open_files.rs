use vstd::prelude::*;
use vstd::string::*;

use crate::context::{MiddlewareCtx, MiddlewareView};
use crate::text::{decimal, push_decimal, same_text};
use crate::types::{Call, Completion, Denied, Layer, Outcome};

verus! {

/// The interface whose descriptors are counted.
pub const FILESYSTEM_TYPES: &'static str = "wasi:filesystem/types";

/// The interface that hands out preopened directories.
pub const FILESYSTEM_PREOPENS: &'static str = "wasi:filesystem/preopens";

/// The call that opens a descriptor.
pub const OPEN_AT: &'static str = "[method]descriptor.open-at";

/// The call that drops a descriptor.
pub const DROP_DESCRIPTOR: &'static str = "[resource-drop]descriptor";

/// The call that lists preopened directories.
pub const GET_DIRECTORIES: &'static str = "get-directories";

/// Whether `call` drops descriptors.
pub open spec fn is_descriptor_drop(call: Call<'_>) -> bool {
    call.interface_view() == Some(FILESYSTEM_TYPES@) && call.function@ == DROP_DESCRIPTOR@
}

/// Whether `call` opens a descriptor.
pub open spec fn is_open(call: Call<'_>) -> bool {
    call.interface_view() == Some(FILESYSTEM_TYPES@) && call.function@ == OPEN_AT@
}

/// Whether `call` lists the preopened directories.
pub open spec fn is_preopen_listing(call: Call<'_>) -> bool {
    call.interface_view() == Some(FILESYSTEM_PREOPENS@) && call.function@ == GET_DIRECTORIES@
}

/// The refusal reason once `limit` descriptors are live or reserved.
pub open spec fn limit_message(limit: nat) -> Seq<char> {
    "open file limit of "@ + decimal(limit) + " reached"@
}

/// A decision with its refusal reason left out: `None` for a refusal.
pub open spec fn decision_kind(decision: Result<Option<bool>, Denied>) -> Option<Option<bool>> {
    match decision {
        Ok(frame) => Some(frame),
        Err(_) => None,
    }
}

/// How deciding `call` with `limit` moves an invocation from `live`
/// descriptors and `pending` opens to `next_live` and `next_pending`, with
/// the frame `decision` (`None` for a refusal).
///
/// A drop stops counting its descriptors at once. An open is refused when
/// `limit` descriptors are live or reserved, and otherwise reserves a slot.
/// The frame is `Some(true)` for an open, `Some(false)` for the preopen
/// listing, and `None` otherwise.
pub open spec fn decided(live: Set<u32>, pending: nat, limit: nat, call: Call<'_>, decision: Option<Option<bool>>, next_live: Set<u32>, next_pending: nat) -> bool {
    if is_descriptor_drop(call) {
        decision == Some(None::<bool>) && next_live == live.difference(call.handles@.to_set()) && next_pending == pending
    } else if is_open(call) {
        if live.len() + pending >= limit {
            decision.is_none() && next_live == live && next_pending == pending
        } else {
            decision == Some(Some(true)) && next_live == live && next_pending == pending + 1
        }
    } else if is_preopen_listing(call) {
        decision == Some(Some(false)) && next_live == live && next_pending == pending
    } else {
        decision == Some(None::<bool>) && next_live == live && next_pending == pending
    }
}

/// The live descriptors of an invocation whose context holds `stored`;
/// none before it holds any state.
pub open spec fn stored_live(stored: Option<OpenFileState>) -> Set<u32> {
    match stored {
        Some(files) => files.live(),
        None => Set::empty(),
    }
}

/// The pending opens of an invocation whose context holds `stored`; none
/// before it holds any state.
pub open spec fn stored_pending(stored: Option<OpenFileState>) -> nat {
    match stored {
        Some(files) => files.pending(),
        None => 0,
    }
}

/// How a call admitted with `frame` and ending as `outcome` moves an
/// invocation from `live` descriptors and `pending` opens to `next_live` and
/// `next_pending`: an open's reservation is released whatever the outcome,
/// and descriptors returned by a successful open or preopen listing become
/// live.
pub open spec fn settled(live: Set<u32>, pending: nat, frame: Option<bool>, outcome: Outcome<'_>, next_live: Set<u32>, next_pending: nat) -> bool {
    &&& next_pending == (if frame == Some(true) && pending > 0 { (pending - 1) as nat } else { pending })
    &&& next_live == (match (frame, outcome) {
        (Some(_), Outcome::Returned(completion)) => live.union(completion.produced@.to_set()),
        _ => live,
    })
}

/// The calls the layer tells apart are different calls.
proof fn kinds_are_distinct(call: Call<'_>)
    ensures
        !(is_open(call) && is_descriptor_drop(call)),
        !(is_open(call) && is_preopen_listing(call)),
        !(is_descriptor_drop(call) && is_preopen_listing(call)),
{
    reveal_strlit("wasi:filesystem/types");
    reveal_strlit("wasi:filesystem/preopens");
    reveal_strlit("[method]descriptor.open-at");
    reveal_strlit("[resource-drop]descriptor");
    reveal_strlit("get-directories");
    assert(DROP_DESCRIPTOR@[1] != OPEN_AT@[1]);
    assert(FILESYSTEM_TYPES@.len() != FILESYSTEM_PREOPENS@.len());
}

/// An admitted open never takes an invocation past its limit: once it has
/// reserved its slot, live and reserved descriptors together are at most the
/// limit.
pub proof fn admitted_open_within_limit(live: Set<u32>, pending: nat, limit: nat, call: Call<'_>, next_live: Set<u32>, next_pending: nat, frame: Option<bool>)
    requires
        is_open(call),
        decided(live, pending, limit, call, Some(frame), next_live, next_pending),
    ensures
        next_live.len() + next_pending <= limit,
{
    kinds_are_distinct(call);
}

/// A failed open does not consume a slot: deciding it and settling its
/// failure leaves the live descriptors and reservations as they were.
pub proof fn failed_open_releases_slot(live: Set<u32>, pending: nat, limit: nat, call: Call<'_>, frame: Option<bool>, mid_live: Set<u32>, mid_pending: nat, outcome: Outcome<'_>, next_live: Set<u32>, next_pending: nat)
    requires
        is_open(call),
        decided(live, pending, limit, call, Some(frame), mid_live, mid_pending),
        settled(mid_live, mid_pending, frame, outcome, next_live, next_pending),
        !(outcome is Returned),
    ensures
        next_live == live,
        next_pending == pending,
{
    kinds_are_distinct(call);
}

/// A drop frees its descriptors' slots as soon as it is decided, whatever
/// Deciding a descriptor drop allows the call and keeps live exactly the
/// descriptors that were live and that the drop does not name; the
/// reservations of opens in progress stay as they were.
pub proof fn drop_keeps_unnamed_descriptors(
    live: Set<u32>,
    pending: nat,
    limit: nat,
    call: Call<'_>,
    decision: Option<Option<bool>>,
    next_live: Set<u32>,
    next_pending: nat,
)
    requires
        is_descriptor_drop(call),
        decided(live, pending, limit, call, decision, next_live, next_pending),
    ensures
        decision == Some(None::<bool>),
        next_pending == pending,
        forall|handle: u32| #[trigger] next_live.contains(handle) <==> (live.contains(handle) && !call.handles@.contains(handle)),
{
}

/// becomes of the call.
pub proof fn drop_frees_slots(live: Set<u32>, pending: nat, limit: nat, call: Call<'_>, frame: Option<bool>, next_live: Set<u32>, next_pending: nat, handle: u32)
    requires
        is_descriptor_drop(call),
        decided(live, pending, limit, call, Some(frame), next_live, next_pending),
        call.handles@.contains(handle),
    ensures
        !next_live.contains(handle),
        next_pending == pending,
{
    kinds_are_distinct(call);
}

/// A successful open trades its reservation for the descriptor it returns.
pub proof fn successful_open_becomes_live(live: Set<u32>, pending: nat, limit: nat, call: Call<'_>, frame: Option<bool>, mid_live: Set<u32>, mid_pending: nat, completion: &Completion, next_live: Set<u32>, next_pending: nat)
    requires
        is_open(call),
        decided(live, pending, limit, call, Some(frame), mid_live, mid_pending),
        settled(mid_live, mid_pending, frame, Outcome::Returned(completion), next_live, next_pending),
    ensures
        next_pending == pending,
        next_live == live.union(completion.produced@.to_set()),
{
    kinds_are_distinct(call);
}

/// Descriptors live in one invocation and opens still in progress.
pub struct OpenFileState {
    live: Vec<u32>,
    pending: usize,
}

fn contains_handle(handles: &[u32], handle: u32) -> (found: bool)
    ensures
        found == handles@.contains(handle),
{
    let mut i: usize = 0;
    while i < handles.len()
        invariant
            i <= handles@.len(),
            forall|j: int| 0 <= j < i ==> handles@[j] != handle,
        decreases handles@.len() - i,
    {
        if handles[i] == handle {
            return true;
        }
        i = i + 1;
    }
    false
}

proof fn lemma_push_contains(s: Seq<u32>, v: u32, x: u32)
    ensures
        s.push(v).contains(x) <==> (s.contains(x) || x == v),
        s.push(v).to_set().contains(x) <==> s.push(v).contains(x),
        s.to_set().contains(x) <==> s.contains(x),
{
    if s.contains(x) {
        let j = choose|j: int| 0 <= j < s.len() && s[j] == x;
        assert(s.push(v)[j] == x);
    }
    if s.push(v).contains(x) {
        let j = choose|j: int| 0 <= j < s.push(v).len() && s.push(v)[j] == x;
        if j < s.len() {
            assert(s[j] == x);
        }
    }
    assert(s.push(v)[s.len() as int] == v);
}

impl OpenFileState {
    #[verifier::type_invariant]
    spec fn distinct(self) -> bool {
        self.live@.no_duplicates()
    }

    /// Representations of the live descriptors.
    pub closed spec fn live(&self) -> Set<u32> {
        self.live@.to_set()
    }

    /// The number of opens that reserved a slot and have not finished.
    pub closed spec fn pending(&self) -> nat {
        self.pending as nat
    }

    /// Creates the state of an invocation with no descriptors.
    pub fn new() -> (state: OpenFileState)
        ensures
            state.live() == Set::<u32>::empty(),
            state.pending() == 0,
    {
        let state = OpenFileState { live: Vec::new(), pending: 0 };
        proof {
            assert(state.live@.to_set() =~= Set::<u32>::empty());
        }
        state
    }

    /// Returns the number of live descriptors.
    pub fn live_count(&self) -> (count: usize)
        ensures
            count == self.live().len(),
    {
        proof {
            use_type_invariant(self);
            self.live@.unique_seq_to_set();
        }
        self.live.len()
    }

    /// Returns the number of opens in progress.
    pub fn pending_count(&self) -> (count: usize)
        ensures
            count == self.pending(),
    {
        self.pending
    }

    /// Whether `handle` is a live descriptor.
    pub fn is_live(&self, handle: u32) -> (live: bool)
        ensures
            live == self.live().contains(handle),
    {
        contains_handle(self.live.as_slice(), handle)
    }

    fn without(&self, handles: &[u32]) -> (kept: Vec<u32>)
        ensures
            kept@.no_duplicates(),
            kept@.to_set() == self.live().difference(handles@.to_set()),
    {
        proof {
            use_type_invariant(self);
        }
        let mut kept: Vec<u32> = Vec::new();
        let mut i: usize = 0;
        while i < self.live.len()
            invariant
                i <= self.live@.len(),
                self.live@.no_duplicates(),
                kept@.no_duplicates(),
                forall|x: u32| kept@.contains(x) <==> (self.live@.subrange(0, i as int).contains(x) && !handles@.contains(x)),
            decreases self.live@.len() - i,
        {
            let handle = self.live[i];
            let ghost old_kept = kept@;
            if !contains_handle(handles, handle) {
                proof {
                    assert(!self.live@.subrange(0, i as int).contains(handle)) by {
                        if self.live@.subrange(0, i as int).contains(handle) {
                            let j = choose|j: int| 0 <= j < i && self.live@.subrange(0, i as int)[j] == handle;
                            assert(self.live@[j] == self.live@[i as int]);
                        }
                    }
                }
                kept.push(handle);
            }
            proof {
                let prefix = self.live@.subrange(0, i as int);
                let next = self.live@.subrange(0, i + 1);
                assert(next =~= prefix.push(handle));
                assert forall|x: u32| kept@.contains(x) <==> (next.contains(x) && !handles@.contains(x)) by {
                    lemma_push_contains(prefix, handle, x);
                    if kept@ != old_kept {
                        lemma_push_contains(old_kept, handle, x);
                    }
                }
            }
            i = i + 1;
        }
        proof {
            assert(self.live@.subrange(0, self.live@.len() as int) =~= self.live@);
            assert(kept@.to_set() =~= self.live().difference(handles@.to_set()));
        }
        kept
    }

    fn with_produced(&self, produced: &[u32]) -> (live: Vec<u32>)
        ensures
            live@.no_duplicates(),
            live@.to_set() == self.live().union(produced@.to_set()),
    {
        proof {
            use_type_invariant(self);
        }
        let mut live = self.live.clone();
        let mut i: usize = 0;
        while i < produced.len()
            invariant
                i <= produced@.len(),
                live@.no_duplicates(),
                live@.to_set() == self.live().union(produced@.subrange(0, i as int).to_set()),
            decreases produced@.len() - i,
        {
            let handle = produced[i];
            let ghost before = live@;
            if !contains_handle(live.as_slice(), handle) {
                live.push(handle);
            }
            proof {
                let prefix = produced@.subrange(0, i as int);
                let next = produced@.subrange(0, i + 1);
                assert(next =~= prefix.push(handle));
                assert forall|x: u32| live@.to_set().contains(x) <==> self.live().union(next.to_set()).contains(x) by {
                    lemma_push_contains(prefix, handle, x);
                    lemma_push_contains(before, handle, x);
                }
                assert(live@.to_set() =~= self.live().union(next.to_set()));
            }
            i = i + 1;
        }
        proof {
            assert(produced@.subrange(0, produced@.len() as int) =~= produced@);
        }
        live
    }

    /// Decides a call and reserves a slot for an open.
    ///
    /// A drop stops counting its descriptors at once. An open is refused
    /// when `limit` descriptors are live or reserved, and otherwise reserves
    /// a slot until it finishes. The frame is `Some(true)` for an open,
    /// `Some(false)` for the preopen listing, and `None` otherwise.
    pub fn decide(&mut self, limit: usize, call: &Call<'_>) -> (decision: Result<Option<bool>, Denied>)
        ensures
            decided(old(self).live(), old(self).pending(), limit as nat, *call, decision_kind(decision), final(self).live(), final(self).pending()),
            decision matches Err(denied) ==> denied.view() == limit_message(limit as nat),
    {
        proof {
            use_type_invariant(&*self);
            self.live@.unique_seq_to_set();
            reveal_strlit("wasi:filesystem/types");
            reveal_strlit("wasi:filesystem/preopens");
            reveal_strlit("[method]descriptor.open-at");
            reveal_strlit("[resource-drop]descriptor");
            reveal_strlit("get-directories");
            assert(DROP_DESCRIPTOR@[1] != OPEN_AT@[1]);
            assert(FILESYSTEM_TYPES@.len() != FILESYSTEM_PREOPENS@.len());
        }
        let in_types = match call.interface {
            Some(interface) => same_text(interface, FILESYSTEM_TYPES),
            None => false,
        };
        let in_preopens = match call.interface {
            Some(interface) => same_text(interface, FILESYSTEM_PREOPENS),
            None => false,
        };
        if in_types && same_text(call.function, DROP_DESCRIPTOR) {
            let kept = self.without(call.handles);
            self.live = kept;
            return Ok(None);
        }
        if in_types && same_text(call.function, OPEN_AT) {
            let live = self.live.len();
            if live >= limit || self.pending >= limit - live {
                let mut reason = String::from_str("open file limit of ");
                push_decimal(&mut reason, limit as u64);
                reason.append(" reached");
                return Err(Denied::new(reason));
            }
            self.pending = self.pending + 1;
            return Ok(Some(true));
        }
        if in_preopens && same_text(call.function, GET_DIRECTORIES) {
            return Ok(Some(false));
        }
        Ok(None)
    }

    /// Records how a call this state admitted ended.
    ///
    /// An open's reservation is released whatever the outcome; descriptors
    /// returned by a successful open or preopen listing become live.
    pub fn settle(&mut self, frame: Option<bool>, outcome: Outcome<'_>)
        ensures
            settled(old(self).live(), old(self).pending(), frame, outcome, final(self).live(), final(self).pending()),
    {
        proof {
            use_type_invariant(&*self);
        }
        if frame == Some(true) && self.pending > 0 {
            self.pending = self.pending - 1;
        }
        if frame.is_some() {
            if let Outcome::Returned(completion) = outcome {
                let live = self.with_produced(completion.produced.as_slice());
                self.live = live;
            }
        }
    }
}

/// Limits the number of live WASI filesystem descriptors in an invocation.
///
/// Preopened directories count toward the limit. A descriptor stops counting
/// when its `[resource-drop]descriptor` call begins, and a failed `open-at`
/// does not consume a slot.
pub struct OpenFiles {
    limit: usize,
}

impl OpenFiles {
    /// The most descriptors an invocation may have live or reserved.
    pub closed spec fn limit(&self) -> nat {
        self.limit as nat
    }

    /// Creates a layer that refuses `open-at` once `limit` descriptors are
    /// live or reserved by calls in progress.
    pub fn new(limit: usize) -> (layer: OpenFiles)
        ensures
            layer.limit() == limit,
    {
        OpenFiles { limit }
    }
}

impl<S: MiddlewareView> Layer<S> for OpenFiles {
    type Frame = Option<bool>;

    fn before(&self, state: &mut S, call: &Call<'_>) -> (decision: Result<Option<bool>, Denied>)
        ensures
            exists|lent: &mut S, middleware: &mut MiddlewareCtx<S>| {
                &&& *lent == *old(state)
                &&& *final(lent) == *final(state)
                &&& call_ensures(S::middleware, (lent,), middleware)
                &&& final(middleware).chain_view() == middleware.chain_view()
                &&& final(middleware).context_view().id_view() == middleware.context_view().id_view()
                &&& final(middleware).context_view().plugin_view() == middleware.context_view().plugin_view()
                &&& (final(middleware).context_view().open_files_view() matches Some(next) && decided(
                    stored_live(middleware.context_view().open_files_view()),
                    stored_pending(middleware.context_view().open_files_view()),
                    self.limit(),
                    *call,
                    decision_kind(decision),
                    next.live(),
                    next.pending(),
                ))
            },
            decision matches Err(denied) ==> is_open(*call) && denied.view() == limit_message(self.limit()),
            decision matches Ok(frame) ==> frame == (if is_open(*call) {
                Some(true)
            } else if is_preopen_listing(*call) {
                Some(false)
            } else {
                None::<bool>
            }),
    {
        proof {
            kinds_are_distinct(*call);
        }
        let middleware = S::middleware;
        let files = middleware(state).context_mut().open_files();
        files.decide(self.limit, call)
    }

    fn after(&self, state: &mut S, _call: &Call<'_>, frame: Option<bool>, outcome: Outcome<'_>)
        ensures
            exists|lent: &mut S, middleware: &mut MiddlewareCtx<S>| {
                &&& *lent == *old(state)
                &&& *final(lent) == *final(state)
                &&& call_ensures(S::middleware, (lent,), middleware)
                &&& final(middleware).chain_view() == middleware.chain_view()
                &&& final(middleware).context_view().id_view() == middleware.context_view().id_view()
                &&& final(middleware).context_view().plugin_view() == middleware.context_view().plugin_view()
                &&& (final(middleware).context_view().open_files_view() matches Some(next) && settled(
                    stored_live(middleware.context_view().open_files_view()),
                    stored_pending(middleware.context_view().open_files_view()),
                    frame,
                    outcome,
                    next.live(),
                    next.pending(),
                ))
            },
    {
        let middleware = S::middleware;
        let files = middleware(state).context_mut().open_files();
        files.settle(frame, outcome);
    }
}

} // verus!

use vstd::prelude::*;

use crate::arguments::ArgumentList;
use crate::chain::{afters, Chain, Frames, Hook};
use crate::types::{Call, Direction, Outcome};

verus! {

/// The identity of a call, kept after its borrowed form is gone.
pub struct OwnedCall {
    /// The chain-local identifier.
    pub id: u64,
    /// Whether the call entered or left the component.
    pub direction: Direction,
    /// The interface, or `None` for a root function.
    pub interface: Option<String>,
    /// The interface's version, when known.
    pub version: Option<String>,
    /// The function name.
    pub function: String,
    /// The resources the call consumed.
    pub handles: Vec<u32>,
}

/// The characters of an optional owned string.
pub open spec fn owned_text(text: Option<String>) -> Option<Seq<char>> {
    match text {
        Some(text) => Some(text@),
        None => None,
    }
}

fn owned_copy(text: Option<&str>) -> (owned: Option<String>)
    ensures
        owned_text(owned) == (match text {
            Some(t) => Some(t@),
            None => None::<Seq<char>>,
        }),
{
    match text {
        Some(text) => Some(text.to_owned()),
        None => None,
    }
}

impl OwnedCall {
    /// Keeps the identity of `call`; its arguments are not kept.
    pub fn from_call(call: &Call<'_>) -> (owned: OwnedCall)
        ensures
            owned.id == call.id,
            owned.direction == call.direction,
            owned_text(owned.interface) == call.interface_view(),
            owned_text(owned.version) == call.version_view(),
            owned.function@ == call.function@,
            owned.handles@ == call.handles@,
    {
        let mut handles: Vec<u32> = Vec::new();
        let mut i: usize = 0;
        while i < call.handles.len()
            invariant
                i <= call.handles@.len(),
                handles@ == call.handles@.subrange(0, i as int),
            decreases call.handles@.len() - i,
        {
            handles.push(call.handles[i]);
            proof {
                assert(call.handles@.subrange(0, i as int).push(call.handles@[i as int]) =~= call.handles@.subrange(0, i + 1));
            }
            i = i + 1;
        }
        proof {
            assert(call.handles@.subrange(0, call.handles@.len() as int) =~= call.handles@);
        }
        OwnedCall {
            id: call.id,
            direction: call.direction,
            interface: owned_copy(call.interface),
            version: owned_copy(call.version),
            function: call.function.to_owned(),
            handles,
        }
    }

    /// Borrows the kept identity as a call with no arguments.
    pub fn call(&self) -> (call: Call<'_>)
        ensures
            call.id == self.id,
            call.direction == self.direction,
            call.interface_view() == owned_text(self.interface),
            call.version_view() == owned_text(self.version),
            call.function@ == self.function@,
            call.handles@ == self.handles@,
            call.args.view() == Seq::<(Seq<char>, crate::arguments::ArgumentValue)>::empty(),
    {
        let interface: Option<&str> = match &self.interface {
            Some(name) => Some(name.as_str()),
            None => None,
        };
        let version: Option<&str> = match &self.version {
            Some(version) => Some(version.as_str()),
            None => None,
        };
        Call {
            id: self.id,
            direction: self.direction,
            interface,
            version,
            function: self.function.as_str(),
            handles: self.handles.as_slice(),
            args: ArgumentList::empty(),
        }
    }
}

/// The `after` hooks of the calls whose frames are `counts`, in order: for
/// each, the hooks of the layers that allowed it, innermost first.
pub open spec fn cancelled_hooks(counts: Seq<nat>) -> Seq<Hook>
    decreases counts.len(),
{
    if counts.len() == 0 {
        Seq::empty()
    } else {
        cancelled_hooks(counts.drop_last()) + afters(counts.last())
    }
}

/// Calls that were dropped after their body started, waiting for the store
/// so their layers can observe the cancellation.
#[verifier::reject_recursive_types(S)]
pub struct Cancellations<S> {
    pending: Vec<(OwnedCall, Frames<S>)>,
}

impl<S> Cancellations<S> {
    /// How many layers allowed each waiting call, oldest first.
    pub closed spec fn counts(&self) -> Seq<nat> {
        self.pending@.map_values(|entry: (OwnedCall, Frames<S>)| entry.1.len())
    }

    /// An empty queue.
    pub fn new() -> (queue: Cancellations<S>)
        ensures
            queue.counts() == Seq::<nat>::empty(),
    {
        let queue = Cancellations { pending: Vec::new() };
        proof {
            assert(queue.counts() =~= Seq::<nat>::empty());
        }
        queue
    }

    /// Queues the frames of a dropped call.
    pub fn push(&mut self, call: OwnedCall, frames: Frames<S>)
        ensures
            final(self).counts() == old(self).counts().push(frames.len()),
    {
        let ghost count = frames.len();
        self.pending.push((call, frames));
        proof {
            assert(self.counts() =~= old(self).counts().push(count));
        }
    }

    /// Returns the number of waiting calls.
    pub fn len(&self) -> (count: usize)
        ensures
            count == self.counts().len(),
    {
        self.pending.len()
    }

    /// Runs the `after` hooks of every waiting call with
    /// [`Outcome::Cancelled`], oldest call first, and empties the queue.
    pub fn deliver(&mut self, state: &mut S) -> (hooks: Ghost<Seq<Hook>>)
        ensures
            final(self).counts() == Seq::<nat>::empty(),
            hooks@ == cancelled_hooks(old(self).counts()),
    {
        let ghost counts = self.counts();
        let mut pending: Vec<(OwnedCall, Frames<S>)> = Vec::new();
        std::mem::swap(&mut pending, &mut self.pending);
        proof {
            assert(self.counts() =~= Seq::<nat>::empty());
        }
        let ghost mut hooks: Seq<Hook> = Seq::empty();
        let mut done: usize = 0;
        let total = pending.len();
        while pending.len() > 0
            invariant
                total == counts.len(),
                pending@.len() + done == total,
                forall|i: int| 0 <= i < pending@.len() ==> #[trigger] pending@[i].1.len() == counts[done + i],
                hooks == cancelled_hooks(counts.subrange(0, done as int)),
            decreases pending@.len(),
        {
            let (owned, frames) = pending.remove(0);
            let ghost count = frames.len();
            assert(count == counts[done as int]);
            let call = owned.call();
            let ended = Chain::after(state, &call, frames, Outcome::Cancelled);
            let ghost ran = ended@.0;
            proof {
                let next = counts.subrange(0, done as int + 1);
                assert(next.drop_last() =~= counts.subrange(0, done as int));
                assert(next.last() == count);
                hooks = hooks + ran;
            }
            done = done + 1;
        }
        proof {
            assert(counts.subrange(0, total as int) =~= counts);
        }
        Ghost(hooks)
    }
}

} // verus!

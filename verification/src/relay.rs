use std::collections::VecDeque;

use std::sync::Arc;

use vstd::prelude::*;
use vstd::math::min;

use crate::arguments::{ArgumentValue, Arguments};
use crate::chain::{dispatched, Chain, Frames};
use crate::context::{MiddlewareCtx, MiddlewareView};
use crate::types::{Call, Completion, Direction, Failure, Outcome};

verus! {

/// What the consuming side of a relay does with the bytes a source offers.
#[derive(Clone, Copy, Debug, PartialEq, Eq)]
pub enum Intake {
    /// The source has nothing left: the read is complete.
    Completed,
    /// The source has nothing left and the read was being finished: it was cancelled.
    Cancelled,
    /// The destination is gone: stop reading.
    Dropped,
    /// The queue is full: wait until the destination drains it.
    Wait,
    /// Offer the first `count` bytes to the middleware chain; `buffered`
    /// bytes would then be held by the relay.
    Offer { count: usize, buffered: usize },
}

/// What the consuming side reports after an approved chunk was queued.
#[derive(Clone, Copy, Debug, PartialEq, Eq)]
pub enum Accepted {
    /// The chunk was queued; the read completed.
    Completed,
    /// The chunk filled the queue and more bytes are waiting: wait for room.
    Wait,
}

/// What the producing side of a relay hands to the destination.
#[derive(Debug, PartialEq, Eq)]
pub enum Delivery {
    /// Deliver these bytes, which leave the queue.
    Bytes(Vec<u8>),
    /// Bytes are queued but the destination has no room right now.
    Completed,
    /// The source is closed and every byte was delivered: end the stream.
    Dropped,
    /// The producer is being finished with nothing to deliver.
    Cancelled,
    /// Nothing is queued yet: wait for the source.
    Wait,
}

/// The result of a producer step and whether the consumer must be woken.
#[derive(Debug, PartialEq, Eq)]
pub struct Produced {
    /// What to hand to the destination.
    pub delivery: Delivery,
    /// Whether bytes delivered earlier were acknowledged, freeing room.
    pub wake_consumer: bool,
}

/// The bounded byte queue between a relayed stream's source and destination.
///
/// Each chunk read from the source is shown to middleware before the relay
/// acknowledges it. Approved chunks wait in the queue until the destination
/// takes them. When a chunk is refused, the source is closed, the chunks
/// approved before it still drain, and only then does the stream's
/// completion report the refusal.
pub struct RelayQueue<C> {
    bytes: VecDeque<u8>,
    in_flight: usize,
    bound: usize,
    input_closed: bool,
    output_closed: bool,
    completion: Option<C>,
    denial: Option<C>,
    denied: bool,
    accepted: Ghost<Seq<u8>>,
    delivered: Ghost<Seq<u8>>,
}

impl<C> RelayQueue<C> {
    /// Bytes approved and waiting for the destination, oldest first.
    pub closed spec fn queued(&self) -> Seq<u8> {
        self.bytes@
    }

    /// Bytes handed to the destination and not yet acknowledged.
    pub closed spec fn in_flight(&self) -> nat {
        self.in_flight as nat
    }

    /// The most bytes the relay holds at once.
    pub closed spec fn bound(&self) -> nat {
        self.bound as nat
    }

    /// Whether the source side is closed.
    pub closed spec fn input_closed(&self) -> bool {
        self.input_closed
    }

    /// Whether the destination side is closed.
    pub closed spec fn output_closed(&self) -> bool {
        self.output_closed
    }

    /// Whether a chunk was refused.
    pub closed spec fn denied(&self) -> bool {
        self.denied
    }

    /// The completion value waiting for the stream's completion future.
    pub closed spec fn completion(&self) -> Option<C> {
        self.completion
    }

    /// The value reported when a refusal completes, until it is used.
    pub closed spec fn denial(&self) -> Option<C> {
        self.denial
    }

    /// Every byte ever approved, in order.
    pub closed spec fn accepted(&self) -> Seq<u8> {
        self.accepted@
    }

    /// Every byte ever handed to the destination, in order.
    pub closed spec fn delivered(&self) -> Seq<u8> {
        self.delivered@
    }

    /// The relay's invariant: it never holds more than its bound, it hands
    /// out approved bytes in order without loss or repetition, and a refusal
    /// closes the source.
    pub closed spec fn wf(&self) -> bool {
        &&& self.bytes@.len() + self.in_flight <= self.bound
        &&& self.accepted@ == self.delivered@ + self.bytes@
        &&& self.denied ==> self.input_closed
        &&& self.denied ==> (self.denial.is_some() || self.bytes@.len() == 0 && self.in_flight == 0)
        &&& !self.denied ==> self.denial.is_some()
    }

    /// Whether a refusal may now be reported: it happened and nothing the
    /// relay approved is still queued or unacknowledged.
    pub open spec fn drained_denial(&self) -> bool {
        self.denied() && self.queued().len() == 0 && self.in_flight() == 0 && self.completion().is_none()
    }

    /// Creates an empty relay holding at most `bound` bytes, which reports
    /// `denial` as its completion if a chunk is refused.
    pub fn new(bound: usize, denial: C) -> (relay: RelayQueue<C>)
        ensures
            relay.wf(),
            relay.queued() == Seq::<u8>::empty(),
            relay.in_flight() == 0,
            relay.bound() == bound,
            !relay.input_closed(),
            !relay.output_closed(),
            !relay.denied(),
            relay.completion().is_none(),
            relay.denial() == Some(denial),
            relay.accepted() == Seq::<u8>::empty(),
            relay.delivered() == Seq::<u8>::empty(),
    {
        RelayQueue {
            bytes: VecDeque::new(),
            in_flight: 0,
            bound,
            input_closed: false,
            output_closed: false,
            completion: None,
            denial: Some(denial),
            denied: false,
            accepted: Ghost(Seq::empty()),
            delivered: Ghost(Seq::empty()),
        }
    }

    /// Returns whether the source side is closed.
    pub fn is_input_closed(&self) -> (closed: bool)
        ensures
            closed == self.input_closed(),
    {
        self.input_closed
    }

    /// Returns whether a layer refused a chunk of this relay.
    pub fn is_denied(&self) -> (denied: bool)
        ensures
            denied == self.denied(),
    {
        self.denied
    }

    /// Returns how many bytes the relay holds: queued or handed out and not
    /// yet acknowledged.
    pub fn held(&self) -> (held: usize)
        requires
            self.wf(),
        ensures
            held == self.queued().len() + self.in_flight(),
    {
        self.bytes.len() + self.in_flight
    }

    /// Returns the most bytes the relay holds at once.
    pub fn bound_size(&self) -> (bound: usize)
        ensures
            bound == self.bound(),
    {
        self.bound
    }

    /// Decides what to do with `remaining` bytes offered by the source.
    pub fn intake(&self, remaining: usize, finish: bool) -> (step: Intake)
        requires
            self.wf(),
        ensures
            remaining == 0 ==> step == (if finish { Intake::Cancelled } else { Intake::Completed }),
            remaining > 0 && self.output_closed() ==> step == Intake::Dropped,
            remaining > 0 && !self.output_closed() && self.queued().len() + self.in_flight() == self.bound()
                ==> step == (if finish { Intake::Cancelled } else { Intake::Wait }),
            remaining > 0 && !self.output_closed() && self.queued().len() + self.in_flight() < self.bound()
                ==> step == (Intake::Offer {
                    count: min(remaining as int, self.bound() - self.queued().len() - self.in_flight()) as usize,
                    buffered: (self.queued().len() + self.in_flight() + min(remaining as int, self.bound() - self.queued().len() - self.in_flight())) as usize,
                }),
    {
        if remaining == 0 {
            return if finish { Intake::Cancelled } else { Intake::Completed };
        }
        if self.output_closed {
            return Intake::Dropped;
        }
        let buffered = self.bytes.len() + self.in_flight;
        let available = self.bound - buffered;
        if available == 0 {
            return if finish { Intake::Cancelled } else { Intake::Wait };
        }
        let count = if remaining < available { remaining } else { available };
        Intake::Offer { count, buffered: buffered + count }
    }

    /// Queues a chunk that every layer approved.
    ///
    /// `remaining` is what the source offered; the read waits when the chunk
    /// filled the queue and part of the offer is still unread.
    pub fn accept(&mut self, chunk: Vec<u8>, remaining: usize) -> (step: Accepted)
        requires
            old(self).wf(),
            !old(self).denied(),
            chunk@.len() <= remaining,
            old(self).queued().len() + old(self).in_flight() + chunk@.len() <= old(self).bound(),
        ensures
            final(self).wf(),
            final(self).queued() == old(self).queued() + chunk@,
            final(self).accepted() == old(self).accepted() + chunk@,
            final(self).delivered() == old(self).delivered(),
            final(self).in_flight() == old(self).in_flight(),
            final(self).bound() == old(self).bound(),
            final(self).input_closed() == old(self).input_closed(),
            final(self).output_closed() == old(self).output_closed(),
            final(self).denied() == old(self).denied(),
            final(self).completion() == old(self).completion(),
            final(self).denial() == old(self).denial(),
            step == (if final(self).queued().len() == final(self).bound() && chunk@.len() < remaining {
                Accepted::Wait
            } else {
                Accepted::Completed
            }),
    {
        let count = chunk.len();
        let mut i: usize = 0;
        while i < count
            invariant
                count == chunk@.len(),
                i <= count,
                self.bytes@ == old(self).bytes@ + chunk@.subrange(0, i as int),
                self.in_flight == old(self).in_flight,
                self.bound == old(self).bound,
                self.input_closed == old(self).input_closed,
                self.output_closed == old(self).output_closed,
                self.denied == old(self).denied,
                self.completion == old(self).completion,
                self.denial == old(self).denial,
                self.accepted == old(self).accepted,
                self.delivered == old(self).delivered,
            decreases count - i,
        {
            self.bytes.push_back(chunk[i]);
            proof {
                assert(chunk@.subrange(0, i as int).push(chunk@[i as int]) =~= chunk@.subrange(0, i + 1));
            }
            i = i + 1;
        }
        proof {
            assert(chunk@.subrange(0, count as int) =~= chunk@);
            self.accepted = Ghost(self.accepted@ + chunk@);
            assert(self.accepted@ =~= self.delivered@ + self.bytes@);
        }
        if self.bytes.len() == self.bound && count < remaining {
            Accepted::Wait
        } else {
            Accepted::Completed
        }
    }

    /// Records that a layer refused a chunk: the source closes and the
    /// refusal is reported once everything approved before it has drained.
    pub fn deny(&mut self)
        requires
            old(self).wf(),
        ensures
            final(self).wf(),
            denial_recorded(*old(self), *final(self)),
    {
        self.input_closed = true;
        self.denied = true;
        self.finish_denial_if_drained();
    }

    /// Reports the refusal when it happened and everything has drained.
    fn finish_denial_if_drained(&mut self)
        requires
            old(self).bytes@.len() + old(self).in_flight <= old(self).bound,
            old(self).accepted@ == old(self).delivered@ + old(self).bytes@,
            old(self).denied ==> old(self).input_closed,
        ensures
            final(self).bytes == old(self).bytes,
            final(self).in_flight == old(self).in_flight,
            final(self).bound == old(self).bound,
            final(self).input_closed == old(self).input_closed,
            final(self).output_closed == old(self).output_closed,
            final(self).denied == old(self).denied,
            final(self).accepted == old(self).accepted,
            final(self).delivered == old(self).delivered,
            old(self).drained_denial() ==> final(self).completion == old(self).denial && final(self).denial.is_none(),
            !old(self).drained_denial() ==> final(self).completion == old(self).completion && final(self).denial == old(self).denial,
    {
        if self.denied && self.bytes.len() == 0 && self.in_flight == 0 && self.completion.is_none() {
            self.completion = self.denial.take();
        }
    }

    /// Hands queued bytes to a destination with room for `capacity` bytes
    /// (`None` when it has no fixed limit), first acknowledging whatever was
    /// handed out on the previous step.
    pub fn produce(&mut self, capacity: Option<usize>, finish: bool) -> (produced: Produced)
        requires
            old(self).wf(),
        ensures
            final(self).wf(),
            produced.wake_consumer == (old(self).in_flight() != 0),
            final(self).bound() == old(self).bound(),
            final(self).input_closed() == old(self).input_closed(),
            final(self).output_closed() == old(self).output_closed(),
            final(self).denied() == old(self).denied(),
            final(self).accepted() == old(self).accepted(),
            ({
                let room: int = match capacity {
                    Some(c) => c as int,
                    None => old(self).bound() as int,
                };
                let queued = old(self).queued();
                if queued.len() > 0 && room == 0 {
                    &&& produced.delivery == Delivery::Completed
                    &&& final(self).queued() == queued
                    &&& final(self).in_flight() == 0
                    &&& final(self).delivered() == old(self).delivered()
                    &&& final(self).completion() == old(self).completion()
                    &&& final(self).denial() == old(self).denial()
                } else if queued.len() > 0 {
                    let count = min(room, queued.len() as int);
                    &&& produced.delivery matches Delivery::Bytes(out) && out@ == queued.subrange(0, count)
                    &&& final(self).queued() == queued.subrange(count, queued.len() as int)
                    &&& final(self).in_flight() == count
                    &&& final(self).delivered() == old(self).delivered() + queued.subrange(0, count)
                    &&& final(self).completion() == old(self).completion()
                    &&& final(self).denial() == old(self).denial()
                } else {
                    &&& final(self).queued() == queued
                    &&& final(self).in_flight() == 0
                    &&& final(self).delivered() == old(self).delivered()
                    &&& produced.delivery == (if old(self).input_closed() {
                        Delivery::Dropped
                    } else if finish {
                        Delivery::Cancelled
                    } else {
                        Delivery::Wait
                    })
                    &&& (old(self).input_closed() && old(self).denied() && old(self).completion().is_none()
                        ==> final(self).completion() == old(self).denial() && final(self).denial().is_none())
                    &&& (!(old(self).input_closed() && old(self).denied() && old(self).completion().is_none())
                        ==> final(self).completion() == old(self).completion() && final(self).denial() == old(self).denial())
                }
            }),
    {
        let room = match capacity {
            Some(c) => c,
            None => self.bound,
        };
        let wake_consumer = self.in_flight != 0;
        self.in_flight = 0;
        let queued = self.bytes.len();
        if room == 0 && queued > 0 {
            return Produced { delivery: Delivery::Completed, wake_consumer };
        }
        if queued > 0 {
            let count = if room < queued { room } else { queued };
            let ghost before = self.bytes@;
            let mut out: Vec<u8> = Vec::new();
            let mut i: usize = 0;
            while i < count
                invariant
                    count <= before.len(),
                    i <= count,
                    out@ == before.subrange(0, i as int),
                    self.bytes@ == before.subrange(i as int, before.len() as int),
                    self.in_flight == 0,
                    self.bound == old(self).bound,
                    self.input_closed == old(self).input_closed,
                    self.output_closed == old(self).output_closed,
                    self.denied == old(self).denied,
                    self.completion == old(self).completion,
                    self.denial == old(self).denial,
                    self.accepted == old(self).accepted,
                    self.delivered == old(self).delivered,
                decreases count - i,
            {
                let byte = self.bytes.pop_front().unwrap();
                out.push(byte);
                proof {
                    assert(before.subrange(0, i as int).push(before[i as int]) =~= before.subrange(0, i + 1));
                    assert(before.subrange(i as int, before.len() as int).drop_first()
                        =~= before.subrange(i + 1, before.len() as int));
                }
                i = i + 1;
            }
            self.in_flight = count;
            proof {
                self.delivered = Ghost(self.delivered@ + before.subrange(0, count as int));
                assert(before =~= before.subrange(0, count as int) + before.subrange(count as int, before.len() as int));
                assert(self.accepted@ =~= self.delivered@ + self.bytes@);
            }
            return Produced { delivery: Delivery::Bytes(out), wake_consumer };
        }
        if self.input_closed {
            self.finish_denial_if_drained();
            return Produced { delivery: Delivery::Dropped, wake_consumer };
        }
        if finish {
            return Produced { delivery: Delivery::Cancelled, wake_consumer };
        }
        Produced { delivery: Delivery::Wait, wake_consumer }
    }

    /// Records the source's own completion value. After a refusal the
    /// source's value is ignored; the refusal is what the stream reports.
    pub fn record_completion(&mut self, item: C)
        requires
            old(self).wf(),
        ensures
            final(self).wf(),
            final(self).input_closed(),
            final(self).queued() == old(self).queued(),
            final(self).in_flight() == old(self).in_flight(),
            final(self).bound() == old(self).bound(),
            final(self).output_closed() == old(self).output_closed(),
            final(self).denied() == old(self).denied(),
            final(self).accepted() == old(self).accepted(),
            final(self).delivered() == old(self).delivered(),
            !old(self).denied() && old(self).completion().is_none() ==> final(self).completion() == Some(item)
                && final(self).denial() == old(self).denial(),
            !old(self).denied() && old(self).completion().is_some() ==> final(self).completion() == old(self).completion()
                && final(self).denial() == old(self).denial(),
            old(self).denied() && old(self).drained_denial() ==> final(self).completion() == old(self).denial()
                && final(self).denial().is_none(),
            old(self).denied() && !old(self).drained_denial() ==> final(self).completion() == old(self).completion()
                && final(self).denial() == old(self).denial(),
    {
        if !self.denied && self.completion.is_none() {
            self.completion = Some(item);
        }
        self.input_closed = true;
        self.finish_denial_if_drained();
    }

    /// Hands the stream's completion value to its completion future.
    pub fn take_completion(&mut self) -> (completion: Option<C>)
        requires
            old(self).wf(),
        ensures
            final(self).wf(),
            completion == old(self).completion(),
            final(self).completion().is_none(),
            final(self).queued() == old(self).queued(),
            final(self).in_flight() == old(self).in_flight(),
            final(self).bound() == old(self).bound(),
            final(self).input_closed() == old(self).input_closed(),
            final(self).output_closed() == old(self).output_closed(),
            final(self).denied() == old(self).denied(),
            final(self).denial() == old(self).denial(),
            final(self).accepted() == old(self).accepted(),
            final(self).delivered() == old(self).delivered(),
    {
        self.completion.take()
    }

    /// Records that the source side went away.
    pub fn close_input(&mut self)
        requires
            old(self).wf(),
        ensures
            final(self).wf(),
            final(self).input_closed(),
            final(self).queued() == old(self).queued(),
            final(self).in_flight() == old(self).in_flight(),
            final(self).bound() == old(self).bound(),
            final(self).output_closed() == old(self).output_closed(),
            final(self).denied() == old(self).denied(),
            final(self).completion() == old(self).completion(),
            final(self).denial() == old(self).denial(),
            final(self).accepted() == old(self).accepted(),
            final(self).delivered() == old(self).delivered(),
    {
        self.input_closed = true;
    }

    /// Records that the destination side went away.
    pub fn close_output(&mut self)
        requires
            old(self).wf(),
        ensures
            final(self).wf(),
            final(self).output_closed(),
            final(self).queued() == old(self).queued(),
            final(self).in_flight() == old(self).in_flight(),
            final(self).bound() == old(self).bound(),
            final(self).input_closed() == old(self).input_closed(),
            final(self).denied() == old(self).denied(),
            final(self).completion() == old(self).completion(),
            final(self).denial() == old(self).denial(),
            final(self).accepted() == old(self).accepted(),
            final(self).delivered() == old(self).delivered(),
    {
        self.output_closed = true;
    }
}


/// The call that opened a relayed stream; each chunk of the stream is shown
/// to middleware as a call with the same identity.
pub struct Origin {
    /// The identifier of the call that opened the stream.
    pub call_id: u64,
    /// The interface of that call.
    pub interface: &'static str,
    /// The interface's version.
    pub version: &'static str,
    /// The function reported for each chunk.
    pub function: &'static str,
    /// The resources the stream belongs to.
    pub handles: Vec<u32>,
}

/// The number of buffered bytes as middleware sees it: saturated to `u64`.
pub open spec fn buffered_count(buffered: usize) -> u64 {
    if buffered > u64::MAX { u64::MAX } else { buffered as u64 }
}

/// Whether `arguments` show the chunk `bytes` under `bytes`, and under
/// `buffered` how many bytes the relay would hold with it.
pub open spec fn shows_chunk(arguments: Seq<(Seq<char>, ArgumentValue)>, bytes: Seq<u8>, buffered: usize) -> bool {
    &&& arguments.len() == 2
    &&& arguments[0].0 == "bytes"@
    &&& arguments[0].1 matches ArgumentValue::Bytes(shown) && shown@ == bytes
    &&& arguments[1].0 == "buffered"@
    &&& arguments[1].1 == ArgumentValue::U64(buffered_count(buffered))
}

/// Builds the arguments of a chunk call: the chunk's bytes under `bytes`,
/// and under `buffered` how many bytes the relay would hold with it.
pub fn chunk_arguments(chunk: Vec<u8>, buffered: usize) -> (arguments: Arguments)
    ensures
        arguments.view().len() == 2,
        arguments.view()[0].0 == "bytes"@,
        arguments.view()[0].1 == ArgumentValue::Bytes(chunk),
        arguments.view()[1].0 == "buffered"@,
        arguments.view()[1].1 == ArgumentValue::U64(buffered_count(buffered)),
{
    proof {
        reveal_strlit("bytes");
        reveal_strlit("buffered");
    }
    let count: u64 = if buffered as u128 > u64::MAX as u128 { u64::MAX } else { buffered as u64 };
    Arguments::new().with_value("bytes", ArgumentValue::Bytes(chunk)).with_value("buffered", ArgumentValue::U64(count))
}

/// Builds the call that shows one chunk of the stream opened by `origin`.
pub fn chunk_call<'a>(origin: &'a Origin, arguments: &'a Arguments) -> (call: Call<'a>)
    ensures
        call.id == origin.call_id,
        call.direction == Direction::Import,
        call.interface == Some(origin.interface),
        call.version == Some(origin.version),
        call.function@ == origin.function@,
        call.handles@ == origin.handles@,
        call.args.view() == arguments.view(),
{
    Call::new(origin.call_id, Direction::Import, origin.function)
        .in_interface(origin.interface, Some(origin.version))
        .with_handles(origin.handles.as_slice())
        .with_args(arguments)
}

/// What became of a chunk shown to middleware.
#[derive(Clone, Copy, Debug, PartialEq, Eq)]
pub enum Offered {
    /// Every layer approved it and it was queued.
    Accepted(Accepted),
    /// A layer refused it: it stays unacknowledged and the source closes.
    Refused,
}

/// Whether `verdict` is what the chain that `middleware` holds answered
/// when shown `chunk` of the stream opened by `origin`, with `buffered` bytes
/// the relay would hold with it: a call of `origin`'s function with its
/// identifier, interface, version and handles, whose arguments show the
/// chunk, ran through that chain as [`dispatched`] says.
pub open spec fn chunk_verdict<S>(middleware: MiddlewareCtx<S>, origin: Origin, chunk: Seq<u8>, buffered: usize, verdict: Result<(), Failure>) -> bool {
    exists|call: Call, start: S, admitted: nat, entered: Seq<S>, frames: Frames<S>, outcome: Outcome, left: Seq<S>| {
        &&& call.id == origin.call_id
        &&& call.direction == Direction::Import
        &&& call.interface == Some(origin.interface)
        &&& call.version == Some(origin.version)
        &&& call.function@ == origin.function@
        &&& call.handles@ == origin.handles@
        &&& shows_chunk(call.args.view(), chunk, buffered)
        &&& dispatched(*middleware.chain_view(), start, call, verdict, admitted, entered, frames, outcome, left)
    }
}

/// Runs the chain in `state` on a call of the stream `stream` that carries
/// `chunk` and the `buffered` bytes the relay would hold with it. The result
/// is `Ok` when every layer allows the chunk; otherwise it is the refusal.
pub fn chunk_decision<S: MiddlewareView>(
    state: &mut S,
    stream: &Origin,
    chunk: &Vec<u8>,
    buffered: usize,
) -> (verdict: Result<(), Failure>)
    ensures
        !(verdict matches Err(Failure::Error(_))),
        exists|lent: &mut S, middleware: &mut MiddlewareCtx<S>| {
            &&& *lent == *old(state)
            &&& call_ensures(S::middleware, (lent,), middleware)
            &&& chunk_verdict(*middleware, *stream, chunk@, buffered, verdict)
        },
{
    let shown = chunk.clone();
    let arguments = chunk_arguments(shown, buffered);
    let call = chunk_call(stream, &arguments);
    let middleware = S::middleware;
    let chain: Arc<Chain<S>> = Arc::clone(middleware(state).chain());
    let verdict = chain.dispatch(state, &call, |_s: &mut S| -> (out: Result<((), Completion), wasmtime::Error>)
        ensures
            out is Ok,
        {
            Ok(((), Completion::default()))
        });
    assert(shows_chunk(call.args.view(), chunk@, buffered));
    verdict
}

impl<C> RelayQueue<C> {
    /// Queues `chunk`, the first bytes of the `remaining` the source offers,
    /// when middleware approved it, or records the refusal otherwise.
    pub fn record_verdict(&mut self, approved: bool, chunk: Vec<u8>, remaining: usize) -> (offered: Offered)
        requires
            old(self).wf(),
            !old(self).denied(),
            chunk@.len() <= remaining,
            old(self).queued().len() + old(self).in_flight() + chunk@.len() <= old(self).bound(),
        ensures
            offered is Refused <==> !approved,
            final(self).wf(),
            final(self).bound() == old(self).bound(),
            final(self).in_flight() == old(self).in_flight(),
            final(self).output_closed() == old(self).output_closed(),
            final(self).delivered() == old(self).delivered(),
            match offered {
                Offered::Accepted(step) => {
                    &&& final(self).queued() == old(self).queued() + chunk@
                    &&& final(self).accepted() == old(self).accepted() + chunk@
                    &&& final(self).input_closed() == old(self).input_closed()
                    &&& !final(self).denied()
                    &&& final(self).completion() == old(self).completion()
                    &&& step == (if final(self).queued().len() == final(self).bound() && chunk@.len() < remaining {
                        Accepted::Wait
                    } else {
                        Accepted::Completed
                    })
                },
                Offered::Refused => {
                    &&& final(self).queued() == old(self).queued()
                    &&& final(self).accepted() == old(self).accepted()
                    &&& final(self).denied()
                    &&& final(self).input_closed()
                },
            },
    {
        if approved {
            Offered::Accepted(self.accept(chunk, remaining))
        } else {
            self.deny();
            Offered::Refused
        }
    }

    /// Shows `chunk`, the first bytes of the `remaining` the source offers,
    /// to the chain of `state` as a call of `origin`, then queues it if every
    /// layer approved it or records the refusal otherwise.
    pub fn offer<S: MiddlewareView>(&mut self, state: &mut S, origin: &Origin, chunk: Vec<u8>, remaining: usize) -> (offered: Offered)
        requires
            old(self).wf(),
            !old(self).denied(),
            chunk@.len() <= remaining,
            old(self).queued().len() + old(self).in_flight() + chunk@.len() <= old(self).bound(),
        ensures
            exists|lent: &mut S, middleware: &mut MiddlewareCtx<S>, verdict: Result<(), Failure>| {
                &&& *lent == *old(state)
                &&& call_ensures(S::middleware, (lent,), middleware)
                &&& (offered is Refused <==> verdict matches Err(Failure::Denied(_)))
                &&& chunk_verdict(*middleware, *origin, chunk@, (old(self).queued().len() + old(self).in_flight() + chunk@.len()) as usize, verdict)
            },
            final(self).wf(),
            final(self).bound() == old(self).bound(),
            final(self).in_flight() == old(self).in_flight(),
            final(self).output_closed() == old(self).output_closed(),
            final(self).delivered() == old(self).delivered(),
            match offered {
                Offered::Accepted(step) => {
                    &&& final(self).queued() == old(self).queued() + chunk@
                    &&& final(self).accepted() == old(self).accepted() + chunk@
                    &&& final(self).input_closed() == old(self).input_closed()
                    &&& !final(self).denied()
                    &&& final(self).completion() == old(self).completion()
                    &&& step == (if final(self).queued().len() == final(self).bound() && chunk@.len() < remaining {
                        Accepted::Wait
                    } else {
                        Accepted::Completed
                    })
                },
                Offered::Refused => {
                    &&& final(self).queued() == old(self).queued()
                    &&& final(self).accepted() == old(self).accepted()
                    &&& final(self).denied()
                    &&& final(self).input_closed()
                },
            },
    {
        let buffered = self.bytes.len() + self.in_flight + chunk.len();
        let verdict = chunk_decision(state, origin, &chunk, buffered);
        self.record_verdict(verdict.is_ok(), chunk, remaining)
    }
}

/// How recording a refusal moves a relay from `before` to `after`: the
/// source closes and the refusal is recorded, nothing queued, in flight,
/// accepted or delivered changes, and the refusal becomes the completion
/// when nothing is queued or in flight and no completion is set.
pub open spec fn denial_recorded<C>(before: RelayQueue<C>, after: RelayQueue<C>) -> bool {
    &&& after.denied()
    &&& after.input_closed()
    &&& after.queued() == before.queued()
    &&& after.in_flight() == before.in_flight()
    &&& after.bound() == before.bound()
    &&& after.output_closed() == before.output_closed()
    &&& after.accepted() == before.accepted()
    &&& after.delivered() == before.delivered()
    &&& if before.queued().len() == 0 && before.in_flight() == 0 && before.completion().is_none() {
        after.completion() == before.denial() && after.denial().is_none()
    } else {
        after.completion() == before.completion() && after.denial() == before.denial()
    }
}

/// Recording a refusal a second time changes nothing that the first one
/// left.
pub proof fn denying_again_changes_nothing<C>(first: RelayQueue<C>, second: RelayQueue<C>, third: RelayQueue<C>)
    requires
        first.wf(),
        denial_recorded(first, second),
        denial_recorded(second, third),
    ensures
        third.denied() == second.denied(),
        third.input_closed() == second.input_closed(),
        third.queued() == second.queued(),
        third.in_flight() == second.in_flight(),
        third.completion() == second.completion(),
        third.denial() == second.denial(),
        third.accepted() == second.accepted(),
        third.delivered() == second.delivered(),
{
}

/// Every well-formed relay holds at most its bound: the bytes waiting in the
/// queue and the bytes handed out but not acknowledged together never exceed
/// it.
pub proof fn relay_respects_bound<C>(relay: &RelayQueue<C>)
    requires
        relay.wf(),
    ensures
        relay.queued().len() + relay.in_flight() <= relay.bound(),
{
}

/// A relay delivers exactly the bytes middleware approved, in the order they
/// were approved, without loss or repetition: what it delivered followed by
/// what is queued is everything it accepted.
pub proof fn relay_is_first_in_first_out<C>(relay: &RelayQueue<C>)
    requires
        relay.wf(),
    ensures
        relay.accepted() == relay.delivered() + relay.queued(),
        relay.delivered().is_prefix_of(relay.accepted()),
{
    assert(relay.accepted().subrange(0, relay.delivered().len() as int) =~= relay.delivered());
}

/// A refusal closes the source, and the refusal leaves the relay as its
/// completion only once nothing approved before it is queued or in flight.
pub proof fn refusal_waits_for_drain<C>(relay: &RelayQueue<C>)
    requires
        relay.wf(),
        relay.denied(),
    ensures
        relay.input_closed(),
        relay.denial().is_none() ==> relay.queued().len() == 0 && relay.in_flight() == 0,
{
}

/// Default maximum number of bytes buffered by each relayed byte stream.
pub const DEFAULT_STREAM_BUFFER_CAPACITY: usize = 65536;

/// Configuration for relayed byte streams: each relayed stream buffers at
/// most `CAPACITY` bytes, and `CAPACITY` is never zero.
///
/// Middleware sees the complete bytes of each chunk before the relay
/// acknowledges them to the source. When a layer denies a chunk, that chunk
/// remains unacknowledged, previously approved chunks drain to the
/// destination, and the stream's completion reports the denial.
#[derive(Clone, Copy)]
pub struct StreamRelay<const CAPACITY: usize>(());

impl<const CAPACITY: usize> StreamRelay<CAPACITY> {
    #[verifier::type_invariant]
    spec fn nonzero(self) -> bool {
        CAPACITY > 0
    }

    /// Creates relay options when `CAPACITY` is nonzero.
    pub fn new() -> (relay: Option<StreamRelay<CAPACITY>>)
        ensures
            relay.is_some() <==> CAPACITY > 0,
    {
        if CAPACITY == 0 {
            None
        } else {
            Some(StreamRelay(()))
        }
    }

    /// Returns the most bytes a relayed stream buffers.
    pub fn capacity(&self) -> (capacity: usize)
        ensures
            capacity == CAPACITY,
            capacity > 0,
    {
        proof {
            use_type_invariant(self);
        }
        CAPACITY
    }

    /// Creates the queue of one relayed stream, which reports `denial` as
    /// its completion if a chunk is refused.
    pub fn queue<C>(&self, denial: C) -> (relay: RelayQueue<C>)
        ensures
            relay.wf(),
            relay.bound() == CAPACITY,
            relay.bound() > 0,
            relay.queued() == Seq::<u8>::empty(),
            relay.in_flight() == 0,
            !relay.input_closed(),
            !relay.output_closed(),
            !relay.denied(),
            relay.completion().is_none(),
            relay.denial() == Some(denial),
            relay.accepted() == Seq::<u8>::empty(),
            relay.delivered() == Seq::<u8>::empty(),
    {
        RelayQueue::new(self.capacity(), denial)
    }
}

impl Default for StreamRelay<65536> {
    fn default() -> (relay: StreamRelay<65536>)
        ensures
            relay.capacity_view() == DEFAULT_STREAM_BUFFER_CAPACITY,
    {
        StreamRelay(())
    }
}

impl<const CAPACITY: usize> StreamRelay<CAPACITY> {
    /// The most bytes a relayed stream buffers.
    pub open spec fn capacity_view(self) -> usize {
        CAPACITY
    }
}

} // verus!

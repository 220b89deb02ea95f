use std::collections::HashMap;
use std::sync::Arc;

use vstd::prelude::*;
use vstd::rwlock::{RwLock, RwLockPredicate};
use vstd::string::StringSliceAdditionalSpecFns;

use crate::arguments::{render_values, values_of};
use crate::context::{MiddlewareCtx, MiddlewareView};
use crate::text::{decimal, push_decimal};
use crate::types::{Call, Denied, Failure, Layer, Outcome};

verus! {

broadcast use vstd::std_specs::hash::group_hash_axioms;

/// Where a [`Logger`] writes its lines.
pub trait LogSink: Send {
    /// Appends `line` and a line break.
    fn write_line(&mut self, line: &str);
}

impl LogSink for Vec<u8> {
    /// Appends the UTF-8 bytes of `line` and a newline byte.
    fn write_line(&mut self, line: &str)
        ensures
            final(self)@ == old(self)@ + line.spec_bytes() + seq![10u8],
    {
        self.extend_from_slice(line.as_bytes());
        self.push(10u8);
    }
}

/// The number of calls a logger has open for `invocation`.
pub open spec fn depth_of(depths: Map<u64, usize>, invocation: u64) -> nat {
    if depths.contains_key(invocation) { depths[invocation] as nat } else { 0 }
}

/// The table after a call of `invocation` opens: its depth grows by one,
/// saturating at `usize::MAX`.
pub open spec fn after_open(depths: Map<u64, usize>, invocation: u64) -> Map<u64, usize> {
    let depth = depth_of(depths, invocation);
    depths.insert(invocation, if depth >= usize::MAX { usize::MAX } else { (depth + 1) as usize })
}

/// The table after a call of `invocation` closes: its depth shrinks by one,
/// and an invocation with no open call leaves the table.
pub open spec fn after_close(depths: Map<u64, usize>, invocation: u64) -> Map<u64, usize> {
    let depth = depth_of(depths, invocation);
    if depth <= 1 { depths.remove(invocation) } else { depths.insert(invocation, (depth - 1) as usize) }
}

/// Open calls per invocation; an invocation with none has no entry.
pub struct CallDepths {
    depths: HashMap<u64, usize>,
}

impl CallDepths {
    #[verifier::type_invariant]
    spec fn no_idle_entries(self) -> bool {
        forall|invocation: u64| #[trigger] self.depths@.contains_key(invocation) ==> self.depths@[invocation] > 0
    }

    /// The open-call count of each invocation that has one.
    pub closed spec fn view(&self) -> Map<u64, usize> {
        self.depths@
    }

    /// A table with no open calls.
    pub fn new() -> (table: CallDepths)
        ensures
            table@ == Map::<u64, usize>::empty(),
    {
        CallDepths { depths: HashMap::new() }
    }

    /// Records a call of `invocation` opening and returns how many were
    /// already open.
    pub fn begin(&mut self, invocation: u64) -> (depth: usize)
        ensures
            depth == depth_of(old(self)@, invocation),
            final(self)@ == after_open(old(self)@, invocation),
    {
        proof {
            use_type_invariant(&*self);
        }
        let mut depths = HashMap::new();
        std::mem::swap(&mut depths, &mut self.depths);
        let current: usize = match depths.get(&invocation) {
            Some(depth) => *depth,
            None => 0,
        };
        depths.insert(invocation, current.saturating_add(1));
        self.depths = depths;
        current
    }

    /// Records a call of `invocation` closing.
    pub fn end(&mut self, invocation: u64)
        ensures
            final(self)@ == after_close(old(self)@, invocation),
    {
        proof {
            use_type_invariant(&*self);
        }
        let mut depths = HashMap::new();
        std::mem::swap(&mut depths, &mut self.depths);
        let current: usize = match depths.get(&invocation) {
            Some(depth) => *depth,
            None => 0,
        };
        if current <= 1 {
            depths.remove(&invocation);
        } else {
            depths.insert(invocation, current - 1);
        }
        self.depths = depths;
    }
}

/// Closing a call undoes opening it: the table comes back as it was, short
/// of a depth that had already saturated.
pub proof fn close_undoes_open(depths: Map<u64, usize>, invocation: u64)
    requires
        forall|i: u64| #[trigger] depths.contains_key(i) ==> depths[i] > 0,
        depth_of(depths, invocation) < usize::MAX,
    ensures
        after_close(after_open(depths, invocation), invocation) == depths,
{
    assert(after_close(after_open(depths, invocation), invocation) =~= depths);
}

/// Opening and closing calls of one invocation leaves every other
/// invocation's depth as it was.
pub proof fn invocations_are_independent(depths: Map<u64, usize>, invocation: u64, other: u64)
    requires
        invocation != other,
    ensures
        depth_of(after_open(depths, invocation), other) == depth_of(depths, other),
        depth_of(after_close(depths, invocation), other) == depth_of(depths, other),
{
}

/// Every state of a logger's table is acceptable: its own invariant keeps it
/// well formed.
struct AnyDepths;

impl RwLockPredicate<CallDepths> for AnyDepths {
    closed spec fn inv(self, table: CallDepths) -> bool {
        true
    }
}

/// Whatever outcome a call had, the table the after hook leaves is the
/// table it found with that call's invocation closed: its depth drops by
/// one, and an invocation with no call left open leaves the table. So once a
/// call has finished, the next call of the same invocation opens at the
/// depth the finished one had.
pub proof fn after_hook_closes_its_call<W>(logger: &Logger<W>, invocation: u64, closed: Ghost<(Map<u64, usize>, Map<u64, usize>)>)
    requires
        call_ensures(Logger::<W>::end_call, (logger, invocation), closed),
    ensures
        depth_of(closed@.1, invocation) == (if depth_of(closed@.0, invocation) == 0 { 0 } else { depth_of(closed@.0, invocation) - 1 }),
        forall|other: u64| other != invocation ==> #[trigger] depth_of(closed@.1, other) == depth_of(closed@.0, other),
        depth_of(after_open(closed@.1, invocation), invocation) == (if depth_of(closed@.0, invocation) == 0 { 1 } else { depth_of(closed@.0, invocation) }),
{
}

/// A before hook writes its call at the number of calls of the same
/// invocation already open, and leaves that number one higher.
pub proof fn before_hook_opens_at_current_depth<W>(logger: &Logger<W>, invocation: u64, opened: (usize, Ghost<(Map<u64, usize>, Map<u64, usize>)>))
    requires
        call_ensures(Logger::<W>::begin_call, (logger, invocation), opened),
    ensures
        opened.0 == depth_of(opened.1@.0, invocation),
        depth_of(opened.1@.1, invocation) == (if depth_of(opened.1@.0, invocation) >= usize::MAX {
            usize::MAX as nat
        } else {
            depth_of(opened.1@.0, invocation) + 1
        }),
        forall|other: u64| other != invocation ==> #[trigger] depth_of(opened.1@.1, other) == depth_of(opened.1@.0, other),
{
}

/// Once a call has finished, whatever its outcome, the next call of the same
/// invocation opens at the depth the finished call was written at: a failed
/// call does not leave later calls indented as if nested inside it.
pub proof fn finished_call_restores_depth<W>(
    logger: &Logger<W>,
    invocation: u64,
    opened: (usize, Ghost<(Map<u64, usize>, Map<u64, usize>)>),
    closed: Ghost<(Map<u64, usize>, Map<u64, usize>)>,
    reopened: (usize, Ghost<(Map<u64, usize>, Map<u64, usize>)>),
)
    requires
        call_ensures(Logger::<W>::begin_call, (logger, invocation), opened),
        call_ensures(Logger::<W>::end_call, (logger, invocation), closed),
        call_ensures(Logger::<W>::begin_call, (logger, invocation), reopened),
        closed@.0 == opened.1@.1,
        reopened.1@.0 == closed@.1,
        opened.0 < usize::MAX,
    ensures
        reopened.0 == opened.0,
{
    close_undoes_open(opened.1@.0, invocation);
}

/// Two spaces per open call.
pub open spec fn indentation(depth: nat) -> Seq<char>
    decreases depth,
{
    if depth == 0 { Seq::empty() } else { indentation((depth - 1) as nat) + seq![' ', ' '] }
}

/// The interface part of a call's name: the interface, its version after
/// `@` when known, and a dot; nothing for a root function.
pub open spec fn interface_text(call: Call) -> Seq<char> {
    match call.interface {
        None => Seq::empty(),
        Some(interface) => match call.version {
            None => interface@ + seq!['.'],
            Some(version) => interface@ + seq!['@'] + version@ + seq!['.'],
        },
    }
}

/// The line written when a call opens at `depth`.
pub open spec fn call_line(depth: nat, call: Call) -> Seq<char> {
    indentation(depth) + seq!['→', ' ', '#'] + decimal(call.id as nat) + seq![' '] + call.direction.label()
        + seq![' '] + interface_text(call) + call.function@ + seq!['(']
        + render_values(values_of(call.args.view())) + seq![')']
}

/// The line written when the call `id` that opened at `depth` ends as
/// `ending` says.
pub open spec fn outcome_line(depth: nat, id: u64, ending: Seq<char>) -> Seq<char> {
    indentation(depth) + seq!['←', ' ', '#'] + decimal(id as nat) + seq![' '] + ending
}

fn push_indentation(out: &mut String, depth: usize)
    ensures
        final(out)@ == old(out)@ + indentation(depth as nat),
{
    let mut i: usize = 0;
    while i < depth
        invariant
            i <= depth,
            out@ == old(out)@ + indentation(i as nat),
        decreases depth - i,
    {
        proof { reveal_strlit("  "); }
        out.append("  ");
        proof {
            assert(old(out)@ + indentation(i as nat) + seq![' ', ' '] =~= old(out)@ + indentation((i + 1) as nat));
        }
        i = i + 1;
    }
}

/// Builds the line written when `call` opens at `depth`.
pub fn render_call_line(depth: usize, call: &Call<'_>) -> (line: String)
    ensures
        line@ == call_line(depth as nat, *call),
{
    let mut line = String::new();
    push_indentation(&mut line, depth);
    proof {
        reveal_strlit("→ #");
        reveal_strlit(" ");
        reveal_strlit(".");
        reveal_strlit("@");
        reveal_strlit("(");
        reveal_strlit(")");
    }
    line.append("→ #");
    push_decimal(&mut line, call.id);
    line.append(" ");
    line.append(call.direction.as_str());
    line.append(" ");
    let ghost head = line@;
    match call.interface {
        None => {},
        Some(interface) => {
            line.append(interface);
            match call.version {
                None => {},
                Some(version) => {
                    line.append("@");
                    line.append(version);
                },
            }
            line.append(".");
        },
    }
    assert(line@ =~= head + interface_text(*call));
    line.append(call.function);
    line.append("(");
    let args = call.args.render();
    line.append(args.as_str());
    line.append(")");
    assert(line@ =~= call_line(depth as nat, *call));
    line
}

/// Whether `ending` describes how a call that ended as `outcome` ended:
/// `returned`, `cancelled`, or `failed: ` followed by the refusal reason (or,
/// for an error, its message).
pub open spec fn ends_as(outcome: Outcome<'_>, ending: Seq<char>) -> bool {
    match outcome {
        Outcome::Returned(_) => ending == "returned"@,
        Outcome::Cancelled => ending == "cancelled"@,
        Outcome::Failed(Failure::Denied(denied)) => ending == "failed: "@ + denied.view(),
        Outcome::Failed(Failure::Error(_)) => "failed: "@.is_prefix_of(ending),
    }
}

/// Describes how a call ended: `returned`, `cancelled`, or `failed: ` and the
/// refusal reason or error message.
pub fn render_ending(outcome: Outcome<'_>) -> (ending: String)
    ensures
        match outcome {
            Outcome::Returned(_) => ending@ == "returned"@,
            Outcome::Cancelled => ending@ == "cancelled"@,
            Outcome::Failed(Failure::Denied(denied)) => ending@ == "failed: "@ + denied.view(),
            Outcome::Failed(Failure::Error(_)) => "failed: "@.is_prefix_of(ending@),
        },
        ends_as(outcome, ending@),
{
    match outcome {
        Outcome::Returned(_) => String::from_str("returned"),
        Outcome::Cancelled => String::from_str("cancelled"),
        Outcome::Failed(failure) => {
            let mut ending = String::from_str("failed: ");
            match failure {
                Failure::Denied(denied) => ending.append(denied.reason()),
                Failure::Error(error) => {
                    let message = error.to_string();
                    ending.append(message.as_str());
                },
            }
            proof {
                assert("failed: "@.is_prefix_of(ending@));
            }
            ending
        },
    }
}

/// Builds the line written when the call `id` that opened at `depth` ends.
pub fn render_outcome_line(depth: usize, id: u64, ending: &str) -> (line: String)
    ensures
        line@ == outcome_line(depth as nat, id, ending@),
{
    let mut line = String::new();
    push_indentation(&mut line, depth);
    proof {
        reveal_strlit("← #");
        reveal_strlit(" ");
    }
    line.append("← #");
    push_decimal(&mut line, id);
    line.append(" ");
    line.append(ending);
    assert(line@ =~= outcome_line(depth as nat, id, ending@));
    line
}

/// Every sink a logger holds is acceptable.
pub struct AnySink;

impl<W> RwLockPredicate<W> for AnySink {
    closed spec fn inv(self, sink: W) -> bool {
        true
    }
}

/// A layer that writes one human-readable line before and after every call.
///
/// Indentation is the number of calls this logger already has open for the
/// same invocation, so overlapping sibling calls remain balanced even when
/// they finish out of order.
#[verifier::reject_recursive_types(W)]
pub struct Logger<W> {
    writer: Arc<RwLock<W, AnySink>>,
    depths: Arc<RwLock<CallDepths, AnyDepths>>,
}

impl<W> Logger<W> {
    /// The shared writer.
    pub closed spec fn writer_view(&self) -> Arc<RwLock<W, AnySink>> {
        self.writer
    }

    /// Creates a logger that owns `writer` behind a shareable lock.
    pub fn new(writer: W) -> (logger: Logger<W>) {
        let depths = RwLock::new(CallDepths::new(), Ghost(AnyDepths));
        Logger { writer: Arc::new(RwLock::new(writer, Ghost(AnySink))), depths: Arc::new(depths) }
    }

    /// Returns the shared writer, which is useful for capturing test output.
    pub fn writer(&self) -> (writer: Arc<RwLock<W, AnySink>>)
        ensures
            writer == self.writer_view(),
    {
        Arc::clone(&self.writer)
    }

    /// Opens a call of `invocation` in the shared table and returns how many
    /// calls it already had open, with the table as the call found it and as
    /// it left it.
    pub fn begin_call(&self, invocation: u64) -> (opened: (usize, Ghost<(Map<u64, usize>, Map<u64, usize>)>))
        ensures
            opened.0 == depth_of(opened.1@.0, invocation),
            opened.1@.1 == after_open(opened.1@.0, invocation),
            forall|other: u64| #[trigger] opened.1@.0.contains_key(other) ==> opened.1@.0[other] > 0,
    {
        let (mut table, handle) = self.depths.acquire_write();
        proof {
            use_type_invariant(&table);
        }
        let ghost found = table@;
        let depth = table.begin(invocation);
        let ghost left = table@;
        handle.release_write(table);
        (depth, Ghost((found, left)))
    }

    /// Closes a call of `invocation` in the shared table, returning the
    /// table as the call found it and as it left it.
    pub fn end_call(&self, invocation: u64) -> (closed: Ghost<(Map<u64, usize>, Map<u64, usize>)>)
        ensures
            closed@.1 == after_close(closed@.0, invocation),
            forall|other: u64| #[trigger] closed@.0.contains_key(other) ==> closed@.0[other] > 0,
    {
        let (mut table, handle) = self.depths.acquire_write();
        proof {
            use_type_invariant(&table);
        }
        let ghost found = table@;
        table.end(invocation);
        let ghost left = table@;
        handle.release_write(table);
        Ghost((found, left))
    }
}

impl<W: LogSink> Logger<W> {
    /// Writes `line` to the logger's sink, holding its lock meanwhile.
    pub fn write(&self, line: &str) {
        let (mut sink, handle) = self.writer.acquire_write();
        sink.write_line(line);
        handle.release_write(sink);
    }
}

impl<W> Clone for Logger<W> {
    fn clone(&self) -> (copy: Self)
        ensures
            copy.writer_view() == self.writer_view(),
    {
        Logger { writer: Arc::clone(&self.writer), depths: Arc::clone(&self.depths) }
    }
}

impl<S: MiddlewareView, W: LogSink + Sync> Layer<S> for Logger<W> {
    type Frame = (u64, usize);

    fn before(&self, state: &mut S, call: &Call<'_>) -> (decision: Result<(u64, usize), Denied>)
        ensures
            decision is Ok,
            exists|lent: &mut S, middleware: &mut MiddlewareCtx<S>| {
                &&& *lent == *old(state)
                &&& *final(lent) == *final(state)
                &&& call_ensures(S::middleware, (lent,), middleware)
                &&& decision->Ok_0.0 == middleware.context_view().id_view()
            },
            exists|opened: (usize, Ghost<(Map<u64, usize>, Map<u64, usize>)>)| {
                &&& call_ensures(Logger::<W>::begin_call, (self, decision->Ok_0.0), opened)
                &&& decision->Ok_0.1 == opened.0
            },
            exists|line: &str| {
                &&& call_ensures(Logger::<W>::write, (self, line), ())
                &&& line@ == call_line(decision->Ok_0.1 as nat, *call)
            },
    {
        let middleware = S::middleware;
        let invocation = middleware(state).context().id();
        let open = Logger::<W>::begin_call;
        let (depth, _tables) = open(self, invocation);
        let line = render_call_line(depth, call);
        let write = Logger::<W>::write;
        write(self, line.as_str());
        Ok((invocation, depth))
    }

    fn after(&self, _state: &mut S, call: &Call<'_>, frame: (u64, usize), outcome: Outcome<'_>)
        ensures
            exists|closed: Ghost<(Map<u64, usize>, Map<u64, usize>)>| call_ensures(Logger::<W>::end_call, (self, frame.0), closed),
            exists|line: &str, ending: Seq<char>| {
                &&& call_ensures(Logger::<W>::write, (self, line), ())
                &&& line@ == outcome_line(frame.1 as nat, call.id, ending)
                &&& ends_as(outcome, ending)
            },
    {
        let (invocation, depth) = frame;
        let close = Logger::<W>::end_call;
        close(self, invocation);
        let ending = render_ending(outcome);
        let line = render_outcome_line(depth, call.id, ending.as_str());
        let write = Logger::<W>::write;
        write(self, line.as_str());
    }
}

} // verus!

use wasm_component_middleware::{Accepted, Delivery, Intake, RelayQueue, StreamRelay, DEFAULT_STREAM_BUFFER_CAPACITY};

#[test]
fn stream_relay_requires_a_nonzero_bound() {
    assert!(StreamRelay::<0>::new().is_none());
    assert!(StreamRelay::<8192>::new().is_some());
}

#[test]
fn the_default_relay_buffers_sixty_four_kibibytes() {
    let relay = StreamRelay::default();
    assert_eq!(relay.capacity(), DEFAULT_STREAM_BUFFER_CAPACITY);
    assert_eq!(DEFAULT_STREAM_BUFFER_CAPACITY, 64 * 1024);
    let queue = StreamRelay::<4>::new().unwrap().queue("denied");
    assert_eq!(queue.intake(10, false), Intake::Offer { count: 4, buffered: 4 });
}

#[test]
fn approved_bytes_are_delivered_in_order_within_the_bound() {
    let mut relay = RelayQueue::new(4, "denied");

    assert_eq!(relay.intake(6, false), Intake::Offer { count: 4, buffered: 4 });
    assert_eq!(relay.accept(vec![1, 2, 3, 4], 6), Accepted::Wait);
    assert_eq!(relay.intake(2, false), Intake::Wait);

    let first = relay.produce(Some(3), false);
    assert_eq!(first.delivery, Delivery::Bytes(vec![1, 2, 3]));
    assert!(!first.wake_consumer);
    assert_eq!(relay.intake(2, false), Intake::Wait);

    let second = relay.produce(None, false);
    assert_eq!(second.delivery, Delivery::Bytes(vec![4]));
    assert!(second.wake_consumer);
    assert_eq!(relay.intake(2, false), Intake::Offer { count: 2, buffered: 3 });
}

#[test]
fn a_denial_is_reported_after_approved_bytes_drain() {
    let mut relay = RelayQueue::new(8, "denied");

    assert_eq!(relay.accept(vec![9, 8], 2), Accepted::Completed);
    relay.deny();
    assert_eq!(relay.take_completion(), None);

    let drained = relay.produce(None, false);
    assert_eq!(drained.delivery, Delivery::Bytes(vec![9, 8]));
    let closed = relay.produce(None, false);
    assert_eq!(closed.delivery, Delivery::Dropped);
    assert!(closed.wake_consumer);
    assert_eq!(relay.take_completion(), Some("denied"));
}

#[test]
fn a_denial_with_nothing_queued_is_reported_at_once() {
    let mut relay = RelayQueue::new(8, "denied");
    relay.deny();
    relay.record_completion("source done");

    assert_eq!(relay.take_completion(), Some("denied"));
    assert_eq!(relay.take_completion(), None);
}

#[test]
fn chunks_are_still_queued_after_the_source_completed() {
    let mut relay = RelayQueue::new(4, "denied");
    relay.record_completion("source done");
    assert!(relay.is_input_closed());

    assert_eq!(relay.accept(vec![3, 4], 2), Accepted::Completed);
    assert_eq!(relay.held(), 2);
    assert_eq!(relay.produce(None, false).delivery, Delivery::Bytes(vec![3, 4]));
}

#[test]
fn a_second_denial_keeps_the_first_report() {
    let mut relay = RelayQueue::new(8, "denied");
    relay.deny();
    relay.deny();

    assert!(relay.is_denied());
    assert_eq!(relay.take_completion(), Some("denied"));
    assert_eq!(relay.take_completion(), None);
}

#[test]
fn the_source_completion_is_reported_without_a_denial() {
    let mut relay = RelayQueue::new(8, "denied");
    relay.record_completion("source done");

    assert_eq!(relay.take_completion(), Some("source done"));
}

#[test]
fn intake_reports_completion_cancellation_and_a_closed_destination() {
    let mut relay = RelayQueue::new(2, ());

    assert_eq!(relay.intake(0, false), Intake::Completed);
    assert_eq!(relay.intake(0, true), Intake::Cancelled);
    assert_eq!(relay.accept(vec![1, 2], 2), Accepted::Completed);
    assert_eq!(relay.intake(1, true), Intake::Cancelled);
    relay.close_output();
    assert_eq!(relay.intake(1, false), Intake::Dropped);
}

#[test]
fn produce_waits_cancels_or_holds_bytes_for_a_full_destination() {
    let mut relay = RelayQueue::new(2, ());

    assert_eq!(relay.produce(None, false).delivery, Delivery::Wait);
    assert_eq!(relay.produce(None, true).delivery, Delivery::Cancelled);
    assert_eq!(relay.accept(vec![5], 1), Accepted::Completed);
    assert_eq!(relay.produce(Some(0), false).delivery, Delivery::Completed);
    assert_eq!(relay.produce(Some(1), false).delivery, Delivery::Bytes(vec![5]));
    relay.close_input();
    assert_eq!(relay.produce(None, false).delivery, Delivery::Dropped);
}

use std::sync::{Arc, Mutex};

use wasm_component_middleware::{
    chunk_call, ArgumentValue, Arguments, Call, Chain, Denied, Direction, InvocationContext, InvocationIds, Layer, MiddlewareCtx,
    MiddlewareView, Offered, Origin, Outcome,
};

struct State {
    middleware: MiddlewareCtx<Self>,
}

impl MiddlewareView for State {
    fn middleware(&mut self) -> &mut MiddlewareCtx<Self> {
        &mut self.middleware
    }
}

struct ChunkPolicy {
    seen: Arc<Mutex<Vec<String>>>,
    refuse_over: u64,
}

impl Layer<State> for ChunkPolicy {
    type Frame = ();

    fn before(&self, _: &mut State, call: &Call<'_>) -> Result<(), Denied> {
        let buffered = call.args.get("buffered").and_then(ArgumentValue::as_u64).unwrap();
        let bytes = call.args.get("bytes").and_then(ArgumentValue::as_bytes).unwrap().to_vec();
        self.seen.lock().unwrap().push(format!(
            "#{} {}@{}.{} {:?} {:?} {}",
            call.id,
            call.interface.unwrap(),
            call.version.unwrap(),
            call.function,
            call.handles,
            bytes,
            buffered
        ));
        if buffered > self.refuse_over {
            Err(Denied::new("too much"))
        } else {
            Ok(())
        }
    }

    fn after(&self, _: &mut State, _: &Call<'_>, (): (), _: Outcome<'_>) {}
}

fn origin() -> Origin {
    Origin {
        call_id: 11,
        interface: "wasi:sockets/tcp",
        version: "0.3.0",
        function: "[stream-write]send",
        handles: vec![4],
    }
}

#[test]
fn offered_chunks_are_shown_to_the_chain_then_queued_or_refused() {
    let seen = Arc::new(Mutex::new(Vec::new()));
    let chain = Chain::builder().layer(ChunkPolicy { seen: Arc::clone(&seen), refuse_over: 3 }).build();
    let mut state = State { middleware: MiddlewareCtx::new(Arc::new(chain), InvocationContext::new("relay", &mut InvocationIds::new())) };
    let mut relay = RelayQueue::new(8, "denied");
    let origin = origin();

    assert_eq!(relay.offer(&mut state, &origin, vec![1, 2], 5), Offered::Accepted(Accepted::Completed));
    assert_eq!(relay.offer(&mut state, &origin, vec![3, 4], 3), Offered::Refused);
    assert_eq!(relay.intake(1, false), Intake::Offer { count: 1, buffered: 3 });
    assert_eq!(relay.produce(None, false).delivery, Delivery::Bytes(vec![1, 2]));
    assert_eq!(relay.produce(None, false).delivery, Delivery::Dropped);
    assert_eq!(relay.take_completion(), Some("denied"));
    assert_eq!(
        *seen.lock().unwrap(),
        [
            "#11 wasi:sockets/tcp@0.3.0.[stream-write]send [4] [1, 2] 2".to_owned(),
            "#11 wasi:sockets/tcp@0.3.0.[stream-write]send [4] [3, 4] 4".to_owned(),
        ]
    );
}

#[test]
fn chunk_calls_keep_the_origin_identity() {
    let origin = origin();
    let arguments = Arguments::new().with("n", 1_u64);
    let call = chunk_call(&origin, &arguments);

    assert_eq!(call.id, 11);
    assert_eq!(call.direction, Direction::Import);
    assert_eq!(call.interface, Some("wasi:sockets/tcp"));
    assert_eq!(call.version, Some("0.3.0"));
    assert_eq!(call.function, "[stream-write]send");
    assert_eq!(call.handles, [4]);
    assert_eq!(call.args.len(), 1);
}

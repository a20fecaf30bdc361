use remote_hub::adapter::{Adapter, AdapterError, Outcome};
use remote_hub::codec::{CodecError, MessageCodec};
use remote_hub::registry::{ActionRegistry, AdapterHandle};
use remote_hub::replay::{ExecutionStatus, ReplayError, ReplayGuard, ResultSummary};
use remote_hub::router::{
    initialize, receive_message, terminal_state, IntentRouter, IntentState, RouterError,
};
use remote_hub::tag::ActionTag;

/// An adapter that notes every payload it is called with.
struct Recording {
    calls: Vec<Vec<u8>>,
    reply: Result<Outcome, AdapterError>,
}

impl Recording {
    fn answering(reply: Result<Outcome, AdapterError>) -> Recording {
        Recording { calls: Vec::new(), reply }
    }
}

impl Adapter for Recording {
    fn execute(&mut self, payload: &[u8]) -> Result<Outcome, AdapterError> {
        self.calls.push(payload.to_vec());
        self.reply.clone()
    }
}

fn envelope(version: u8, tag: &[u8], payload: &[u8]) -> Vec<u8> {
    let mut raw = vec![version, tag.len() as u8];
    raw.extend_from_slice(tag);
    raw.extend_from_slice(&(payload.len() as u32).to_be_bytes());
    raw.extend_from_slice(payload);
    raw
}

fn ok_outcome() -> Outcome {
    Outcome { data: b"ok".to_vec() }
}

struct Hub {
    router: IntentRouter<Recording>,
}

impl Hub {
    /// The payloads that the adapter registered for `name` was called with.
    fn calls(&self, name: &str) -> Vec<Vec<u8>> {
        let registry = self.router.registry();
        let handle = registry.resolve(&ActionTag::from_name(name).unwrap()).unwrap();
        registry.adapter(handle).unwrap().calls.clone()
    }
}

/// A hub with "LEND", which answers an outcome, and "SWAP", which fails
/// with code 42.
fn hub() -> Hub {
    let mut registry = ActionRegistry::new();
    registry.register(
        ActionTag::from_name("LEND").unwrap(),
        Recording::answering(Ok(ok_outcome())),
    );
    registry.register(
        ActionTag::from_name("SWAP").unwrap(),
        Recording::answering(Err(AdapterError { code: 42 })),
    );
    Hub { router: initialize(1024, registry) }
}

#[test]
fn lend_message_is_dispatched_and_succeeds() {
    let mut hub = hub();
    let raw = envelope(1, b"LEND", b"amount:100,asset:USDC");
    let res = hub.router.handle(&raw);
    assert_eq!(res, Ok(ok_outcome()));
    assert_eq!(terminal_state(&res), IntentState::FinalizedSucceeded);
    assert_eq!(hub.calls("LEND"), vec![b"amount:100,asset:USDC".to_vec()]);
    assert!(hub.calls("SWAP").is_empty());
    let record = hub.router.guard().record(&raw).unwrap();
    assert_eq!(record.status, ExecutionStatus::Succeeded);
    assert_eq!(record.result_summary, ResultSummary::Completed { outcome_len: 2 });
    assert_eq!(hub.router.guard().len(), 1);
}

#[test]
fn same_bytes_twice_are_a_duplicate() {
    let mut hub = hub();
    let raw = envelope(1, b"LEND", b"amount:100,asset:USDC");
    assert_eq!(hub.router.handle(&raw), Ok(ok_outcome()));
    let second = hub.router.handle(&raw);
    assert_eq!(second, Err(RouterError::Replay(ReplayError::Duplicate)));
    assert_eq!(terminal_state(&second), IntentState::RejectedReplay);
    assert_eq!(hub.calls("LEND").len(), 1);
    assert_eq!(hub.router.guard().len(), 1);
    assert_eq!(hub.router.guard().status(&raw), Some(ExecutionStatus::Succeeded));
}

#[test]
fn unknown_tag_is_rejected_and_recorded_as_failed() {
    let mut hub = hub();
    let raw = envelope(1, b"UNKNOWN", b"whatever");
    let res = hub.router.handle(&raw);
    assert_eq!(res, Err(RouterError::UnknownAction));
    assert_eq!(terminal_state(&res), IntentState::RejectedUnknownAction);
    assert!(hub.calls("LEND").is_empty());
    assert!(hub.calls("SWAP").is_empty());
    let record = hub.router.guard().record(&raw).unwrap();
    assert_eq!(record.status, ExecutionStatus::Failed);
    assert_eq!(record.result_summary, ResultSummary::UnknownAction);
    // The identifier is used up: the same message is now a duplicate.
    assert_eq!(
        hub.router.handle(&raw),
        Err(RouterError::Replay(ReplayError::Duplicate))
    );
}

#[test]
fn malformed_messages_leave_no_record() {
    let mut hub = hub();
    let good = envelope(1, b"LEND", b"amount:100,asset:USDC");

    let mut cut = good.clone();
    cut.truncate(good.len() - 3);
    let res = hub.router.handle(&cut);
    assert_eq!(res, Err(RouterError::Codec(CodecError::Truncated)));
    assert_eq!(terminal_state(&res), IntentState::RejectedCodec);

    let oversize = envelope(1, &[b'A'; 65], b"x");
    assert_eq!(
        hub.router.handle(&oversize),
        Err(RouterError::Codec(CodecError::InvalidAction))
    );
    assert_eq!(
        hub.router.handle(&envelope(3, b"LEND", b"x")),
        Err(RouterError::Codec(CodecError::UnknownVersion))
    );
    assert_eq!(
        hub.router.handle(&envelope(1, &[0xff, 0xfe], b"x")),
        Err(RouterError::Codec(CodecError::InvalidAction))
    );

    assert_eq!(hub.router.guard().len(), 0);
    assert!(hub.calls("LEND").is_empty());

    // The corrected message goes through afterwards.
    assert_eq!(hub.router.handle(&good), Ok(ok_outcome()));
    assert_eq!(hub.calls("LEND").len(), 1);
}

#[test]
fn adapter_failure_is_passed_on_and_not_retried() {
    let mut hub = hub();
    let raw = envelope(1, b"SWAP", b"in:1,out:2");
    let res = hub.router.handle(&raw);
    assert_eq!(res, Err(RouterError::Adapter(AdapterError { code: 42 })));
    assert_eq!(terminal_state(&res), IntentState::FinalizedFailed);
    assert_eq!(hub.calls("SWAP"), vec![b"in:1,out:2".to_vec()]);
    let record = hub.router.guard().record(&raw).unwrap();
    assert_eq!(record.status, ExecutionStatus::Failed);
    assert_eq!(record.result_summary, ResultSummary::AdapterFailed { code: 42 });
    // The identifier is consumed; a resubmission does not reach the adapter.
    assert_eq!(
        hub.router.handle(&raw),
        Err(RouterError::Replay(ReplayError::Duplicate))
    );
    assert_eq!(hub.calls("SWAP").len(), 1);
}

#[test]
fn trailing_bytes_do_not_make_a_new_intent() {
    let mut hub = hub();
    let raw = envelope(1, b"LEND", b"p");
    let mut padded = raw.clone();
    padded.extend_from_slice(b"junk");
    assert_eq!(hub.router.handle(&padded), Ok(ok_outcome()));
    assert_eq!(
        hub.router.handle(&raw),
        Err(RouterError::Replay(ReplayError::Duplicate))
    );
    assert_eq!(hub.calls("LEND").len(), 1);
    assert_eq!(hub.router.guard().status(&raw), Some(ExecutionStatus::Succeeded));
}

#[test]
fn distinct_intents_are_each_dispatched() {
    let mut hub = hub();
    assert!(hub.router.handle(&envelope(1, b"LEND", b"a")).is_ok());
    assert!(hub.router.handle(&envelope(1, b"LEND", b"b")).is_ok());
    assert!(hub.router.handle(&envelope(1, b"SWAP", b"a")).is_err());
    assert_eq!(hub.calls("LEND"), vec![b"a".to_vec(), b"b".to_vec()]);
    assert_eq!(hub.calls("SWAP"), vec![b"a".to_vec()]);
    assert_eq!(hub.router.guard().len(), 3);
}

#[test]
fn prepare_stops_at_the_point_of_dispatch() {
    let mut hub = hub();
    let raw = envelope(1, b"SWAP", b"payload");
    let dispatch = hub.router.prepare(&raw).unwrap();
    assert_eq!(dispatch.id, raw);
    assert_eq!(dispatch.handle, AdapterHandle { index: 1 });
    assert_eq!(dispatch.payload, b"payload".to_vec());
    assert!(hub.calls("SWAP").is_empty());
    assert_eq!(hub.router.guard().status(&raw), Some(ExecutionStatus::Pending));

    // A second submission while the first is in flight is a duplicate.
    assert_eq!(
        hub.router.prepare(&raw).unwrap_err(),
        RouterError::Replay(ReplayError::Duplicate)
    );

    let res = hub.router.settle(&dispatch.id, Ok(Outcome { data: vec![1, 2, 3] }));
    assert_eq!(res, Ok(Outcome { data: vec![1, 2, 3] }));
    let record = hub.router.guard().record(&raw).unwrap();
    assert_eq!(record.status, ExecutionStatus::Succeeded);
    assert_eq!(record.result_summary, ResultSummary::Completed { outcome_len: 3 });
}

#[test]
fn prepare_rejects_like_handle() {
    let mut hub = hub();
    assert_eq!(
        hub.router.prepare(&[1]).unwrap_err(),
        RouterError::Codec(CodecError::Truncated)
    );
    assert_eq!(hub.router.guard().len(), 0);
    let unknown = envelope(1, b"NOPE", b"");
    assert_eq!(hub.router.prepare(&unknown).unwrap_err(), RouterError::UnknownAction);
    assert_eq!(hub.router.guard().status(&unknown), Some(ExecutionStatus::Failed));
}

#[test]
fn settle_records_an_adapter_error() {
    let mut hub = hub();
    let raw = envelope(1, b"LEND", b"x");
    let dispatch = hub.router.prepare(&raw).unwrap();
    let res = hub.router.settle(&dispatch.id, Err(AdapterError { code: 7 }));
    assert_eq!(res, Err(RouterError::Adapter(AdapterError { code: 7 })));
    let record = hub.router.guard().record(&raw).unwrap();
    assert_eq!(record.status, ExecutionStatus::Failed);
    assert_eq!(record.result_summary, ResultSummary::AdapterFailed { code: 7 });
}

#[test]
fn handle_intent_skips_the_decoding() {
    let mut hub = hub();
    let codec = MessageCodec::new(1024);
    let raw = envelope(1, b"LEND", b"abc");
    let intent = codec.decode(&raw).unwrap();
    assert_eq!(hub.router.handle_intent(intent), Ok(ok_outcome()));
    assert_eq!(hub.calls("LEND"), vec![b"abc".to_vec()]);
    // The raw form of the same intent is now a duplicate.
    assert_eq!(
        hub.router.handle(&raw),
        Err(RouterError::Replay(ReplayError::Duplicate))
    );
}

#[test]
fn receive_message_frames_and_handles() {
    let mut hub = hub();
    let res = receive_message(&mut hub.router, "LEND".to_string(), b"amount:1".to_vec());
    assert_eq!(res, Ok(ok_outcome()));
    assert_eq!(hub.calls("LEND"), vec![b"amount:1".to_vec()]);
    let raw = envelope(1, b"LEND", b"amount:1");
    assert_eq!(hub.router.guard().status(&raw), Some(ExecutionStatus::Succeeded));
    assert_eq!(
        receive_message(&mut hub.router, "LEND".to_string(), b"amount:1".to_vec()),
        Err(RouterError::Replay(ReplayError::Duplicate))
    );
    assert_eq!(
        receive_message(&mut hub.router, "UNKNOWN".to_string(), vec![]),
        Err(RouterError::UnknownAction)
    );
    assert_eq!(hub.calls("LEND").len(), 1);
}

#[test]
fn receive_message_rejects_what_does_not_fit_an_envelope() {
    let mut hub = hub();
    let long_name = "A".repeat(65);
    assert_eq!(
        receive_message(&mut hub.router, long_name, vec![]),
        Err(RouterError::Codec(CodecError::InvalidAction))
    );
    assert_eq!(
        receive_message(&mut hub.router, "LEND".to_string(), vec![0; 1025]),
        Err(RouterError::Codec(CodecError::Truncated))
    );
    assert_eq!(hub.router.guard().len(), 0);
    assert!(hub.calls("LEND").is_empty());
    assert!(receive_message(&mut hub.router, "LEND".to_string(), vec![0; 1024]).is_ok());
}

#[test]
fn initialize_gives_a_hub_that_has_seen_nothing() {
    let registry: ActionRegistry<Recording> = ActionRegistry::new();
    let router = initialize(77, registry);
    assert_eq!(router.codec().max_payload_len, 77);
    assert_eq!(router.guard().len(), 0);
    assert_eq!(router.registry().len(), 0);
}

#[test]
fn a_router_can_start_from_restored_records() {
    let raw = envelope(1, b"LEND", b"done-before");
    let mut guard = ReplayGuard::new();
    guard.check_and_reserve(&raw).unwrap();
    guard.finalize(&raw, ExecutionStatus::Succeeded, ResultSummary::Completed { outcome_len: 0 });
    let mut registry = ActionRegistry::new();
    let lend = registry
        .register(ActionTag::from_name("LEND").unwrap(), Recording::answering(Ok(ok_outcome())))
        .unwrap();
    let mut router = IntentRouter::new(MessageCodec::new(64), registry, guard);
    assert_eq!(
        router.handle(&raw),
        Err(RouterError::Replay(ReplayError::Duplicate))
    );
    assert!(router.registry().adapter(lend).unwrap().calls.is_empty());
}

#[test]
fn only_unsettled_states_are_not_terminal() {
    assert!(!IntentState::Received.is_terminal());
    assert!(!IntentState::Decoded.is_terminal());
    assert!(!IntentState::ReplayChecked.is_terminal());
    assert!(!IntentState::Dispatched.is_terminal());
    assert!(IntentState::FinalizedSucceeded.is_terminal());
    assert!(IntentState::FinalizedFailed.is_terminal());
    assert!(IntentState::RejectedCodec.is_terminal());
    assert!(IntentState::RejectedReplay.is_terminal());
    assert!(IntentState::RejectedUnknownAction.is_terminal());
}

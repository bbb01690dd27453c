use codemode_rs::sandbox::{
    after_checkpoint, after_wait, dispatch, marshal_failure, settlement, BridgeState, Dispatch,
    LoopStep, PromiseState, SandboxError, Settlement, WaitOutcome, wrap_script,
};
use codemode_rs::tool::ToolCallError;

#[test]
fn ids_start_at_one_and_are_distinct() {
    let mut state: BridgeState<&str> = BridgeState::new();
    assert_eq!(state.pending(), 0);
    let a = state.register("first").unwrap();
    let b = state.register("second").unwrap();
    assert_eq!(a, 1);
    assert_eq!(b, 2);
    assert_eq!(state.pending(), 2);
    assert_eq!(state.take(b), Some("second"));
    assert_eq!(state.take(a), Some("first"));
    assert_eq!(state.pending(), 0);
}

#[test]
fn a_completion_settles_once() {
    let mut state: BridgeState<u32> = BridgeState::new();
    let id = state.register(7).unwrap();
    assert_eq!(state.take(id), Some(7));
    assert_eq!(state.take(id), None);
    assert_eq!(state.take(99), None);
    assert_eq!(state.pending(), 0);
}

#[test]
fn closing_abandons_calls_in_flight() {
    let mut state: BridgeState<u32> = BridgeState::new();
    state.register(1).unwrap();
    state.register(2).unwrap();
    state.close();
    assert_eq!(state.pending(), 0);
    assert_eq!(state.take(1), None);
    assert_eq!(state.register(3), Some(3));
}

#[test]
fn timeout_ends_a_pending_script() {
    assert!(matches!(after_checkpoint(PromiseState::Pending, 101, 100), LoopStep::Timeout));
    assert!(matches!(after_checkpoint(PromiseState::Pending, 100, 100), LoopStep::Wait));
    assert!(matches!(after_checkpoint(PromiseState::Fulfilled, 500, 100), LoopStep::Finish));
    assert!(matches!(after_checkpoint(PromiseState::Rejected, 0, 100), LoopStep::Reject));
    assert_eq!(SandboxError::timeout().to_string(), "v8 error: execution timeout");
    assert_eq!(SandboxError::incomplete().to_string(), "v8 error: execution incomplete");
}

#[test]
fn waits_end_on_disconnection() {
    assert!(after_wait(WaitOutcome::Received));
    assert!(after_wait(WaitOutcome::Empty));
    assert!(!after_wait(WaitOutcome::Disconnected));
}

#[test]
fn provider_rejection_keeps_message() {
    let err = ToolCallError::Message("boom".to_string());
    let text = err.to_string();
    assert_eq!(text, "tool call failed: boom");
    match settlement::<u8>(Err(text)) {
        Settlement::Reject(m) => assert!(m.contains("boom")),
        Settlement::Resolve(_) => panic!("expected a rejection"),
    }
    match settlement::<u8>(Ok(5)) {
        Settlement::Resolve(v) => assert_eq!(v, 5),
        Settlement::Reject(_) => panic!("expected a resolution"),
    }
    assert_eq!(marshal_failure(), "failed to serialize tool result");
    assert_eq!(SandboxError::Tool("boom".to_string()).to_string(), "tool call error: boom");
    assert_eq!(SandboxError::Serialization("x".to_string()).to_string(), "serialization error: x");
}

#[test]
fn stubs_dispatch_by_kind() {
    assert!(matches!(dispatch(true, true, false), Dispatch::Spawn));
    assert!(matches!(dispatch(false, false, true), Dispatch::CallInPlace));
    match dispatch(true, false, true) {
        Dispatch::Throw(m) => assert_eq!(m, "async caller missing"),
        _ => panic!("expected a throw"),
    }
    match dispatch(false, true, false) {
        Dispatch::Throw(m) => assert_eq!(m, "sync caller missing"),
        _ => panic!("expected a throw"),
    }
}

#[test]
fn scripts_run_inside_an_async_function() {
    assert_eq!(wrap_script("return add({a:2,b:3});"), "(async function() { return add({a:2,b:3}); })()");
}

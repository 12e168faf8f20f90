use mcp_client::engine::{DispatchOutcome, Engine};
use mcp_client::errors::RpcClientError;

#[test]
fn unique_ids_for_many_calls() {
    let mut e = Engine::new();
    let mut ids: Vec<u64> = Vec::new();
    for _ in 0..8 {
        let id = e.begin_call().unwrap();
        assert!(!ids.contains(&id), "allocated id repeated");
        ids.push(id);
    }
    assert_eq!(ids, vec![1, 2, 3, 4, 5, 6, 7, 8]);
    assert_eq!(e.pending_count(), 8);
}

#[test]
fn each_response_resolves_exactly_one_caller() {
    let mut e = Engine::new();
    let a = e.begin_call().unwrap();
    let b = e.begin_call().unwrap();
    assert_eq!(e.dispatch(Some(a)), DispatchOutcome::Resolved(a));
    assert_eq!(e.dispatch(Some(a)), DispatchOutcome::Ignored);
    assert_eq!(e.dispatch(Some(b)), DispatchOutcome::Resolved(b));
    assert_eq!(e.pending_count(), 0);
}

#[test]
fn duplicate_response_frame_is_discarded() {
    let mut e = Engine::new();
    let id = e.begin_call().unwrap();
    assert_eq!(e.dispatch(Some(id)), DispatchOutcome::Resolved(id));
    // The entry was removed before resolving; a second frame with the same id
    // must change nothing.
    let count_before = e.pending_count();
    assert_eq!(e.dispatch(Some(id)), DispatchOutcome::Ignored);
    assert_eq!(e.pending_count(), count_before);
}

#[test]
fn shutdown_drains_all_pending_callers() {
    let mut e = Engine::new();
    let a = e.begin_call().unwrap();
    let b = e.begin_call().unwrap();
    let c = e.begin_call().unwrap();
    let drained = e.on_disconnect();
    assert_eq!(drained, vec![a, b, c]);
    assert_eq!(e.pending_count(), 0);
    assert!(!e.is_running());
    // Calls after the loop ended fail fast with Disconnected.
    assert!(matches!(e.begin_call(), Err(RpcClientError::Disconnected)));
}

#[test]
fn responses_out_of_order_resolve_the_right_callers() {
    let mut e = Engine::new();
    let a = e.begin_call().unwrap();
    let b = e.begin_call().unwrap();
    // Deliver B's response first, then A's.
    assert_eq!(e.dispatch(Some(b)), DispatchOutcome::Resolved(b));
    assert_eq!(e.dispatch(Some(a)), DispatchOutcome::Resolved(a));
    assert_eq!(e.pending_count(), 0);
}

#[test]
fn unmatched_frame_is_tolerated() {
    let mut e = Engine::new();
    let a = e.begin_call().unwrap();
    // An id with no pending entry: ignored, other entries untouched.
    assert_eq!(e.dispatch(Some(777)), DispatchOutcome::Ignored);
    // A frame with no id at all: ignored too.
    assert_eq!(e.dispatch(None), DispatchOutcome::Ignored);
    assert_eq!(e.pending_count(), 1);
    assert_eq!(e.dispatch(Some(a)), DispatchOutcome::Resolved(a));
}

#[test]
fn failed_send_takes_back_the_entry() {
    let mut e = Engine::new();
    let id = e.begin_call().unwrap();
    assert!(e.abort_call(id));
    assert_eq!(e.pending_count(), 0);
    assert!(!e.abort_call(id));
    // The engine keeps running; the id is never reused.
    assert!(e.is_running());
    let next = e.begin_call().unwrap();
    assert_ne!(next, id);
}

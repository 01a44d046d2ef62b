use aurora_mcp::dispatch::{ErrorKind, Outcome, Request};
use aurora_mcp::registry::{echo_tool, Registry};
use aurora_mcp::session::{sse_post, SessionError, SessionManager, TransportKind};
use aurora_mcp::value::Value;

#[test]
fn created_sessions_get_fresh_identifiers() {
    let mut sm = SessionManager::new();
    let a = sm.create(TransportKind::Sse, 0);
    let b = sm.create(TransportKind::Http, 5);
    assert_ne!(a, b);
    assert!(sm.touch(a, 10).is_ok());
    assert!(sm.touch(b, 10).is_ok());
}

#[test]
fn touching_an_unknown_session_fails() {
    let mut sm = SessionManager::new();
    assert_eq!(sm.touch(42, 0), Err(SessionError::UnknownSession));
}

#[test]
fn destroy_removes_exactly_the_named_session() {
    let mut sm = SessionManager::new();
    let a = sm.create(TransportKind::Stdio, 0);
    let b = sm.create(TransportKind::Sse, 0);
    assert!(sm.destroy(a));
    assert!(!sm.destroy(a));
    assert_eq!(sm.touch(a, 1), Err(SessionError::UnknownSession));
    assert!(sm.touch(b, 1).is_ok());
}

#[test]
fn reap_destroys_idle_sessions_only() {
    let mut sm = SessionManager::new();
    let stale = sm.create(TransportKind::Sse, 0);
    let fresh = sm.create(TransportKind::Sse, 250_000);
    assert_eq!(sm.reap(400_000, 300_000), 1);
    assert_eq!(sm.touch(stale, 400_000), Err(SessionError::UnknownSession));
    assert!(sm.touch(fresh, 400_000).is_ok());
}

#[test]
fn reaping_twice_with_no_new_activity_destroys_only_once() {
    let mut sm = SessionManager::new();
    sm.create(TransportKind::Sse, 0);
    sm.create(TransportKind::Sse, 1);
    sm.create(TransportKind::Sse, 390_000);
    assert_eq!(sm.reap(400_000, 300_000), 2);
    assert_eq!(sm.reap(400_000, 300_000), 0);
}

#[test]
fn activity_postpones_reaping() {
    let mut sm = SessionManager::new();
    let s = sm.create(TransportKind::Sse, 0);
    assert!(sm.touch(s, 350_000).is_ok());
    assert_eq!(sm.reap(400_000, 300_000), 0);
}

fn echo_registry() -> Registry {
    let mut reg = Registry::new();
    reg.register(echo_tool()).expect("fresh registry");
    reg
}

fn echo_request(id: &str, session: Option<u64>) -> Request {
    Request {
        id: id.to_string(),
        tool: "echo".to_string(),
        arguments: vec![("text".to_string(), Value::Str("hi".to_string()))],
        session,
    }
}

#[test]
fn a_post_on_a_live_session_is_dispatched() {
    let reg = echo_registry();
    let mut sm = SessionManager::new();
    let sid = sm.create(TransportKind::Sse, 0);
    let ts = "2024-01-01T00:00:00+00:00".to_string();
    let resp = sse_post(&reg, &mut sm, echo_request("1", Some(sid)), 10, &ts);
    assert_eq!(resp.outcome, Outcome::Success(Value::Str("hi".to_string())));
}

#[test]
fn a_post_after_idle_reaping_fails_with_unknown_session() {
    let reg = echo_registry();
    let mut sm = SessionManager::new();
    let sid = sm.create(TransportKind::Sse, 0);
    assert_eq!(sm.reap(400_000, 300_000), 1);
    let ts = "2024-01-01T00:00:00+00:00".to_string();
    let resp = sse_post(&reg, &mut sm, echo_request("2", Some(sid)), 400_001, &ts);
    assert_eq!(
        resp.outcome,
        Outcome::Failure(ErrorKind::UnknownSession, "unknown or expired session".to_string())
    );
}

#[test]
fn a_post_without_a_session_is_rejected() {
    let reg = echo_registry();
    let mut sm = SessionManager::new();
    let ts = "2024-01-01T00:00:00+00:00".to_string();
    let resp = sse_post(&reg, &mut sm, echo_request("3", None), 0, &ts);
    assert_eq!(
        resp.outcome,
        Outcome::Failure(ErrorKind::UnknownSession, "missing session id".to_string())
    );
}

#[test]
fn identifiers_are_not_reused_after_destroy() {
    let mut sm = SessionManager::new();
    let a = sm.create(TransportKind::Http, 0);
    assert!(sm.destroy(a));
    let b = sm.create(TransportKind::Http, 0);
    assert_ne!(a, b);
}

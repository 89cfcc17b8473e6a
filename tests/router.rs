use lc_router::classify::{classify, is_content_modified_error, Classification, ErrorKind};
use lc_router::keyed::KeyedTable;
use lc_router::lock_registry::LockRegistry;
use lc_router::router::{
    is_reserved_method, proxy_target, settle, settle_unmatched, Failure, Log, MessageKind, Reason,
    Response, Route, Router,
};
use lc_router::snapshot::diff;

fn s(x: &str) -> String {
    x.to_string()
}

fn failure(kind: ErrorKind) -> Failure {
    Failure { kind, reason: Reason::Detail(s("boom")) }
}

#[test]
fn classify_by_kind() {
    assert_eq!(classify(&ErrorKind::ContentModified), Classification::Ignorable);
    assert_eq!(classify(&ErrorKind::AlreadyReported), Classification::AlreadyReported);
    assert_eq!(classify(&ErrorKind::Other), Classification::Unexpected);
    assert!(is_content_modified_error(&ErrorKind::ContentModified));
    assert!(!is_content_modified_error(&ErrorKind::Other));
}

#[test]
fn same_identity_same_lock() {
    let mut reg = LockRegistry::new();
    let a = reg.lock_for(&s("rust"));
    let b = reg.lock_for(&s("python"));
    let c = reg.lock_for(&s("rust"));
    assert_eq!(a, c);
    assert_ne!(a, b);
    assert_eq!(reg.len(), 2);
}

#[test]
fn distinct_identities_distinct_locks() {
    let mut reg = LockRegistry::new();
    let ids = ["go", "c", "cpp", "go", "c"];
    let hs: Vec<usize> = ids.iter().map(|i| reg.lock_for(&s(i))).collect();
    assert_eq!(hs, vec![0, 1, 2, 0, 1]);
    assert_eq!(reg.len(), 3);
}

fn router() -> Router {
    let mut r = Router::new();
    assert_eq!(r.add_handler(MessageKind::Call, &s("textDocument/hover")), 0);
    assert_eq!(r.add_handler(MessageKind::Call, &s("custom/foo")), 1);
    assert_eq!(r.add_handler(MessageKind::Notification, &s("textDocument/didOpen")), 0);
    assert_eq!(r.add_handler(MessageKind::Notification, &s("custom/foo")), 1);
    r
}

#[test]
fn override_intercepts_calls_and_notifications() {
    let mut r = router();
    assert!(matches!(r.route(MessageKind::Call, &s("custom/foo"), &None), Route::Builtin(1)));
    r.register_override(s("custom/foo"), s("MyHandler"));
    for kind in [MessageKind::Call, MessageKind::Notification] {
        for src in [None, Some(s("rust"))] {
            match r.route(kind, &s("custom/foo"), &src) {
                Route::Override(t) => assert_eq!(t, "MyHandler"),
                other => panic!("unexpected route {:?}", other),
            }
        }
    }
    assert_eq!(r.override_for(&s("custom/foo")), Some(s("MyHandler")));
    assert_eq!(r.override_for(&s("custom/bar")), None);
    r.register_override(s("custom/foo"), s("Other"));
    assert_eq!(r.override_for(&s("custom/foo")), Some(s("Other")));
}

#[test]
fn builtin_match_by_kind() {
    let r = router();
    assert!(matches!(r.route(MessageKind::Call, &s("textDocument/hover"), &None), Route::Builtin(0)));
    assert!(matches!(
        r.route(MessageKind::Notification, &s("textDocument/didOpen"), &Some(s("rust"))),
        Route::Builtin(0)
    ));
    // a call name is not a notification handler
    assert!(matches!(r.route(MessageKind::Notification, &s("textDocument/hover"), &None), Route::Proxy));
}

#[test]
fn unmatched_from_backend() {
    let r = router();
    let src = Some(s("rust"));
    assert!(matches!(r.route(MessageKind::Call, &s("$/progress"), &src), Route::AcceptReserved));
    assert!(matches!(r.route(MessageKind::Notification, &s("$rust/x"), &src), Route::AcceptReserved));
    assert!(matches!(r.route(MessageKind::Call, &s("window/foo"), &src), Route::Unhandled));
    assert!(matches!(r.route(MessageKind::Call, &s("window/foo"), &None), Route::Proxy));
    assert!(matches!(r.route(MessageKind::Call, &s(""), &src), Route::Unhandled));
}

#[test]
fn reserved_prefix() {
    assert!(is_reserved_method(&s("$/cancelRequest")));
    assert!(!is_reserved_method(&s("x$")));
    assert!(!is_reserved_method(&s("")));
}

#[test]
fn reserved_call_gets_void_success_and_warning() {
    let st = settle_unmatched::<i32>(Some(7), &s("$/status"));
    assert!(matches!(st.response, Some(Response::Void(7))));
    assert_eq!(st.log, Log::Warning);
    let st = settle_unmatched::<i32>(None, &s("$/status"));
    assert!(st.response.is_none());
    assert_eq!(st.log, Log::Warning);
}

#[test]
fn unreserved_unmatched_call_fails() {
    let st = settle_unmatched::<i32>(Some(3), &s("window/foo"));
    match st.response {
        Some(Response::Error(3, f)) => {
            assert_eq!(f.kind, ErrorKind::Other);
            assert!(matches!(f.reason, Reason::NotHandled));
        }
        other => panic!("unexpected {:?}", other),
    }
    assert_eq!(st.log, Log::Error);
    let st = settle_unmatched::<i32>(None, &s("window/foo"));
    assert!(st.response.is_none());
    assert_eq!(st.log, Log::Error);
}

#[test]
fn every_call_answered_once() {
    let st = settle(Some(1), Ok::<i32, Failure>(42));
    assert!(matches!(st.response, Some(Response::Data(1, 42))));
    assert_eq!(st.log, Log::Silent);
    let st = settle(Some(2), Err::<i32, Failure>(failure(ErrorKind::ContentModified)));
    assert!(matches!(st.response, Some(Response::Void(2))));
    assert_eq!(st.log, Log::Silent);
    let st = settle(Some(3), Err::<i32, Failure>(failure(ErrorKind::AlreadyReported)));
    assert!(matches!(st.response, Some(Response::Error(3, _))));
    assert_eq!(st.log, Log::Silent);
    let st = settle(Some(4), Err::<i32, Failure>(failure(ErrorKind::Other)));
    assert!(matches!(st.response, Some(Response::Error(4, _))));
    assert_eq!(st.log, Log::Error);
}

#[test]
fn notifications_never_answered() {
    for outcome in [
        Ok(1),
        Err(failure(ErrorKind::ContentModified)),
        Err(failure(ErrorKind::AlreadyReported)),
        Err(failure(ErrorKind::Other)),
    ] {
        let unexpected = matches!(&outcome, Err(f) if f.kind == ErrorKind::Other);
        let st = settle::<i32>(None, outcome);
        assert!(st.response.is_none());
        assert_eq!(st.log == Log::Error, unexpected);
    }
}

#[test]
fn unresolved_editor_call_is_unexpected_error() {
    let r = router();
    assert!(matches!(r.route(MessageKind::Call, &s("textDocument/definition"), &None), Route::Proxy));
    let target = proxy_target(None);
    let f = match target {
        Err(f) => f,
        Ok(_) => panic!("resolved without a document"),
    };
    assert!(matches!(f.reason, Reason::NoTarget));
    assert_eq!(classify(&f.kind), Classification::Unexpected);
    let st = settle::<i32>(Some(9), Err(f));
    assert!(matches!(st.response, Some(Response::Error(9, _))));
    assert_eq!(st.log, Log::Error);
    assert!(matches!(proxy_target(Some(s("rust"))), Ok(l) if l == "rust"));
}

fn table(pairs: &[(&str, &str)]) -> KeyedTable {
    let mut t = KeyedTable::new();
    for (k, v) in pairs {
        t.insert(s(k), s(v));
    }
    t
}

#[test]
fn keyed_table_replaces() {
    let t = table(&[("a", "1"), ("b", "2"), ("a", "3")]);
    assert_eq!(t.len(), 2);
    assert_eq!(t.lookup(&s("a")), Some(s("3")));
    assert_eq!(t.lookup(&s("c")), None);
    let (k, v) = t.entry(1);
    assert_eq!((k.as_str(), v.as_str()), ("b", "2"));
}

#[test]
fn two_updates_two_diffs() {
    let s0 = table(&[("state.mode", "\"normal\""), ("state.count", "0")]);
    let s1 = table(&[("state.mode", "\"insert\""), ("state.count", "0")]);
    let s2 = table(&[("state.mode", "\"insert\""), ("state.count", "1")]);
    let d1 = diff(&s0, &s1);
    assert_eq!(d1.len(), 1);
    assert_eq!(d1[0].path, "state.mode");
    assert_eq!(d1[0].before, Some(s("\"normal\"")));
    assert_eq!(d1[0].after, Some(s("\"insert\"")));
    let d2 = diff(&s1, &s2);
    assert_eq!(d2.len(), 1);
    assert_eq!(d2[0].path, "state.count");
    assert_eq!(d2[0].before, Some(s("0")));
    assert_eq!(d2[0].after, Some(s("1")));
}

#[test]
fn diff_added_and_removed_paths() {
    let a = table(&[("x", "1"), ("y", "2")]);
    let b = table(&[("y", "2"), ("z", "3")]);
    let d = diff(&a, &b);
    assert_eq!(d.len(), 2);
    assert_eq!((d[0].path.as_str(), d[0].before.clone(), d[0].after.clone()), ("x", Some(s("1")), None));
    assert_eq!((d[1].path.as_str(), d[1].before.clone(), d[1].after.clone()), ("z", None, Some(s("3"))));
    assert!(diff(&a, &a).is_empty());
}

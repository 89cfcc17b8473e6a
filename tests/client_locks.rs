use std::sync::Arc;

use lc_router::client_locks::ClientLocks;

#[test]
fn same_language_same_mutex() {
    let mut pool = ClientLocks::new();
    let a = pool.get_client_update_mutex(&"rust".to_string());
    let b = pool.get_client_update_mutex(&"go".to_string());
    let c = pool.get_client_update_mutex(&"rust".to_string());
    assert!(Arc::ptr_eq(&a, &c));
    assert!(!Arc::ptr_eq(&a, &b));
    let held = a.lock();
    assert!(c.try_lock().is_none());
    assert!(b.try_lock().is_some());
    drop(held);
    assert!(c.try_lock().is_some());
}

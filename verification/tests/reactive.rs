use buttercup::reactive::{ReactiveService, ReactiveServiceError};
use futures::future::AbortHandle;

#[test]
fn register_then_abort_signals_each_handle() {
    let mut service = ReactiveService::new();
    service.initialize_nodes(&vec![5]);
    let (h1, _r1) = AbortHandle::new_pair();
    let (h2, _r2) = AbortHandle::new_pair();
    service.register(&5, h1.clone()).unwrap();
    service.register(&5, h2.clone()).unwrap();
    assert!(!h1.is_aborted());
    assert!(!h2.is_aborted());
    service.abort(&5).unwrap();
    assert!(h1.is_aborted());
    assert!(h2.is_aborted());

    service.cleanup_nodes(&vec![5]);
    assert_eq!(
        Err(ReactiveServiceError::AbortEntryNotFound(5)),
        service.abort(&5)
    );
}

#[test]
fn register_fails_before_initialization() {
    let mut service = ReactiveService::new();
    let (h, _r) = AbortHandle::new_pair();
    assert_eq!(
        Err(ReactiveServiceError::AbortEntryNotFound(9)),
        service.register(&9, h)
    );
}

#[test]
fn cleanup_makes_later_register_fail() {
    let mut service = ReactiveService::new();
    service.initialize_nodes(&vec![1, 2]);
    let (h, _r) = AbortHandle::new_pair();
    service.register(&1, h.clone()).unwrap();
    service.cleanup_nodes(&vec![1]);
    assert_eq!(
        Err(ReactiveServiceError::AbortEntryNotFound(1)),
        service.register(&1, h.clone())
    );
    // The other entry is untouched.
    service.register(&2, h).unwrap();
    service.abort(&2).unwrap();
}

#[test]
fn abort_is_idempotent_and_keeps_handles_registered() {
    let mut service = ReactiveService::new();
    service.initialize_nodes(&vec![3]);
    let (h, _r) = AbortHandle::new_pair();
    service.register(&3, h.clone()).unwrap();
    service.abort(&3).unwrap();
    assert!(h.is_aborted());
    // Aborting again is benign: the handles stayed registered.
    service.abort(&3).unwrap();
    assert!(h.is_aborted());
}

#[test]
fn initialize_overwrites_existing_entries() {
    let mut service = ReactiveService::new();
    service.initialize_nodes(&vec![7]);
    let (h, _r) = AbortHandle::new_pair();
    service.register(&7, h.clone()).unwrap();
    // Re-initialization resets the entry to an empty one.
    service.initialize_nodes(&vec![7]);
    service.abort(&7).unwrap();
    assert!(!h.is_aborted());
}

#[test]
fn initialize_twice_equals_initialize_once() {
    let mut once = ReactiveService::new();
    once.initialize_nodes(&vec![4, 6]);
    let mut twice = ReactiveService::new();
    twice.initialize_nodes(&vec![4, 6]);
    twice.initialize_nodes(&vec![4, 6]);
    // Both services accept the same operations with the same outcomes.
    let (h, _r) = AbortHandle::new_pair();
    assert!(once.register(&4, h.clone()).is_ok());
    assert!(twice.register(&4, h.clone()).is_ok());
    assert_eq!(
        Err(ReactiveServiceError::AbortEntryNotFound(5)),
        once.register(&5, h.clone())
    );
    assert_eq!(
        Err(ReactiveServiceError::AbortEntryNotFound(5)),
        twice.register(&5, h)
    );
}

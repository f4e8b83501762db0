//! Request ids and their allocation.

use jsonrpc_client::{RequestId, RequestIdManager};


#[test]
fn reserve_range_none_for_zero() {
    let mut idmgr = RequestIdManager::new();
    assert!(idmgr.reserve_range(0).is_none());
    assert_eq!(idmgr.current_id(), RequestId::new(0));
}

#[test]
fn reset_returns_counter_to_zero() {
    let mut idmgr = RequestIdManager::new();
    idmgr.reserve_range(5).unwrap();
    assert_eq!(idmgr.current_id(), RequestId::new(5));

    idmgr.reset();
    assert_eq!(idmgr.current_id(), RequestId::new(0));
    assert_eq!(idmgr.reserve_id(), RequestId::new(0));
}

#[test]
fn reserve_range_size_matches_count() {
    let mut idmgr = RequestIdManager::new();
    let range = idmgr.reserve_range(5).unwrap();
    assert_eq!(u64::from(*range.end()) - u64::from(*range.start()) + 1, 5);
}

#[test]
fn ids_increase_and_wrap_around() {
    let mut idmgr = RequestIdManager::default();
    assert_eq!(idmgr.reserve_id(), RequestId::new(0));
    assert_eq!(idmgr.reserve_id(), RequestId::new(1));
    let range = idmgr.reserve_range(3).unwrap();
    assert_eq!((range.start().get(), range.end().get()), (2, 4));
    assert_eq!(idmgr.reserve_id(), RequestId::new(5));
    idmgr.reserve_range(u64::MAX - 6).unwrap();
    assert_eq!(idmgr.reserve_id(), RequestId::new(u64::MAX));
    assert_eq!(idmgr.reserve_id(), RequestId::new(0));
}

#[test]
fn ranges_do_not_overlap() {
    let mut idmgr = RequestIdManager::new();
    let mut end = None;
    for count in 1..50 {
        let range = idmgr.reserve_range(count).unwrap();
        if let Some(last) = end {
            assert!(u64::from(*range.start()) > last);
        }
        end = Some(u64::from(*range.end()));
    }
    assert_eq!(RequestId::from(5u64).get(), 5);
}

#[test]
fn reservations_leave_no_gap() {
    let mut idmgr = RequestIdManager::new();
    let mut ids = Vec::new();
    for count in [3, 1, 0, 5, 2] {
        if let Some(range) = idmgr.reserve_range(count) {
            ids.extend(range.start().get()..=range.end().get());
        }
        ids.push(idmgr.reserve_id().get());
    }
    assert_eq!(ids, (0..16).collect::<Vec<u64>>());
    assert_eq!(idmgr.current_id(), RequestId::new(16));
}

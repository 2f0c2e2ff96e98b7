use swsurface::connection::{
    Acquired, Connection, ConnectionState, Registry, Released, DISCOVERY_ROUNDTRIPS,
};
use swsurface::Error;

#[test]
fn first_acquire_spawns_the_worker() {
    let mut r = Registry::new();
    assert!(!r.contains(7));
    assert_eq!(r.get(7), None);
    assert_eq!(r.acquire(7), Ok(Acquired::Spawn));
    assert_eq!(
        r.get(7),
        Some(Connection {
            state: ConnectionState::Connecting,
            refs: 1
        })
    );
    assert!(r.worker_ready(7));
    assert_eq!(
        r.get(7),
        Some(Connection {
            state: ConnectionState::Ready,
            refs: 1
        })
    );
    assert!(!r.worker_ready(7));
    assert!(!r.worker_ready(8));
    assert_eq!(DISCOVERY_ROUNDTRIPS, 2);
}

#[test]
fn later_acquires_share() {
    let mut r = Registry::new();
    assert_eq!(r.acquire(1), Ok(Acquired::Spawn));
    assert_eq!(r.acquire(1), Ok(Acquired::Shared));
    assert!(r.worker_ready(1));
    assert_eq!(r.acquire(1), Ok(Acquired::Shared));
    assert_eq!(r.get(1).unwrap().refs, 3);
    assert_eq!(r.acquire(2), Ok(Acquired::Spawn));
    assert_eq!(r.get(2).unwrap().refs, 1);
    assert_eq!(r.release(1), Ok(Released::Kept));
    assert_eq!(r.release(1), Ok(Released::Kept));
    assert_eq!(r.get(1).unwrap().refs, 1);
    assert_eq!(r.get(1).unwrap().state, ConnectionState::Ready);
}

#[test]
fn last_release_tears_the_connection_down() {
    let mut r = Registry::new();
    assert_eq!(r.acquire(7), Ok(Acquired::Spawn));
    assert!(r.worker_ready(7));
    assert_eq!(r.release(7), Ok(Released::Teardown));
    assert!(r.confirm_close(7));
    assert_eq!(
        r.get(7),
        Some(Connection {
            state: ConnectionState::Closing,
            refs: 0
        })
    );
    assert!(r.worker_exited(7));
    assert!(!r.contains(7));
    assert!(!r.worker_exited(7));
    assert_eq!(r.acquire(7), Ok(Acquired::Spawn));
}

#[test]
fn reuse_before_the_second_check_keeps_the_connection() {
    let mut r = Registry::new();
    assert_eq!(r.acquire(3), Ok(Acquired::Spawn));
    assert!(r.worker_ready(3));
    assert_eq!(r.release(3), Ok(Released::Teardown));
    assert_eq!(r.acquire(3), Ok(Acquired::Shared));
    assert!(!r.confirm_close(3));
    assert_eq!(
        r.get(3),
        Some(Connection {
            state: ConnectionState::Ready,
            refs: 1
        })
    );
    assert!(!r.worker_exited(3));
    assert!(r.contains(3));
}

#[test]
fn closing_connection_is_busy() {
    let mut r = Registry::new();
    assert_eq!(r.acquire(3), Ok(Acquired::Spawn));
    assert_eq!(r.release(3), Ok(Released::Teardown));
    assert!(r.confirm_close(3));
    assert!(!r.confirm_close(3));
    assert_eq!(r.acquire(3), Ok(Acquired::Busy));
    assert_eq!(r.get(3).unwrap().refs, 0);
    assert!(!r.worker_ready(3));
    assert_eq!(r.release(3), Err(Error::InvalidState));
}

#[test]
fn release_without_reference_is_refused() {
    let mut r = Registry::new();
    assert_eq!(r.release(9), Err(Error::InvalidState));
    assert!(!r.confirm_close(9));
    assert_eq!(r.acquire(9), Ok(Acquired::Spawn));
    assert_eq!(r.release(9), Ok(Released::Teardown));
    assert_eq!(r.release(9), Err(Error::InvalidState));
}

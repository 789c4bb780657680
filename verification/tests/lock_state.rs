use schooner::schooner::state_machine::LockState;

#[test]
fn lock_and_unlock() {
    let mut ls = LockState::new();
    assert_eq!(Some(0), ls.lock());
    assert_eq!(None, ls.lock());
    assert!(!ls.unlock(1));
    assert!(ls.unlock(0));
    assert!(!ls.unlock(0));
    assert_eq!(Some(1), ls.lock());
    assert!(!ls.unlock(0));
    assert!(ls.unlock(1));
}

#[test]
fn token_wraps_around() {
    let mut ls = LockState { locked: false, counter: usize::MAX };
    assert_eq!(Some(usize::MAX), ls.lock());
    assert!(ls.unlock(usize::MAX));
    assert_eq!(Some(0), ls.lock());
}

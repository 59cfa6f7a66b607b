use blogpost_ffi::lock::{LockMisuseError, LockState};

#[test]
fn lock_is_held_after_run_without_lock() {
    let mut lock = LockState::entered_from_managed();
    let seen = lock.run_without_lock(|inside| inside);
    assert_eq!(seen, LockState::Released);
    assert_eq!(lock, LockState::Held);
    assert!(lock.held());
}

#[test]
fn lock_is_held_after_a_body_that_failed() {
    let mut lock = LockState::entered_from_managed();
    let out: Result<u8, String> = lock.run_without_lock(|_| Err(String::from("boom")));
    assert_eq!(out, Err(String::from("boom")));
    assert!(lock.held());
}

#[test]
fn run_without_lock_takes_the_lock_for_a_thread_without_it() {
    let mut lock = LockState::native_thread();
    assert!(!lock.held());
    lock.run_without_lock(|inside| assert!(!inside.held()));
    assert!(lock.held());
}

#[test]
fn run_with_lock_gives_the_state_back() {
    let mut lock = LockState::native_thread();
    let seen = lock.run_with_lock(|inside| inside);
    assert_eq!(seen, LockState::Held);
    assert_eq!(lock, LockState::Released);

    let mut lock = LockState::entered_from_managed();
    let out: Result<(), u8> = lock.run_with_lock(|inside| {
        assert!(inside.held());
        Err(7)
    });
    assert_eq!(out, Err(7));
    assert_eq!(lock, LockState::Held);
}

#[test]
fn scopes_nest() {
    let mut lock = LockState::entered_from_managed();
    let total = lock.run_without_lock(|outer| {
        let mut outer = outer;
        let mut total = 0;
        for round in 0..10 {
            total += outer.run_with_lock(|inner| {
                assert!(inner.held());
                round
            });
            assert!(!outer.held());
        }
        total
    });
    assert_eq!(total, 45);
    assert!(lock.held());
}

#[test]
fn guard_refuses_a_thread_without_the_lock() {
    assert_eq!(LockState::Held.guard(), Ok(()));
    assert_eq!(LockState::Released.guard(), Err(LockMisuseError));
    assert_eq!(LockState::native_thread().guard(), Err(LockMisuseError));
    assert_eq!(LockState::entered_from_managed().guard(), Ok(()));
}

#[test]
fn acquire_and_release_tell_the_state_before() {
    let mut lock = LockState::Released;
    assert_eq!(lock.acquire(), LockState::Released);
    assert_eq!(lock, LockState::Held);
    assert_eq!(lock.acquire(), LockState::Held);
    assert_eq!(lock, LockState::Held);
    assert_eq!(lock.release(), LockState::Held);
    assert_eq!(lock, LockState::Released);
    assert_eq!(lock.release(), LockState::Released);
    assert_eq!(lock, LockState::Released);
}

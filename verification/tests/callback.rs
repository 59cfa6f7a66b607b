use blogpost_ffi::callback::{
    call_func, call_func_traceback, surface, traceback, CallbackError, RaisedError,
};
use blogpost_ffi::lock::LockState;

fn boom(backtrace: Option<&str>) -> RaisedError {
    RaisedError { message: String::from("boom"), backtrace: backtrace.map(String::from) }
}

#[test]
fn raised_error_is_reported_with_its_text() {
    let mut lock = LockState::entered_from_managed();
    let reported: Result<(), CallbackError> =
        call_func(&mut lock, |_| Err(boom(Some("Traceback (most recent call last):\n  f()"))));
    let error = reported.err().unwrap();
    assert_eq!(error.context, "function called failed");
    assert_eq!(error.cause, "boom");
    assert!(error.message().contains("boom"));
    assert_eq!(error.message(), "function called failed: boom");
    assert!(lock.held());
}

#[test]
fn raised_error_is_reported_with_its_backtrace() {
    let mut lock = LockState::entered_from_managed();
    let reported: Result<(), CallbackError> = call_func_traceback(&mut lock, |_| {
        Err(boom(Some("Traceback (most recent call last):\n  f()")))
    });
    let error = reported.err().unwrap();
    assert_eq!(error.cause, "Traceback (most recent call last):\n  f()\nboom");
    let text = error.message();
    assert!(text.contains("boom"));
    assert!(!text.is_empty());
    assert!(text.len() > "boom".len());
    assert_eq!(text, "function called failed: Traceback (most recent call last):\n  f()\nboom");
    assert!(lock.held());
}

#[test]
fn error_without_backtrace_is_reported_by_its_text() {
    let mut lock = LockState::native_thread();
    let reported: Result<u8, CallbackError> = call_func_traceback(&mut lock, |_| Err(boom(None)));
    let error = reported.err().unwrap();
    assert_eq!(error.cause, "boom");
    assert_eq!(error.message(), "function called failed: boom");
    assert!(!lock.held());
}

#[test]
fn returned_value_comes_through() {
    let mut lock = LockState::native_thread();
    let reported: Result<u32, CallbackError> = call_func(&mut lock, |inside| {
        assert!(inside.held());
        Ok(41 + 1)
    });
    assert_eq!(reported.ok(), Some(42));
    assert_eq!(lock, LockState::Released);
    let reported: Result<&str, CallbackError> = call_func_traceback(&mut lock, |_| Ok("done"));
    assert_eq!(reported.ok(), Some("done"));
}

#[test]
fn traceback_goes_in_front_of_the_text() {
    assert_eq!(traceback(&boom(Some("trace"))), "trace\nboom");
    assert_eq!(traceback(&boom(Some(""))), "\nboom");
    assert_eq!(traceback(&boom(None)), "boom");
}

#[test]
fn surface_keeps_or_drops_the_backtrace() {
    let with: Result<(), CallbackError> = surface(Err(boom(Some("trace"))), true);
    assert_eq!(with.err().unwrap().cause, "trace\nboom");
    let without: Result<(), CallbackError> = surface(Err(boom(Some("trace"))), false);
    assert_eq!(without.err().unwrap().cause, "boom");
    let fine: Result<u8, CallbackError> = surface(Ok(9), true);
    assert_eq!(fine.ok(), Some(9));
}

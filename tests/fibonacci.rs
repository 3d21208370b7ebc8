use fib_service::fibonacci::{next_fibonacci, FibonacciError, FibonacciState};
use std::sync::{Arc, Mutex};

#[test]
fn test_next_fibonacci() {
    let state = Arc::new(Mutex::new(FibonacciState::new()));
    let result = next_fibonacci(state);
    assert_eq!(result, Ok(1))
}

#[test]
fn test_next_fibonacci_overflow() {
    let state = Arc::new(Mutex::new(FibonacciState::from_terms(
        205697230343233228174223751303346572685,
        332825110087067562321196029789634457848,
    )));
    let result = next_fibonacci(state);
    assert_eq!(result, Err(FibonacciError::AdditionOverflow))
}

#[test]
fn shared_counter_yields_sequence() {
    let state = Arc::new(Mutex::new(FibonacciState::new()));
    let got: Vec<u128> = (0..8).map(|_| next_fibonacci(Arc::clone(&state)).unwrap()).collect();
    assert_eq!(got, vec![1, 1, 2, 3, 5, 8, 13, 21]);
}

#[test]
fn overflow_leaves_state_unchanged() {
    let mut s = FibonacciState::from_terms(u128::MAX, 1);
    assert_eq!(s.next(), Err(FibonacciError::AdditionOverflow));
    assert_eq!(s.next(), Err(FibonacciError::AdditionOverflow));
    let mut t = FibonacciState::from_terms(u128::MAX - 1, 1);
    assert_eq!(t.next(), Ok(u128::MAX));
}

#[test]
fn error_messages() {
    assert_eq!(FibonacciError::AdditionOverflow.message(), "addition overflow occurred");
    assert_eq!(FibonacciError::LockError.message(), "unable to lock fibonacci state");
}

#[test]
fn three_posts_on_fresh_counter() {
    let state = Arc::new(Mutex::new(FibonacciState::new()));
    let got: Vec<u128> = (0..3).map(|_| next_fibonacci(Arc::clone(&state)).unwrap()).collect();
    assert_eq!(got, vec![1, 1, 2]);
}

use std::sync::{Arc, Mutex, MutexGuard};
use vstd::prelude::*;

verus! {

#[verifier::external_type_specification]
#[verifier::external_body]
#[verifier::reject_recursive_types(T)]
pub struct ExMutex<T: ?Sized>(Mutex<T>);

#[verifier::external_type_specification]
#[verifier::external_body]
#[verifier::reject_recursive_types(T)]
pub struct ExMutexGuard<'a, T: ?Sized + 'a>(MutexGuard<'a, T>);

/// The `n`-th Fibonacci number, with `fib(0) == 0` and `fib(1) == 1`.
pub open spec fn fib(n: nat) -> nat
    decreases n,
{
    if n == 0 {
        0
    } else if n == 1 {
        1
    } else {
        fib((n - 1) as nat) + fib((n - 2) as nat)
    }
}

/// The last two terms emitted by a Fibonacci counter.
#[derive(Clone, Copy, Debug)]
pub struct FibonacciState {
    prev: u128,
    curr: u128,
}

/// Why the next Fibonacci term could not be produced.
#[derive(Clone, Copy, Debug, PartialEq, Eq, Structural)]
pub enum FibonacciError {
    LockError,
    AdditionOverflow,
}

impl FibonacciError {
    /// The description of the error.
    pub fn message(&self) -> (r: String)
        ensures
            r@ == self.message_spec(),
    {
        match self {
            FibonacciError::LockError => String::from_str("unable to lock fibonacci state"),
            FibonacciError::AdditionOverflow => String::from_str("addition overflow occurred"),
        }
    }

    pub open spec fn message_spec(&self) -> Seq<char> {
        match self {
            FibonacciError::LockError => "unable to lock fibonacci state"@,
            FibonacciError::AdditionOverflow => "addition overflow occurred"@,
        }
    }
}

impl FibonacciState {
    pub closed spec fn prev_term(&self) -> nat {
        self.prev as nat
    }

    pub closed spec fn curr_term(&self) -> nat {
        self.curr as nat
    }

    /// The state after `n` terms have been emitted from the start.
    pub open spec fn after(n: nat) -> (nat, nat) {
        if n == 0 {
            (1, 0)
        } else {
            (fib((n - 1) as nat), fib(n))
        }
    }

    /// Creates the starting state, whose first term is 1.
    pub fn new() -> (r: Self)
        ensures
            r.prev_term() == 1,
            r.curr_term() == 0,
    {
        FibonacciState { prev: 1, curr: 0 }
    }

    /// Creates a state whose last two terms are `prev` and `curr`.
    pub fn from_terms(prev: u128, curr: u128) -> (r: Self)
        ensures
            r.prev_term() == prev,
            r.curr_term() == curr,
    {
        FibonacciState { prev, curr }
    }

    /// Emits the next term `curr + prev` and shifts the state; on overflow the
    /// state is left as it was.
    pub fn next(&mut self) -> (r: Result<u128, FibonacciError>)
        ensures
            old(self).curr_term() + old(self).prev_term() > u128::MAX ==> r == Err::<u128, FibonacciError>(
                FibonacciError::AdditionOverflow,
            ) && final(self).prev_term() == old(self).prev_term() && final(self).curr_term()
                == old(self).curr_term(),
            old(self).curr_term() + old(self).prev_term() <= u128::MAX ==> r is Ok && r->Ok_0
                == old(self).curr_term() + old(self).prev_term() && final(self).prev_term()
                == old(self).curr_term() && final(self).curr_term() == old(self).curr_term()
                + old(self).prev_term(),
    {
        match self.curr.checked_add(self.prev) {
            None => Err(FibonacciError::AdditionOverflow),
            Some(next) => {
                self.prev = self.curr;
                self.curr = next;
                Ok(next)
            },
        }
    }
}

impl Default for FibonacciState {
    fn default() -> (r: Self)
        ensures
            r.prev_term() == 1,
            r.curr_term() == 0,
    {
        Self::new()
    }
}

/// Stepping from the state after `n` terms gives the state after `n + 1`
/// terms, and the emitted term is the `n + 1`-th Fibonacci number: advancing
/// from the start yields 1, 1, 2, 3, 5, ...
pub proof fn lemma_advance_follows_sequence(n: nat)
    ensures
        FibonacciState::after(n + 1) == (
            FibonacciState::after(n).1,
            FibonacciState::after(n).0 + FibonacciState::after(n).1,
        ),
        FibonacciState::after(n + 1).1 == fib(n + 1),
{
    if n >= 1 {
        assert(fib(n + 1) == fib(n) + fib((n - 1) as nat));
    }
}

/// Starting from `new()`, the state after `n` terms is `after(n)`, and a step
/// of `next` from it that succeeds emits the `n + 1`-th Fibonacci number and
/// reaches `after(n + 1)`: successive results are 1, 1, 2, 3, 5, 8, ...
pub proof fn lemma_next_emits_sequence(
    n: nat,
    before: FibonacciState,
    after_step: FibonacciState,
    emitted: u128,
)
    requires
        (before.prev_term(), before.curr_term()) == FibonacciState::after(n),
        after_step.prev_term() == before.curr_term(),
        after_step.curr_term() == before.curr_term() + before.prev_term(),
        emitted == before.curr_term() + before.prev_term(),
    ensures
        emitted == fib(n + 1),
        (after_step.prev_term(), after_step.curr_term()) == FibonacciState::after(n + 1),
{
    lemma_advance_follows_sequence(n);
}

/// Relies on Mutex::lock: blocks until the lock is held, and fails only when an
/// earlier holder panicked.
#[verifier::external_body]
fn lock_state(m: &Mutex<FibonacciState>) -> (r: Option<MutexGuard<'_, FibonacciState>>) {
    m.lock().ok()
}

/// Relies on MutexGuard's DerefMut: access to the value behind the held lock.
#[verifier::external_body]
fn guarded_state<'a, 'b>(g: &'a mut MutexGuard<'b, FibonacciState>) -> (r: &'a mut FibonacciState) {
    &mut **g
}

/// Advances the counter once its lock has been tried: `None` stands for a lock
/// that could not be taken, which is reported as a lock error.
pub fn advance_locked(locked: Option<&mut FibonacciState>) -> (r: Result<u128, FibonacciError>)
    ensures
        locked is None ==> r == Err::<u128, FibonacciError>(FibonacciError::LockError),
        locked is Some ==> {
            let s = *locked->Some_0;
            let f = *final(locked->Some_0);
            &&& s.curr_term() + s.prev_term() > u128::MAX ==> r == Err::<u128, FibonacciError>(
                FibonacciError::AdditionOverflow,
            ) && f.prev_term() == s.prev_term() && f.curr_term() == s.curr_term()
            &&& s.curr_term() + s.prev_term() <= u128::MAX ==> r is Ok && r->Ok_0
                == s.curr_term() + s.prev_term() && f.prev_term() == s.curr_term()
                && f.curr_term() == s.curr_term() + s.prev_term()
        },
{
    match locked {
        None => Err(FibonacciError::LockError),
        Some(state) => state.next(),
    }
}

/// Produces the next term of the shared counter under its lock. A lock that an
/// earlier holder left poisoned gives a lock error; what the counter holds
/// otherwise depends on the calls made before, so the outcome is that of
/// `advance_locked` on whatever state the lock guards.
pub fn next_fibonacci(current_fibonacci: Arc<Mutex<FibonacciState>>) -> (r: Result<
    u128,
    FibonacciError,
>)
    ensures
        r is Err ==> r->Err_0 == FibonacciError::LockError || r->Err_0
            == FibonacciError::AdditionOverflow,
{
    match lock_state(&*current_fibonacci) {
        None => advance_locked(None),
        Some(mut guard) => advance_locked(Some(guarded_state(&mut guard))),
    }
}

} // verus!

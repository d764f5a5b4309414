//! A shared, lock-guarded value.
use vstd::prelude::*;
use std::sync::{Arc, LockResult, Mutex, MutexGuard, PoisonError};

verus! {

#[verifier::external_type_specification]
#[verifier::external_body]
#[verifier::reject_recursive_types(T)]
pub struct ExMutex<T: ?Sized>(Mutex<T>);

#[verifier::external_type_specification]
#[verifier::external_body]
#[verifier::reject_recursive_types(T)]
pub struct ExMutexGuard<'a, T: ?Sized + 'a>(MutexGuard<'a, T>);

#[verifier::external_type_specification]
#[verifier::external_body]
#[verifier::reject_recursive_types(T)]
pub struct ExPoisonError<T>(PoisonError<T>);

/// Relies on `Mutex::new`: a fresh, unlocked mutex around `value`.
#[verifier::external_body]
fn new_mutex<T>(value: T) -> Mutex<T> {
    Mutex::new(value)
}

/// Relies on `Mutex::lock`: blocks until the lock is held; fails when a
/// holder panicked. Which of the two comes depends on other threads, so
/// nothing is stated.
#[verifier::external_body]
fn lock_mutex<T>(m: &Mutex<T>) -> LockResult<MutexGuard<'_, T>> {
    m.lock()
}

/// Relies on `Arc::clone`: a second handle to the same allocation.
#[verifier::external_body]
fn share<T>(a: &Arc<T>) -> (r: Arc<T>)
    ensures
        r == *a,
{
    Arc::clone(a)
}

/// A value behind a mutex, shared between threads by reference counting.
#[verifier::reject_recursive_types(T)]
pub struct ThreadSafe<T> {
    obj: Arc<Mutex<T>>,
}

impl<T> ThreadSafe<T> {
    /// The mutex that the handle points to.
    pub closed spec fn cell(&self) -> Mutex<T> {
        *self.obj
    }

    /// Locks the value, blocking until it is free. Fails when a thread
    /// panicked while holding it.
    pub fn lock(&self) -> LockResult<MutexGuard<'_, T>> {
        lock_mutex(&*self.obj)
    }

    /// A second handle to the same value.
    pub fn clone(&self) -> (r: ThreadSafe<T>)
        ensures
            r.cell() == self.cell(),
    {
        ThreadSafe { obj: share(&self.obj) }
    }

    /// Puts `obj` behind a new mutex.
    pub fn from(obj: T) -> ThreadSafe<T> {
        ThreadSafe { obj: Arc::new(new_mutex(obj)) }
    }
}

} // verus!

//! The pieces of `std::sync` that the shared handles are built from, and the
//! bounded wait for a lock.

use std::sync::{Arc, Mutex, MutexGuard, TryLockError};
use vstd::prelude::*;

verus! {

/// How often a handle asks for its lock before it gives up, unless it is
/// told otherwise.
pub const DEFAULT_SPIN_LIMIT: usize = 1_000_000_000;

/// The lock of a shared structure stayed taken for as many tries as the
/// handle had: another user of the structure did not let go of it in time,
/// or the caller itself holds it.
#[derive(Clone, Copy, Debug, PartialEq, Eq)]
pub struct Starved;

/// `std::sync::Mutex`: a value behind a lock. What the lock holds changes
/// whenever another holder of the lock writes to it, so nothing is said of it.
#[verifier::external_type_specification]
#[verifier::external_body]
#[verifier::reject_recursive_types(T)]
pub struct ExMutex<T: ?Sized>(Mutex<T>);

/// `std::sync::Mutex::new`: a lock around `value`.
pub assume_specification<T>[ Mutex::<T>::new ](value: T) -> (mutex: Mutex<T>)
;

/// `std::sync::MutexGuard`: the right to use what a lock holds, until the
/// guard is dropped.
#[verifier::external_type_specification]
#[verifier::external_body]
#[verifier::reject_recursive_types(T)]
pub struct ExMutexGuard<'a, T: ?Sized + 'a>(MutexGuard<'a, T>);

/// `std::sync::Mutex::try_lock`: the guard of the lock if it is free at
/// this moment, `None` if it is taken, by whatever thread. The call never
/// waits. A lock that a panicking holder has poisoned is handed out all the
/// same. Whether the lock is free depends on its other users, and what it
/// holds is whatever its last holder left there, so nothing is said of
/// either.
#[verifier::external_body]
pub(crate) fn try_lock<'a, T>(mutex: &'a Mutex<T>) -> (guard: Option<MutexGuard<'a, T>>) {
    match mutex.try_lock() {
        Ok(guard) => Some(guard),
        Err(TryLockError::Poisoned(poisoned)) => Some(poisoned.into_inner()),
        Err(TryLockError::WouldBlock) => None,
    }
}

/// `std::hint::spin_loop`: tells the processor that the caller is waiting
/// in a loop, and returns at once.
#[verifier::external_body]
pub(crate) fn spin_hint() {
    std::hint::spin_loop()
}

/// `DerefMut::deref_mut` of `std::sync::MutexGuard`: the value that the lock
/// holds, for the holder of the guard to use and change.
#[verifier::external_body]
pub(crate) fn exclusive<'a, 'b, T>(guard: &'b mut MutexGuard<'a, T>) -> (value: &'b mut T) {
    &mut **guard
}

/// `Arc::clone`: a second pointer to the allocation that `shared` points to.
#[verifier::external_body]
pub(crate) fn share<T>(shared: &Arc<T>) -> (other: Arc<T>)
    ensures
        other == *shared,
{
    Arc::clone(shared)
}

/// Asks for the lock up to `tries` times and returns its guard, or `None`
/// when every try found the lock taken. The call always returns: it never
/// waits for the lock, so a caller that holds the lock itself is told that
/// it is taken. With no try allowed the answer is `None`.
pub fn acquire<'a, T>(mutex: &'a Mutex<T>, tries: usize) -> (guard: Option<MutexGuard<'a, T>>)
    ensures
        tries == 0 ==> guard is None,
{
    let mut left: usize = tries;
    while left > 0
        invariant
            left <= tries,
        decreases left,
    {
        left = left - 1;
        match try_lock(mutex) {
            Some(guard) => {
                return Some(guard);
            },
            None => {
                spin_hint();
            },
        }
    }
    None
}

} // verus!

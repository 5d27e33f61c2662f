//! Values shared between threads.

use vstd::prelude::*;

verus! {

/// A value behind a lock. A thread that panics while it holds the lock poisons
/// it, for good.
#[derive(Debug)]
pub struct Guarded<T> {
    pub value: T,
    pub poisoned: bool,
}

/// Replace the value behind a lock; a poisoned one keeps its stale value, so
/// that the thread that panicked cannot take the agent down.
pub fn write_value<T>(lock: &mut Guarded<T>, value: T)
    ensures
        final(lock).poisoned == old(lock).poisoned,
        final(lock).value == (if old(lock).poisoned {
            old(lock).value
        } else {
            value
        }),
{
    if !lock.poisoned {
        lock.value = value;
    }
}

/// A value is replaced exactly where its lock is not poisoned, and no write
/// poisons or heals a lock.
pub proof fn law_a_poisoned_value_stays<T>(lock: &mut Guarded<T>, value: T)
    requires
        call_ensures(write_value::<T>, (lock, value), ()),
    ensures
        old(lock).poisoned ==> *final(lock) == *old(lock),
        !old(lock).poisoned ==> final(lock).value == value && !final(lock).poisoned,
{
}

} // verus!

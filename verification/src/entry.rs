//! The entry lock that serializes concurrent callers of the poll loop.
//!
//! One atomic word holds the lock's state: its low bit says whether some
//! caller is inside, the remaining bits count waiting callers.  The
//! functions here are the pure transitions of that word, each applied
//! with a compare-and-swap by the runner that owns the atomic; contending
//! callers park on a condition variable, and a caller that finds the word
//! taken with a zero timeout gives up at once, reporting zero events.

use vstd::prelude::*;

verus! {

/// Whether the word carries the lock bit.
pub open spec fn lock_word_locked(w: usize) -> bool {
    w & 1 == 1
}

/// How many callers the word counts as waiting.
pub open spec fn lock_word_waiters(w: usize) -> int {
    (w >> 1) as int
}

/// Whether the lock is held.
pub fn is_locked(curr: usize) -> (b: bool)
    ensures
        b == lock_word_locked(curr),
{
    curr & 1 == 1
}

/// The word after taking the free lock, dropping this caller's waiter
/// registration if it had made one.
pub fn acquire(curr: usize, dec_waiter: bool) -> (next: usize)
    requires
        !lock_word_locked(curr),
        dec_waiter ==> lock_word_waiters(curr) >= 1,
    ensures
        lock_word_locked(next),
        lock_word_waiters(next) == lock_word_waiters(curr) - (if dec_waiter {
            1int
        } else {
            0int
        }),
{
    proof {
        lemma_entry_acquire(curr);
    }
    let locked = curr | 1;
    if dec_waiter {
        locked - 2
    } else {
        locked
    }
}

/// The word after one more caller starts waiting.  A count that would
/// overflow the word (reach the all-ones value) is a defect, and the
/// runner aborts there rather than corrupt the lock bit.
pub fn add_waiter(curr: usize) -> (next: usize)
    requires
        curr | 1 != !0usize,
    ensures
        next == curr + 2,
        lock_word_locked(next) == lock_word_locked(curr),
        lock_word_waiters(next) == lock_word_waiters(curr) + 1,
{
    proof {
        lemma_entry_add(curr);
    }
    curr + 2
}

/// The word after a waiter gives up on timeout.
pub fn remove_waiter(curr: usize) -> (next: usize)
    requires
        lock_word_waiters(curr) >= 1,
    ensures
        next == curr - 2,
        lock_word_locked(next) == lock_word_locked(curr),
        lock_word_waiters(next) == lock_word_waiters(curr) - 1,
{
    proof {
        lemma_entry_remove(curr);
    }
    curr - 2
}

/// The word after the holder releases the lock, and whether a waiting
/// caller must be notified.
pub fn release(curr: usize) -> (r: (usize, bool))
    requires
        lock_word_locked(curr),
    ensures
        !lock_word_locked(r.0),
        lock_word_waiters(r.0) == lock_word_waiters(curr),
        r.1 == (curr != 1),
        r.1 == (lock_word_waiters(curr) >= 1),
{
    proof {
        lemma_entry_release(curr);
    }
    (curr & !1, curr != 1)
}

/// Bit facts for taking the lock.
proof fn lemma_entry_acquire(w: usize)
    by (bit_vector)
    requires
        w & 1 != 1,
    ensures
        (w | 1) & 1 == 1,
        (w | 1) >> 1 == w >> 1,
        w >> 1 >= 1 ==> w | 1 >= 3,
        w >> 1 >= 1 ==> (((w | 1) - 2) as usize) & 1 == 1,
        w >> 1 >= 1 ==> (((w | 1) - 2) as usize) >> 1 == (w >> 1) - 1,
{
}

/// Bit facts for registering a waiter.
proof fn lemma_entry_add(w: usize)
    by (bit_vector)
    requires
        w | 1 != !0usize,
    ensures
        w + 2 <= !0usize,
        ((w + 2) as usize) & 1 == w & 1,
        ((w + 2) as usize) >> 1 == (w >> 1) + 1,
{
}

/// Bit facts for a waiter giving up.
proof fn lemma_entry_remove(w: usize)
    by (bit_vector)
    requires
        w >> 1 >= 1,
    ensures
        w >= 2,
        ((w - 2) as usize) & 1 == w & 1,
        ((w - 2) as usize) >> 1 == (w >> 1) - 1,
{
}

/// Bit facts for releasing the lock.
proof fn lemma_entry_release(w: usize)
    by (bit_vector)
    requires
        w & 1 == 1,
    ensures
        (w & !1) & 1 != 1,
        (w & !1) >> 1 == w >> 1,
        (w != 1) == (w >> 1 >= 1),
{
}

} // verus!

//! A lock, as the application state machine that Raft replicates: a
//! client takes it and gets a token, and only that token releases it.
use vstd::prelude::*;

verus! {

/// The state of the lock: whether it is held, and the token of the
/// current (or next) holder.
pub struct LockState {
    pub locked: bool,
    pub counter: usize,
}

/// The lock after a `lock` call, and its answer.
pub open spec fn after_lock(s: LockState) -> (LockState, Option<usize>) {
    if !s.locked {
        (LockState { locked: true, counter: s.counter }, Some(s.counter))
    } else {
        (s, None)
    }
}

/// The lock after an `unlock(lockval)` call, and its answer.
pub open spec fn after_unlock(s: LockState, lockval: usize) -> (LockState, bool) {
    if s.locked && s.counter == lockval {
        (LockState { locked: false, counter: (if s.counter == usize::MAX { 0 } else { (s.counter + 1) as usize }) }, true)
    } else {
        (s, false)
    }
}

impl LockState {
    /// A free lock whose first token is 0.
    pub fn new() -> (s: LockState)
        ensures
            !s.locked,
            s.counter == 0,
    {
        LockState { locked: false, counter: 0 }
    }

    /// Takes the lock if it is free, and gives its token.
    pub fn lock(&mut self) -> (r: Option<usize>)
        ensures
            (*final(self), r) == after_lock(*old(self)),
    {
        if !self.locked {
            self.locked = true;
            Some(self.counter)
        } else {
            None
        }
    }

    /// Releases the lock if it is held with token `lockval`; the next
    /// holder gets the next token.
    pub fn unlock(&mut self, lockval: usize) -> (ok: bool)
        ensures
            (*final(self), ok) == after_unlock(*old(self), lockval),
    {
        if self.locked && self.counter == lockval {
            self.locked = false;
            self.counter = self.counter.wrapping_add(1);
            true
        } else {
            false
        }
    }
}

/// While the lock is held, nobody else can take it.
pub proof fn lemma_lock_is_exclusive(s: LockState)
    requires
        after_lock(s).1 is Some,
    ensures
        after_lock(after_lock(s).0).1 is None,
{
}

/// The holder's token releases the lock, and the lock is then free.
pub proof fn lemma_own_token_unlocks(s: LockState)
    requires
        after_lock(s).1 is Some,
    ensures
        after_unlock(after_lock(s).0, after_lock(s).1->0).1,
        !after_unlock(after_lock(s).0, after_lock(s).1->0).0.locked,
{
}

/// Once released, a token cannot release the lock again, even after the
/// lock is taken anew.
pub proof fn lemma_token_used_once(s: LockState)
    requires
        after_lock(s).1 is Some,
    ensures
        ({
            let v = after_lock(s).1->0;
            let released = after_unlock(after_lock(s).0, v).0;
            !after_unlock(released, v).1 && !after_unlock(after_lock(released).0, v).1
        }),
{
}

/// An unlock succeeds only on a held lock and with the holder's token, and
/// then frees the lock; a failed unlock changes nothing.  A free lock is
/// never released.
pub proof fn lemma_unlock_needs_held_lock_and_token(s: LockState, lockval: usize)
    ensures
        after_unlock(s, lockval).1 ==> s.locked && s.counter == lockval && !after_unlock(s, lockval).0.locked,
        !after_unlock(s, lockval).1 ==> after_unlock(s, lockval).0 == s,
        !s.locked ==> after_unlock(s, lockval) == (s, false),
{
}

} // verus!

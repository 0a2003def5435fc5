use vstd::prelude::*;
use crate::code::PairingCode;
use crate::error::SessionError;

verus! {

/// A pairing code with its single-use lifetime. Times are in seconds on one clock.
#[derive(Debug, Clone, Copy, PartialEq, Eq, Structural)]
pub struct CodeLease {
    pub code: PairingCode,
    pub issued_at: u64,
    pub lifetime: u64,
    pub consumed: bool,
}

impl CodeLease {
    /// The code may still be used at time `now`.
    pub open spec fn live_at(&self, now: u64) -> bool {
        !self.consumed && self.issued_at <= now && now < self.issued_at + self.lifetime
    }

    /// A lease for `code`, issued at `now`, lasting `lifetime` seconds.
    pub fn new(code: PairingCode, now: u64, lifetime: u64) -> (r: CodeLease)
        ensures
            r == (CodeLease { code, issued_at: now, lifetime, consumed: false }),
    {
        CodeLease { code, issued_at: now, lifetime, consumed: false }
    }

    /// Whether the code may still be used at time `now`.
    pub fn is_live(&self, now: u64) -> (r: bool)
        ensures
            r == self.live_at(now),
    {
        !self.consumed && self.issued_at <= now && now - self.issued_at < self.lifetime
    }

    /// The code, if it may still be used at `now`; `ExpiredCode` otherwise.
    pub fn check(&self, now: u64) -> (r: Result<PairingCode, SessionError>)
        ensures
            self.live_at(now) ==> r == Ok::<PairingCode, SessionError>(self.code),
            !self.live_at(now) ==> r == Err::<PairingCode, SessionError>(SessionError::ExpiredCode),
    {
        if self.is_live(now) {
            Ok(self.code)
        } else {
            Err(SessionError::ExpiredCode)
        }
    }

    /// Spends the code: no later use succeeds.
    pub fn consume(&mut self)
        ensures
            *final(self) == (CodeLease { consumed: true, ..*old(self) }),
    {
        self.consumed = true;
    }
}

/// A consumed code is never live again, whatever the time.
pub proof fn lemma_consumed_never_live(l: CodeLease, now: u64)
    requires
        l.consumed,
    ensures
        !l.live_at(now),
{
}

/// A code past its lifetime stays expired at every later time.
pub proof fn lemma_expiry_is_permanent(l: CodeLease, t: u64, later: u64)
    requires
        !l.live_at(t),
        l.issued_at <= t <= later,
    ensures
        !l.live_at(later),
{
}

} // verus!

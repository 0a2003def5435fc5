use vstd::prelude::*;
use crate::error::SessionError;
use crate::lease::CodeLease;

verus! {

/// Symmetric key material for one transfer session.
#[derive(Debug, Clone)]
pub struct SessionKey {
    pub bytes: Vec<u8>,
}

/// What one side's password-authenticated exchange produced from the code and the transcript:
/// the key, the confirmation value it sends, and the one it expects back.
#[derive(Debug, Clone)]
pub struct Derived {
    pub key: SessionKey,
    pub own: u64,
    pub expected: u64,
}

/// The phases of key agreement. `Confirmed` and `Aborted` are terminal.
#[derive(Debug, Clone)]
pub enum KaState {
    Idle,
    KeyExchangeSent,
    ConfirmationPending { derived: Derived },
    Confirmed { key: SessionKey },
    Aborted { reason: SessionError },
}

/// One side of key agreement, holding the code's lease.
#[derive(Debug, Clone)]
pub struct KeyAgreement {
    pub lease: CodeLease,
    pub state: KaState,
}

pub open spec fn is_terminal(s: KaState) -> bool {
    s is Confirmed || s is Aborted
}

pub open spec fn aborted(l: CodeLease, reason: SessionError) -> KeyAgreement {
    KeyAgreement { lease: CodeLease { consumed: true, ..l }, state: KaState::Aborted { reason } }
}

/// The machine after it sends its key-exchange message at `now`.
pub open spec fn after_start(k: KeyAgreement, now: u64) -> KeyAgreement {
    if !(k.state is Idle) {
        aborted(k.lease, SessionError::TransportError)
    } else if !k.lease.live_at(now) {
        aborted(k.lease, SessionError::ExpiredCode)
    } else {
        KeyAgreement { state: KaState::KeyExchangeSent, ..k }
    }
}

/// The machine after the peer's key-exchange message arrives at `now` and yields `d`.
pub open spec fn after_exchange(k: KeyAgreement, now: u64, d: Derived) -> KeyAgreement {
    if is_terminal(k.state) {
        k
    } else if !(k.state is KeyExchangeSent) {
        aborted(k.lease, SessionError::TransportError)
    } else if !k.lease.live_at(now) {
        aborted(k.lease, SessionError::ExpiredCode)
    } else {
        KeyAgreement { state: KaState::ConfirmationPending { derived: d }, ..k }
    }
}

/// The machine after the peer's confirmation value `v` arrives. The code is spent either way.
pub open spec fn after_confirmation(k: KeyAgreement, v: u64) -> KeyAgreement {
    match k.state {
        KaState::ConfirmationPending { derived } => if v == derived.expected {
            KeyAgreement {
                lease: CodeLease { consumed: true, ..k.lease },
                state: KaState::Confirmed { key: derived.key },
            }
        } else {
            aborted(k.lease, SessionError::AuthenticationFailed)
        },
        KaState::Confirmed { .. } => k,
        KaState::Aborted { .. } => k,
        _ => aborted(k.lease, SessionError::TransportError),
    }
}

/// The machine after the peer aborts or the link drops. A confirmed session stays confirmed.
pub open spec fn after_abort(k: KeyAgreement) -> KeyAgreement {
    if is_terminal(k.state) {
        k
    } else {
        aborted(k.lease, SessionError::TransportError)
    }
}

/// The key that the machine exposes: only in `Confirmed`.
pub open spec fn exposed_key(k: KeyAgreement) -> Option<SessionKey> {
    match k.state {
        KaState::Confirmed { key } => Some(key),
        _ => None,
    }
}

impl KeyAgreement {
    /// A machine in `Idle` for the leased code.
    pub fn new(lease: CodeLease) -> (r: KeyAgreement)
        ensures
            r == (KeyAgreement { lease, state: KaState::Idle }),
    {
        KeyAgreement { lease, state: KaState::Idle }
    }

    fn abort(&mut self, reason: SessionError)
        ensures
            *final(self) == aborted(old(self).lease, reason),
    {
        self.lease.consume();
        self.state = KaState::Aborted { reason };
    }

    /// Records that the key-exchange message was sent at `now`.
    pub fn start(&mut self, now: u64)
        ensures
            *final(self) == after_start(*old(self), now),
    {
        let idle = match self.state {
            KaState::Idle => true,
            _ => false,
        };
        if !idle {
            self.abort(SessionError::TransportError);
        } else if !self.lease.is_live(now) {
            self.abort(SessionError::ExpiredCode);
        } else {
            self.state = KaState::KeyExchangeSent;
        }
    }

    /// Takes what the exchange derived once the peer's message came in at `now`.
    pub fn on_exchange(&mut self, now: u64, d: Derived)
        ensures
            *final(self) == after_exchange(*old(self), now, d),
    {
        match self.state {
            KaState::Confirmed { .. } => {},
            KaState::Aborted { .. } => {},
            KaState::KeyExchangeSent => {
                if !self.lease.is_live(now) {
                    self.abort(SessionError::ExpiredCode);
                } else {
                    self.state = KaState::ConfirmationPending { derived: d };
                }
            },
            _ => {
                self.abort(SessionError::TransportError);
            },
        }
    }

    /// Checks the peer's confirmation value.
    pub fn on_confirmation(&mut self, v: u64)
        ensures
            *final(self) == after_confirmation(*old(self), v),
    {
        let mut state = KaState::Idle;
        core::mem::swap(&mut self.state, &mut state);
        match state {
            KaState::ConfirmationPending { derived } => {
                if v == derived.expected {
                    self.lease.consume();
                    self.state = KaState::Confirmed { key: derived.key };
                } else {
                    self.abort(SessionError::AuthenticationFailed);
                }
            },
            KaState::Confirmed { key } => {
                self.state = KaState::Confirmed { key };
            },
            KaState::Aborted { reason } => {
                self.state = KaState::Aborted { reason };
            },
            _ => {
                self.abort(SessionError::TransportError);
            },
        }
    }

    /// Records that the peer aborted or the link dropped.
    pub fn on_abort(&mut self)
        ensures
            *final(self) == after_abort(*old(self)),
    {
        match self.state {
            KaState::Confirmed { .. } => {},
            KaState::Aborted { .. } => {},
            _ => {
                self.abort(SessionError::TransportError);
            },
        }
    }

    /// The session key, only once confirmed.
    pub fn session_key(&self) -> (r: Option<&SessionKey>)
        ensures
            match exposed_key(*self) {
                Some(key) => r == Some(&key),
                None => r is None,
            },
    {
        match &self.state {
            KaState::Confirmed { key } => Some(key),
            _ => None,
        }
    }
}

/// Two sides whose exchanges agree (each expects the value the other sends, as the same code
/// over the same transcript gives) both reach `Confirmed` on the same key once the confirmation
/// values cross; where the responder's check fails, it aborts, its abort reaches the initiator,
/// and neither side exposes a key.
pub proof fn lemma_confirmation_outcomes(a: KeyAgreement, b: KeyAgreement, da: Derived, db: Derived)
    requires
        a.state == (KaState::ConfirmationPending { derived: da }),
        b.state == (KaState::ConfirmationPending { derived: db }),
    ensures
        da.own == db.expected && db.own == da.expected ==> {
            &&& after_confirmation(b, da.own).state == (KaState::Confirmed { key: db.key })
            &&& after_confirmation(a, db.own).state == (KaState::Confirmed { key: da.key })
        },
        da.own != db.expected ==> {
            &&& after_confirmation(b, da.own).state == (KaState::Aborted { reason: SessionError::AuthenticationFailed })
            &&& after_abort(a).state is Aborted
            &&& exposed_key(after_confirmation(b, da.own)) is None
            &&& exposed_key(after_abort(a)) is None
        },
{
}

/// Once agreement ends, either way, the code is spent: a later start with it fails with
/// `ExpiredCode` or for being out of phase, and never reaches key exchange.
pub proof fn lemma_code_single_use(k: KeyAgreement, v: u64, now: u64)
    requires
        k.state is ConfirmationPending,
    ensures
        after_confirmation(k, v).lease.consumed,
        !after_confirmation(k, v).lease.live_at(now),
        after_start(KeyAgreement { state: KaState::Idle, ..after_confirmation(k, v) }, now).state
            == (KaState::Aborted { reason: SessionError::ExpiredCode }),
{
}

} // verus!

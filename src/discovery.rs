use vstd::prelude::*;
use crate::error::SessionError;
use crate::lease::CodeLease;

verus! {

/// One sender's advertised availability under a fingerprint, until `expires_at`.
#[derive(Debug, Clone)]
pub struct Advertisement {
    pub handle: u64,
    pub fingerprint: u64,
    pub address: String,
    pub expires_at: u64,
}

/// The live advertisements of one process.
#[derive(Debug, Clone)]
pub struct Registry {
    pub ads: Vec<Advertisement>,
    pub next_handle: u64,
}

/// `a` carries `fp` and has not expired at `now`.
pub open spec fn live_match(a: Advertisement, fp: u64, now: u64) -> bool {
    a.fingerprint == fp && now < a.expires_at
}

/// What a lookup of `fp` at `now` gives: the one live match's address, `NotFound` where
/// there is none, `AmbiguousMatch` where there are two or more.
pub open spec fn resolve_spec(ads: Seq<Advertisement>, fp: u64, now: u64) -> Result<Seq<char>, SessionError> {
    if exists|i: int, j: int|
        0 <= i < j < ads.len() && live_match(#[trigger] ads[i], fp, now) && live_match(#[trigger] ads[j], fp, now)
    {
        Err(SessionError::AmbiguousMatch)
    } else if exists|i: int| 0 <= i < ads.len() && live_match(#[trigger] ads[i], fp, now) {
        let i = choose|i: int| 0 <= i < ads.len() && live_match(#[trigger] ads[i], fp, now);
        Ok(ads[i].address@)
    } else {
        Err(SessionError::NotFound)
    }
}

impl Registry {
    /// Handles are distinct and below `next_handle`.
    pub open spec fn wf(&self) -> bool {
        &&& forall|i: int| 0 <= i < self.ads@.len() ==> #[trigger] self.ads@[i].handle < self.next_handle
        &&& forall|i: int, j: int|
            0 <= i < j < self.ads@.len() ==> #[trigger] self.ads@[i].handle != #[trigger] self.ads@[j].handle
    }

    /// An empty registry.
    pub fn new() -> (r: Registry)
        ensures
            r.wf(),
            r.ads@.len() == 0,
            r.next_handle == 0,
    {
        Registry { ads: Vec::new(), next_handle: 0 }
    }

    /// Advertises `address` under `fp` from `now` for `ttl` seconds (to the clock's end, where
    /// that comes first). Gives the handle that revokes it; `None`, changing nothing, once
    /// every handle has been given out.
    pub fn advertise(&mut self, fp: u64, address: String, ttl: u64, now: u64) -> (r: Option<u64>)
        requires
            old(self).wf(),
        ensures
            final(self).wf(),
            old(self).next_handle == u64::MAX ==> r is None && *final(self) == *old(self),
            old(self).next_handle < u64::MAX ==> {
                &&& r == Some(old(self).next_handle)
                &&& final(self).next_handle == old(self).next_handle + 1
                &&& final(self).ads@ == old(self).ads@.push(
                    Advertisement {
                        handle: old(self).next_handle,
                        fingerprint: fp,
                        address,
                        expires_at: if now + ttl <= u64::MAX { (now + ttl) as u64 } else { u64::MAX },
                    },
                )
            },
    {
        if self.next_handle == u64::MAX {
            return None;
        }
        let handle = self.next_handle;
        let expires_at = now.saturating_add(ttl);
        self.ads.push(Advertisement { handle, fingerprint: fp, address, expires_at });
        self.next_handle = handle + 1;
        Some(handle)
    }

    /// Withdraws the advertisement with `handle`, if there is one; the others keep their order.
    pub fn revoke(&mut self, handle: u64) -> (r: bool)
        requires
            old(self).wf(),
        ensures
            final(self).wf(),
            final(self).next_handle == old(self).next_handle,
            r == exists|i: int| 0 <= i < old(self).ads@.len() && #[trigger] old(self).ads@[i].handle == handle,
            r ==> exists|i: int|
                0 <= i < old(self).ads@.len() && #[trigger] old(self).ads@[i].handle == handle
                    && final(self).ads@ == old(self).ads@.remove(i),
            !r ==> final(self).ads@ == old(self).ads@,
    {
        let mut i: usize = 0;
        while i < self.ads.len()
            invariant
                0 <= i <= self.ads@.len(),
                self.ads@ == old(self).ads@,
                self.next_handle == old(self).next_handle,
                old(self).wf(),
                forall|j: int| 0 <= j < i ==> #[trigger] self.ads@[j].handle != handle,
            decreases self.ads@.len() - i,
        {
            if self.ads[i].handle == handle {
                let ghost before = self.ads@;
                self.ads.remove(i);
                assert(forall|j: int| 0 <= j < self.ads@.len() ==> #[trigger] self.ads@[j] == before[if j < i { j } else { j + 1 }]);
                return true;
            }
            i = i + 1;
        }
        false
    }

    /// Looks `fp` up at `now` (see `resolve_spec`).
    pub fn resolve(&self, fp: u64, now: u64) -> (r: Result<String, SessionError>)
        ensures
            match r {
                Ok(a) => resolve_spec(self.ads@, fp, now) == Ok::<Seq<char>, SessionError>(a@),
                Err(e) => resolve_spec(self.ads@, fp, now) == Err::<Seq<char>, SessionError>(e),
            },
    {
        let ghost ads = self.ads@;
        let mut found: Option<usize> = None;
        let mut i: usize = 0;
        while i < self.ads.len()
            invariant
                ads == self.ads@,
                0 <= i <= ads.len(),
                match found {
                    None => forall|j: int| 0 <= j < i ==> !live_match(#[trigger] ads[j], fp, now),
                    Some(f) => f < i && live_match(ads[f as int], fp, now) && forall|j: int|
                        0 <= j < i && j != f ==> !live_match(#[trigger] ads[j], fp, now),
                },
            decreases ads.len() - i,
        {
            let a = &self.ads[i];
            if a.fingerprint == fp && now < a.expires_at {
                match found {
                    Some(f) => {
                        assert(live_match(ads[f as int], fp, now) && live_match(ads[i as int], fp, now));
                        return Err(SessionError::AmbiguousMatch);
                    },
                    None => {
                        found = Some(i);
                    },
                }
            }
            i = i + 1;
        }
        match found {
            Some(f) => {
                proof {
                    assert(live_match(ads[f as int], fp, now));
                    let k = choose|k: int| 0 <= k < ads.len() && live_match(#[trigger] ads[k], fp, now);
                    assert(k == f);
                }
                Ok(self.ads[f].address.clone())
            },
            None => Err(SessionError::NotFound),
        }
    }
}

/// What a receiver does after one lookup while it waits for a sender.
#[derive(Debug, Clone)]
pub enum PollAction {
    /// Open a link to this address.
    Connect { address: String },
    /// Look again later.
    Wait,
    /// Give up with this error; no link is opened.
    Fail { error: SessionError },
}

/// The decision after looking the code's fingerprint up at `now`, with a wait that ends at
/// `deadline`. A spent or expired code fails with `ExpiredCode` before any lookup; no match by
/// the deadline fails with `NotFound`; two or more matches fail with `AmbiguousMatch`.
pub fn poll(lease: &CodeLease, registry: &Registry, fp: u64, now: u64, deadline: u64) -> (r: PollAction)
    ensures
        !lease.live_at(now) ==> r == (PollAction::Fail { error: SessionError::ExpiredCode }),
        lease.live_at(now) ==> match resolve_spec(registry.ads@, fp, now) {
            Ok(a) => r matches PollAction::Connect { address } && address@ == a,
            Err(SessionError::NotFound) => if now < deadline {
                r == PollAction::Wait
            } else {
                r == (PollAction::Fail { error: SessionError::NotFound })
            },
            Err(e) => r == (PollAction::Fail { error: e }),
        },
{
    if !lease.is_live(now) {
        return PollAction::Fail { error: SessionError::ExpiredCode };
    }
    match registry.resolve(fp, now) {
        Ok(address) => PollAction::Connect { address },
        Err(SessionError::NotFound) => {
            if now < deadline {
                PollAction::Wait
            } else {
                PollAction::Fail { error: SessionError::NotFound }
            }
        },
        Err(e) => PollAction::Fail { error: e },
    }
}

} // verus!

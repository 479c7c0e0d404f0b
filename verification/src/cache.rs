//! Time-boxed caching of a single value. A slot pairs a value with the
//! instant (in milliseconds) it was captured; a lookup succeeds only while
//! the value's age is under the slot's time-to-live. The process-global
//! slots themselves live with the caller, which passes each cache in
//! explicitly; this module holds the freshness rules.

use vstd::prelude::*;

verus! {

/// Age limit for cached git status, in milliseconds.
pub const GIT_CACHE_TTL_MS: u64 = 2000;

/// Age limit for cached paths and hostname, in milliseconds.
pub const PATH_CACHE_TTL_MS: u64 = 5000;

/// Age limit for cached configuration, in milliseconds.
pub const CONFIG_CACHE_TTL_MS: u64 = 60000;

/// One cache slot: an optional captured value with its capture instant,
/// and the slot's time-to-live.
pub struct TimedCache<T> {
    pub slot: Option<(T, u64)>,
    pub ttl_ms: u64,
}

impl<T> TimedCache<T> {
    /// A captured value is fresh at `now` while its age is under the
    /// time-to-live; an instant before the capture is never fresh.
    pub open spec fn spec_fresh(self, now: u64) -> bool {
        match self.slot {
            Some((_, at)) => at <= now < at + self.ttl_ms,
            None => false,
        }
    }

    /// What a lookup at `now` yields.
    pub open spec fn spec_lookup(self, now: u64) -> Option<T> {
        if self.spec_fresh(now) {
            Some(self.slot->Some_0.0)
        } else {
            None
        }
    }

    pub fn new(ttl_ms: u64) -> (r: Self)
        ensures
            r.slot is None,
            r.ttl_ms == ttl_ms,
    {
        TimedCache { slot: None, ttl_ms }
    }

    /// The cached value, if one was captured less than the time-to-live ago.
    pub fn lookup(&self, now: u64) -> (r: Option<&T>)
        ensures
            match r {
                Some(v) => self.spec_lookup(now) == Some(*v),
                None => self.spec_lookup(now) is None,
            },
    {
        match &self.slot {
            Some(pair) => {
                let at = pair.1;
                if at <= now && now - at < self.ttl_ms {
                    Some(&pair.0)
                } else {
                    None
                }
            },
            None => None,
        }
    }

    /// Capture a value at `now`, replacing whatever the slot held.
    pub fn store(&mut self, value: T, now: u64)
        ensures
            final(self).slot == Some((value, now)),
            final(self).ttl_ms == old(self).ttl_ms,
    {
        self.slot = Some((value, now));
    }
}

/// Freshness law: after a value is captured, every lookup within the
/// time-to-live window yields that same value — in particular, two probes
/// inside the window both see the first observed value, and neither needs
/// to capture anew.
pub proof fn lemma_cache_freshness<T>(c: TimedCache<T>, v: T, t0: u64, t1: u64, t2: u64)
    requires
        c.slot == Some((v, t0)),
        t0 <= t1 < t0 + c.ttl_ms,
        t0 <= t2 < t0 + c.ttl_ms,
    ensures
        c.spec_lookup(t1) == Some(v),
        c.spec_lookup(t2) == Some(v),
{
}

} // verus!

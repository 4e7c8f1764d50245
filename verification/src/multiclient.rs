//! Process-wide accounting of concurrent sessions per client address. A
//! handshake reserves a slot if and only if fewer than `multiclient_limit`
//! sessions from the same address are active; a disconnect releases its
//! reservation. The host program must hold the registry behind a mutual
//! exclusion guard so that check and increment happen atomically.

use std::collections::HashMap;
use vstd::prelude::*;

verus! {

/// How many sessions the map records for one address key.
pub open spec fn spec_count(m: Map<u64, u32>, ip: u64) -> u32 {
    if m.contains_key(ip) {
        m[ip]
    } else {
        0
    }
}

/// One admission decision: the successor map and whether a new session
/// from `ip` is admitted under `limit`.
pub open spec fn spec_acquire(m: Map<u64, u32>, limit: u8, ip: u64) -> (Map<u64, u32>, bool) {
    if spec_count(m, ip) < limit {
        (m.insert(ip, (spec_count(m, ip) + 1) as u32), true)
    } else {
        (m, false)
    }
}

/// Releasing one reservation: the entry is dropped when it was the last
/// session from that address.
pub open spec fn spec_release(m: Map<u64, u32>, ip: u64) -> Map<u64, u32> {
    if spec_count(m, ip) <= 1 {
        m.remove(ip)
    } else {
        m.insert(ip, (spec_count(m, ip) - 1) as u32)
    }
}

/// Every recorded count is at least one: fully released addresses do not
/// linger in the map.
pub open spec fn counts_wf(m: Map<u64, u32>) -> bool {
    forall|ip: u64| m.contains_key(ip) ==> 1 <= #[trigger] m[ip]
}

/// The shared per-address session counter, keyed by a 64-bit address key
/// the host derives from the client IP.
pub struct MulticlientRegistry {
    limit: u8,
    counts: HashMap<u64, u32>,
}

impl View for MulticlientRegistry {
    type V = Map<u64, u32>;

    closed spec fn view(&self) -> Map<u64, u32> {
        self.counts@
    }
}

impl MulticlientRegistry {
    /// The configured `multiclient_limit`.
    pub closed spec fn spec_limit(&self) -> u8 {
        self.limit
    }

    /// An empty registry enforcing `limit` concurrent sessions per address.
    pub fn new(limit: u8) -> (r: MulticlientRegistry)
        ensures
            r@ == Map::<u64, u32>::empty(),
            r.spec_limit() == limit,
            counts_wf(r@),
    {
        MulticlientRegistry { limit, counts: HashMap::new() }
    }

    /// How many sessions are active from `ip`.
    pub fn active(&self, ip: u64) -> (n: u32)
        ensures
            n == spec_count(self@, ip),
    {
        match self.counts.get(&ip) {
            Some(c) => *c,
            None => 0,
        }
    }

    /// Reserves a slot for a new session from `ip` if fewer than the limit
    /// are active; exactly then the handshake may proceed.
    pub fn try_acquire(&mut self, ip: u64) -> (ok: bool)
        requires
            counts_wf(old(self)@),
        ensures
            (final(self)@, ok) == spec_acquire(old(self)@, old(self).spec_limit(), ip),
            final(self).spec_limit() == old(self).spec_limit(),
            counts_wf(final(self)@),
    {
        let current: u32 = match self.counts.get(&ip) {
            Some(c) => *c,
            None => 0,
        };
        if current < self.limit as u32 {
            self.counts.insert(ip, current + 1);
            true
        } else {
            false
        }
    }

    /// Releases the reservation one session from `ip` held.
    pub fn release(&mut self, ip: u64)
        requires
            counts_wf(old(self)@),
        ensures
            final(self)@ == spec_release(old(self)@, ip),
            final(self).spec_limit() == old(self).spec_limit(),
            counts_wf(final(self)@),
    {
        let current: u32 = match self.counts.get(&ip) {
            Some(c) => *c,
            None => 0,
        };
        if current <= 1 {
            self.counts.remove(&ip);
        } else {
            self.counts.insert(ip, current - 1);
        }
    }
}

/// With a limit of two: two handshakes from one address are admitted, a
/// third concurrent one is refused while exactly two are active, and after
/// one release a new handshake is admitted again.
pub proof fn lemma_multiclient_limit(ip: u64)
    ensures
        ({
            let m0 = Map::<u64, u32>::empty();
            let s1 = spec_acquire(m0, 2, ip);
            let s2 = spec_acquire(s1.0, 2, ip);
            let s3 = spec_acquire(s2.0, 2, ip);
            let m4 = spec_release(s3.0, ip);
            let s5 = spec_acquire(m4, 2, ip);
            s1.1 && s2.1 && (!s3.1 && spec_count(s3.0, ip) == 2) && s5.1
        }),
{
}

} // verus!

//! The flood-guard admission policy: a fixed-window counter per rate-limited
//! command category. At most `times_per_interval` actions are admitted inside
//! one window of `interval_length` seconds; the action that exceeds the count
//! is denied and mutes the category for `mute_length` seconds. While the mute
//! lasts every action is denied; the first action after it expires is
//! admitted and opens a fresh window.

use vstd::prelude::*;

use crate::config::FloodGuardConfig;

verus! {

/// Room left below `u64::MAX` so that window and mute deadlines, computed
/// from a `u8` interval and a `u32` mute length, cannot overflow.
pub open spec fn time_in_range(now: u64) -> bool {
    now <= u64::MAX - 0xffff_ffff
}

/// Per (session, rule) flood-guard state: the admission parameters and the
/// current window and mute, if any are open.
pub struct FloodGuard {
    pub times_per_interval: u8,
    pub interval_length: u8,
    pub mute_length: u32,
    pub window_start: Option<u64>,
    pub count: u32,
    pub muted_until: Option<u64>,
}

/// The rolling count stays within reach of the admitted maximum: while no
/// mute runs it is at most one past `times_per_interval` (the first action
/// of a window is always counted), and the action that then exceeds the
/// maximum starts a mute, after which nothing is counted until the mute has
/// expired.
pub open spec fn guard_wf(g: FloodGuard) -> bool {
    &&& (g.muted_until is None ==> g.count <= g.times_per_interval as int + 1)
    &&& g.count <= g.times_per_interval as int + 2
}

/// One admission decision: the successor state and whether the action at
/// `now` is admitted.
pub open spec fn spec_guard_step(g: FloodGuard, now: u64) -> (FloodGuard, bool)
    recommends
        guard_wf(g),
        time_in_range(now),
{
    if g.muted_until is Some {
        if now < g.muted_until->0 {
            (g, false)
        } else {
            (
                FloodGuard { window_start: Some(now), count: 1, muted_until: None, ..g },
                true,
            )
        }
    } else if g.window_start is None {
        (FloodGuard { window_start: Some(now), count: 1, ..g }, true)
    } else if now < g.window_start->0 + g.interval_length {
        let c = (g.count + 1) as u32;
        if c > g.times_per_interval {
            (
                FloodGuard { count: c, muted_until: Some((now + g.mute_length) as u64), ..g },
                false,
            )
        } else {
            (FloodGuard { count: c, ..g }, true)
        }
    } else {
        (FloodGuard { window_start: Some(now), count: 1, ..g }, true)
    }
}

impl FloodGuard {
    /// A fresh guard for one rate-limited category: no window open, no mute.
    pub fn new(cfg: &FloodGuardConfig) -> (g: FloodGuard)
        ensures
            g.times_per_interval == cfg.times_per_interval,
            g.interval_length == cfg.interval_length,
            g.mute_length == cfg.mute_length,
            g.window_start is None,
            g.count == 0,
            g.muted_until is None,
            guard_wf(g),
    {
        FloodGuard {
            times_per_interval: cfg.times_per_interval,
            interval_length: cfg.interval_length,
            mute_length: cfg.mute_length,
            window_start: None,
            count: 0,
            muted_until: None,
        }
    }

    /// Decides one candidate action at time `now` and advances the state,
    /// exactly as [`spec_guard_step`] says.
    pub fn on_action(&mut self, now: u64) -> (admitted: bool)
        requires
            guard_wf(*old(self)),
            time_in_range(now),
        ensures
            (*final(self), admitted) == spec_guard_step(*old(self), now),
            guard_wf(*final(self)),
    {
        match self.muted_until {
            Some(mu) => {
                if now < mu {
                    false
                } else {
                    self.window_start = Some(now);
                    self.count = 1;
                    self.muted_until = None;
                    true
                }
            },
            None => {
                match self.window_start {
                    None => {
                        self.window_start = Some(now);
                        self.count = 1;
                        true
                    },
                    Some(ws) => {
                        if now < ws.saturating_add(self.interval_length as u64) {
                            self.count = self.count + 1;
                            if self.count > self.times_per_interval as u32 {
                                self.muted_until = Some(now + self.mute_length as u64);
                                false
                            } else {
                                true
                            }
                        } else {
                            self.window_start = Some(now);
                            self.count = 1;
                            true
                        }
                    },
                }
            },
        }
    }
}

/// With three actions admitted per interval: four actions inside one
/// interval see the first three admitted and the fourth denied, and the
/// denial opens a mute of exactly `mute_length` from the denied action.
pub proof fn lemma_flood_guard_burst(g0: FloodGuard, t1: u64, t2: u64, t3: u64, t4: u64)
    requires
        g0.window_start is None,
        g0.muted_until is None,
        g0.times_per_interval == 3,
        t1 <= t2,
        t2 <= t3,
        t3 <= t4,
        t4 < t1 + g0.interval_length,
    ensures
        ({
            let s1 = spec_guard_step(g0, t1);
            let s2 = spec_guard_step(s1.0, t2);
            let s3 = spec_guard_step(s2.0, t3);
            let s4 = spec_guard_step(s3.0, t4);
            s1.1 && s2.1 && s3.1 && !s4.1 && s4.0.muted_until == Some((t4 + g0.mute_length) as u64)
        }),
{
}

/// Every action attempted while a mute is running is denied and changes
/// nothing.
pub proof fn lemma_flood_guard_mute_denies(g: FloodGuard, now: u64)
    requires
        g.muted_until is Some,
        now < g.muted_until->0,
    ensures
        spec_guard_step(g, now) == (g, false),
{
}

/// The first action at or after mute expiry is admitted and opens a fresh
/// window of count one.
pub proof fn lemma_flood_guard_mute_expiry(g: FloodGuard, now: u64)
    requires
        g.muted_until is Some,
        now >= g.muted_until->0,
    ensures
        spec_guard_step(g, now).1,
        spec_guard_step(g, now).0.window_start == Some(now),
        spec_guard_step(g, now).0.count == 1,
        spec_guard_step(g, now).0.muted_until is None,
{
}

} // verus!

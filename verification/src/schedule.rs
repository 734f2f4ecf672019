//! When the application starts its background work: USB scans every two
//! seconds, a network check every thirty, a catalogue refresh every five
//! minutes while online, a rescan after Ventoy was installed, and how long a
//! notice stays. Times are milliseconds of the application's clock.
use vstd::prelude::*;

verus! {

pub open spec fn scan_every() -> int {
    2000
}

pub open spec fn net_every() -> int {
    30000
}

pub open spec fn catalog_every() -> int {
    300000
}

pub open spec fn notice_for() -> int {
    4000
}

pub open spec fn rescan_delay() -> int {
    1500
}

/// The intervals of the background work, in milliseconds: a USB scan every
/// two seconds, a network check every thirty, a catalogue refresh every five
/// minutes, a notice shown for four seconds, and a rescan a second and a half
/// after an installation.
pub proof fn lemma_schedule_intervals()
    ensures
        scan_every() == 2 * 1000,
        net_every() == 30 * 1000,
        catalog_every() == 5 * 60 * 1000,
        notice_for() == 4 * 1000,
        rescan_delay() == 1500,
{
}

/// "Long ago": a time from which every interval has passed at start.
pub open spec fn never() -> i64 {
    -999000i64
}

/// The state of the background work.
pub struct Schedule {
    pub scanning: bool,
    pub last_scan: i64,
    pub rescan_at: Option<i64>,
    pub checking_net: bool,
    pub last_net_check: i64,
    pub online: bool,
    pub fetching_catalog: bool,
    pub last_catalog_update: i64,
    pub notice_since: Option<i64>,
}

/// The application's clock stays within these bounds, which keeps every
/// difference of times within `i64`.
pub open spec fn clock_ok(t: i64) -> bool {
    -4_000_000_000_000_000 <= t <= 4_000_000_000_000_000
}

impl Schedule {
    /// The times of the schedule lie on the clock.
    pub open spec fn wf(&self) -> bool {
        &&& clock_ok(self.last_scan)
        &&& clock_ok(self.last_net_check)
        &&& clock_ok(self.last_catalog_update)
        &&& (self.notice_since matches Some(t) ==> clock_ok(t))
    }

    /// Nothing has run: every interval has passed, the network is taken as offline.
    pub fn new() -> (r: Schedule)
        ensures
            r.wf(),
            !r.scanning && !r.checking_net && !r.fetching_catalog && !r.online,
            r.last_scan == never() && r.last_net_check == never(),
            r.last_catalog_update == -9999000,
            r.rescan_at is None && r.notice_since is None,
    {
        Schedule {
            scanning: false,
            last_scan: -999000,
            rescan_at: None,
            checking_net: false,
            last_net_check: -999000,
            online: false,
            fetching_catalog: false,
            last_catalog_update: -9999000,
            notice_since: None,
        }
    }

    /// Whether to start a USB scan now: none runs and two seconds have passed
    /// since the last one started.
    pub fn scan_due(&mut self, now: i64) -> (start: bool)
        requires
            old(self).wf(),
            clock_ok(now),
        ensures
            final(self).wf(),
            start == (!old(self).scanning && now - old(self).last_scan >= scan_every()),
            start ==> *final(self) == (Schedule { scanning: true, last_scan: now, ..*old(self) }),
            !start ==> *final(self) == *old(self),
    {
        if !self.scanning && now - self.last_scan >= 2000 {
            self.last_scan = now;
            self.scanning = true;
            true
        } else {
            false
        }
    }

    /// A scan has reported.
    pub fn scan_done(&mut self)
        ensures
            *final(self) == (Schedule { scanning: false, ..*old(self) }),
    {
        self.scanning = false;
    }

    /// A rescan is due once its time has come: the last scan is then forgotten,
    /// so that the next check starts one.
    pub fn rescan_due(&mut self, now: i64)
        requires
            old(self).wf(),
        ensures
            final(self).wf(),
            (old(self).rescan_at matches Some(t) && now >= t) ==> *final(self) == (Schedule {
                rescan_at: None,
                last_scan: never(),
                ..*old(self)
            }),
            !(old(self).rescan_at matches Some(t) && now >= t) ==> *final(self) == *old(self),
    {
        if let Some(t) = self.rescan_at {
            if now >= t {
                self.rescan_at = None;
                self.last_scan = -999000;
            }
        }
    }

    /// Whether to check the network now: thirty seconds have passed since the
    /// last check started and none runs.
    pub fn net_check_due(&mut self, now: i64) -> (start: bool)
        requires
            old(self).wf(),
            clock_ok(now),
        ensures
            final(self).wf(),
            start == (now - old(self).last_net_check >= net_every() && !old(self).checking_net),
            start ==> *final(self) == (Schedule {
                checking_net: true,
                last_net_check: now,
                ..*old(self)
            }),
            !start ==> *final(self) == *old(self),
    {
        if now - self.last_net_check >= 30000 && !self.checking_net {
            self.last_net_check = now;
            self.checking_net = true;
            true
        } else {
            false
        }
    }

    /// The network check has reported.
    pub fn net_checked(&mut self, ok: bool)
        ensures
            *final(self) == (Schedule { checking_net: false, online: ok, ..*old(self) }),
    {
        self.online = ok;
        self.checking_net = false;
    }

    /// Whether to fetch the catalogue now: online, no fetch running, and five
    /// minutes passed since the last one ended.
    pub fn catalog_due(&mut self, now: i64) -> (start: bool)
        requires
            old(self).wf(),
            clock_ok(now),
        ensures
            final(self).wf(),
            start == (old(self).online && !old(self).fetching_catalog && now
                - old(self).last_catalog_update > catalog_every()),
            start ==> *final(self) == (Schedule { fetching_catalog: true, ..*old(self) }),
            !start ==> *final(self) == *old(self),
    {
        if self.online && !self.fetching_catalog && now - self.last_catalog_update > 300000 {
            self.fetching_catalog = true;
            true
        } else {
            false
        }
    }

    /// The catalogue fetch has ended (whatever its result); a replaced
    /// catalogue is announced by a notice.
    pub fn catalog_fetched(&mut self, now: i64, replaced: bool)
        requires
            old(self).wf(),
            clock_ok(now),
        ensures
            final(self).wf(),
            *final(self) == (Schedule {
                fetching_catalog: false,
                last_catalog_update: now,
                notice_since: if replaced {
                    Some(now)
                } else {
                    old(self).notice_since
                },
                ..*old(self)
            }),
    {
        self.fetching_catalog = false;
        self.last_catalog_update = now;
        if replaced {
            self.notice_since = Some(now);
        }
    }

    /// Whether the notice is still shown; one older than four seconds is dismissed.
    pub fn notice_shown(&mut self, now: i64) -> (shown: bool)
        requires
            old(self).wf(),
            clock_ok(now),
        ensures
            final(self).wf(),
            match old(self).notice_since {
                Some(t) => if now - t > notice_for() {
                    !shown && *final(self) == (Schedule { notice_since: None, ..*old(self) })
                } else {
                    shown && *final(self) == *old(self)
                },
                None => !shown && *final(self) == *old(self),
            },
    {
        match self.notice_since {
            Some(t) => if now - t > 4000 {
                self.notice_since = None;
                false
            } else {
                true
            },
            None => false,
        }
    }

    /// A successful Ventoy installation asks for a rescan a second and a half later.
    pub fn installed(&mut self, now: i64)
        requires
            old(self).wf(),
            clock_ok(now),
        ensures
            final(self).wf(),
            *final(self) == (Schedule { rescan_at: Some((now + 1500) as i64), ..*old(self) }),
    {
        self.rescan_at = Some(now + 1500);
    }
}

} // verus!

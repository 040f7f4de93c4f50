//! The keepalive watchdog: its timing rules, the single-instance lock, and the
//! decisions of the watchdog loop as a state machine driven by the events the
//! operating system and the portal deliver.

use vstd::prelude::*;
use crate::text::{chars_of, parse_unsigned, parse_unsigned_exec, trim, trim_exec};

verus! {

/// What waiting for a network event gave.
pub enum OsEvent {
    /// The operating system reported a change of the network link or address.
    NetworkChange(String),
    /// The wait ended without an event.
    Timeout,
}

/// Seconds between keepalive heartbeats when nothing else is configured.
pub const KEEP_ALIVE_INTERVAL: u64 = 180;

/// The keepalive interval: `PESU_KEEPALIVE_INTERVAL` when it reads as a
/// number, else a configured interval above zero, else the default.
pub open spec fn keep_alive_interval(env: Option<String>, configured: Option<u64>) -> u64 {
    match env {
        Some(e) if parse_unsigned(e@, u64::MAX as nat) is Some => parse_unsigned(
            e@,
            u64::MAX as nat,
        )->0 as u64,
        _ => match configured {
            Some(i) if i > 0 => i,
            _ => KEEP_ALIVE_INTERVAL,
        },
    }
}

/// Chooses the keepalive interval from the environment value and a
/// configured interval.
pub fn get_keep_alive_interval(env: Option<String>, configured: Option<u64>) -> (r: u64)
    ensures
        r == keep_alive_interval(env, configured),
{
    match &env {
        Some(e) => {
            match parse_unsigned_exec(&chars_of(e.as_str()), u64::MAX) {
                Some(v) => {
                    return v;
                },
                None => {},
            }
        },
        None => {},
    }
    match configured {
        Some(i) => if i > 0 {
            i
        } else {
            KEEP_ALIVE_INTERVAL
        },
        None => KEEP_ALIVE_INTERVAL,
    }
}

/// The value of `base as i64` (two's complement reinterpretation).
pub open spec fn as_signed(base: u64) -> int {
    if base <= i64::MAX {
        base as int
    } else {
        base - 0x1_0000_0000_0000_0000
    }
}

/// The jitter, from -5 to 5 seconds, that a millisecond time stamp selects.
pub open spec fn jitter_of(ts: nat) -> int {
    (ts % 11) as int - 5
}

/// Adding the jitter to the interval stays within `i64`.
pub open spec fn jitter_fits(base: u64, ts: nat) -> bool {
    i64::MIN <= as_signed(base) + jitter_of(ts) <= i64::MAX
}

/// The interval with the jitter of `ts` added, and never below 10 seconds.
pub open spec fn jittered(base: u64, ts: nat) -> u64 {
    let v = as_signed(base) + jitter_of(ts);
    if v < 10 {
        10
    } else {
        v as u64
    }
}

/// Spreads the interval by -5 to +5 seconds according to `ts`, never going
/// below 10 seconds.
pub fn jittered_interval(base: u64, ts: u128) -> (r: u64)
    requires
        jitter_fits(base, ts as nat),
    ensures
        r == jittered(base, ts as nat),
{
    let jitter: i64 = (ts % 11) as i64 - 5;
    let signed: i64 = if base <= i64::MAX as u64 {
        base as i64
    } else {
        -((u64::MAX - base) as i64) - 1
    };
    let v = signed + jitter;
    if v < 10 {
        10
    } else {
        v as u64
    }
}

/// Tells whether adding the jitter of `ts` to the interval stays within `i64`.
pub fn interval_jitter_fits(base: u64, ts: u128) -> (b: bool)
    ensures
        b == jitter_fits(base, ts as nat),
{
    let jitter: i64 = (ts % 11) as i64 - 5;
    let signed: i64 = if base <= i64::MAX as u64 {
        base as i64
    } else {
        -((u64::MAX - base) as i64) - 1
    };
    if jitter >= 0 {
        signed <= i64::MAX - jitter
    } else {
        signed >= i64::MIN - jitter
    }
}

/// Spreads the interval by a jitter from -5 to +5 seconds taken from the
/// clock, never going below 10 seconds.
pub fn calculate_jittered_interval(base_interval: u64) -> (r: u64)
    requires
        i64::MIN + 5 <= as_signed(base_interval) <= i64::MAX - 5,
    ensures
        exists|ts: nat| r == jittered(base_interval, ts),
        base_interval <= i64::MAX ==> base_interval - 5 <= r <= base_interval + 5 || r == 10,
        r >= 10,
{
    let ts = crate::clock::get_timestamp();
    jittered_interval(base_interval, ts)
}

// ---------------------------------------------------------------------------
// The single-instance lock and daemon discovery
// ---------------------------------------------------------------------------

/// Where the daemon's lock file lives: in `$XDG_RUNTIME_DIR` when that is set
/// and not empty, otherwise in the configuration directory.
pub open spec fn lock_file_path(runtime_dir: Option<String>, config_dir: Seq<char>) -> Seq<char> {
    if crate::config::nonempty_value(runtime_dir) {
        crate::config::join_path(runtime_dir->0@, "pesu_wifi_daemon.lock"@)
    } else {
        crate::config::join_path(config_dir, "daemon.lock"@)
    }
}

/// Chooses the lock file path.
pub fn get_lock_file_path(runtime_dir: Option<String>, config_dir: &str) -> (r: String)
    ensures
        r@ == lock_file_path(runtime_dir, config_dir@),
{
    match &runtime_dir {
        Some(d) => {
            if !d.as_str().is_empty() {
                return crate::config::join_path_exec(d.as_str(), "pesu_wifi_daemon.lock");
            }
        },
        None => {},
    }
    crate::config::join_path_exec(config_dir, "daemon.lock")
}

/// A process id written as text (trimmed), as `str::parse::<u32>` reads it.
pub open spec fn pid_text(s: Seq<char>) -> Option<nat> {
    parse_unsigned(trim(s), u32::MAX as nat)
}

/// Reads a process id from text.
pub fn parse_pid(s: &Vec<char>) -> (r: Option<u32>)
    ensures
        match r {
            Some(p) => pid_text(s@) == Some(p as nat),
            None => pid_text(s@) is None,
        },
{
    match parse_unsigned_exec(&trim_exec(s), u32::MAX as u64) {
        Some(v) => Some(v as u32),
        None => None,
    }
}

/// What trying the lock file found.
pub enum LockProbe {
    /// The lock file could not be opened.
    Unopenable,
    /// The lock was free (so no daemon holds it).
    Free,
    /// The lock is held; the file's contents, if they could be read.
    Held(Option<String>),
}

/// The first process id in a process listing (one per line) other than `current`.
pub open spec fn other_pid(listing: Seq<Seq<char>>, current: u32) -> Option<nat>
    decreases listing.len(),
{
    if listing.len() == 0 {
        None
    } else {
        match pid_text(listing[0]) {
            Some(p) if p != current => Some(p),
            _ => other_pid(listing.drop_first(), current),
        }
    }
}

/// The first process id, other than `current`, in a process listing.
pub fn other_daemon_pid(listing: &str, current: u32) -> (r: Option<u32>)
    ensures
        match r {
            Some(p) => other_pid(crate::text::lines(listing@), current) == Some(p as nat),
            None => other_pid(crate::text::lines(listing@), current) is None,
        },
{
    let ls = crate::text::lines_exec(&chars_of(listing));
    let ghost all = ls@.map_values(|l: Vec<char>| l@);
    assert(all.skip(0) =~= all);
    let mut i: usize = 0;
    while i < ls.len()
        invariant
            i <= ls@.len(),
            all == ls@.map_values(|l: Vec<char>| l@),
            all == crate::text::lines(listing@),
            other_pid(all, current) == other_pid(all.skip(i as int), current),
        decreases ls@.len() - i,
    {
        proof {
            assert(all.skip(i as int)[0] == ls@[i as int]@);
            assert(all.skip(i as int).drop_first() =~= all.skip(i + 1));
        }
        match parse_pid(&ls[i]) {
            Some(p) => {
                if p != current {
                    return Some(p);
                }
            },
            None => {},
        }
        i = i + 1;
    }
    assert(all.skip(i as int) =~= Seq::<Seq<char>>::empty());
    None
}

/// Whether the lock probe leaves the question open, so that the process
/// table has to be consulted.
pub open spec fn probe_inconclusive(probe: LockProbe) -> bool {
    match probe {
        LockProbe::Free => false,
        LockProbe::Held(Some(c)) => pid_text(c@) is None,
        _ => true,
    }
}

/// Whether the process table has to be listed to tell whether a daemon runs.
pub fn needs_process_listing(probe: &LockProbe) -> (r: bool)
    ensures
        r == probe_inconclusive(*probe),
{
    match probe {
        LockProbe::Free => false,
        LockProbe::Held(Some(c)) => parse_pid(&chars_of(c.as_str())).is_none(),
        _ => true,
    }
}

/// Whether a daemon runs, and its process id when known: a free lock means
/// none; a held lock naming a process id gives it; otherwise the first other
/// process in the listing, if any; otherwise a daemon of unknown id.
pub open spec fn daemon_status(probe: LockProbe, listing: Option<String>, current: u32) -> (bool, Option<nat>) {
    match probe {
        LockProbe::Free => (false, None),
        LockProbe::Held(Some(c)) if pid_text(c@) is Some => (true, pid_text(c@)),
        _ => match listing {
            Some(l) => match other_pid(crate::text::lines(l@), current) {
                Some(p) => (true, Some(p)),
                None => (true, None),
            },
            None => (true, None),
        },
    }
}

/// Decides whether a daemon runs from the lock probe and, when the probe was
/// inconclusive, the process listing.
pub fn is_daemon_running(probe: LockProbe, listing: Option<String>, current: u32) -> (r: (bool, Option<u32>))
    ensures
        (r.0, match r.1 {
            Some(p) => Some(p as nat),
            None => None,
        }) == daemon_status(probe, listing, current),
{
    match &probe {
        LockProbe::Free => {
            return (false, None);
        },
        LockProbe::Held(Some(c)) => {
            match parse_pid(&chars_of(c.as_str())) {
                Some(p) => {
                    return (true, Some(p));
                },
                None => {},
            }
        },
        _ => {},
    }
    match &listing {
        Some(l) => match other_daemon_pid(l.as_str(), current) {
            Some(p) => (true, Some(p)),
            None => (true, None),
        },
        None => (true, None),
    }
}

/// Whether desktop notifications are sent: they must be enabled, and
/// `PESU_NOTIFICATIONS` must not be `0` or `false` (in any ASCII case).
pub open spec fn notifications_on(enabled: bool, env: Option<String>) -> bool {
    enabled && match env {
        Some(v) => !(v@ == "0"@ || crate::text::ascii_eq_ignore_case(v@, "false"@)),
        None => true,
    }
}

/// Decides whether to send a desktop notification.
pub fn should_notify(enabled: bool, env: &Option<String>) -> (r: bool)
    ensures
        r == notifications_on(enabled, *env),
{
    if !enabled {
        return false;
    }
    match env {
        Some(v) => {
            let c = chars_of(v.as_str());
            !(crate::text::same_text(&c, "0") || crate::text::ascii_eq_ignore_case_exec(&c, "false"))
        },
        None => true,
    }
}

/// The poll timeout in milliseconds for an optional wait: capped at
/// `i32::MAX`, and -1 (wait forever) without a timeout.
pub open spec fn poll_timeout(timeout_ms: Option<u128>) -> i32 {
    match timeout_ms {
        Some(ms) => if ms <= i32::MAX as u128 {
            ms as i32
        } else {
            i32::MAX
        },
        None => -1i32,
    }
}

/// Converts an optional wait (in milliseconds) into a poll timeout.
pub fn poll_timeout_ms(timeout_ms: Option<u128>) -> (r: i32)
    ensures
        r == poll_timeout(timeout_ms),
{
    match timeout_ms {
        Some(ms) => if ms <= i32::MAX as u128 {
            ms as i32
        } else {
            i32::MAX
        },
        None => -1i32,
    }
}


/// Which part of the Windows WLAN service sent a notification.
pub enum WlanSource {
    /// The auto-configuration module.
    Acm,
    /// The media-specific module.
    Msm,
    /// Any other source.
    Other,
}

/// The name a WLAN notification is reported under.
pub open spec fn wlan_event_text(source: WlanSource, code: u32) -> Seq<char> {
    match source {
        WlanSource::Acm => if code == 10 {
            "ACM:ConnectionComplete"@
        } else if code == 21 {
            "ACM:Disconnected"@
        } else if code == 13 {
            "ACM:InterfaceArrival"@
        } else if code == 14 {
            "ACM:InterfaceRemoval"@
        } else {
            "WlanNotification"@
        },
        WlanSource::Msm => if code == 4 {
            "MSM:Connected"@
        } else if code == 10 {
            "MSM:Disconnected"@
        } else if code == 5 {
            "MSM:RoamingStart"@
        } else if code == 6 {
            "MSM:RoamingEnd"@
        } else {
            "WlanNotification"@
        },
        WlanSource::Other => "WlanNotification"@,
    }
}

/// Names a WLAN notification by its source and code.
pub fn wlan_event_name(source: WlanSource, code: u32) -> (r: String)
    ensures
        r@ == wlan_event_text(source, code),
{
    let s = match source {
        WlanSource::Acm => if code == 10 {
            "ACM:ConnectionComplete"
        } else if code == 21 {
            "ACM:Disconnected"
        } else if code == 13 {
            "ACM:InterfaceArrival"
        } else if code == 14 {
            "ACM:InterfaceRemoval"
        } else {
            "WlanNotification"
        },
        WlanSource::Msm => if code == 4 {
            "MSM:Connected"
        } else if code == 10 {
            "MSM:Disconnected"
        } else if code == 5 {
            "MSM:RoamingStart"
        } else if code == 6 {
            "MSM:RoamingEnd"
        } else {
            "WlanNotification"
        },
        WlanSource::Other => "WlanNotification",
    };
    String::from_str(s)
}

} // verus!

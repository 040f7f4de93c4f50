//! The watchdog loop's decisions. The loop alternates outside work (waiting
//! for network events, asking the portal, healing the link) with decisions;
//! here the decisions are a state machine: each event the outside work
//! delivers moves the state on and yields the actions to perform, the last of
//! which is the request whose answer is the next event.

use vstd::prelude::*;
use crate::daemon::{OsEvent, jitter_fits, jittered, jittered_interval};
use crate::text::{cat2, cat3, decimal, decimal_exec, string_of};

verus! {

/// Why the watchdog stands by.
pub enum Standby {
    /// Connected to a Wi-Fi network that is not a campus network.
    OffCampus(String),
    /// Not connected to any Wi-Fi network.
    Disconnected,
}

/// Two standby reasons are the same (network names compared by text).
pub open spec fn same_standby(a: Standby, b: Standby) -> bool {
    match (a, b) {
        (Standby::OffCampus(x), Standby::OffCampus(y)) => x@ == y@,
        (Standby::Disconnected, Standby::Disconnected) => true,
        _ => false,
    }
}

/// Which answer the watchdog waits for.
pub enum Phase {
    /// A network event or the end of the wait.
    AwaitWake,
    /// The credentials and Wi-Fi state.
    AwaitSurvey,
    /// The keepalive answer.
    AwaitLive,
    /// Whether the gateway answers.
    AwaitProbe,
    /// The login outcome.
    AwaitLogin,
}

/// The watchdog's state between events.
pub struct Watchdog {
    pub phase: Phase,
    pub username: String,
    pub password: String,
    pub campus_ssid: Option<String>,
    pub last_bssid: Option<String>,
    pub last_standby: Option<Standby>,
    pub next_wait: Option<u64>,
    pub unreachable_streak: u32,
    pub session_drops: u32,
    pub just_connected: bool,
    pub interval: u64,
}

/// What a look at the machine found.
pub struct Survey {
    pub username: Option<String>,
    pub password: Option<String>,
    pub ssid: Option<String>,
    pub bssid: Option<String>,
    /// Whether `ssid` is a campus network.
    pub campus: bool,
}

/// An answer to the watchdog's last request.
pub enum WatchdogEvent {
    /// How the wait for a network event ended: an event, or a listener failure.
    Woke(Result<OsEvent, String>),
    Surveyed(Survey),
    /// The keepalive answer, with the keepalive interval and the time.
    LiveChecked { confirmed: bool, interval: u64, now_ms: u128 },
    PortalProbed(bool),
    /// The login outcome, with the time.
    LoginFinished { outcome: Result<String, String>, now_ms: u128 },
}

/// A line for the watchdog's log.
pub enum Note {
    Starting(String, u64),
    InitialEvaluation,
    NetworkEvent(String),
    ListenerError(String),
    OffCampus(String),
    Disconnected,
    Roaming(String, String),
    Restored(u32),
    HeartbeatOk(String, u64),
    Unreachable(String, u32),
    KeepaliveMissed,
    SessionExpired(String),
    LoggedIn(String, u64),
    LoginFailed(String),
}

/// A desktop notification.
pub enum Notice {
    LoggedIn(String),
    LoginFailed(String),
}

/// Something the outside world is asked to do.
pub enum WatchdogAction {
    Log(Note),
    /// Sleep this many seconds.
    Sleep(u64),
    /// Wait for a network event, at most this many seconds (or forever);
    /// answered by `Woke`.
    WaitForEvent(Option<u64>),
    /// Read the credentials and the Wi-Fi state; answered by `Surveyed`.
    Survey,
    DeactivateInhibitor,
    ActivateInhibitor,
    DisablePowersave(String),
    /// Ask the portal whether the session of this user lives; answered by `LiveChecked`.
    CheckLive(String),
    /// Ask whether the gateway answers; answered by `PortalProbed`.
    ProbePortal,
    /// Run the given tier of network self-healing.
    Heal(u8),
    /// Log in with these credentials; answered by `LoginFinished`.
    Login(String, String),
    Notify(Notice),
}

/// The counters stay within their bounds: at most 8 unreachable probes in a
/// row and at most one missed keepalive.
pub open spec fn wf(w: Watchdog) -> bool {
    &&& w.unreachable_streak <= 8
    &&& w.session_drops <= 1
    &&& (w.phase is AwaitLive || w.phase is AwaitProbe || w.phase is AwaitLogin) ==> w.campus_ssid is Some
}

/// The request that ends the actions of a step waits for the answer the
/// phase expects.
pub open spec fn asks_for(phase: Phase, a: WatchdogAction) -> bool {
    match phase {
        Phase::AwaitWake => a is WaitForEvent,
        Phase::AwaitSurvey => a is Survey,
        Phase::AwaitLive => a is CheckLive,
        Phase::AwaitProbe => a is ProbePortal,
        Phase::AwaitLogin => a is Login,
    }
}

/// The event answers the request the watchdog made, and (where a jittered
/// interval is computed) the interval with its jitter fits in `i64`.
pub open spec fn accepts(w: Watchdog, e: WatchdogEvent) -> bool {
    match e {
        WatchdogEvent::Woke(_) => w.phase is AwaitWake,
        WatchdogEvent::Surveyed(_) => w.phase is AwaitSurvey,
        WatchdogEvent::LiveChecked { confirmed, interval, now_ms } => w.phase is AwaitLive && (
        confirmed ==> jitter_fits(interval, now_ms as nat)),
        WatchdogEvent::PortalProbed(_) => w.phase is AwaitProbe,
        WatchdogEvent::LoginFinished { outcome, now_ms } => w.phase is AwaitLogin && (outcome is Ok
            ==> jitter_fits(w.interval, now_ms as nat)),
    }
}

/// Going into standby: log the reason only when it changed, release the
/// sleep inhibitor, forget the access point, reset the counters, and check
/// again in 10 seconds.
pub open spec fn standby_step(w: Watchdog, st: Standby, note: Note) -> (Watchdog, Seq<WatchdogAction>) {
    let unchanged = w.last_standby matches Some(prev) && same_standby(prev, st);
    (
        Watchdog {
            phase: Phase::AwaitWake,
            last_standby: Some(st),
            last_bssid: None,
            unreachable_streak: 0,
            session_drops: 0,
            just_connected: true,
            next_wait: Some(10),
            ..w
        },
        (if unchanged {
            Seq::empty()
        } else {
            seq![WatchdogAction::Log(note)]
        }) + seq![WatchdogAction::DeactivateInhibitor, WatchdogAction::WaitForEvent(Some(10))],
    )
}

/// On a campus network: keep Wi-Fi power saving off after a (re)connection,
/// hold the sleep inhibitor, notice a change of access point (which counts as
/// a reconnection), then ask whether the session lives.
pub open spec fn campus_step(w: Watchdog, ssid: String, bssid: Option<String>) -> (Watchdog, Seq<WatchdogAction>) {
    let powersave = if w.just_connected {
        seq![WatchdogAction::DisablePowersave(ssid)]
    } else {
        Seq::empty()
    };
    let roamed = bssid matches Some(b) && w.last_bssid matches Some(prev) && prev@ != b@;
    let roam_note = if roamed {
        seq![WatchdogAction::Log(Note::Roaming(w.last_bssid->0, bssid->0))]
    } else {
        Seq::empty()
    };
    (
        Watchdog {
            phase: Phase::AwaitLive,
            last_standby: None,
            campus_ssid: Some(ssid),
            last_bssid: if bssid is Some { bssid } else { w.last_bssid },
            just_connected: w.just_connected || roamed,
            ..w
        },
        powersave + seq![WatchdogAction::ActivateInhibitor] + roam_note + seq![
            WatchdogAction::CheckLive(w.username),
        ],
    )
}

/// After a survey: take up changed credentials, then stand by off campus or
/// when disconnected, and otherwise go on with the campus checks.
pub open spec fn survey_step(w: Watchdog, s: Survey) -> (Watchdog, Seq<WatchdogAction>) {
    let w1 = if s.username is Some && s.password is Some {
        Watchdog { username: s.username->0, password: s.password->0, ..w }
    } else {
        w
    };
    match s.ssid {
        None => standby_step(w1, Standby::Disconnected, Note::Disconnected),
        Some(x) => if !s.campus {
            standby_step(w1, Standby::OffCampus(x), Note::OffCampus(x))
        } else {
            campus_step(w1, x, s.bssid)
        },
    }
}

/// A `Restored` log line when the gateway had been unreachable.
pub open spec fn restored_note(w: Watchdog) -> Seq<WatchdogAction> {
    if w.unreachable_streak > 0 {
        seq![WatchdogAction::Log(Note::Restored(w.unreachable_streak))]
    } else {
        Seq::empty()
    }
}

/// After a failed keepalive and a probe of the gateway.
pub open spec fn probe_step(w: Watchdog, online: bool) -> (Watchdog, Seq<WatchdogAction>) {
    if !online {
        let s = (w.unreachable_streak + 1) as u32;
        let note = WatchdogAction::Log(Note::Unreachable(w.campus_ssid->0, s));
        let (streak, wait, heal) = if s == 3 {
            (s, 10u64, seq![WatchdogAction::Heal(1)])
        } else if s == 5 || s == 6 {
            (s, 10u64, seq![WatchdogAction::Heal(2)])
        } else if s >= 9 {
            (4u32, 15u64, seq![WatchdogAction::Heal(3)])
        } else {
            (s, 5u64, Seq::empty())
        };
        (
            Watchdog {
                phase: Phase::AwaitWake,
                unreachable_streak: streak,
                session_drops: 0,
                next_wait: Some(wait),
                ..w
            },
            seq![note] + heal + seq![WatchdogAction::WaitForEvent(Some(wait))],
        )
    } else if !w.just_connected && w.session_drops + 1 < 2 {
        (
            Watchdog {
                phase: Phase::AwaitWake,
                unreachable_streak: 0,
                session_drops: (w.session_drops + 1) as u32,
                next_wait: Some(3),
                ..w
            },
            restored_note(w) + seq![
                WatchdogAction::Log(Note::KeepaliveMissed),
                WatchdogAction::WaitForEvent(Some(3)),
            ],
        )
    } else {
        (
            Watchdog {
                phase: Phase::AwaitLogin,
                unreachable_streak: 0,
                session_drops: 0,
                just_connected: false,
                ..w
            },
            restored_note(w) + seq![
                WatchdogAction::Log(Note::SessionExpired(w.username)),
                WatchdogAction::Login(w.username, w.password),
            ],
        )
    }
}

/// One step of the watchdog.
pub open spec fn watchdog_next(w: Watchdog, e: WatchdogEvent) -> (Watchdog, Seq<WatchdogAction>) {
    match e {
        WatchdogEvent::Woke(Ok(OsEvent::NetworkChange(ev))) => (
            Watchdog { phase: Phase::AwaitSurvey, just_connected: true, ..w },
            seq![WatchdogAction::Log(Note::NetworkEvent(ev)), WatchdogAction::Survey],
        ),
        WatchdogEvent::Woke(Ok(OsEvent::Timeout)) => (
            Watchdog { phase: Phase::AwaitSurvey, ..w },
            seq![WatchdogAction::Survey],
        ),
        WatchdogEvent::Woke(Err(m)) => (
            w,
            seq![
                WatchdogAction::Log(Note::ListenerError(m)),
                WatchdogAction::Sleep(5),
                WatchdogAction::WaitForEvent(w.next_wait),
            ],
        ),
        WatchdogEvent::Surveyed(s) => survey_step(w, s),
        WatchdogEvent::LiveChecked { confirmed, interval, now_ms } => if confirmed {
            let j = jittered(interval, now_ms as nat);
            (
                Watchdog {
                    phase: Phase::AwaitWake,
                    unreachable_streak: 0,
                    session_drops: 0,
                    just_connected: false,
                    next_wait: Some(j),
                    interval,
                    ..w
                },
                restored_note(w) + seq![
                    WatchdogAction::Log(Note::HeartbeatOk(w.username, j)),
                    WatchdogAction::WaitForEvent(Some(j)),
                ],
            )
        } else {
            (Watchdog { phase: Phase::AwaitProbe, interval, ..w }, seq![WatchdogAction::ProbePortal])
        },
        WatchdogEvent::PortalProbed(online) => probe_step(w, online),
        WatchdogEvent::LoginFinished { outcome, now_ms } => match outcome {
            Ok(_) => {
                let j = jittered(w.interval, now_ms as nat);
                (
                    Watchdog { phase: Phase::AwaitWake, next_wait: Some(j), ..w },
                    seq![
                        WatchdogAction::Log(Note::LoggedIn(w.username, j)),
                        WatchdogAction::Notify(Notice::LoggedIn(w.username)),
                        WatchdogAction::WaitForEvent(Some(j)),
                    ],
                )
            },
            Err(msg) => (
                Watchdog { phase: Phase::AwaitWake, next_wait: Some(10), ..w },
                seq![
                    WatchdogAction::Log(Note::LoginFailed(msg)),
                    WatchdogAction::Notify(Notice::LoginFailed(msg)),
                    WatchdogAction::WaitForEvent(Some(10)),
                ],
            ),
        },
    }
}

/// The watchdog as it starts for `username`, and its first actions: it
/// evaluates the link at once, without waiting for an event.
pub open spec fn watchdog_start(w: Watchdog, actions: Seq<WatchdogAction>, username: String, password: String, interval: u64) -> bool {
    &&& w == Watchdog {
        phase: Phase::AwaitSurvey,
        username,
        password,
        campus_ssid: None,
        last_bssid: None,
        last_standby: None,
        next_wait: None,
        unreachable_streak: 0,
        session_drops: 0,
        just_connected: true,
        interval,
    }
    &&& actions == seq![
        WatchdogAction::Log(Note::Starting(username, interval)),
        WatchdogAction::Log(Note::InitialEvaluation),
        WatchdogAction::Survey,
    ]
}


fn same_standby_exec(a: &Standby, b: &Standby) -> (r: bool)
    ensures
        r == same_standby(*a, *b),
{
    match (a, b) {
        (Standby::OffCampus(x), Standby::OffCampus(y)) => *x == *y,
        (Standby::Disconnected, Standby::Disconnected) => true,
        _ => false,
    }
}

impl Watchdog {
    /// Starts the watchdog with the active credentials, or gives `None` when
    /// either is missing.
    pub fn start(credentials: (Option<String>, Option<String>), interval: u64) -> (r: Option<
        (Watchdog, Vec<WatchdogAction>),
    >)
        ensures
            r is Some <==> (credentials.0 is Some && credentials.1 is Some),
            r matches Some((w, actions)) ==> watchdog_start(w, actions@, credentials.0->0, credentials.1->0, interval)
                && wf(w),
    {
        match credentials {
            (Some(u), Some(p)) => {
                let w = Watchdog {
                    phase: Phase::AwaitSurvey,
                    username: u.clone(),
                    password: p,
                    campus_ssid: None,
                    last_bssid: None,
                    last_standby: None,
                    next_wait: None,
                    unreachable_streak: 0,
                    session_drops: 0,
                    just_connected: true,
                    interval,
                };
                let mut actions: Vec<WatchdogAction> = Vec::new();
                actions.push(WatchdogAction::Log(Note::Starting(u, interval)));
                actions.push(WatchdogAction::Log(Note::InitialEvaluation));
                actions.push(WatchdogAction::Survey);
                assert(actions@ =~= seq![
                    WatchdogAction::Log(Note::Starting(credentials.0->0, interval)),
                    WatchdogAction::Log(Note::InitialEvaluation),
                    WatchdogAction::Survey,
                ]);
                Some((w, actions))
            },
            _ => None,
        }
    }

    fn standby(&mut self, st: Standby, note: Note) -> (actions: Vec<WatchdogAction>)
        ensures
            (*final(self), actions@) == standby_step(*old(self), st, note),
    {
        let unchanged = match &self.last_standby {
            Some(prev) => same_standby_exec(prev, &st),
            None => false,
        };
        let mut actions: Vec<WatchdogAction> = Vec::new();
        if !unchanged {
            actions.push(WatchdogAction::Log(note));
        }
        actions.push(WatchdogAction::DeactivateInhibitor);
        actions.push(WatchdogAction::WaitForEvent(Some(10)));
        self.phase = Phase::AwaitWake;
        self.last_standby = Some(st);
        self.last_bssid = None;
        self.unreachable_streak = 0;
        self.session_drops = 0;
        self.just_connected = true;
        self.next_wait = Some(10);
        assert(actions@ =~= standby_step(*old(self), st, note).1);
        actions
    }

    fn campus(&mut self, ssid: String, bssid: Option<String>) -> (actions: Vec<WatchdogAction>)
        ensures
            (*final(self), actions@) == campus_step(*old(self), ssid, bssid),
    {
        let mut actions: Vec<WatchdogAction> = Vec::new();
        if self.just_connected {
            actions.push(WatchdogAction::DisablePowersave(ssid.clone()));
        }
        actions.push(WatchdogAction::ActivateInhibitor);
        let mut roamed = false;
        match &bssid {
            Some(b) => {
                match &self.last_bssid {
                    Some(prev) => {
                        if *prev != *b {
                            roamed = true;
                            actions.push(WatchdogAction::Log(Note::Roaming(prev.clone(), b.clone())));
                        }
                    },
                    None => {},
                }
            },
            None => {},
        }
        actions.push(WatchdogAction::CheckLive(self.username.clone()));
        self.phase = Phase::AwaitLive;
        self.last_standby = None;
        self.campus_ssid = Some(ssid);
        if bssid.is_some() {
            self.last_bssid = bssid;
        }
        self.just_connected = self.just_connected || roamed;
        assert(actions@ =~= campus_step(*old(self), ssid, bssid).1);
        actions
    }

    fn probe(&mut self, online: bool) -> (actions: Vec<WatchdogAction>)
        requires
            wf(*old(self)),
            old(self).phase is AwaitProbe,
        ensures
            (*final(self), actions@) == probe_step(*old(self), online),
    {
        let mut actions: Vec<WatchdogAction> = Vec::new();
        if !online {
            let s = self.unreachable_streak + 1;
            let ssid = match &self.campus_ssid {
                Some(x) => x.clone(),
                None => String::new(),
            };
            actions.push(WatchdogAction::Log(Note::Unreachable(ssid, s)));
            let wait: u64;
            if s == 3 {
                actions.push(WatchdogAction::Heal(1));
                wait = 10;
                self.unreachable_streak = s;
            } else if s == 5 || s == 6 {
                actions.push(WatchdogAction::Heal(2));
                wait = 10;
                self.unreachable_streak = s;
            } else if s >= 9 {
                actions.push(WatchdogAction::Heal(3));
                wait = 15;
                self.unreachable_streak = 4;
            } else {
                wait = 5;
                self.unreachable_streak = s;
            }
            actions.push(WatchdogAction::WaitForEvent(Some(wait)));
            self.phase = Phase::AwaitWake;
            self.session_drops = 0;
            self.next_wait = Some(wait);
            assert(actions@ =~= probe_step(*old(self), online).1);
            return actions;
        }
        if self.unreachable_streak > 0 {
            actions.push(WatchdogAction::Log(Note::Restored(self.unreachable_streak)));
        }
        self.unreachable_streak = 0;
        if !self.just_connected && self.session_drops + 1 < 2 {
            actions.push(WatchdogAction::Log(Note::KeepaliveMissed));
            actions.push(WatchdogAction::WaitForEvent(Some(3)));
            self.phase = Phase::AwaitWake;
            self.session_drops = self.session_drops + 1;
            self.next_wait = Some(3);
            assert(actions@ =~= probe_step(*old(self), online).1);
            return actions;
        }
        actions.push(WatchdogAction::Log(Note::SessionExpired(self.username.clone())));
        actions.push(WatchdogAction::Login(self.username.clone(), self.password.clone()));
        self.phase = Phase::AwaitLogin;
        self.session_drops = 0;
        self.just_connected = false;
        assert(actions@ =~= probe_step(*old(self), online).1);
        actions
    }

    /// Whether [`Watchdog::step`] may take `event` now: the counters are
    /// within their bounds and the event answers the pending request (with a
    /// jittered interval that fits, where one is computed).
    pub fn takes(&self, event: &WatchdogEvent) -> (b: bool)
        ensures
            b == (wf(*self) && accepts(*self, *event)),
    {
        let in_bounds = self.unreachable_streak <= 8 && self.session_drops <= 1 && (self.campus_ssid.is_some()
            || match self.phase {
            Phase::AwaitWake => true,
            Phase::AwaitSurvey => true,
            _ => false,
        });
        let answers = match event {
            WatchdogEvent::Woke(_) => match self.phase {
                Phase::AwaitWake => true,
                _ => false,
            },
            WatchdogEvent::Surveyed(_) => match self.phase {
                Phase::AwaitSurvey => true,
                _ => false,
            },
            WatchdogEvent::LiveChecked { confirmed, interval, now_ms } => match self.phase {
                Phase::AwaitLive => !*confirmed || crate::daemon::interval_jitter_fits(*interval, *now_ms),
                _ => false,
            },
            WatchdogEvent::PortalProbed(_) => match self.phase {
                Phase::AwaitProbe => true,
                _ => false,
            },
            WatchdogEvent::LoginFinished { outcome, now_ms } => match self.phase {
                Phase::AwaitLogin => outcome.is_err() || crate::daemon::interval_jitter_fits(self.interval, *now_ms),
                _ => false,
            },
        };
        in_bounds && answers
    }

    /// Moves the watchdog on by the answer to its last request and returns
    /// what to do next; the last action is always the next request.
    pub fn step(&mut self, event: WatchdogEvent) -> (actions: Vec<WatchdogAction>)
        requires
            wf(*old(self)),
            accepts(*old(self), event),
        ensures
            (*final(self), actions@) == watchdog_next(*old(self), event),
    {
        match event {
            WatchdogEvent::Woke(Ok(OsEvent::NetworkChange(ev))) => {
                self.phase = Phase::AwaitSurvey;
                self.just_connected = true;
                let mut actions: Vec<WatchdogAction> = Vec::new();
                actions.push(WatchdogAction::Log(Note::NetworkEvent(ev)));
                actions.push(WatchdogAction::Survey);
                assert(actions@ =~= watchdog_next(*old(self), event).1);
                actions
            },
            WatchdogEvent::Woke(Ok(OsEvent::Timeout)) => {
                self.phase = Phase::AwaitSurvey;
                let mut actions: Vec<WatchdogAction> = Vec::new();
                actions.push(WatchdogAction::Survey);
                assert(actions@ =~= watchdog_next(*old(self), event).1);
                actions
            },
            WatchdogEvent::Woke(Err(m)) => {
                let mut actions: Vec<WatchdogAction> = Vec::new();
                actions.push(WatchdogAction::Log(Note::ListenerError(m)));
                actions.push(WatchdogAction::Sleep(5));
                actions.push(WatchdogAction::WaitForEvent(self.next_wait));
                assert(actions@ =~= watchdog_next(*old(self), event).1);
                actions
            },
            WatchdogEvent::Surveyed(s) => {
                let ghost s0 = s;
                let Survey { username, password, ssid, bssid, campus } = s;
                if username.is_some() && password.is_some() {
                    self.username = username.unwrap();
                    self.password = password.unwrap();
                }
                match ssid {
                    None => self.standby(Standby::Disconnected, Note::Disconnected),
                    Some(x) => {
                        if !campus {
                            let y = x.clone();
                            self.standby(Standby::OffCampus(x), Note::OffCampus(y))
                        } else {
                            self.campus(x, bssid)
                        }
                    },
                }
            },
            WatchdogEvent::LiveChecked { confirmed, interval, now_ms } => {
                let mut actions: Vec<WatchdogAction> = Vec::new();
                if confirmed {
                    let j = jittered_interval(interval, now_ms);
                    if self.unreachable_streak > 0 {
                        actions.push(WatchdogAction::Log(Note::Restored(self.unreachable_streak)));
                    }
                    actions.push(WatchdogAction::Log(Note::HeartbeatOk(self.username.clone(), j)));
                    actions.push(WatchdogAction::WaitForEvent(Some(j)));
                    self.phase = Phase::AwaitWake;
                    self.unreachable_streak = 0;
                    self.session_drops = 0;
                    self.just_connected = false;
                    self.next_wait = Some(j);
                    self.interval = interval;
                } else {
                    actions.push(WatchdogAction::ProbePortal);
                    self.phase = Phase::AwaitProbe;
                    self.interval = interval;
                }
                assert(actions@ =~= watchdog_next(*old(self), event).1);
                actions
            },
            WatchdogEvent::PortalProbed(online) => self.probe(online),
            WatchdogEvent::LoginFinished { outcome, now_ms } => {
                let mut actions: Vec<WatchdogAction> = Vec::new();
                match outcome {
                    Ok(_) => {
                        let j = jittered_interval(self.interval, now_ms);
                        actions.push(WatchdogAction::Log(Note::LoggedIn(self.username.clone(), j)));
                        actions.push(WatchdogAction::Notify(Notice::LoggedIn(self.username.clone())));
                        actions.push(WatchdogAction::WaitForEvent(Some(j)));
                        self.next_wait = Some(j);
                    },
                    Err(msg) => {
                        actions.push(WatchdogAction::Log(Note::LoginFailed(msg.clone())));
                        actions.push(WatchdogAction::Notify(Notice::LoginFailed(msg)));
                        actions.push(WatchdogAction::WaitForEvent(Some(10)));
                        self.next_wait = Some(10);
                    },
                }
                self.phase = Phase::AwaitWake;
                assert(actions@ =~= watchdog_next(*old(self), event).1);
                actions
            },
        }
    }
}


// ---------------------------------------------------------------------------
// Laws of the watchdog
// ---------------------------------------------------------------------------

/// An action that asks the outside world for an answer.
pub open spec fn is_request(a: WatchdogAction) -> bool {
    a is WaitForEvent || a is Survey || a is CheckLive || a is ProbePortal || a is Login
}

/// Every step keeps the counters within their bounds: never more than 8
/// unreachable probes in a row are remembered, and never more than one missed
/// keepalive.
pub proof fn lemma_watchdog_bounds(w: Watchdog, e: WatchdogEvent)
    requires
        wf(w),
        accepts(w, e),
    ensures
        wf(watchdog_next(w, e).0),
{
}

/// Every step ends with exactly one request, and it is the request whose
/// answer the new state waits for.
pub proof fn lemma_watchdog_one_request(w: Watchdog, e: WatchdogEvent)
    requires
        wf(w),
        accepts(w, e),
    ensures
        ({
            let (w2, acts) = watchdog_next(w, e);
            &&& acts.len() > 0
            &&& asks_for(w2.phase, acts.last())
            &&& forall|i: int| 0 <= i < acts.len() - 1 ==> !is_request(#[trigger] acts[i])
        }),
{
    let (w2, acts) = watchdog_next(w, e);
    match e {
        WatchdogEvent::Surveyed(s) => {
            let w1 = if s.username is Some && s.password is Some {
                Watchdog { username: s.username->0, password: s.password->0, ..w }
            } else {
                w
            };
            match s.ssid {
                None => {},
                Some(x) => {
                    if s.campus {
                        let roamed = s.bssid matches Some(b) && w1.last_bssid matches Some(prev) && prev@ != b@;
                        if w1.just_connected {
                            assert(acts[0] is DisablePowersave);
                        }
                    }
                },
            }
        },
        WatchdogEvent::PortalProbed(online) => {
            if online && w.unreachable_streak > 0 {
                assert(acts[0] is Log);
            }
        },
        WatchdogEvent::LiveChecked { confirmed, interval, now_ms } => {
            if confirmed && w.unreachable_streak > 0 {
                assert(acts[0] is Log);
            }
        },
        _ => {},
    }
}

/// A login is asked for only when the gateway answered a probe, and a probe
/// is made only after a keepalive that failed.
pub proof fn lemma_login_only_after_failed_keepalive(w: Watchdog, e: WatchdogEvent)
    requires
        wf(w),
        accepts(w, e),
    ensures
        (exists|i: int| 0 <= i < watchdog_next(w, e).1.len() && #[trigger] watchdog_next(w, e).1[i] is Login)
            ==> (w.phase is AwaitProbe && e == WatchdogEvent::PortalProbed(true)),
        watchdog_next(w, e).0.phase is AwaitProbe ==> w.phase is AwaitLive,
        watchdog_next(w, e).0.phase is AwaitProbe ==> (e matches WatchdogEvent::LiveChecked {
            confirmed,
            ..
        } && !confirmed),
{
    lemma_watchdog_one_request(w, e);
    let (w2, acts) = watchdog_next(w, e);
    if exists|i: int| 0 <= i < acts.len() && #[trigger] acts[i] is Login {
        let i = choose|i: int| 0 <= i < acts.len() && #[trigger] acts[i] is Login;
        assert(i == acts.len() - 1);
        assert(w2.phase is AwaitLogin);
    }
}

/// Off campus or disconnected, the watchdog releases the sleep inhibitor,
/// forgets the access point and the failure counters, and looks again in 10
/// seconds; it logs the reason only when the reason changed.
pub proof fn lemma_standby(w: Watchdog, s: Survey)
    requires
        wf(w),
        w.phase is AwaitSurvey,
        s.ssid is None || !s.campus,
    ensures
        ({
            let (w2, acts) = watchdog_next(w, WatchdogEvent::Surveyed(s));
            let reason = match s.ssid {
                Some(x) => Standby::OffCampus(x),
                None => Standby::Disconnected,
            };
            &&& acts.contains(WatchdogAction::DeactivateInhibitor)
            &&& acts.last() == WatchdogAction::WaitForEvent(Some(10))
            &&& w2.unreachable_streak == 0 && w2.session_drops == 0 && w2.just_connected
            &&& w2.last_bssid is None
            &&& w2.last_standby == Some(reason)
            &&& ((w.last_standby matches Some(prev) && same_standby(prev, reason)) <==> !(acts[0] is Log))
        }),
{
    let (w2, acts) = watchdog_next(w, WatchdogEvent::Surveyed(s));
    let w1 = if s.username is Some && s.password is Some {
        Watchdog { username: s.username->0, password: s.password->0, ..w }
    } else {
        w
    };
    assert(w1.last_standby == w.last_standby);
    let unchanged = match s.ssid {
        Some(x) => w1.last_standby matches Some(prev) && same_standby(prev, Standby::OffCampus(x)),
        None => w1.last_standby matches Some(prev) && same_standby(prev, Standby::Disconnected),
    };
    if unchanged {
        assert(acts[acts.len() - 2] == WatchdogAction::DeactivateInhibitor);
    } else {
        assert(acts[1] == WatchdogAction::DeactivateInhibitor);
    }
}

/// On an established session (not just connected or roamed), one missed
/// keepalive with the gateway online is only noted and checked again after 3
/// seconds; the login comes with the second missed keepalive in a row.
pub proof fn lemma_two_misses_before_login(w: Watchdog)
    requires
        wf(w),
        w.phase is AwaitProbe,
        !w.just_connected,
    ensures
        ({
            let (w2, acts) = watchdog_next(w, WatchdogEvent::PortalProbed(true));
            &&& w.session_drops == 0 ==> {
                &&& !(exists|i: int| 0 <= i < acts.len() && #[trigger] acts[i] is Login)
                &&& acts.last() == WatchdogAction::WaitForEvent(Some(3))
                &&& w2.session_drops == 1
            }
            &&& w.session_drops == 1 ==> {
                &&& acts.last() == WatchdogAction::Login(w.username, w.password)
                &&& w2.session_drops == 0
            }
        }),
{
    let (w2, acts) = watchdog_next(w, WatchdogEvent::PortalProbed(true));
    if w.session_drops == 0 {
        assert forall|i: int| 0 <= i < acts.len() implies !(#[trigger] acts[i] is Login) by {
            if w.unreachable_streak > 0 {
                assert(acts =~= seq![
                    WatchdogAction::Log(Note::Restored(w.unreachable_streak)),
                    WatchdogAction::Log(Note::KeepaliveMissed),
                    WatchdogAction::WaitForEvent(Some(3)),
                ]);
            } else {
                assert(acts =~= seq![
                    WatchdogAction::Log(Note::KeepaliveMissed),
                    WatchdogAction::WaitForEvent(Some(3)),
                ]);
            }
        }
    }
}

/// A confirmed keepalive clears the missed-keepalive count, so a later single
/// miss is again only noted; the next check comes after the interval with its
/// jitter.
pub proof fn lemma_heartbeat_resets(w: Watchdog, interval: u64, now_ms: u128)
    requires
        wf(w),
        w.phase is AwaitLive,
        jitter_fits(interval, now_ms as nat),
    ensures
        ({
            let (w2, acts) = watchdog_next(w, WatchdogEvent::LiveChecked { confirmed: true, interval, now_ms });
            &&& w2.session_drops == 0 && w2.unreachable_streak == 0 && !w2.just_connected
            &&& w2.next_wait == Some(jittered(interval, now_ms as nat))
            &&& acts.last() == WatchdogAction::WaitForEvent(Some(jittered(interval, now_ms as nat)))
        }),
{
}

/// The self-healing tiers a run of unreachable probes triggers: tier 1 at the
/// third, tier 2 at the fifth and sixth, tier 3 at the ninth, after which the
/// run counts on from 4 (so tier 2 and then tier 3 come round again).
pub proof fn lemma_heal_tiers(w: Watchdog)
    requires
        wf(w),
        w.phase is AwaitProbe,
    ensures
        ({
            let (w2, acts) = watchdog_next(w, WatchdogEvent::PortalProbed(false));
            let s = w.unreachable_streak + 1;
            &&& s == 3 ==> acts.contains(WatchdogAction::Heal(1))
            &&& (s == 5 || s == 6) ==> acts.contains(WatchdogAction::Heal(2))
            &&& s == 9 ==> acts.contains(WatchdogAction::Heal(3)) && w2.unreachable_streak == 4
            &&& (s != 3 && s != 5 && s != 6 && s != 9) ==> !(exists|i: int| 0 <= i < acts.len() && #[trigger] acts[i] is Heal)
            &&& s != 9 ==> w2.unreachable_streak == s
        }),
{
    let (w2, acts) = watchdog_next(w, WatchdogEvent::PortalProbed(false));
    let s = w.unreachable_streak + 1;
    if s == 3 {
        assert(acts[1] == WatchdogAction::Heal(1));
    } else if s == 5 || s == 6 {
        assert(acts[1] == WatchdogAction::Heal(2));
    } else if s == 9 {
        assert(acts[1] == WatchdogAction::Heal(3));
    } else {
        assert(acts.len() == 2);
    }
}

// ---------------------------------------------------------------------------
// What the log lines and notifications say
// ---------------------------------------------------------------------------

/// The text of a log line.
pub open spec fn note_text(n: Note) -> Seq<char> {
    match n {
        Note::Starting(u, _) => "Starting Always-On Event-Driven Keepalive Watchdog for '"@ + u@ + "'..."@,
        Note::InitialEvaluation => "⚡ Initial link state evaluation on daemon startup..."@,
        Note::NetworkEvent(ev) => "⚡ OS Network Event: "@ + ev@ + " [evaluating immediately]"@,
        Note::ListenerError(e) => "⚠ OS event listener error: "@ + e@ + ". Retrying in 5s..."@,
        Note::OffCampus(s) => "Connected to non-campus Wi-Fi '"@ + s@ + "'. Daemon in standby."@,
        Note::Disconnected => "Wi-Fi disconnected. Daemon sleeping in kernel wait for interface reconnect..."@,
        Note::Roaming(a, b) => "⚡ AP Roaming detected: "@ + a@ + " ➔ "@ + b@ + ". Verifying gateway link..."@,
        Note::Restored(k) => "✔ Connectivity restored after "@ + decimal(k as nat) + " failed check(s)."@,
        Note::HeartbeatOk(u, j) => "✔ Keepalive heartbeat OK ("@ + u@ + "). Session active. Next check in "@
            + decimal(j as nat) + "s."@,
        Note::Unreachable(s, k) => "⚠ Portal gateway unreachable on '"@ + s@ + "' (streak: "@ + decimal(k as nat)
            + ")."@,
        Note::KeepaliveMissed => "⚠ Keepalive missed 1 check (possible Wi-Fi jitter). Verifying in 3s before re-authenticating..."@,
        Note::SessionExpired(u) => "⚡ Keepalive watchdog: session expired. Authenticating as '"@ + u@ + "'..."@,
        Note::LoggedIn(u, j) => "✔ Authenticated successfully as '"@ + u@ + "'. Next keepalive check in "@
            + decimal(j as nat) + "s."@,
        Note::LoginFailed(e) => "✖ Authentication failed: "@ + e@,
    }
}

fn number_text(n: u128) -> (r: String)
    ensures
        r@ == decimal(n as nat),
{
    string_of(&decimal_exec(n))
}

/// Renders a log line.
pub fn note_message(n: &Note) -> (r: String)
    ensures
        r@ == note_text(*n),
{
    match n {
        Note::Starting(u, _) => cat3("Starting Always-On Event-Driven Keepalive Watchdog for '", u.as_str(), "'..."),
        Note::InitialEvaluation => String::from_str("⚡ Initial link state evaluation on daemon startup..."),
        Note::NetworkEvent(ev) => cat3("⚡ OS Network Event: ", ev.as_str(), " [evaluating immediately]"),
        Note::ListenerError(e) => cat3("⚠ OS event listener error: ", e.as_str(), ". Retrying in 5s..."),
        Note::OffCampus(s) => cat3("Connected to non-campus Wi-Fi '", s.as_str(), "'. Daemon in standby."),
        Note::Disconnected => String::from_str(
            "Wi-Fi disconnected. Daemon sleeping in kernel wait for interface reconnect...",
        ),
        Note::Roaming(a, b) => {
            let x = cat3("⚡ AP Roaming detected: ", a.as_str(), " ➔ ");
            cat3(x.as_str(), b.as_str(), ". Verifying gateway link...")
        },
        Note::Restored(k) => {
            let d = number_text(*k as u128);
            cat3("✔ Connectivity restored after ", d.as_str(), " failed check(s).")
        },
        Note::HeartbeatOk(u, j) => {
            let x = cat3("✔ Keepalive heartbeat OK (", u.as_str(), "). Session active. Next check in ");
            let d = number_text(*j as u128);
            cat3(x.as_str(), d.as_str(), "s.")
        },
        Note::Unreachable(s, k) => {
            let x = cat3("⚠ Portal gateway unreachable on '", s.as_str(), "' (streak: ");
            let d = number_text(*k as u128);
            cat3(x.as_str(), d.as_str(), ").")
        },
        Note::KeepaliveMissed => String::from_str(
            "⚠ Keepalive missed 1 check (possible Wi-Fi jitter). Verifying in 3s before re-authenticating...",
        ),
        Note::SessionExpired(u) => cat3("⚡ Keepalive watchdog: session expired. Authenticating as '", u.as_str(), "'..."),
        Note::LoggedIn(u, j) => {
            let x = cat3("✔ Authenticated successfully as '", u.as_str(), "'. Next keepalive check in ");
            let d = number_text(*j as u128);
            cat3(x.as_str(), d.as_str(), "s.")
        },
        Note::LoginFailed(e) => cat2("✖ Authentication failed: ", e.as_str()),
    }
}

/// The title, message and urgency of a desktop notification.
pub open spec fn notice_fields(n: Notice) -> (Seq<char>, Seq<char>, Seq<char>) {
    match n {
        Notice::LoggedIn(u) => ("PESU WiFi"@, "Logged in as "@ + u@, "normal"@),
        Notice::LoginFailed(e) => ("PESU WiFi Login Failed"@, e@, "critical"@),
    }
}

/// Renders a desktop notification as title, message and urgency.
pub fn notice_message(n: &Notice) -> (r: (String, String, String))
    ensures
        (r.0@, r.1@, r.2@) == notice_fields(*n),
{
    match n {
        Notice::LoggedIn(u) => (
            String::from_str("PESU WiFi"),
            cat2("Logged in as ", u.as_str()),
            String::from_str("normal"),
        ),
        Notice::LoginFailed(e) => (
            String::from_str("PESU WiFi Login Failed"),
            e.clone(),
            String::from_str("critical"),
        ),
    }
}

// ---------------------------------------------------------------------------
// Laws over several evaluations
// ---------------------------------------------------------------------------

/// No self-healing and no login among these actions.
pub open spec fn quiet(acts: Seq<WatchdogAction>) -> bool {
    forall|i: int| 0 <= i < acts.len() ==> !(#[trigger] acts[i] is Heal) && !(acts[i] is Login)
}

proof fn lemma_quiet_concat(a: Seq<WatchdogAction>, b: Seq<WatchdogAction>)
    requires
        quiet(a),
        quiet(b),
    ensures
        quiet(a + b),
{
    assert forall|i: int| 0 <= i < (a + b).len() implies !(#[trigger] (a + b)[i] is Heal) && !((a + b)[i] is Login) by {
        if i < a.len() {
            assert((a + b)[i] == a[i]);
        } else {
            assert((a + b)[i] == b[i - a.len()]);
        }
    }
}

/// One evaluation in which the keepalive fails and the gateway does not
/// answer, as the watchdog sees it: the probe's (negative) answer, the end of
/// the wait, the survey, and the next failed keepalive. Gives the new state
/// and all the actions of the round.
pub open spec fn unreachable_round(
    w: Watchdog,
    wake: OsEvent,
    s: Survey,
    interval: u64,
    now_ms: u128,
) -> (Watchdog, Seq<WatchdogAction>) {
    let (w1, a1) = watchdog_next(w, WatchdogEvent::PortalProbed(false));
    let (w2, a2) = watchdog_next(w1, WatchdogEvent::Woke(Ok(wake)));
    let (w3, a3) = watchdog_next(w2, WatchdogEvent::Surveyed(s));
    let (w4, a4) = watchdog_next(w3, WatchdogEvent::LiveChecked { confirmed: false, interval, now_ms });
    (w4, a1 + a2 + a3 + a4)
}

/// The state after the first `k` rounds of a run of unreachable rounds; round
/// `j` ends with the wake-up `wakes[j]` and the survey `surveys[j]`.
pub open spec fn after_unreachable_rounds(
    w: Watchdog,
    k: nat,
    wakes: Seq<OsEvent>,
    surveys: Seq<Survey>,
    interval: u64,
    now_ms: u128,
) -> Watchdog
    decreases k,
{
    if k == 0 {
        w
    } else {
        let j = (k - 1) as nat;
        unreachable_round(after_unreachable_rounds(w, j, wakes, surveys, interval, now_ms), wakes[j as int], surveys[j as int], interval, now_ms).0
    }
}

/// The healing tier of the `k`-th round (counted from 1) of a run of
/// unreachable rounds that starts with no unreachable streak: tier 1 in round
/// 3, then tiers 2, 2 and 3 in rounds 5, 6 and 9, and again every 5 rounds.
pub open spec fn heal_schedule(k: nat) -> Option<u8> {
    if k == 3 {
        Some(1u8)
    } else if k >= 5 && (k - 5) % 5 <= 1 {
        Some(2u8)
    } else if k >= 5 && (k - 5) % 5 == 4 {
        Some(3u8)
    } else {
        None
    }
}

/// The tier of the unreachable probe number `s` of a streak.
pub open spec fn heal_for(s: int) -> Option<u8> {
    if s == 3 {
        Some(1u8)
    } else if s == 5 || s == 6 {
        Some(2u8)
    } else if s >= 9 {
        Some(3u8)
    } else {
        None
    }
}

/// The remembered streak after `k` unreachable rounds from none.
pub open spec fn streak_after(k: nat) -> int {
    if k < 4 {
        k as int
    } else if (k - 4) % 5 == 0 {
        4
    } else {
        4 + (k - 4) % 5
    }
}

proof fn lemma_round(w: Watchdog, wake: OsEvent, s: Survey, interval: u64, now_ms: u128)
    requires
        wf(w),
        w.phase is AwaitProbe,
        s.ssid is Some,
        s.campus,
    ensures
        ({
            let (w4, acts) = unreachable_round(w, wake, s, interval, now_ms);
            let st = w.unreachable_streak + 1;
            &&& wf(w4)
            &&& w4.phase is AwaitProbe
            &&& w4.unreachable_streak == if st >= 9 { 4 } else { st }
            &&& forall|t: u8| acts.contains(WatchdogAction::Heal(t)) <==> heal_for(st) == Some(t)
            &&& !(exists|i: int| 0 <= i < acts.len() && #[trigger] acts[i] is Login)
        }),
{
    let (w1, a1) = watchdog_next(w, WatchdogEvent::PortalProbed(false));
    let (w2, a2) = watchdog_next(w1, WatchdogEvent::Woke(Ok(wake)));
    let (w3, a3) = watchdog_next(w2, WatchdogEvent::Surveyed(s));
    let (w4, a4) = watchdog_next(w3, WatchdogEvent::LiveChecked { confirmed: false, interval, now_ms });
    let st = w.unreachable_streak + 1;
    lemma_watchdog_bounds(w, WatchdogEvent::PortalProbed(false));
    lemma_watchdog_bounds(w1, WatchdogEvent::Woke(Ok(wake)));
    lemma_watchdog_bounds(w2, WatchdogEvent::Surveyed(s));
    lemma_watchdog_bounds(w3, WatchdogEvent::LiveChecked { confirmed: false, interval, now_ms });
    let heal: Seq<WatchdogAction> = if st == 3 {
        seq![WatchdogAction::Heal(1)]
    } else if st == 5 || st == 6 {
        seq![WatchdogAction::Heal(2)]
    } else if st >= 9 {
        seq![WatchdogAction::Heal(3)]
    } else {
        Seq::empty()
    };
    let head = seq![a1[0]];
    let tail = seq![a1[a1.len() - 1]];
    assert(a1 =~= head + heal + tail);
    assert(quiet(head));
    assert(quiet(tail));
    assert(quiet(a2));
    let w2b = if s.username is Some && s.password is Some {
        Watchdog { username: s.username->0, password: s.password->0, ..w2 }
    } else {
        w2
    };
    assert(quiet(a3)) by {
        let (_, c) = campus_step(w2b, s.ssid->0, s.bssid);
        assert(a3 == c);
    }
    assert(quiet(a4));
    lemma_quiet_concat(a2, a3);
    lemma_quiet_concat(a2 + a3, a4);
    lemma_quiet_concat(tail, a2 + a3 + a4);
    let rest = tail + (a2 + a3 + a4);
    let acts = a1 + a2 + a3 + a4;
    assert(acts =~= head + heal + rest);
    assert forall|t: u8| acts.contains(WatchdogAction::Heal(t)) <==> heal_for(st) == Some(t) by {
        if heal_for(st) == Some(t) {
            assert(acts[1] == WatchdogAction::Heal(t));
        }
        if acts.contains(WatchdogAction::Heal(t)) {
            let i = choose|i: int| 0 <= i < acts.len() && acts[i] == WatchdogAction::Heal(t);
            if i == 0 {
                assert(acts[0] == head[0]);
            } else if i < 1 + heal.len() {
                assert(acts[i] == heal[i - 1]);
            } else {
                assert(acts[i] == rest[i - 1 - heal.len()]);
            }
        }
    }
    assert forall|i: int| 0 <= i < acts.len() implies !(#[trigger] acts[i] is Login) by {
        if i == 0 {
            assert(acts[0] == head[0]);
        } else if i < 1 + heal.len() {
            assert(acts[i] == heal[i - 1]);
        } else {
            assert(acts[i] == rest[i - 1 - heal.len()]);
        }
    }
}

proof fn lemma_streak_arith(k: nat)
    requires
        k >= 1,
    ensures
        streak_after(k) == if streak_after((k - 1) as nat) + 1 >= 9 { 4 } else { streak_after((k - 1) as nat) + 1 },
        heal_for(streak_after((k - 1) as nat) + 1) == heal_schedule(k),
        0 <= streak_after((k - 1) as nat) <= 8,
{
    if k >= 5 {
        let r = (k - 5) % 5;
        assert((k - 4) % 5 == if r == 4 { 0 } else { r + 1 }) by (nonlinear_arith)
            requires
                k >= 5,
                r == (k - 5) % 5,
        ;
    }
}

proof fn lemma_rounds(
    w: Watchdog,
    k: nat,
    wakes: Seq<OsEvent>,
    surveys: Seq<Survey>,
    interval: u64,
    now_ms: u128,
)
    requires
        wf(w),
        w.phase is AwaitProbe,
        w.unreachable_streak == 0,
        wakes.len() >= k,
        surveys.len() >= k,
        forall|j: int| 0 <= j < surveys.len() ==> (#[trigger] surveys[j]).ssid is Some && surveys[j].campus,
    ensures
        ({
            let v = after_unreachable_rounds(w, k, wakes, surveys, interval, now_ms);
            &&& wf(v)
            &&& v.phase is AwaitProbe
            &&& v.unreachable_streak == streak_after(k)
        }),
    decreases k,
{
    if k > 0 {
        let j = (k - 1) as nat;
        lemma_rounds(w, j, wakes, surveys, interval, now_ms);
        let v = after_unreachable_rounds(w, j, wakes, surveys, interval, now_ms);
        lemma_round(v, wakes[j as int], surveys[j as int], interval, now_ms);
        lemma_streak_arith(k);
    }
}

/// The self-healing schedule of a run of evaluations in which the keepalive
/// fails and the gateway does not answer, starting with no unreachable
/// streak: round `k` (counted from 1) heals with exactly the tier
/// [`heal_schedule`] gives (tier 1 in round 3, tiers 2, 2, 3 in rounds 5, 6,
/// 9, 10, 11, 14, ...), and no round logs in.
pub proof fn lemma_heal_schedule(
    w: Watchdog,
    k: nat,
    wakes: Seq<OsEvent>,
    surveys: Seq<Survey>,
    interval: u64,
    now_ms: u128,
)
    requires
        wf(w),
        w.phase is AwaitProbe,
        w.unreachable_streak == 0,
        1 <= k,
        wakes.len() >= k,
        surveys.len() >= k,
        forall|j: int| 0 <= j < surveys.len() ==> (#[trigger] surveys[j]).ssid is Some && surveys[j].campus,
    ensures
        ({
            let before = after_unreachable_rounds(w, (k - 1) as nat, wakes, surveys, interval, now_ms);
            let acts = unreachable_round(before, wakes[k - 1], surveys[k - 1], interval, now_ms).1;
            &&& forall|t: u8| acts.contains(WatchdogAction::Heal(t)) <==> heal_schedule(k) == Some(t)
            &&& !(exists|i: int| 0 <= i < acts.len() && #[trigger] acts[i] is Login)
        }),
{
    let j = (k - 1) as nat;
    lemma_rounds(w, j, wakes, surveys, interval, now_ms);
    let v = after_unreachable_rounds(w, j, wakes, surveys, interval, now_ms);
    lemma_round(v, wakes[j as int], surveys[j as int], interval, now_ms);
    lemma_streak_arith(k);
}

/// What the missed-keepalive count remembers, step by step: a login comes
/// only with a missed keepalive (the gateway answering) when the link was
/// just (re)established or one keepalive was already missed; the count grows
/// only by such a miss on an established link; a confirmed keepalive clears
/// it.
pub proof fn lemma_login_after_two_misses(w: Watchdog, e: WatchdogEvent)
    requires
        wf(w),
        accepts(w, e),
    ensures
        ({
            let (w2, acts) = watchdog_next(w, e);
            &&& (exists|i: int| 0 <= i < acts.len() && #[trigger] acts[i] is Login) ==> (e == WatchdogEvent::PortalProbed(true)
                && (w.just_connected || w.session_drops == 1))
            &&& w2.session_drops > w.session_drops ==> (e == WatchdogEvent::PortalProbed(true) && !w.just_connected)
            &&& (e matches WatchdogEvent::LiveChecked { confirmed, .. } && confirmed) ==> w2.session_drops == 0
        }),
{
    lemma_login_only_after_failed_keepalive(w, e);
    let (w2, acts) = watchdog_next(w, e);
    if e == WatchdogEvent::PortalProbed(true) && !w.just_connected && w.session_drops == 0 {
        lemma_two_misses_before_login(w);
    }
}

/// One evaluation in which the keepalive fails while the gateway answers:
/// the probe's (positive) answer, the end of the wait, the survey, and the
/// next failed keepalive.
pub open spec fn missed_round(
    w: Watchdog,
    wake: OsEvent,
    s: Survey,
    interval: u64,
    now_ms: u128,
) -> (Watchdog, Seq<WatchdogAction>) {
    let (w1, a1) = watchdog_next(w, WatchdogEvent::PortalProbed(true));
    let (w2, a2) = watchdog_next(w1, WatchdogEvent::Woke(Ok(wake)));
    let (w3, a3) = watchdog_next(w2, WatchdogEvent::Surveyed(s));
    let (w4, a4) = watchdog_next(w3, WatchdogEvent::LiveChecked { confirmed: false, interval, now_ms });
    (w4, a1 + a2 + a3 + a4)
}

/// On an established session, the first evaluation that misses its
/// keepalive (the gateway answering) makes no login and checks again after 3
/// seconds; when the next evaluation (no network event, same access point,
/// still on campus) misses too, it logs in.
pub proof fn lemma_second_miss_logs_in(w: Watchdog, s: Survey, interval: u64, now_ms: u128)
    requires
        wf(w),
        w.phase is AwaitProbe,
        !w.just_connected,
        w.session_drops == 0,
        s.ssid is Some,
        s.campus,
        s.bssid is None || (w.last_bssid is Some && s.bssid->0@ == w.last_bssid->0@),
    ensures
        ({
            let (w4, acts) = missed_round(w, OsEvent::Timeout, s, interval, now_ms);
            &&& !(exists|i: int| 0 <= i < acts.len() && #[trigger] acts[i] is Login)
            &&& acts.contains(WatchdogAction::WaitForEvent(Some(3)))
            &&& w4.phase is AwaitProbe
            &&& watchdog_next(w4, WatchdogEvent::PortalProbed(true)).1.last() == WatchdogAction::Login(
                w4.username,
                w4.password,
            )
        }),
{
    let (w1, a1) = watchdog_next(w, WatchdogEvent::PortalProbed(true));
    let (w2, a2) = watchdog_next(w1, WatchdogEvent::Woke(Ok(OsEvent::Timeout)));
    let (w3, a3) = watchdog_next(w2, WatchdogEvent::Surveyed(s));
    let (w4, a4) = watchdog_next(w3, WatchdogEvent::LiveChecked { confirmed: false, interval, now_ms });
    lemma_two_misses_before_login(w);
    lemma_watchdog_bounds(w, WatchdogEvent::PortalProbed(true));
    lemma_watchdog_bounds(w1, WatchdogEvent::Woke(Ok(OsEvent::Timeout)));
    lemma_watchdog_bounds(w2, WatchdogEvent::Surveyed(s));
    lemma_watchdog_bounds(w3, WatchdogEvent::LiveChecked { confirmed: false, interval, now_ms });
    assert(quiet(a1)) by {
        assert forall|i: int| 0 <= i < a1.len() implies !(#[trigger] a1[i] is Heal) && !(a1[i] is Login) by {
            if w.unreachable_streak > 0 {
                assert(a1 =~= seq![
                    WatchdogAction::Log(Note::Restored(w.unreachable_streak)),
                    WatchdogAction::Log(Note::KeepaliveMissed),
                    WatchdogAction::WaitForEvent(Some(3)),
                ]);
            } else {
                assert(a1 =~= seq![
                    WatchdogAction::Log(Note::KeepaliveMissed),
                    WatchdogAction::WaitForEvent(Some(3)),
                ]);
            }
        }
    }
    assert(quiet(a2));
    let w2b = if s.username is Some && s.password is Some {
        Watchdog { username: s.username->0, password: s.password->0, ..w2 }
    } else {
        w2
    };
    assert(quiet(a3)) by {
        let (_, c) = campus_step(w2b, s.ssid->0, s.bssid);
        assert(a3 == c);
    }
    assert(quiet(a4));
    lemma_quiet_concat(a1, a2);
    lemma_quiet_concat(a1 + a2, a3);
    lemma_quiet_concat(a1 + a2 + a3, a4);
    let acts = a1 + a2 + a3 + a4;
    assert(acts[a1.len() - 1] == a1.last());
    assert(w3.session_drops == 1 && !w3.just_connected);
}

/// A change of access point counts as a reconnection: when a campus survey
/// reports an access point other than the remembered one, the roam is logged,
/// the watchdog counts as just (re)connected, and so a following failed
/// keepalive with the gateway answering leads straight to a login, without
/// waiting for a second miss.
pub proof fn lemma_roaming_is_a_reconnection(w: Watchdog, s: Survey, interval: u64, now_ms: u128)
    requires
        wf(w),
        w.phase is AwaitSurvey,
        s.ssid is Some,
        s.campus,
        s.bssid is Some,
        w.last_bssid is Some,
        s.bssid->0@ != w.last_bssid->0@,
    ensures
        ({
            let (w1, a1) = watchdog_next(w, WatchdogEvent::Surveyed(s));
            let (w2, a2) = watchdog_next(w1, WatchdogEvent::LiveChecked { confirmed: false, interval, now_ms });
            let (w3, a3) = watchdog_next(w2, WatchdogEvent::PortalProbed(true));
            &&& w1.just_connected
            &&& a1.contains(WatchdogAction::Log(Note::Roaming(w.last_bssid->0, s.bssid->0)))
            &&& w1.last_bssid == s.bssid
            &&& a3.last() == WatchdogAction::Login(w1.username, w1.password)
        }),
{
    let (w1, a1) = watchdog_next(w, WatchdogEvent::Surveyed(s));
    let w0 = if s.username is Some && s.password is Some {
        Watchdog { username: s.username->0, password: s.password->0, ..w }
    } else {
        w
    };
    let ps = if w0.just_connected {
        seq![WatchdogAction::DisablePowersave(s.ssid->0)]
    } else {
        Seq::empty()
    };
    assert(a1 == ps + seq![WatchdogAction::ActivateInhibitor] + seq![
        WatchdogAction::Log(Note::Roaming(w0.last_bssid->0, s.bssid->0)),
    ] + seq![WatchdogAction::CheckLive(w0.username)]);
    assert(a1[ps.len() as int + 1] == WatchdogAction::Log(Note::Roaming(w.last_bssid->0, s.bssid->0)));
}

} // verus!

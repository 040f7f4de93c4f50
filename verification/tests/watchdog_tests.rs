use pesu_wifi::daemon::OsEvent;
use pesu_wifi::watchdog::{
    note_message, notice_message, Note, Notice, Phase, Survey, Watchdog, WatchdogAction,
    WatchdogEvent,
};

fn describe(actions: &[WatchdogAction]) -> Vec<String> {
    actions
        .iter()
        .map(|a| match a {
            WatchdogAction::Log(n) => format!("log {}", note_message(n)),
            WatchdogAction::Sleep(s) => format!("sleep {}", s),
            WatchdogAction::WaitForEvent(t) => format!("wait {:?}", t),
            WatchdogAction::Survey => "survey".to_string(),
            WatchdogAction::DeactivateInhibitor => "inhibitor off".to_string(),
            WatchdogAction::ActivateInhibitor => "inhibitor on".to_string(),
            WatchdogAction::DisablePowersave(s) => format!("powersave off {}", s),
            WatchdogAction::CheckLive(u) => format!("check live {}", u),
            WatchdogAction::ProbePortal => "probe".to_string(),
            WatchdogAction::Heal(t) => format!("heal {}", t),
            WatchdogAction::Login(u, p) => format!("login {} {}", u, p),
            WatchdogAction::Notify(n) => {
                let (t, m, u) = notice_message(n);
                format!("notify {} / {} / {}", t, m, u)
            }
        })
        .collect()
}

fn start() -> Watchdog {
    let (w, actions) = Watchdog::start((Some("alice".to_string()), Some("pw".to_string())), 180).unwrap();
    assert_eq!(
        describe(&actions),
        vec![
            "log Starting Always-On Event-Driven Keepalive Watchdog for 'alice'...",
            "log ⚡ Initial link state evaluation on daemon startup...",
            "survey",
        ]
    );
    w
}

fn on_campus(bssid: Option<&str>) -> WatchdogEvent {
    WatchdogEvent::Surveyed(Survey {
        username: None,
        password: None,
        ssid: Some("PESU-EC-Campus".to_string()),
        bssid: bssid.map(|b| b.to_string()),
        campus: true,
    })
}

fn live(confirmed: bool, now_ms: u128) -> WatchdogEvent {
    WatchdogEvent::LiveChecked { confirmed, interval: 180, now_ms }
}

fn timeout() -> WatchdogEvent {
    WatchdogEvent::Woke(Ok(OsEvent::Timeout))
}

#[test]
fn start_needs_both_credentials() {
    assert!(Watchdog::start((Some("a".to_string()), None), 180).is_none());
    assert!(Watchdog::start((None, Some("p".to_string())), 180).is_none());
    let w = start();
    assert!(matches!(w.phase, Phase::AwaitSurvey));
    assert!(w.just_connected);
}

#[test]
fn heartbeat_then_missed_check_then_login() {
    let mut w = start();
    assert_eq!(
        describe(&w.step(on_campus(None))),
        vec!["powersave off PESU-EC-Campus", "inhibitor on", "check live alice"]
    );
    assert_eq!(
        describe(&w.step(live(true, 0))),
        vec![
            "log ✔ Keepalive heartbeat OK (alice). Session active. Next check in 175s.",
            "wait Some(175)",
        ]
    );
    assert_eq!(describe(&w.step(timeout())), vec!["survey"]);
    assert_eq!(describe(&w.step(on_campus(None))), vec!["inhibitor on", "check live alice"]);
    assert_eq!(describe(&w.step(live(false, 0))), vec!["probe"]);
    assert_eq!(
        describe(&w.step(WatchdogEvent::PortalProbed(true))),
        vec![
            "log ⚠ Keepalive missed 1 check (possible Wi-Fi jitter). Verifying in 3s before re-authenticating...",
            "wait Some(3)",
        ]
    );
    assert_eq!(describe(&w.step(timeout())), vec!["survey"]);
    assert_eq!(describe(&w.step(on_campus(None))), vec!["inhibitor on", "check live alice"]);
    assert_eq!(describe(&w.step(live(false, 0))), vec!["probe"]);
    assert_eq!(
        describe(&w.step(WatchdogEvent::PortalProbed(true))),
        vec![
            "log ⚡ Keepalive watchdog: session expired. Authenticating as 'alice'...",
            "login alice pw",
        ]
    );
    assert_eq!(
        describe(&w.step(WatchdogEvent::LoginFinished { outcome: Ok("ok".to_string()), now_ms: 10 })),
        vec![
            "log ✔ Authenticated successfully as 'alice'. Next keepalive check in 185s.",
            "notify PESU WiFi / Logged in as alice / normal",
            "wait Some(185)",
        ]
    );
}

#[test]
fn fresh_connection_logs_in_at_once() {
    let mut w = start();
    w.step(on_campus(None));
    assert_eq!(describe(&w.step(live(false, 0))), vec!["probe"]);
    assert_eq!(
        describe(&w.step(WatchdogEvent::PortalProbed(true))),
        vec![
            "log ⚡ Keepalive watchdog: session expired. Authenticating as 'alice'...",
            "login alice pw",
        ]
    );
    assert_eq!(
        describe(&w.step(WatchdogEvent::LoginFinished { outcome: Err("bad password".to_string()), now_ms: 0 })),
        vec![
            "log ✖ Authentication failed: bad password",
            "notify PESU WiFi Login Failed / bad password / critical",
            "wait Some(10)",
        ]
    );
}

#[test]
fn unreachable_gateway_heals_in_tiers() {
    let mut w = start();
    let mut heals = Vec::new();
    let mut waits = Vec::new();
    w.step(on_campus(None));
    for _ in 0..12 {
        w.step(live(false, 0));
        let acts = describe(&w.step(WatchdogEvent::PortalProbed(false)));
        heals.push(acts.iter().find(|a| a.starts_with("heal")).cloned());
        waits.push(acts.last().cloned().unwrap());
        w.step(timeout());
        w.step(on_campus(None));
    }
    let tiers: Vec<Option<&str>> = heals.iter().map(|h| h.as_deref()).collect();
    assert_eq!(
        tiers,
        vec![
            None, None, Some("heal 1"), None, Some("heal 2"), Some("heal 2"), None, None,
            Some("heal 3"), Some("heal 2"), Some("heal 2"), None,
        ]
    );
    assert_eq!(waits[0], "wait Some(5)");
    assert_eq!(waits[2], "wait Some(10)");
    assert_eq!(waits[8], "wait Some(15)");
    assert!(w.unreachable_streak <= 8);
}

#[test]
fn restored_gateway_is_reported() {
    let mut w = start();
    w.step(on_campus(None));
    w.step(live(false, 0));
    assert_eq!(
        describe(&w.step(WatchdogEvent::PortalProbed(false))),
        vec!["log ⚠ Portal gateway unreachable on 'PESU-EC-Campus' (streak: 1).", "wait Some(5)"]
    );
    w.step(timeout());
    w.step(on_campus(None));
    assert_eq!(
        describe(&w.step(live(true, 5))),
        vec![
            "log ✔ Connectivity restored after 1 failed check(s).",
            "log ✔ Keepalive heartbeat OK (alice). Session active. Next check in 180s.",
            "wait Some(180)",
        ]
    );
}

#[test]
fn standby_is_logged_once() {
    let mut w = start();
    let off = || {
        WatchdogEvent::Surveyed(Survey {
            username: None,
            password: None,
            ssid: Some("Home".to_string()),
            bssid: None,
            campus: false,
        })
    };
    assert_eq!(
        describe(&w.step(off())),
        vec![
            "log Connected to non-campus Wi-Fi 'Home'. Daemon in standby.",
            "inhibitor off",
            "wait Some(10)",
        ]
    );
    w.step(timeout());
    assert_eq!(describe(&w.step(off())), vec!["inhibitor off", "wait Some(10)"]);
    w.step(timeout());
    let gone = WatchdogEvent::Surveyed(Survey { username: None, password: None, ssid: None, bssid: None, campus: false });
    assert_eq!(
        describe(&w.step(gone)),
        vec![
            "log Wi-Fi disconnected. Daemon sleeping in kernel wait for interface reconnect...",
            "inhibitor off",
            "wait Some(10)",
        ]
    );
}

#[test]
fn network_events_and_roaming() {
    let mut w = start();
    w.step(on_campus(Some("aa")));
    w.step(live(true, 5));
    assert_eq!(
        describe(&w.step(WatchdogEvent::Woke(Ok(OsEvent::NetworkChange("ACM:Disconnected".to_string()))))),
        vec!["log ⚡ OS Network Event: ACM:Disconnected [evaluating immediately]", "survey"]
    );
    assert_eq!(
        describe(&w.step(on_campus(Some("bb")))),
        vec![
            "powersave off PESU-EC-Campus",
            "inhibitor on",
            "log ⚡ AP Roaming detected: aa ➔ bb. Verifying gateway link...",
            "check live alice",
        ]
    );
    w.step(live(true, 5));
    assert_eq!(
        describe(&w.step(WatchdogEvent::Woke(Err("poll failed".to_string())))),
        vec!["log ⚠ OS event listener error: poll failed. Retrying in 5s...", "sleep 5", "wait Some(180)"]
    );
}

#[test]
fn updated_credentials_are_taken_up() {
    let mut w = start();
    let ev = WatchdogEvent::Surveyed(Survey {
        username: Some("bob".to_string()),
        password: Some("b2".to_string()),
        ssid: Some("PESU-EC-Campus".to_string()),
        bssid: None,
        campus: true,
    });
    assert_eq!(describe(&w.step(ev)), vec!["powersave off PESU-EC-Campus", "inhibitor on", "check live bob"]);
    assert_eq!(w.password, "b2");
}

#[test]
fn notes_and_notices_render() {
    assert_eq!(note_message(&Note::Restored(12)), "✔ Connectivity restored after 12 failed check(s).");
    assert_eq!(
        note_message(&Note::Unreachable("Lab".to_string(), 3)),
        "⚠ Portal gateway unreachable on 'Lab' (streak: 3)."
    );
    let (t, m, u) = notice_message(&Notice::LoggedIn("x".to_string()));
    assert_eq!((t.as_str(), m.as_str(), u.as_str()), ("PESU WiFi", "Logged in as x", "normal"));
}

#[test]
fn takes_only_the_pending_answer() {
    let w = start();
    assert!(w.takes(&on_campus(None)));
    assert!(!w.takes(&timeout()));
    assert!(!w.takes(&WatchdogEvent::PortalProbed(true)));
    let mut w = start();
    w.step(on_campus(None));
    assert!(w.takes(&live(true, 0)));
    assert!(!w.takes(&WatchdogEvent::LiveChecked { confirmed: true, interval: i64::MAX as u64, now_ms: 10 }));
    assert!(w.takes(&WatchdogEvent::LiveChecked { confirmed: false, interval: i64::MAX as u64, now_ms: 10 }));
}

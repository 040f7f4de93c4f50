use pesu_wifi::cli::{
    cmd_add, cmd_del, cmd_list, cmd_login, cmd_logout, cmd_select, cmd_start, cmd_stop,
    pid_suffix_text, prepare_login, start_plan, status_rows, StartPlan, Effect, Line,
    LoginAnswers, LoginQuestion, LogoutAnswers, LogoutQuestion, Next, ServiceStart, StartAnswers,
    StartQuestion,
};
use pesu_wifi::config::Config;
use pesu_wifi::ui::status_card;
use pesu_wifi::wifi::Platform;

fn describe(effects: &[Effect]) -> Vec<String> {
    effects
        .iter()
        .map(|e| match e {
            Effect::Print(Line::Success(s)) => format!("ok {}", s),
            Effect::Print(Line::Failure(s)) => format!("err {}", s),
            Effect::Print(Line::Info(s)) => format!("info {}", s),
            Effect::Print(Line::Warning(s)) => format!("warn {}", s),
            Effect::Print(Line::Hint(s)) => format!("hint {}", s),
            Effect::Print(Line::Quote(s)) => format!("quote {}", s),
            Effect::Notify(t, m, u) => format!("notify {} / {} / {}", t, m, u),
            Effect::SaveConfig => "save".to_string(),
            Effect::SaveConfigOrExit => "save or exit".to_string(),
        })
        .collect()
}

fn config_with(accounts: &[(&str, &str)], active: Option<&str>) -> Config {
    let mut cfg = Config::default();
    for (u, p) in accounts {
        cfg.accounts.insert(u.to_string(), p.to_string());
    }
    cfg.active_user = active.map(|a| a.to_string());
    cfg
}

const BASE: &str = "http://192.168.254.1:8090";

#[test]
fn login_account_choice() {
    let mut cfg = config_with(&[("alice", "a1"), ("bob", "b2")], Some("alice"));
    let (effects, account) = prepare_login(&mut cfg, Some("bob"));
    assert_eq!(describe(&effects), vec!["save", "info Using account 'bob'."]);
    assert_eq!(account, Ok(("bob".to_string(), "b2".to_string())));
    assert_eq!(cfg.active_user, Some("bob".to_string()));

    let (effects, account) = prepare_login(&mut cfg, Some("carol"));
    assert_eq!(
        describe(&effects),
        vec!["err No saved credentials for 'carol'.", "hint   Run 'pesu-wifi add' to add this account."]
    );
    assert_eq!(account, Err(1));

    let (effects, account) = prepare_login(&mut cfg, None);
    assert!(effects.is_empty());
    assert_eq!(account, Ok(("bob".to_string(), "b2".to_string())));

    let (effects, account) = prepare_login(&mut Config::default(), None);
    assert_eq!(
        describe(&effects),
        vec!["err No credentials configured.", "hint   Run 'pesu-wifi add' to save login credentials."]
    );
    assert_eq!(account, Err(1));
}

#[test]
fn login_conversation() {
    let mut a = LoginAnswers { portal_online: None, session_live: None, login: None };
    assert!(matches!(cmd_login("alice", BASE, &a).1, Next::Ask(LoginQuestion::PortalOnline)));
    a.portal_online = Some(false);
    let (effects, next) = cmd_login("alice", BASE, &a);
    assert_eq!(
        describe(&effects),
        vec!["err Portal gateway (http://192.168.254.1:8090) is unreachable. Check your Wi-Fi connection."]
    );
    assert!(matches!(next, Next::Exit(1)));

    a.portal_online = Some(true);
    assert!(matches!(cmd_login("alice", BASE, &a).1, Next::Ask(LoginQuestion::SessionLive)));
    a.session_live = Some(true);
    let (effects, next) = cmd_login("alice", BASE, &a);
    assert_eq!(describe(&effects), vec!["ok Already logged in as 'alice'."]);
    assert!(matches!(next, Next::Exit(0)));

    a.session_live = Some(false);
    let (effects, next) = cmd_login("alice", BASE, &a);
    assert_eq!(describe(&effects), vec!["info Logging in as 'alice'..."]);
    assert!(matches!(next, Next::Ask(LoginQuestion::Login)));

    a.login = Some(Ok("You are signed in".to_string()));
    let (effects, next) = cmd_login("alice", BASE, &a);
    assert_eq!(
        describe(&effects),
        vec!["ok Logged in as 'alice'.", "notify PESU WiFi / Logged in as alice / normal"]
    );
    assert!(matches!(next, Next::Exit(0)));

    a.login = Some(Err("Wrong password".to_string()));
    let (effects, next) = cmd_login("alice", BASE, &a);
    assert_eq!(
        describe(&effects),
        vec!["err Login failed: Wrong password", "notify PESU WiFi Login Failed / Wrong password / critical"]
    );
    assert!(matches!(next, Next::Exit(1)));
}

#[test]
fn logout_conversation() {
    let mut a = LogoutAnswers { portal_online: Some(true), session_live: None, logout: None };
    assert!(matches!(cmd_logout(None, BASE, &a).1, Next::Ask(LogoutQuestion::SessionLive)));
    a.session_live = Some(false);
    let (effects, next) = cmd_logout(None, BASE, &a);
    assert_eq!(describe(&effects), vec!["ok Already logged out. No active session found."]);
    assert!(matches!(next, Next::Exit(0)));
    a.session_live = Some(true);
    let (effects, next) = cmd_logout(None, BASE, &a);
    assert_eq!(describe(&effects), vec!["info Active session found. Logging out 'user'..."]);
    assert!(matches!(next, Next::Ask(LogoutQuestion::Logout)));
    let (effects, _) = cmd_logout(Some("alice"), BASE, &a);
    assert_eq!(describe(&effects), vec!["info Active session found. Logging out 'alice'..."]);
    a.logout = Some(Ok("bye".to_string()));
    let (effects, next) = cmd_logout(Some("alice"), BASE, &a);
    assert_eq!(
        describe(&effects),
        vec!["ok Logged out successfully.", "notify PESU WiFi / Logged out successfully / normal"]
    );
    assert!(matches!(next, Next::Exit(0)));
    a.logout = Some(Err("Portal unreachable (x)".to_string()));
    let (effects, next) = cmd_logout(Some("alice"), BASE, &a);
    assert_eq!(describe(&effects), vec!["err Logout failed: Portal unreachable (x)"]);
    assert!(matches!(next, Next::Exit(1)));
}

#[test]
fn start_conversation() {
    assert!(matches!(start_plan(&config_with(&[("a", "b")], None), false), StartPlan::Background));
    assert!(matches!(start_plan(&config_with(&[("a", "b")], None), true), StartPlan::Foreground));
    match start_plan(&Config::default(), true) {
        StartPlan::Refuse(effects, code) => {
            assert_eq!(
                describe(&effects),
                vec!["err No credentials configured.", "hint   Run 'pesu-wifi add' first to save credentials."]
            );
            assert_eq!(code, 1);
        }
        _ => panic!("start without credentials must be refused"),
    }

    let mut a = StartAnswers { running: None, service: None, running_after: None, recent_log: None };
    assert!(matches!(cmd_start(Platform::Linux, &a).1, Next::Ask(StartQuestion::DaemonStatus)));
    a.running = Some((true, Some(4242)));
    let (effects, next) = cmd_start(Platform::Linux, &a);
    assert_eq!(describe(&effects), vec!["ok PESU WiFi daemon is already running (PID: 4242)."]);
    assert!(matches!(next, Next::Exit(0)));
    let (effects, _) = cmd_start(Platform::Windows, &a);
    assert_eq!(describe(&effects), vec!["ok PESU WiFi continuous daemon is already running (PID: 4242)."]);

    a.running = Some((false, None));
    let (effects, next) = cmd_start(Platform::Linux, &a);
    assert_eq!(describe(&effects), vec!["info Starting PESU WiFi daemon (systemd user service)..."]);
    assert!(matches!(next, Next::Ask(StartQuestion::StartService)));

    a.service = Some(ServiceStart::Failed("  Unit not found.\n".to_string(), "out".to_string()));
    let (effects, next) = cmd_start(Platform::Linux, &a);
    assert_eq!(describe(&effects), vec!["err Failed to start systemd service: Unit not found."]);
    assert!(matches!(next, Next::Exit(1)));
    a.service = Some(ServiceStart::Failed(" \n".to_string(), " out \n".to_string()));
    assert_eq!(describe(&cmd_start(Platform::Linux, &a).0), vec!["err Failed to start systemd service: out"]);
    a.service = Some(ServiceStart::NotRun("not found".to_string()));
    assert_eq!(describe(&cmd_start(Platform::Linux, &a).0), vec!["err Error starting daemon: not found"]);

    a.service = Some(ServiceStart::Started);
    assert!(matches!(cmd_start(Platform::Linux, &a).1, Next::Ask(StartQuestion::DaemonStatusAfterPause)));
    a.running_after = Some((true, None));
    let (effects, next) = cmd_start(Platform::Linux, &a);
    assert_eq!(describe(&effects), vec!["ok PESU WiFi daemon started successfully."]);
    assert!(matches!(next, Next::Exit(0)));
    a.running_after = Some((false, None));
    let (effects, next) = cmd_start(Platform::Linux, &a);
    assert_eq!(describe(&effects), vec!["warn Daemon attempted to start but may have exited."]);
    assert!(matches!(next, Next::Ask(StartQuestion::RecentLog)));
    let (effects, next) = cmd_start(Platform::Windows, &a);
    assert_eq!(describe(&effects), vec!["warn Daemon attempted to start but may have exited."]);
    assert!(matches!(next, Next::Exit(1)));
    a.recent_log = Some("  line one\nline two \n".to_string());
    let (effects, next) = cmd_start(Platform::Linux, &a);
    assert_eq!(describe(&effects), vec!["quote line one\nline two"]);
    assert!(matches!(next, Next::Exit(1)));
    a.recent_log = Some("   ".to_string());
    assert!(cmd_start(Platform::Linux, &a).0.is_empty());
}

#[test]
fn stop_report() {
    assert_eq!(describe(&cmd_stop(false)), vec!["ok PESU WiFi daemon stopped."]);
    assert_eq!(describe(&cmd_stop(true)), vec!["warn Daemon process may still be stopping."]);
}

#[test]
fn account_commands() {
    let mut cfg = Config::default();
    let (effects, code) = cmd_add(&mut cfg, " ", "x");
    assert_eq!((describe(&effects), code), (vec!["err Username cannot be empty.".to_string()], 1));
    let (effects, code) = cmd_add(&mut cfg, "alice", "");
    assert_eq!((describe(&effects), code), (vec!["err Password cannot be empty.".to_string()], 1));
    let (effects, code) = cmd_add(&mut cfg, " alice ", "a1");
    assert_eq!(
        (describe(&effects), code),
        (vec!["save or exit".to_string(), "ok Saved credentials for 'alice'. Set as active account.".to_string()], 0)
    );
    let (effects, _) = cmd_add(&mut cfg, "alice", "a2");
    assert_eq!(describe(&effects)[1], "ok Updated credentials for 'alice'. Set as active account.");
    cmd_add(&mut cfg, "bob", "b2");

    let (effects, code) = cmd_select(&mut cfg, "carol");
    assert_eq!(
        (describe(&effects), code),
        (vec!["err Account 'carol' not found. Run 'pesu-wifi list' to see saved accounts.".to_string()], 1)
    );
    let (effects, code) = cmd_select(&mut cfg, "alice");
    assert_eq!(
        (describe(&effects), code),
        (vec!["save".to_string(), "ok Default account set to 'alice'.".to_string()], 0)
    );

    let rows = cmd_list(&cfg);
    let listed: Vec<(String, String, bool)> = rows.into_iter().map(|r| (r.user, r.password, r.active)).collect();
    assert_eq!(
        listed,
        vec![("alice".to_string(), "a2".to_string(), true), ("bob".to_string(), "b2".to_string(), false)]
    );

    let (effects, code) = cmd_del(&mut cfg, "carol");
    assert_eq!((describe(&effects), code), (vec!["err Account 'carol' not found in saved accounts.".to_string()], 1));
    let (effects, code) = cmd_del(&mut cfg, "alice");
    assert_eq!(
        (describe(&effects), code),
        (
            vec![
                "info Active account switched to 'bob'.".to_string(),
                "save or exit".to_string(),
                "ok Removed credentials for 'alice'.".to_string(),
            ],
            0
        )
    );
    let (effects, _) = cmd_del(&mut cfg, "bob");
    assert_eq!(describe(&effects), vec!["save or exit", "ok Removed credentials for 'bob'."]);
    let (effects, code) = cmd_select(&mut cfg, "bob");
    assert_eq!(
        (describe(&effects), code),
        (vec!["err No saved accounts. Run 'pesu-wifi add' first.".to_string()], 1)
    );
    assert!(cmd_list(&cfg).is_empty());
}

#[test]
fn pid_suffixes() {
    assert_eq!(pid_suffix_text(Some(17)), " (PID: 17)");
    assert_eq!(pid_suffix_text(None), "");
}

#[test]
fn status_card_layout() {
    let rows = status_rows(false, BASE, true, true, "PESU-EC-Campus", Some("alice"), true, Some(99));
    let values: Vec<(String, String)> = rows.clone();
    assert_eq!(
        values,
        vec![
            ("Portal Gateway".to_string(), "http://192.168.254.1:8090 [Online]".to_string()),
            ("Wi-Fi Network".to_string(), "PESU-EC-Campus".to_string()),
            ("Session State".to_string(), "LOGGED IN".to_string()),
            ("Active Account".to_string(), "alice".to_string()),
            ("Daemon Watcher".to_string(), "Active (PID: 99) [polling: 180s]".to_string()),
        ]
    );
    let lines = status_card(false, &rows);
    assert_eq!(lines.len(), 9);
    assert_eq!(lines[0], "");
    assert_eq!(lines[8], "");
    let width = 58;
    assert!(lines[1].starts_with("╭── PESU WiFi Status "));
    assert_eq!(lines[1].chars().count(), width);
    assert_eq!(lines[7], format!("╰{}╯", "─".repeat(width - 2)));
    assert_eq!(lines[3], format!("│  Wi-Fi Network   : PESU-EC-Campus{}  │", " ".repeat(width - 24 - 14)));
    for line in &lines[2..7] {
        assert_eq!(line.chars().count(), width);
    }

    let rows = status_rows(false, BASE, false, true, "Home", None, false, None);
    assert_eq!(rows[2].1, "UNREACHABLE");
    assert_eq!(rows[3].1, "(None — run 'pesu-wifi add')");
    assert_eq!(rows[4].1, "Inactive [polling: 180s]");
    let rows = status_rows(true, BASE, true, false, "Home", None, false, None);
    assert_eq!(rows[2].1, "\x1b[1m\x1b[93mSIGNED OUT\x1b[0m");
}

use pesu_wifi::cli::{render_account_listing, render_account_menu, render_line};

#[test]
fn rendered_lines() {
    assert_eq!(render_line(false, &Line::Success("done".to_string())), ("✔  done".to_string(), false));
    assert_eq!(render_line(false, &Line::Failure("no".to_string())), ("✖  no".to_string(), true));
    assert_eq!(render_line(false, &Line::Info("go".to_string())), ("➜  go".to_string(), false));
    assert_eq!(render_line(false, &Line::Warning("hm".to_string())), ("⚠  hm".to_string(), false));
    assert_eq!(render_line(false, &Line::Hint("  try".to_string())), ("  try".to_string(), false));
    assert_eq!(
        render_line(true, &Line::Success("done".to_string())),
        ("\x1b[92m✔  done\x1b[0m".to_string(), false)
    );
    assert_eq!(render_line(true, &Line::Quote("q".to_string())), ("\x1b[2mq\x1b[0m".to_string(), false));
}

#[test]
fn rendered_account_listing() {
    let cfg = config_with(&[("alice", "a1"), ("bob", "b2")], Some("bob"));
    let rows = cmd_list(&cfg);
    assert_eq!(
        render_account_listing(false, &rows, false),
        vec!["\nSaved Accounts:", "  • alice", "  • bob [active]", ""]
    );
    assert_eq!(
        render_account_listing(false, &rows, true),
        vec!["\nSaved Accounts:", "  • alice  a1", "  • bob [active]  b2", ""]
    );
    let colored = render_account_listing(true, &rows, false);
    assert_eq!(colored[2], "  \x1b[92m•\x1b[0m \x1b[1mbob\x1b[0m\x1b[96m [active]\x1b[0m");
    assert_eq!(
        render_account_listing(false, &cmd_list(&Config::default()), true),
        vec!["\nSaved Accounts:", "  No accounts saved. Run 'pesu-wifi add' to add one.\n"]
    );
}

#[test]
fn rendered_account_menu() {
    let cfg = config_with(&[("alice", "a1"), ("bob", "b2")], Some("alice"));
    let rows = cmd_list(&cfg);
    assert_eq!(
        render_account_menu(false, &rows),
        vec!["Select default account:", "  1. alice [active]", "  2. bob"]
    );
    assert_eq!(render_account_menu(true, &rows)[2], "  \x1b[2m2.\x1b[0m bob");
}

#[test]
fn listing_without_passwords_ignores_them() {
    let a = config_with(&[("alice", "a1"), ("bob", "b2")], Some("bob"));
    let b = config_with(&[("alice", "zz"), ("bob", "yy")], Some("bob"));
    assert_eq!(
        render_account_listing(true, &cmd_list(&a), false),
        render_account_listing(true, &cmd_list(&b), false)
    );
    assert_ne!(
        render_account_listing(true, &cmd_list(&a), true),
        render_account_listing(true, &cmd_list(&b), true)
    );
}

#[test]
fn listing_in_another_order_has_the_same_lines() {
    let a = config_with(&[("alice", "a1"), ("bob", "b2")], Some("bob"));
    let b = config_with(&[("bob", "x"), ("alice", "y")], Some("bob"));
    let mut la = render_account_listing(false, &cmd_list(&a), false);
    let mut lb = render_account_listing(false, &cmd_list(&b), false);
    assert_ne!(la, lb);
    la.sort();
    lb.sort();
    assert_eq!(la, lb);
}

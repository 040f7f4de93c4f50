//! The decisions of the command-line commands. Each command asks the outside
//! world questions one at a time; a decision function takes the answers so
//! far and says what to print and what to ask next, or with which exit code
//! to finish.

use vstd::prelude::*;
use crate::config::{
    AccountError, Config, active_credentials, add_account, get_active_credentials, opt_text,
    remove_account, select_account,
};
use crate::text::{cat2, cat3, decimal, decimal_exec, string_of, trim};
use crate::ui::{color, colored, BOLD, CYAN, DIM, GREEN, RED, YELLOW};

verus! {

/// A line for the terminal.
pub enum Line {
    /// A success (green tick).
    Success(String),
    /// A failure (red cross, on standard error).
    Failure(String),
    /// Progress (cyan arrow).
    Info(String),
    /// A warning (yellow sign).
    Warning(String),
    /// A hint (yellow text).
    Hint(String),
    /// Quoted diagnostic output (dim text).
    Quote(String),
}

/// Something a command does besides asking.
pub enum Effect {
    Print(Line),
    /// A desktop notification: title, message, urgency.
    Notify(String, String, String),
    /// Save the (changed) configuration; a failure to save is ignored.
    SaveConfig,
    /// Save the (changed) configuration; when that fails, report the failure
    /// and exit with 1.
    SaveConfigOrExit,
}

/// The mathematical form of a [`Line`].
pub enum LineView {
    Success(Seq<char>),
    Failure(Seq<char>),
    Info(Seq<char>),
    Warning(Seq<char>),
    Hint(Seq<char>),
    Quote(Seq<char>),
}

/// The mathematical form of an [`Effect`].
pub enum EffectView {
    Print(LineView),
    Notify(Seq<char>, Seq<char>, Seq<char>),
    SaveConfig,
    SaveConfigOrExit,
}

impl View for Line {
    type V = LineView;

    open spec fn view(&self) -> LineView {
        match self {
            Line::Success(s) => LineView::Success(s@),
            Line::Failure(s) => LineView::Failure(s@),
            Line::Info(s) => LineView::Info(s@),
            Line::Warning(s) => LineView::Warning(s@),
            Line::Hint(s) => LineView::Hint(s@),
            Line::Quote(s) => LineView::Quote(s@),
        }
    }
}

impl View for Effect {
    type V = EffectView;

    open spec fn view(&self) -> EffectView {
        match self {
            Effect::Print(l) => EffectView::Print(l@),
            Effect::Notify(t, m, u) => EffectView::Notify(t@, m@, u@),
            Effect::SaveConfig => EffectView::SaveConfig,
            Effect::SaveConfigOrExit => EffectView::SaveConfigOrExit,
        }
    }
}

/// The views of some effects.
pub open spec fn effects_view(es: Seq<Effect>) -> Seq<EffectView> {
    es.map_values(|e: Effect| e@)
}

/// What a command does next.
pub enum Next<Q> {
    /// Ask this question; call the decision again with its answer.
    Ask(Q),
    /// Finish with this exit code.
    Exit(i32),
}

/// `s` in single quotes.
pub open spec fn quoted(s: Seq<char>) -> Seq<char> {
    "'"@ + s + "'"@
}

fn say(line: Line) -> (e: Effect)
    ensures
        e@ == EffectView::Print(line@),
{
    Effect::Print(line)
}

/// The message for an unreachable gateway.
pub open spec fn unreachable_text(base: Seq<char>) -> Seq<char> {
    "Portal gateway ("@ + base + ") is unreachable. Check your Wi-Fi connection."@
}

fn unreachable_message(base: &str) -> (r: String)
    ensures
        r@ == unreachable_text(base@),
{
    cat3("Portal gateway (", base, ") is unreachable. Check your Wi-Fi connection.")
}

fn quote(s: &str) -> (r: String)
    ensures
        r@ == quoted(s@),
{
    cat3("'", s, "'")
}

// ---------------------------------------------------------------------------
// login
// ---------------------------------------------------------------------------

/// The account a `login` uses, and what is printed while choosing it: with a
/// target, the target's saved password (the target becomes the active
/// account, and the configuration is saved); without one, the active
/// credentials. When there are none, the command ends here with exit code 1,
/// before any request to the portal.
pub open spec fn login_account(
    cfg: &Config,
    target: Option<Seq<char>>,
) -> (Seq<EffectView>, Result<(Seq<char>, Seq<char>), i32>) {
    match target {
        Some(t) => if cfg.accounts@.contains_key(t) {
            (
                seq![EffectView::SaveConfig, EffectView::Print(LineView::Info("Using account "@ + quoted(t) + "."@))],
                Ok((t, cfg.accounts@[t])),
            )
        } else {
            (
                seq![
                    EffectView::Print(LineView::Failure("No saved credentials for "@ + quoted(t) + "."@)),
                    EffectView::Print(LineView::Hint("  Run 'pesu-wifi add' to add this account."@)),
                ],
                Err(1),
            )
        },
        None => match active_credentials(cfg) {
            (Some(u), Some(p)) => (Seq::empty(), Ok((u, p))),
            _ => (
                seq![
                    EffectView::Print(LineView::Failure("No credentials configured."@)),
                    EffectView::Print(LineView::Hint("  Run 'pesu-wifi add' to save login credentials."@)),
                ],
                Err(1),
            ),
        },
    }
}

/// Chooses the account for `login`; with a target, makes it the active
/// account. `Err` carries the exit code when there is no account to use.
pub fn prepare_login(cfg: &mut Config, target: Option<&str>) -> (r: (Vec<Effect>, Result<(String, String), i32>))
    ensures
        (effects_view(r.0@), match r.1 {
            Ok((u, p)) => Ok((u@, p@)),
            Err(code) => Err(code),
        }) == login_account(&*old(cfg), match target {
            Some(t) => Some(t@),
            None => None,
        }),
        (target matches Some(t) && old(cfg).accounts@.contains_key(t@)) ==> opt_text(final(cfg).active_user) == Some(target->0@)
            && final(cfg).accounts == old(cfg).accounts && final(cfg).preferred_ssid == old(cfg).preferred_ssid,
        !(target matches Some(t) && old(cfg).accounts@.contains_key(t@)) ==> *final(cfg) == *old(cfg),
{
    let mut effects: Vec<Effect> = Vec::new();
    match target {
        Some(t) => {
            match crate::config::get_credentials_for(cfg, t) {
                Some(p) => {
                    cfg.active_user = Some(String::from_str(t));
                    effects.push(Effect::SaveConfig);
                    effects.push(say(Line::Info(cat3("Using account ", quote(t).as_str(), "."))));
                    assert(effects_view(effects@) =~= login_account(&*old(cfg), Some(t@)).0);
                    (effects, Ok((String::from_str(t), p)))
                },
                None => {
                    effects.push(say(Line::Failure(cat3("No saved credentials for ", quote(t).as_str(), "."))));
                    effects.push(say(Line::Hint(String::from_str("  Run 'pesu-wifi add' to add this account."))));
                    assert(effects_view(effects@) =~= login_account(&*old(cfg), Some(t@)).0);
                    (effects, Err(1))
                },
            }
        },
        None => {
            match get_active_credentials(cfg) {
                (Some(u), Some(p)) => {
                    assert(effects_view(effects@) =~= Seq::<EffectView>::empty());
                    (effects, Ok((u, p)))
                },
                _ => {
                    effects.push(say(Line::Failure(String::from_str("No credentials configured."))));
                    effects.push(
                        say(Line::Hint(String::from_str("  Run 'pesu-wifi add' to save login credentials."))),
                    );
                    assert(effects_view(effects@) =~= login_account(&*old(cfg), None).0);
                    (effects, Err(1))
                },
            }
        },
    }
}

/// A question of the `login` command.
pub enum LoginQuestion {
    /// Does the portal gateway answer?
    PortalOnline,
    /// Does the session of the user live (asking twice if need be)?
    SessionLive,
    /// Log in; what did the portal say?
    Login,
}

/// The answers the `login` command has so far.
pub struct LoginAnswers {
    pub portal_online: Option<bool>,
    pub session_live: Option<bool>,
    pub login: Option<Result<String, String>>,
}

/// The `login` command's decision from the answers so far.
pub open spec fn login_decision(user: Seq<char>, base: Seq<char>, a: LoginAnswers) -> (Seq<EffectView>, Next<LoginQuestion>) {
    match a.portal_online {
        None => (Seq::empty(), Next::Ask(LoginQuestion::PortalOnline)),
        Some(false) => (seq![EffectView::Print(LineView::Failure(unreachable_text(base)))], Next::Exit(1)),
        Some(true) => match a.session_live {
            None => (Seq::empty(), Next::Ask(LoginQuestion::SessionLive)),
            Some(true) => (
                seq![EffectView::Print(LineView::Success("Already logged in as "@ + quoted(user) + "."@))],
                Next::Exit(0),
            ),
            Some(false) => match a.login {
                None => (
                    seq![EffectView::Print(LineView::Info("Logging in as "@ + quoted(user) + "..."@))],
                    Next::Ask(LoginQuestion::Login),
                ),
                Some(Ok(_)) => (
                    seq![
                        EffectView::Print(LineView::Success("Logged in as "@ + quoted(user) + "."@)),
                        EffectView::Notify("PESU WiFi"@, "Logged in as "@ + user, "normal"@),
                    ],
                    Next::Exit(0),
                ),
                Some(Err(msg)) => (
                    seq![
                        EffectView::Print(LineView::Failure("Login failed: "@ + msg@)),
                        EffectView::Notify("PESU WiFi Login Failed"@, msg@, "critical"@),
                    ],
                    Next::Exit(1),
                ),
            },
        },
    }
}

/// Decides the `login` command's next move.
pub fn cmd_login(user: &str, base: &str, answers: &LoginAnswers) -> (r: (Vec<Effect>, Next<LoginQuestion>))
    ensures
        (effects_view(r.0@), r.1) == login_decision(user@, base@, *answers),
{
    let mut effects: Vec<Effect> = Vec::new();
    let next = match answers.portal_online {
        None => Next::Ask(LoginQuestion::PortalOnline),
        Some(false) => {
            effects.push(say(Line::Failure(unreachable_message(base))));
            Next::Exit(1)
        },
        Some(true) => match answers.session_live {
            None => Next::Ask(LoginQuestion::SessionLive),
            Some(true) => {
                effects.push(say(Line::Success(cat3("Already logged in as ", quote(user).as_str(), "."))));
                Next::Exit(0)
            },
            Some(false) => match &answers.login {
                None => {
                    effects.push(say(Line::Info(cat3("Logging in as ", quote(user).as_str(), "..."))));
                    Next::Ask(LoginQuestion::Login)
                },
                Some(Ok(_)) => {
                    effects.push(say(Line::Success(cat3("Logged in as ", quote(user).as_str(), "."))));
                    effects.push(
                        Effect::Notify(
                            String::from_str("PESU WiFi"),
                            cat2("Logged in as ", user),
                            String::from_str("normal"),
                        ),
                    );
                    Next::Exit(0)
                },
                Some(Err(msg)) => {
                    effects.push(say(Line::Failure(cat2("Login failed: ", msg.as_str()))));
                    effects.push(
                        Effect::Notify(
                            String::from_str("PESU WiFi Login Failed"),
                            msg.clone(),
                            String::from_str("critical"),
                        ),
                    );
                    Next::Exit(1)
                },
            },
        },
    };
    assert(effects_view(effects@) =~= login_decision(user@, base@, *answers).0);
    (effects, next)
}

// ---------------------------------------------------------------------------
// logout
// ---------------------------------------------------------------------------

/// A question of the `logout` command.
pub enum LogoutQuestion {
    PortalOnline,
    SessionLive,
    Logout,
}

/// The answers the `logout` command has so far.
pub struct LogoutAnswers {
    pub portal_online: Option<bool>,
    pub session_live: Option<bool>,
    pub logout: Option<Result<String, String>>,
}

/// The `logout` command's decision; `user` is the active account, if any.
pub open spec fn logout_decision(user: Option<Seq<char>>, base: Seq<char>, a: LogoutAnswers) -> (Seq<EffectView>, Next<LogoutQuestion>) {
    let shown = match user {
        Some(u) => u,
        None => "user"@,
    };
    match a.portal_online {
        None => (Seq::empty(), Next::Ask(LogoutQuestion::PortalOnline)),
        Some(false) => (seq![EffectView::Print(LineView::Failure(unreachable_text(base)))], Next::Exit(1)),
        Some(true) => match a.session_live {
            None => (Seq::empty(), Next::Ask(LogoutQuestion::SessionLive)),
            Some(false) => (
                seq![EffectView::Print(LineView::Success("Already logged out. No active session found."@))],
                Next::Exit(0),
            ),
            Some(true) => match a.logout {
                None => (
                    seq![EffectView::Print(LineView::Info("Active session found. Logging out "@ + quoted(shown) + "..."@))],
                    Next::Ask(LogoutQuestion::Logout),
                ),
                Some(Ok(_)) => (
                    seq![
                        EffectView::Print(LineView::Success("Logged out successfully."@)),
                        EffectView::Notify("PESU WiFi"@, "Logged out successfully"@, "normal"@),
                    ],
                    Next::Exit(0),
                ),
                Some(Err(msg)) => (
                    seq![EffectView::Print(LineView::Failure("Logout failed: "@ + msg@))],
                    Next::Exit(1),
                ),
            },
        },
    }
}

/// Decides the `logout` command's next move.
pub fn cmd_logout(user: Option<&str>, base: &str, answers: &LogoutAnswers) -> (r: (Vec<Effect>, Next<LogoutQuestion>))
    ensures
        (effects_view(r.0@), r.1) == logout_decision(match user {
            Some(u) => Some(u@),
            None => None,
        }, base@, *answers),
{
    let shown = match user {
        Some(u) => u,
        None => "user",
    };
    let mut effects: Vec<Effect> = Vec::new();
    let next = match answers.portal_online {
        None => Next::Ask(LogoutQuestion::PortalOnline),
        Some(false) => {
            effects.push(say(Line::Failure(unreachable_message(base))));
            Next::Exit(1)
        },
        Some(true) => match answers.session_live {
            None => Next::Ask(LogoutQuestion::SessionLive),
            Some(false) => {
                effects.push(say(Line::Success(String::from_str("Already logged out. No active session found."))));
                Next::Exit(0)
            },
            Some(true) => match &answers.logout {
                None => {
                    effects.push(
                        say(Line::Info(cat3("Active session found. Logging out ", quote(shown).as_str(), "..."))),
                    );
                    Next::Ask(LogoutQuestion::Logout)
                },
                Some(Ok(_)) => {
                    effects.push(say(Line::Success(String::from_str("Logged out successfully."))));
                    effects.push(
                        Effect::Notify(
                            String::from_str("PESU WiFi"),
                            String::from_str("Logged out successfully"),
                            String::from_str("normal"),
                        ),
                    );
                    Next::Exit(0)
                },
                Some(Err(msg)) => {
                    effects.push(say(Line::Failure(cat2("Logout failed: ", msg.as_str()))));
                    Next::Exit(1)
                },
            },
        },
    };
    assert(effects_view(effects@) =~= logout_decision(match user {
        Some(u) => Some(u@),
        None => None,
    }, base@, *answers).0);
    (effects, next)
}


// ---------------------------------------------------------------------------
// start and stop
// ---------------------------------------------------------------------------

/// ` (PID: n)` for a known process id, else nothing.
pub open spec fn pid_suffix(pid: Option<u32>) -> Seq<char> {
    match pid {
        Some(p) => " (PID: "@ + decimal(p as nat) + ")"@,
        None => Seq::empty(),
    }
}

/// Renders the process id suffix of a daemon message.
pub fn pid_suffix_text(pid: Option<u32>) -> (r: String)
    ensures
        r@ == pid_suffix(pid),
{
    match pid {
        Some(p) => {
            let d = string_of(&decimal_exec(p as u128));
            cat3(" (PID: ", d.as_str(), ")")
        },
        None => String::new(),
    }
}

/// How the attempt to start the background service went.
pub enum ServiceStart {
    /// The service manager reported success.
    Started,
    /// The service manager reported failure, with its error and normal output.
    Failed(String, String),
    /// The service manager could not be run; the text says why.
    NotRun(String),
}

/// A question of the `start` command.
pub enum StartQuestion {
    /// Is a daemon running?
    DaemonStatus,
    /// Start the background service.
    StartService,
    /// After a short pause, is a daemon running now?
    DaemonStatusAfterPause,
    /// What did the service log last?
    RecentLog,
}

/// The answers the `start` command has so far.
pub struct StartAnswers {
    pub running: Option<(bool, Option<u32>)>,
    pub service: Option<ServiceStart>,
    pub running_after: Option<(bool, Option<u32>)>,
    pub recent_log: Option<String>,
}

/// The daemon's name in messages of the platform.
pub open spec fn daemon_name(platform: crate::wifi::Platform) -> Seq<char> {
    match platform {
        crate::wifi::Platform::Linux => "PESU WiFi daemon"@,
        crate::wifi::Platform::Windows => "PESU WiFi continuous daemon"@,
    }
}

fn daemon_name_text(platform: &crate::wifi::Platform) -> (r: String)
    ensures
        r@ == daemon_name(*platform),
{
    match platform {
        crate::wifi::Platform::Linux => String::from_str("PESU WiFi daemon"),
        crate::wifi::Platform::Windows => String::from_str("PESU WiFi continuous daemon"),
    }
}

/// The text the service manager's failure is reported with: its trimmed
/// error output, else its trimmed normal output.
pub open spec fn service_failure_text(stderr: Seq<char>, stdout: Seq<char>) -> Seq<char> {
    if trim(stderr).len() > 0 {
        trim(stderr)
    } else {
        trim(stdout)
    }
}

/// The `start` command's decision (after credentials were found and the
/// foreground case was ruled out).
pub open spec fn start_decision(platform: crate::wifi::Platform, a: StartAnswers) -> (Seq<EffectView>, Next<StartQuestion>) {
    let name = daemon_name(platform);
    match a.running {
        None => (Seq::empty(), Next::Ask(StartQuestion::DaemonStatus)),
        Some((true, pid)) => (
            seq![EffectView::Print(LineView::Success(name + " is already running"@ + pid_suffix(pid) + "."@))],
            Next::Exit(0),
        ),
        Some((false, _)) => match a.service {
            None => (
                seq![EffectView::Print(LineView::Info(
                    match platform {
                        crate::wifi::Platform::Linux => "Starting PESU WiFi daemon (systemd user service)..."@,
                        crate::wifi::Platform::Windows => "Starting PESU WiFi continuous daemon in background..."@,
                    },
                ))],
                Next::Ask(StartQuestion::StartService),
            ),
            Some(ServiceStart::Failed(err, out)) => (
                seq![EffectView::Print(LineView::Failure("Failed to start systemd service: "@ + service_failure_text(err@, out@)))],
                Next::Exit(1),
            ),
            Some(ServiceStart::NotRun(e)) => (
                seq![EffectView::Print(LineView::Failure("Error starting daemon: "@ + e@))],
                Next::Exit(1),
            ),
            Some(ServiceStart::Started) => match a.running_after {
                None => (Seq::empty(), Next::Ask(StartQuestion::DaemonStatusAfterPause)),
                Some((true, pid)) => (
                    seq![EffectView::Print(LineView::Success(name + " started successfully"@ + pid_suffix(pid) + "."@))],
                    Next::Exit(0),
                ),
                Some((false, _)) => match platform {
                    crate::wifi::Platform::Windows => (
                        seq![EffectView::Print(LineView::Warning("Daemon attempted to start but may have exited."@))],
                        Next::Exit(1),
                    ),
                    crate::wifi::Platform::Linux => match a.recent_log {
                        None => (
                            seq![EffectView::Print(LineView::Warning("Daemon attempted to start but may have exited."@))],
                            Next::Ask(StartQuestion::RecentLog),
                        ),
                        Some(log) => (
                            if trim(log@).len() > 0 {
                                seq![EffectView::Print(LineView::Quote(trim(log@)))]
                            } else {
                                Seq::empty()
                            },
                            Next::Exit(1),
                        ),
                    },
                },
            },
        },
    }
}

/// Decides the `start` command's next move.
pub fn cmd_start(platform: crate::wifi::Platform, answers: &StartAnswers) -> (r: (Vec<Effect>, Next<StartQuestion>))
    ensures
        (effects_view(r.0@), r.1) == start_decision(platform, *answers),
{
    let name = daemon_name_text(&platform);
    let mut effects: Vec<Effect> = Vec::new();
    let next = match &answers.running {
        None => Next::Ask(StartQuestion::DaemonStatus),
        Some((true, pid)) => {
            let m = cat3(name.as_str(), " is already running", pid_suffix_text(*pid).as_str());
            effects.push(say(Line::Success(cat2(m.as_str(), "."))));
            Next::Exit(0)
        },
        Some((false, _)) => match &answers.service {
            None => {
                let m = match platform {
                    crate::wifi::Platform::Linux => String::from_str("Starting PESU WiFi daemon (systemd user service)..."),
                    crate::wifi::Platform::Windows => String::from_str("Starting PESU WiFi continuous daemon in background..."),
                };
                effects.push(say(Line::Info(m)));
                Next::Ask(StartQuestion::StartService)
            },
            Some(ServiceStart::Failed(err, out)) => {
                let e = crate::text::trim_str(err.as_str());
                let msg = if e.len() > 0 {
                    string_of(&e)
                } else {
                    string_of(&crate::text::trim_str(out.as_str()))
                };
                effects.push(say(Line::Failure(cat2("Failed to start systemd service: ", msg.as_str()))));
                Next::Exit(1)
            },
            Some(ServiceStart::NotRun(e)) => {
                effects.push(say(Line::Failure(cat2("Error starting daemon: ", e.as_str()))));
                Next::Exit(1)
            },
            Some(ServiceStart::Started) => match &answers.running_after {
                None => Next::Ask(StartQuestion::DaemonStatusAfterPause),
                Some((true, pid)) => {
                    let m = cat3(name.as_str(), " started successfully", pid_suffix_text(*pid).as_str());
                    effects.push(say(Line::Success(cat2(m.as_str(), "."))));
                    Next::Exit(0)
                },
                Some((false, _)) => match platform {
                    crate::wifi::Platform::Windows => {
                        effects.push(say(Line::Warning(String::from_str("Daemon attempted to start but may have exited."))));
                        Next::Exit(1)
                    },
                    crate::wifi::Platform::Linux => match &answers.recent_log {
                        None => {
                            effects.push(say(Line::Warning(String::from_str("Daemon attempted to start but may have exited."))));
                            Next::Ask(StartQuestion::RecentLog)
                        },
                        Some(log) => {
                            let t = crate::text::trim_str(log.as_str());
                            if t.len() > 0 {
                                effects.push(say(Line::Quote(string_of(&t))));
                            }
                            Next::Exit(1)
                        },
                    },
                },
            },
        },
    };
    assert(effects_view(effects@) =~= start_decision(platform, *answers).0);
    (effects, next)
}

/// What `start` does before anything else: without both credentials it
/// fails with a hint; otherwise it goes on (`None`).
pub open spec fn start_precheck(credentials: (Option<Seq<char>>, Option<Seq<char>>)) -> Option<Seq<EffectView>> {
    if credentials.0 is Some && credentials.1 is Some {
        None
    } else {
        Some(
            seq![
                EffectView::Print(LineView::Failure("No credentials configured."@)),
                EffectView::Print(LineView::Hint("  Run 'pesu-wifi add' first to save credentials."@)),
            ],
        )
    }
}

/// How the `start` command begins.
pub enum StartPlan {
    /// Print these effects and end with this exit code.
    Refuse(Vec<Effect>, i32),
    /// Run the watchdog in this process; the command does not return.
    Foreground,
    /// Go on in the background, with the questions of [`cmd_start`].
    Background,
}

/// Decides how `start` begins: without both credentials it fails with a hint
/// and exit code 1; otherwise it runs the watchdog in the foreground when
/// asked, and else goes on to start it in the background.
pub fn start_plan(cfg: &Config, foreground: bool) -> (r: StartPlan)
    ensures
        match r {
            StartPlan::Refuse(es, code) => start_precheck(active_credentials(cfg)) == Some(effects_view(es@))
                && code == 1,
            StartPlan::Foreground => start_precheck(active_credentials(cfg)) is None && foreground,
            StartPlan::Background => start_precheck(active_credentials(cfg)) is None && !foreground,
        },
{
    let (u, p) = get_active_credentials(cfg);
    if u.is_some() && p.is_some() {
        if foreground {
            StartPlan::Foreground
        } else {
            StartPlan::Background
        }
    } else {
        let mut es: Vec<Effect> = Vec::new();
        es.push(say(Line::Failure(String::from_str("No credentials configured."))));
        es.push(say(Line::Hint(String::from_str("  Run 'pesu-wifi add' first to save credentials."))));
        assert(effects_view(es@) =~= seq![
            EffectView::Print(LineView::Failure("No credentials configured."@)),
            EffectView::Print(LineView::Hint("  Run 'pesu-wifi add' first to save credentials."@)),
        ]);
        StartPlan::Refuse(es, 1)
    }
}

/// What `stop` reports once it has stopped the service and looked again.
pub open spec fn stop_report(still_running: bool) -> Seq<EffectView> {
    if still_running {
        seq![EffectView::Print(LineView::Warning("Daemon process may still be stopping."@))]
    } else {
        seq![EffectView::Print(LineView::Success("PESU WiFi daemon stopped."@))]
    }
}

/// Reports the outcome of `stop`; the command always exits with 0.
pub fn cmd_stop(still_running: bool) -> (r: Vec<Effect>)
    ensures
        effects_view(r@) == stop_report(still_running),
{
    let mut es: Vec<Effect> = Vec::new();
    if still_running {
        es.push(say(Line::Warning(String::from_str("Daemon process may still be stopping."))));
    } else {
        es.push(say(Line::Success(String::from_str("PESU WiFi daemon stopped."))));
    }
    assert(effects_view(es@) =~= stop_report(still_running));
    es
}


// ---------------------------------------------------------------------------
// Account commands
// ---------------------------------------------------------------------------

/// What `add` reports for the account `user` (trimmed) after saving it.
pub open spec fn add_report(user: Seq<char>, existed: bool) -> Seq<char> {
    (if existed { "Updated"@ } else { "Saved"@ }) + " credentials for "@ + quoted(user)
        + ". Set as active account."@
}

/// The `add` command: saves the account, makes it active, saves the
/// configuration and reports; refuses empty names and passwords.
pub fn cmd_add(cfg: &mut Config, username: &str, password: &str) -> (r: (Vec<Effect>, i32))
    ensures
        trim(username@).len() == 0 ==> effects_view(r.0@) == seq![EffectView::Print(LineView::Failure("Username cannot be empty."@))] && r.1 == 1,
        trim(username@).len() > 0 && trim(password@).len() == 0 ==> effects_view(r.0@) == seq![EffectView::Print(LineView::Failure("Password cannot be empty."@))] && r.1 == 1,
        trim(username@).len() > 0 && trim(password@).len() > 0 ==> {
            &&& effects_view(r.0@) == seq![
                EffectView::SaveConfigOrExit,
                EffectView::Print(LineView::Success(add_report(trim(username@), old(cfg).accounts@.contains_key(trim(username@))))),
            ]
            &&& r.1 == 0
            &&& final(cfg).accounts@ == old(cfg).accounts@.insert(trim(username@), trim(password@))
            &&& opt_text(final(cfg).active_user) == Some(trim(username@))
        },
        r.1 == 1 ==> *final(cfg) == *old(cfg),
{
    let mut es: Vec<Effect> = Vec::new();
    match add_account(cfg, username, password) {
        Err(AccountError::EmptyUsername) => {
            es.push(say(Line::Failure(String::from_str("Username cannot be empty."))));
            assert(effects_view(es@) =~= seq![EffectView::Print(LineView::Failure("Username cannot be empty."@))]);
            (es, 1)
        },
        Err(_) => {
            es.push(say(Line::Failure(String::from_str("Password cannot be empty."))));
            assert(effects_view(es@) =~= seq![EffectView::Print(LineView::Failure("Password cannot be empty."@))]);
            (es, 1)
        },
        Ok(existed) => {
            let user = string_of(&crate::text::trim_str(username));
            let action = if existed { String::from_str("Updated") } else { String::from_str("Saved") };
            let a = cat3(action.as_str(), " credentials for ", quote(user.as_str()).as_str());
            es.push(Effect::SaveConfigOrExit);
            es.push(say(Line::Success(cat2(a.as_str(), ". Set as active account."))));
            assert(effects_view(es@) =~= seq![
                EffectView::SaveConfigOrExit,
                EffectView::Print(LineView::Success(add_report(trim(username@), existed))),
            ]);
            (es, 0)
        },
    }
}

/// The `del` command: removes the account, switches the active account when
/// it was the removed one, saves the configuration and reports.
pub fn cmd_del(cfg: &mut Config, username: &str) -> (r: (Vec<Effect>, i32))
    ensures
        trim(username@).len() == 0 ==> effects_view(r.0@) == seq![EffectView::Print(LineView::Failure("Username cannot be empty."@))] && r.1 == 1,
        trim(username@).len() > 0 && !old(cfg).accounts@.contains_key(trim(username@)) ==> effects_view(r.0@) == seq![
            EffectView::Print(LineView::Failure("Account "@ + quoted(trim(username@)) + " not found in saved accounts."@)),
        ] && r.1 == 1,
        trim(username@).len() > 0 && old(cfg).accounts@.contains_key(trim(username@)) ==> {
            &&& r.1 == 0
            &&& final(cfg).accounts@ == old(cfg).accounts@.remove(trim(username@))
            &&& effects_view(r.0@).last() == EffectView::Print(LineView::Success("Removed credentials for "@ + quoted(trim(username@)) + "."@))
            &&& effects_view(r.0@).drop_last().last() == EffectView::SaveConfigOrExit
            &&& (effects_view(r.0@).len() == 3 <==> (opt_text(old(cfg).active_user) == Some(trim(username@)) && final(cfg).active_user is Some))
            &&& effects_view(r.0@).len() == 3 ==> effects_view(r.0@)[0] == EffectView::Print(LineView::Info(
                "Active account switched to "@ + quoted(final(cfg).active_user->0@) + "."@))
            &&& opt_text(old(cfg).active_user) != Some(trim(username@)) ==> final(cfg).active_user == old(cfg).active_user
            &&& (opt_text(old(cfg).active_user) == Some(trim(username@)) && final(cfg).active_user is Some)
                ==> final(cfg).accounts@.contains_key(final(cfg).active_user->0@)
            &&& final(cfg).preferred_ssid == old(cfg).preferred_ssid
        },
        r.1 == 1 ==> *final(cfg) == *old(cfg),
{
    let mut es: Vec<Effect> = Vec::new();
    let user = string_of(&crate::text::trim_str(username));
    match remove_account(cfg, username) {
        Err(AccountError::EmptyUsername) => {
            es.push(say(Line::Failure(String::from_str("Username cannot be empty."))));
            assert(effects_view(es@) =~= seq![EffectView::Print(LineView::Failure("Username cannot be empty."@))]);
            (es, 1)
        },
        Err(_) => {
            es.push(say(Line::Failure(cat3("Account ", quote(user.as_str()).as_str(), " not found in saved accounts."))));
            assert(effects_view(es@) =~= seq![
                EffectView::Print(LineView::Failure("Account "@ + quoted(trim(username@)) + " not found in saved accounts."@)),
            ]);
            (es, 1)
        },
        Ok(switched) => {
            match &switched {
                Some(next) => {
                    es.push(say(Line::Info(cat3("Active account switched to ", quote(next.as_str()).as_str(), "."))));
                },
                None => {},
            }
            es.push(Effect::SaveConfigOrExit);
            es.push(say(Line::Success(cat3("Removed credentials for ", quote(user.as_str()).as_str(), "."))));
            (es, 0)
        },
    }
}

/// The `select` command: makes the account active, saves the configuration
/// (ignoring failure) and reports.
pub fn cmd_select(cfg: &mut Config, username: &str) -> (r: (Vec<Effect>, i32))
    ensures
        old(cfg).accounts@.dom().len() == 0 ==> effects_view(r.0@) == seq![
            EffectView::Print(LineView::Failure("No saved accounts. Run 'pesu-wifi add' first."@)),
        ] && r.1 == 1,
        old(cfg).accounts@.dom().len() > 0 && !old(cfg).accounts@.contains_key(trim(username@)) ==> effects_view(r.0@) == seq![
            EffectView::Print(LineView::Failure("Account "@ + quoted(trim(username@)) + " not found. Run 'pesu-wifi list' to see saved accounts."@)),
        ] && r.1 == 1,
        old(cfg).accounts@.dom().len() > 0 && old(cfg).accounts@.contains_key(trim(username@)) ==> {
            &&& effects_view(r.0@) == seq![
                EffectView::SaveConfig,
                EffectView::Print(LineView::Success("Default account set to "@ + quoted(trim(username@)) + "."@)),
            ]
            &&& r.1 == 0
            &&& opt_text(final(cfg).active_user) == Some(trim(username@))
            &&& final(cfg).accounts == old(cfg).accounts
            &&& final(cfg).preferred_ssid == old(cfg).preferred_ssid
        },
        r.1 == 1 ==> *final(cfg) == *old(cfg),
{
    let mut es: Vec<Effect> = Vec::new();
    let user = string_of(&crate::text::trim_str(username));
    match select_account(cfg, username) {
        Err(AccountError::NoAccounts) => {
            es.push(say(Line::Failure(String::from_str("No saved accounts. Run 'pesu-wifi add' first."))));
            assert(effects_view(es@) =~= seq![
                EffectView::Print(LineView::Failure("No saved accounts. Run 'pesu-wifi add' first."@)),
            ]);
            (es, 1)
        },
        Err(_) => {
            es.push(say(Line::Failure(cat3("Account ", quote(user.as_str()).as_str(), " not found. Run 'pesu-wifi list' to see saved accounts."))));
            assert(effects_view(es@) =~= seq![
                EffectView::Print(LineView::Failure("Account "@ + quoted(trim(username@)) + " not found. Run 'pesu-wifi list' to see saved accounts."@)),
            ]);
            (es, 1)
        },
        Ok(()) => {
            es.push(Effect::SaveConfig);
            es.push(say(Line::Success(cat3("Default account set to ", quote(user.as_str()).as_str(), "."))));
            assert(effects_view(es@) =~= seq![
                EffectView::SaveConfig,
                EffectView::Print(LineView::Success("Default account set to "@ + quoted(trim(username@)) + "."@)),
            ]);
            (es, 0)
        },
    }
}

/// A saved account as the listing shows it.
pub struct AccountRow {
    pub user: String,
    pub password: String,
    pub active: bool,
}

/// `rows` are the saved accounts in their order, each with its password and
/// whether it is the active account.
pub open spec fn lists_accounts(cfg: &Config, rows: Seq<AccountRow>) -> bool {
    &&& cfg.accounts.key_order().no_duplicates()
    &&& forall|k: Seq<char>| #[trigger] cfg.accounts@.contains_key(k) <==> cfg.accounts.key_order().contains(k)
    &&& rows.len() == cfg.accounts.key_order().len()
    &&& forall|i: int| 0 <= i < rows.len() ==> {
        &&& #[trigger] rows[i].user@ == cfg.accounts.key_order()[i]
        &&& rows[i].password@ == cfg.accounts@[rows[i].user@]
        &&& rows[i].active == (opt_text(cfg.active_user) == Some(rows[i].user@))
    }
}

/// The saved accounts in their order, each with its password and whether it
/// is the active account.
pub fn cmd_list(cfg: &Config) -> (rows: Vec<AccountRow>)
    ensures
        lists_accounts(cfg, rows@),
{
    let n = cfg.accounts.len();
    let mut rows: Vec<AccountRow> = Vec::new();
    let mut i: usize = 0;
    while i < n
        invariant
            n == cfg.accounts.key_order().len(),
            i <= n,
            rows@.len() == i,
            forall|j: int| 0 <= j < i ==> {
                &&& #[trigger] rows@[j].user@ == cfg.accounts.key_order()[j]
                &&& rows@[j].password@ == cfg.accounts@[rows@[j].user@]
                &&& rows@[j].active == (opt_text(cfg.active_user) == Some(rows@[j].user@))
            },
        decreases n - i,
    {
        let (u, p) = cfg.accounts.entry_at(i);
        let active = match &cfg.active_user {
            Some(a) => *a == *u,
            None => false,
        };
        rows.push(AccountRow { user: u.clone(), password: p.clone(), active });
        i = i + 1;
    }
    rows
}


// ---------------------------------------------------------------------------
// status
// ---------------------------------------------------------------------------

/// The rows of the status card: the gateway with its reachability, the Wi-Fi
/// network, the session state, the active account and the daemon.
pub open spec fn status_values(
    on: bool,
    base: Seq<char>,
    portal_alive: bool,
    session_live: bool,
    wifi: Seq<char>,
    user: Option<Seq<char>>,
    daemon_active: bool,
    daemon_pid: Option<u32>,
) -> Seq<(Seq<char>, Seq<char>)> {
    let gw = base + " "@ + if portal_alive {
        colored(on, GREEN@, "[Online]"@)
    } else {
        colored(on, RED@, "[Unreachable]"@)
    };
    let state = if !portal_alive {
        colored(on, BOLD@ + RED@, "UNREACHABLE"@)
    } else if session_live {
        colored(on, BOLD@ + GREEN@, "LOGGED IN"@)
    } else {
        colored(on, BOLD@ + YELLOW@, "SIGNED OUT"@)
    };
    let acc = match user {
        Some(u) => colored(on, GREEN@, u),
        None => colored(on, YELLOW@, "(None — run 'pesu-wifi add')"@),
    };
    let polling = " [polling: "@ + decimal(crate::daemon::KEEP_ALIVE_INTERVAL as nat) + "s]"@;
    let daemon = if daemon_active {
        colored(on, GREEN@, "Active"@) + colored(on, DIM@, pid_suffix(daemon_pid)) + colored(on, DIM@, polling)
    } else {
        colored(on, DIM@, "Inactive"@ + polling)
    };
    seq![
        ("Portal Gateway"@, gw),
        ("Wi-Fi Network"@, wifi),
        ("Session State"@, state),
        ("Active Account"@, acc),
        ("Daemon Watcher"@, daemon),
    ]
}

fn row(label: &str, value: String) -> (r: (String, String))
    ensures
        r.0@ == label@,
        r.1@ == value@,
{
    (String::from_str(label), value)
}

/// Computes the rows of the status card (the session state only counts when
/// the gateway answered).
pub fn status_rows(
    on: bool,
    base: &str,
    portal_alive: bool,
    session_live: bool,
    wifi: &str,
    user: Option<&str>,
    daemon_active: bool,
    daemon_pid: Option<u32>,
) -> (r: Vec<(String, String)>)
    ensures
        crate::ui::rows_text(r@) == status_values(
            on,
            base@,
            portal_alive,
            session_live,
            wifi@,
            match user {
                Some(u) => Some(u@),
                None => None,
            },
            daemon_active,
            daemon_pid,
        ),
{
    let tag = if portal_alive { color(on, GREEN, "[Online]") } else { color(on, RED, "[Unreachable]") };
    let gw = cat3(base, " ", tag.as_str());
    let state = if !portal_alive {
        color(on, cat2(BOLD, RED).as_str(), "UNREACHABLE")
    } else if session_live {
        color(on, cat2(BOLD, GREEN).as_str(), "LOGGED IN")
    } else {
        color(on, cat2(BOLD, YELLOW).as_str(), "SIGNED OUT")
    };
    let acc = match user {
        Some(u) => color(on, GREEN, u),
        None => color(on, YELLOW, "(None — run 'pesu-wifi add')"),
    };
    let interval = string_of(&decimal_exec(crate::daemon::KEEP_ALIVE_INTERVAL as u128));
    let polling = cat3(" [polling: ", interval.as_str(), "s]");
    let daemon = if daemon_active {
        let a = color(on, GREEN, "Active");
        let b = color(on, DIM, pid_suffix_text(daemon_pid).as_str());
        let c = color(on, DIM, polling.as_str());
        cat3(a.as_str(), b.as_str(), c.as_str())
    } else {
        color(on, DIM, cat2("Inactive", polling.as_str()).as_str())
    };
    let mut r: Vec<(String, String)> = Vec::new();
    r.push(row("Portal Gateway", gw));
    r.push(row("Wi-Fi Network", String::from_str(wifi)));
    r.push(row("Session State", state));
    r.push(row("Active Account", acc));
    r.push(row("Daemon Watcher", daemon));
    assert(crate::ui::rows_text(r@) =~= status_values(
        on,
        base@,
        portal_alive,
        session_live,
        wifi@,
        match user {
            Some(u) => Some(u@),
            None => None,
        },
        daemon_active,
        daemon_pid,
    ));
    r
}

// ---------------------------------------------------------------------------
// Rendering
// ---------------------------------------------------------------------------

/// The text a line is printed as, and whether it goes to standard error:
/// successes, failures, progress and warnings get their sign and colour,
/// hints and quotes only a colour.
pub open spec fn line_text(on: bool, line: LineView) -> (Seq<char>, bool) {
    match line {
        LineView::Success(s) => (colored(on, GREEN@, "✔  "@ + s), false),
        LineView::Failure(s) => (colored(on, RED@, "✖  "@ + s), true),
        LineView::Info(s) => (colored(on, CYAN@, "➜  "@ + s), false),
        LineView::Warning(s) => (colored(on, YELLOW@, "⚠  "@ + s), false),
        LineView::Hint(s) => (colored(on, YELLOW@, s), false),
        LineView::Quote(s) => (colored(on, DIM@, s), false),
    }
}

/// Renders a line; the flag tells whether it goes to standard error.
pub fn render_line(on: bool, line: &Line) -> (r: (String, bool))
    ensures
        (r.0@, r.1) == line_text(on, line@),
{
    match line {
        Line::Success(s) => (color(on, GREEN, cat2("✔  ", s.as_str()).as_str()), false),
        Line::Failure(s) => (color(on, RED, cat2("✖  ", s.as_str()).as_str()), true),
        Line::Info(s) => (color(on, CYAN, cat2("➜  ", s.as_str()).as_str()), false),
        Line::Warning(s) => (color(on, YELLOW, cat2("⚠  ", s.as_str()).as_str()), false),
        Line::Hint(s) => (color(on, YELLOW, s.as_str()), false),
        Line::Quote(s) => (color(on, DIM, s.as_str()), false),
    }
}

/// One line of the account listing: a bullet (green for the active account),
/// the user name (bold when active), an `[active]` marker and, when asked
/// for, the password.
pub open spec fn account_line(on: bool, user: Seq<char>, password: Seq<char>, active: bool, show_passwords: bool) -> Seq<char> {
    let bullet = if active { colored(on, GREEN@, "•"@) } else { colored(on, DIM@, "•"@) };
    let name = if active { colored(on, BOLD@, user) } else { user };
    let marker = if active { colored(on, CYAN@, " [active]"@) } else { Seq::empty() };
    let pwd = if show_passwords { "  "@ + colored(on, DIM@, password) } else { Seq::empty() };
    "  "@ + bullet + " "@ + name + marker + pwd
}

/// The texts of listed accounts.
pub open spec fn rows_view(rows: Seq<AccountRow>) -> Seq<(Seq<char>, Seq<char>, bool)> {
    rows.map_values(|r: AccountRow| (r.user@, r.password@, r.active))
}

/// The account listing, line by line: a heading, then one line per account
/// and an empty line, or a hint when no account is saved.
pub open spec fn account_listing(on: bool, rows: Seq<(Seq<char>, Seq<char>, bool)>, show_passwords: bool) -> Seq<Seq<char>> {
    let heading = colored(on, BOLD@ + CYAN@, "\nSaved Accounts:"@);
    if rows.len() == 0 {
        seq![heading, colored(on, DIM@, "  No accounts saved. Run 'pesu-wifi add' to add one.\n"@)]
    } else {
        seq![heading] + rows.map_values(
            |r: (Seq<char>, Seq<char>, bool)| account_line(on, r.0, r.1, r.2, show_passwords),
        ) + seq![Seq::<char>::empty()]
    }
}

fn render_account(on: bool, row: &AccountRow, show_passwords: bool) -> (r: String)
    ensures
        r@ == account_line(on, row.user@, row.password@, row.active, show_passwords),
{
    let bullet = if row.active { color(on, GREEN, "•") } else { color(on, DIM, "•") };
    let name = if row.active { color(on, BOLD, row.user.as_str()) } else { row.user.clone() };
    let marker = if row.active { color(on, CYAN, " [active]") } else { String::new() };
    let pwd = if show_passwords {
        cat2("  ", color(on, DIM, row.password.as_str()).as_str())
    } else {
        String::new()
    };
    let a = cat3("  ", bullet.as_str(), " ");
    let b = cat3(a.as_str(), name.as_str(), marker.as_str());
    cat2(b.as_str(), pwd.as_str())
}

/// Lays out the account listing (see [`account_listing`]).
pub fn render_account_listing(on: bool, rows: &Vec<AccountRow>, show_passwords: bool) -> (lines: Vec<String>)
    ensures
        lines@.map_values(|l: String| l@) == account_listing(on, rows_view(rows@), show_passwords),
{
    let heading = color(on, cat2(BOLD, CYAN).as_str(), "\nSaved Accounts:");
    let mut lines: Vec<String> = Vec::new();
    lines.push(heading);
    if rows.len() == 0 {
        lines.push(color(on, DIM, "  No accounts saved. Run 'pesu-wifi add' to add one.\n"));
        assert(lines@.map_values(|l: String| l@) =~= account_listing(on, rows_view(rows@), show_passwords));
        return lines;
    }
    let ghost listed = rows_view(rows@).map_values(
        |r: (Seq<char>, Seq<char>, bool)| account_line(on, r.0, r.1, r.2, show_passwords),
    );
    let mut i: usize = 0;
    while i < rows.len()
        invariant
            i <= rows@.len(),
            listed == rows_view(rows@).map_values(
                |r: (Seq<char>, Seq<char>, bool)| account_line(on, r.0, r.1, r.2, show_passwords),
            ),
            lines@.len() == i + 1,
            lines@[0]@ == colored(on, BOLD@ + CYAN@, "\nSaved Accounts:"@),
            forall|j: int| 1 <= j <= i ==> #[trigger] lines@[j]@ == listed[j - 1],
        decreases rows@.len() - i,
    {
        let line = render_account(on, &rows[i], show_passwords);
        lines.push(line);
        i = i + 1;
    }
    lines.push(String::new());
    assert(account_listing(on, rows_view(rows@), show_passwords) == seq![
        colored(on, BOLD@ + CYAN@, "\nSaved Accounts:"@),
    ] + listed + seq![Seq::<char>::empty()]);
    assert(lines@.map_values(|l: String| l@) =~= account_listing(on, rows_view(rows@), show_passwords));
    lines
}

/// One entry of the account menu: its number (dim), the user name and an
/// `[active]` marker.
pub open spec fn menu_line(on: bool, n: nat, user: Seq<char>, active: bool) -> Seq<char> {
    "  "@ + colored(on, DIM@, decimal(n) + "."@) + " "@ + user + if active {
        colored(on, CYAN@, " [active]"@)
    } else {
        Seq::empty()
    }
}

/// The account menu, line by line: a heading, then the accounts numbered
/// from 1.
pub open spec fn account_menu(on: bool, rows: Seq<(Seq<char>, Seq<char>, bool)>) -> Seq<Seq<char>> {
    seq![colored(on, BOLD@, "Select default account:"@)] + Seq::new(
        rows.len(),
        |i: int| menu_line(on, (i + 1) as nat, rows[i].0, rows[i].2),
    )
}

/// Lays out the account menu (see [`account_menu`]).
pub fn render_account_menu(on: bool, rows: &Vec<AccountRow>) -> (lines: Vec<String>)
    ensures
        lines@.map_values(|l: String| l@) == account_menu(on, rows_view(rows@)),
{
    let mut lines: Vec<String> = Vec::new();
    lines.push(color(on, BOLD, "Select default account:"));
    let ghost rv = rows_view(rows@);
    let mut i: usize = 0;
    while i < rows.len()
        invariant
            i <= rows@.len(),
            rv == rows_view(rows@),
            lines@.len() == i + 1,
            lines@[0]@ == colored(on, BOLD@, "Select default account:"@),
            forall|j: int| 0 <= j < i ==> #[trigger] lines@[j + 1]@ == menu_line(on, (j + 1) as nat, rv[j].0, rv[j].2),
        decreases rows@.len() - i,
    {
        let n = string_of(&decimal_exec((i as u128) + 1));
        let number = color(on, DIM, cat2(n.as_str(), ".").as_str());
        let marker = if rows[i].active { color(on, CYAN, " [active]") } else { String::new() };
        let a = cat3("  ", number.as_str(), " ");
        let line = cat3(a.as_str(), rows[i].user.as_str(), marker.as_str());
        lines.push(line);
        i = i + 1;
    }
    assert(lines@.map_values(|l: String| l@) =~= account_menu(on, rows_view(rows@)));
    lines
}

proof fn lemma_same_keys_same_lines(k1: Seq<Seq<char>>, k2: Seq<Seq<char>>, g: spec_fn(Seq<char>) -> Seq<char>)
    requires
        k1.no_duplicates(),
        k2.no_duplicates(),
        forall|x: Seq<char>| k1.contains(x) <==> k2.contains(x),
    ensures
        k1.map_values(g).to_multiset() =~= k2.map_values(g).to_multiset(),
    decreases k1.len(),
{
    broadcast use vstd::seq_lib::group_to_multiset_ensures;
    broadcast use vstd::multiset::group_multiset_axioms;

    if k1.len() == 0 {
        if k2.len() > 0 {
            assert(k2.contains(k2[0]));
        }
        assert(k1.map_values(g) =~= Seq::<Seq<char>>::empty());
        assert(k2.map_values(g) =~= Seq::<Seq<char>>::empty());
    } else {
        let x = k1.last();
        assert(k1.contains(x)) by {
            assert(k1[k1.len() - 1] == x);
        }
        let i = choose|i: int| 0 <= i < k2.len() && k2[i] == x;
        let k1r = k1.drop_last();
        let k2r = k2.remove(i);
        assert forall|y: Seq<char>| k1r.contains(y) <==> k2r.contains(y) by {
            if k1r.contains(y) {
                let a = choose|a: int| 0 <= a < k1r.len() && k1r[a] == y;
                assert(k1[a] == y);
                assert(y != x);
                assert(k1.contains(y));
                let b = choose|b: int| 0 <= b < k2.len() && k2[b] == y;
                assert(b != i);
                if b < i {
                    assert(k2r[b] == y);
                } else {
                    assert(k2r[b - 1] == y);
                }
            }
            if k2r.contains(y) {
                let b = choose|b: int| 0 <= b < k2r.len() && k2r[b] == y;
                if b < i {
                    assert(k2[b] == y);
                    assert(b != i);
                } else {
                    assert(k2[b + 1] == y);
                    assert(b + 1 != i);
                }
                assert(y != x);
                assert(k2.contains(y));
                let a = choose|a: int| 0 <= a < k1.len() && k1[a] == y;
                assert(a != k1.len() - 1);
                assert(k1r[a] == y);
            }
        }
        assert(k2r.no_duplicates()) by {
            assert forall|p: int, q: int| 0 <= p < k2r.len() && 0 <= q < k2r.len() && p != q implies k2r[p] != k2r[q] by {
                let pp = if p < i { p } else { p + 1 };
                let qq = if q < i { q } else { q + 1 };
                assert(k2r[p] == k2[pp]);
                assert(k2r[q] == k2[qq]);
            }
        }
        lemma_same_keys_same_lines(k1r, k2r, g);
        assert(k1.map_values(g) =~= k1r.map_values(g).push(g(x)));
        assert(k2r.map_values(g) =~= k2.map_values(g).remove(i));
        assert(k2.map_values(g)[i] == g(x));
        assert(k2.map_values(g).remove(i).to_multiset() == k2.map_values(g).to_multiset().remove(g(x)));
        assert(k2.map_values(g).contains(g(x)));
        assert(k2.map_values(g).to_multiset().count(g(x)) > 0);
    }
}

/// The line an account is listed with when passwords are not shown.
pub open spec fn account_line_without_password(on: bool, active_user: Option<Seq<char>>) -> spec_fn(Seq<char>) -> Seq<char> {
    |u: Seq<char>| account_line(on, u, Seq::empty(), active_user == Some(u), false)
}

proof fn lemma_listed_lines(on: bool, cfg: &Config, rows: Seq<AccountRow>)
    requires
        lists_accounts(cfg, rows),
    ensures
        account_listing(on, rows_view(rows), false) == seq![colored(on, BOLD@ + CYAN@, "\nSaved Accounts:"@)]
            + cfg.accounts.key_order().map_values(account_line_without_password(on, opt_text(cfg.active_user)))
            + seq![Seq::<char>::empty()] || (rows.len() == 0 && account_listing(on, rows_view(rows), false) == seq![
            colored(on, BOLD@ + CYAN@, "\nSaved Accounts:"@),
            colored(on, DIM@, "  No accounts saved. Run 'pesu-wifi add' to add one.\n"@),
        ]),
{
    let f = |r: (Seq<char>, Seq<char>, bool)| account_line(on, r.0, r.1, r.2, false);
    let g = account_line_without_password(on, opt_text(cfg.active_user));
    assert(rows_view(rows).map_values(f) =~= cfg.accounts.key_order().map_values(g));
}

/// Without `-p` the account listing shows no password: two configurations
/// with the same account names and the same active account are listed in the
/// same lines, whatever their passwords (in the same order when the accounts
/// were saved in the same order, and otherwise as the same lines in another
/// order).
pub proof fn lemma_listing_hides_passwords(
    on: bool,
    c1: &Config,
    c2: &Config,
    rows1: Seq<AccountRow>,
    rows2: Seq<AccountRow>,
)
    requires
        lists_accounts(c1, rows1),
        lists_accounts(c2, rows2),
        c1.accounts@.dom() == c2.accounts@.dom(),
        opt_text(c1.active_user) == opt_text(c2.active_user),
    ensures
        account_listing(on, rows_view(rows1), false).to_multiset() == account_listing(
            on,
            rows_view(rows2),
            false,
        ).to_multiset(),
        c1.accounts.key_order() == c2.accounts.key_order() ==> account_listing(on, rows_view(rows1), false)
            == account_listing(on, rows_view(rows2), false),
{
    broadcast use vstd::seq_lib::group_to_multiset_ensures;
    broadcast use vstd::multiset::group_multiset_axioms;

    let g = account_line_without_password(on, opt_text(c1.active_user));
    let k1 = c1.accounts.key_order();
    let k2 = c2.accounts.key_order();
    assert forall|x: Seq<char>| k1.contains(x) <==> k2.contains(x) by {
        assert(c1.accounts@.contains_key(x) == k1.contains(x));
        assert(c2.accounts@.contains_key(x) == k2.contains(x));
        assert(c1.accounts@.dom().contains(x) == c2.accounts@.dom().contains(x));
    }
    lemma_listed_lines(on, c1, rows1);
    lemma_listed_lines(on, c2, rows2);
    if rows1.len() == 0 || rows2.len() == 0 {
        if rows1.len() > 0 {
            assert(k1.contains(k1[0]));
        }
        if rows2.len() > 0 {
            assert(k2.contains(k2[0]));
        }
        assert(rows1.len() == 0 && rows2.len() == 0);
        assert(rows_view(rows1) =~= rows_view(rows2));
    } else {
        lemma_same_keys_same_lines(k1, k2, g);
        let h = seq![colored(on, BOLD@ + CYAN@, "\nSaved Accounts:"@)];
        let e = seq![Seq::<char>::empty()];
        vstd::seq_lib::lemma_multiset_commutative(h + k1.map_values(g), e);
        vstd::seq_lib::lemma_multiset_commutative(h, k1.map_values(g));
        vstd::seq_lib::lemma_multiset_commutative(h + k2.map_values(g), e);
        vstd::seq_lib::lemma_multiset_commutative(h, k2.map_values(g));
    }
}

/// The status card's gateway row tells whether the gateway answered: the
/// base address, a space and a green `[Online]` when it did, a red
/// `[Unreachable]` when it did not, so the two cases always read differently;
/// and without the gateway the session state reads `UNREACHABLE`.
pub proof fn lemma_gateway_row(
    on: bool,
    base: Seq<char>,
    session_live: bool,
    wifi: Seq<char>,
    user: Option<Seq<char>>,
    daemon_active: bool,
    daemon_pid: Option<u32>,
)
    ensures
        status_values(on, base, true, session_live, wifi, user, daemon_active, daemon_pid)[0] == (
            "Portal Gateway"@,
            base + " "@ + colored(on, GREEN@, "[Online]"@),
        ),
        status_values(on, base, false, session_live, wifi, user, daemon_active, daemon_pid)[0] == (
            "Portal Gateway"@,
            base + " "@ + colored(on, RED@, "[Unreachable]"@),
        ),
        status_values(on, base, true, session_live, wifi, user, daemon_active, daemon_pid)[0].1
            != status_values(on, base, false, session_live, wifi, user, daemon_active, daemon_pid)[0].1,
        status_values(on, base, false, session_live, wifi, user, daemon_active, daemon_pid)[2] == (
            "Session State"@,
            colored(on, BOLD@ + RED@, "UNREACHABLE"@),
        ),
{
    reveal_strlit("[Online]");
    reveal_strlit("[Unreachable]");
    reveal_strlit("\x1b[92m");
    reveal_strlit("\x1b[91m");
    reveal_strlit("\x1b[0m");
    let a = base + " "@ + colored(on, GREEN@, "[Online]"@);
    let b = base + " "@ + colored(on, RED@, "[Unreachable]"@);
    assert(a.len() != b.len());
}

/// Without the gateway, `logout` fails at once: whatever else is known, it
/// prints that the gateway is unreachable and exits with 1, asking nothing
/// more. The same holds of `login`.
pub proof fn lemma_unreachable_gateway_ends_commands(
    user: Option<Seq<char>>,
    login_user: Seq<char>,
    base: Seq<char>,
    logout: LogoutAnswers,
    login: LoginAnswers,
)
    requires
        logout.portal_online == Some(false),
        login.portal_online == Some(false),
    ensures
        logout_decision(user, base, logout) == (
            seq![EffectView::Print(LineView::Failure(
                "Portal gateway ("@ + base + ") is unreachable. Check your Wi-Fi connection."@,
            ))],
            Next::<LogoutQuestion>::Exit(1),
        ),
        login_decision(login_user, base, login) == (
            seq![EffectView::Print(LineView::Failure(
                "Portal gateway ("@ + base + ") is unreachable. Check your Wi-Fi connection."@,
            ))],
            Next::<LoginQuestion>::Exit(1),
        ),
{
}

} // verus!

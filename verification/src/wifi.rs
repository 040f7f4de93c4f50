//! Wi-Fi awareness: which network is connected (read from the tools' output),
//! whether it is a campus network, and the plans of the self-healing tiers.

use vstd::prelude::*;
use crate::config::Config;
use crate::text::{
    ascii_eq_ignore_case, ascii_eq_ignore_case_exec, before_first, chars_of, contains_exec,
    contains_text, lines, lines_exec, lowercase_text, split_once, split_once_exec, string_of, trim,
    trim_exec, uppercase_text,
};

verus! {

/// The default Wi-Fi connection name: `PESU_WIFI_CON` when set, else
/// `PESU-EC-Campus`.
pub open spec fn default_wifi_con(env: Option<String>) -> Seq<char> {
    match env {
        Some(c) => c@,
        None => "PESU-EC-Campus"@,
    }
}

/// Chooses the default Wi-Fi connection name from the `PESU_WIFI_CON` value.
pub fn get_default_wifi_con(env: Option<String>) -> (r: String)
    ensures
        r@ == default_wifi_con(env),
{
    match env {
        Some(c) => c,
        None => String::from_str("PESU-EC-Campus"),
    }
}

/// The connection that counts as the campus network: the preferred one when
/// configured, else the default connection name.
pub open spec fn preferred_connection(cfg: &Config, default_con: Seq<char>) -> Seq<char> {
    match cfg.preferred_ssid {
        Some(p) => p@,
        None => default_con,
    }
}

/// A campus network: the preferred connection, or a name that (upper-cased)
/// mentions `PESU`, `PES-RR-CAMPUS`, `PES-WIFI`, `PES_WIFI` or `PESUNIVERSITY`.
pub open spec fn campus_network(ssid: Seq<char>, preferred: Seq<char>) -> bool {
    campus_name(uppercase_text(ssid), ssid, preferred)
}

/// The campus-network rule for `ssid`, given its upper-cased form `upper`.
pub open spec fn campus_name(upper: Seq<char>, ssid: Seq<char>, preferred: Seq<char>) -> bool {
    ||| ssid == preferred
    ||| contains_text(upper, "PESU"@)
    ||| contains_text(upper, "PES-RR-CAMPUS"@)
    ||| contains_text(upper, "PES-WIFI"@)
    ||| contains_text(upper, "PES_WIFI"@)
    ||| contains_text(upper, "PESUNIVERSITY"@)
}

/// Decides the campus-network rule for `ssid`, given its upper-cased form.
pub fn is_campus_name(upper: &str, ssid: &str, preferred: &str) -> (r: bool)
    ensures
        r == campus_name(upper@, ssid@, preferred@),
{
    let pref = chars_of(preferred);
    let name = chars_of(ssid);
    if name.len() == pref.len() && crate::text::occurs_at_exec(&name, &pref, 0) {
        assert(name@.subrange(0, name@.len() as int) =~= name@);
        return true;
    }
    assert(name@ == pref@ ==> name@.subrange(0, name@.len() as int) =~= name@);
    let up = chars_of(upper);
    contains_exec(&up, &chars_of("PESU")) || contains_exec(&up, &chars_of("PES-RR-CAMPUS"))
        || contains_exec(&up, &chars_of("PES-WIFI"))
        || contains_exec(&up, &chars_of("PES_WIFI")) || contains_exec(
        &up,
        &chars_of("PESUNIVERSITY"),
    )
}

/// Whether `ssid` names a campus network, given the configuration and the
/// default connection name.
pub fn is_campus_ssid(ssid: &str, cfg: &Config, default_con: &str) -> (r: bool)
    ensures
        r == campus_network(ssid@, preferred_connection(cfg, default_con@)),
{
    let upper = ssid.to_uppercase();
    match &cfg.preferred_ssid {
        Some(p) => is_campus_name(upper.as_str(), ssid, p.as_str()),
        None => is_campus_name(upper.as_str(), ssid, default_con),
    }
}

/// The active wireless connection in `nmcli -t -f name,type connection show
/// --active` output: the name field of the first line that mentions
/// `:802-11-wireless`, trimmed.
pub open spec fn nmcli_wifi_name(ls: Seq<Seq<char>>) -> Option<Seq<char>>
    decreases ls.len(),
{
    if ls.len() == 0 {
        None
    } else if contains_text(ls[0], ":802-11-wireless"@) {
        Some(trim(before_first(ls[0], ':')))
    } else {
        nmcli_wifi_name(ls.drop_first())
    }
}

/// The connected Wi-Fi network named in NetworkManager's listing of active
/// connections, if any.
pub fn get_current_wifi_ssid(nmcli_output: &str) -> (r: Option<String>)
    ensures
        match r {
            Some(s) => nmcli_wifi_name(lines(nmcli_output@)) == Some(s@),
            None => nmcli_wifi_name(lines(nmcli_output@)) is None,
        },
{
    let ls = lines_exec(&chars_of(nmcli_output));
    let ghost all = ls@.map_values(|l: Vec<char>| l@);
    let marker = chars_of(":802-11-wireless");
    assert(all.skip(0) =~= all);
    let mut i: usize = 0;
    while i < ls.len()
        invariant
            i <= ls@.len(),
            all == ls@.map_values(|l: Vec<char>| l@),
            all == lines(nmcli_output@),
            marker@ == ":802-11-wireless"@,
            nmcli_wifi_name(all) == nmcli_wifi_name(all.skip(i as int)),
        decreases ls@.len() - i,
    {
        proof {
            assert(all.skip(i as int)[0] == ls@[i as int]@);
            assert(all.skip(i as int).drop_first() =~= all.skip(i + 1));
        }
        if contains_exec(&ls[i], &marker) {
            let name = match split_once_exec(&ls[i], ':') {
                Some((a, _)) => a,
                None => crate::text::slice_chars(&ls[i], 0, ls[i].len()),
            };
            proof {
                assert(ls@[i as int]@.subrange(0, ls@[i as int]@.len() as int) =~= ls@[i as int]@);
            }
            return Some(string_of(&trim_exec(&name)));
        }
        i = i + 1;
    }
    assert(all.skip(i as int) =~= Seq::<Seq<char>>::empty());
    None
}

/// What `netsh wlan show interfaces` output says, up to line `ls`: whether a
/// `State` line reads `connected` (ASCII case ignored) and the last non-empty
/// `SSID` value; keys are compared trimmed and lower-cased.
pub open spec fn netsh_scan(ls: Seq<Seq<char>>) -> (bool, Option<Seq<char>>)
    decreases ls.len(),
{
    if ls.len() == 0 {
        (false, None)
    } else {
        let (connected, ssid) = netsh_scan(ls.drop_last());
        match split_once(trim(ls.last()), ':') {
            Some((k, v)) => netsh_update(connected, ssid, lowercase_text(trim(k)), trim(v)),
            None => (connected, ssid),
        }
    }
}

/// What one `key : value` line of `netsh` output (the key lower-cased, both
/// trimmed) changes: a `state` of `connected` (ASCII case ignored) marks the
/// interface connected, and a non-empty `ssid` is remembered.
pub open spec fn netsh_update(connected: bool, ssid: Option<Seq<char>>, key: Seq<char>, value: Seq<char>) -> (bool, Option<Seq<char>>) {
    if key == "state"@ && ascii_eq_ignore_case(value, "connected"@) {
        (true, ssid)
    } else if key == "ssid"@ && value.len() > 0 {
        (connected, Some(value))
    } else {
        (connected, ssid)
    }
}

/// Applies one `netsh` line, given its lower-cased key and its value.
pub fn netsh_entry(connected: bool, ssid: Option<String>, key_lower: &str, value: &str) -> (r: (bool, Option<String>))
    ensures
        (r.0, match r.1 {
            Some(s) => Some(s@),
            None => None,
        }) == netsh_update(connected, match ssid {
            Some(s) => Some(s@),
            None => None,
        }, key_lower@, value@),
{
    proof {
        reveal_strlit("state");
        reveal_strlit("ssid");
    }
    let key = chars_of(key_lower);
    let v = chars_of(value);
    if crate::text::same_text(&key, "state") && ascii_eq_ignore_case_exec(&v, "connected") {
        (true, ssid)
    } else if crate::text::same_text(&key, "ssid") && v.len() > 0 {
        (connected, Some(String::from_str(value)))
    } else {
        (connected, ssid)
    }
}

/// The connected network in `netsh wlan show interfaces` output.
pub open spec fn netsh_wifi_name(output: Seq<char>) -> Option<Seq<char>> {
    let (connected, ssid) = netsh_scan(lines(output));
    if connected {
        ssid
    } else {
        None
    }
}

/// Reads the connected network from `netsh wlan show interfaces` output.
pub fn ssid_from_netsh(output: &str) -> (r: Option<String>)
    ensures
        match r {
            Some(s) => netsh_wifi_name(output@) == Some(s@),
            None => netsh_wifi_name(output@) is None,
        },
{
    let ls = lines_exec(&chars_of(output));
    let ghost all = ls@.map_values(|l: Vec<char>| l@);
    let mut connected = false;
    let mut ssid: Option<String> = None;
    let mut i: usize = 0;
    while i < ls.len()
        invariant
            i <= ls@.len(),
            all == ls@.map_values(|l: Vec<char>| l@),
            all == lines(output@),
            netsh_scan(all.take(i as int)) == (connected, match ssid {
                Some(s) => Some(s@),
                None => None,
            }),
        decreases ls@.len() - i,
    {
        proof {
            assert(all.take(i + 1).drop_last() =~= all.take(i as int));
            assert(all.take(i + 1).last() == ls@[i as int]@);
        }
        match split_once_exec(&trim_exec(&ls[i]), ':') {
            Some((k, v)) => {
                let key = string_of(&trim_exec(&k)).as_str().to_lowercase();
                let value = string_of(&trim_exec(&v));
                let (c, s) = netsh_entry(connected, ssid, key.as_str(), value.as_str());
                connected = c;
                ssid = s;
            },
            None => {},
        }
        i = i + 1;
    }
    assert(all.take(i as int) =~= all);
    if connected {
        ssid
    } else {
        None
    }
}

/// The network to show as the Wi-Fi network: the connected one, else the
/// preferred connection.
pub fn get_active_wifi_ssid(current: Option<String>, cfg: &Config, default_con: &str) -> (r: String)
    ensures
        r@ == match current {
            Some(c) => c@,
            None => preferred_connection(cfg, default_con@),
        },
{
    match current {
        Some(c) => c,
        None => match &cfg.preferred_ssid {
            Some(p) => p.clone(),
            None => String::from_str(default_con),
        },
    }
}


// ---------------------------------------------------------------------------
// Self-healing
// ---------------------------------------------------------------------------

/// The operating system whose tools the healing plans use.
pub enum Platform {
    Linux,
    Windows,
}

/// A log line of the self-healing tiers.
pub enum HealNote {
    /// Healing skipped: the network is not a campus network.
    Skipped(String),
    /// Tier 1: reconnecting to this connection.
    Reconnecting(String),
    /// Tier 2 (Linux): cycling the Wi-Fi radio.
    CyclingRadio,
    /// Tier 2 (Windows): cycling the Wi-Fi connection.
    CyclingConnection,
    /// Tier 3 (Linux): re-engaging the Wi-Fi device.
    ReengagingDevice,
    /// Tier 3 (Windows): re-engaging the Wi-Fi interface.
    ReengagingInterface,
}

/// A step of a healing plan.
pub enum HealStep {
    Log(HealNote),
    /// Run this command line.
    Run(Vec<String>),
    /// Sleep this many seconds.
    Sleep(u64),
    /// Re-engage the Wi-Fi device (see [`reengage_plan`]).
    Reengage,
}

/// The mathematical form of a [`HealNote`].
pub enum HealNoteView {
    Skipped(Seq<char>),
    Reconnecting(Seq<char>),
    CyclingRadio,
    CyclingConnection,
    ReengagingDevice,
    ReengagingInterface,
}

/// The mathematical form of a [`HealStep`].
pub enum HealStepView {
    Log(HealNoteView),
    Run(Seq<Seq<char>>),
    Sleep(u64),
    Reengage,
}

impl View for HealNote {
    type V = HealNoteView;

    open spec fn view(&self) -> HealNoteView {
        match self {
            HealNote::Skipped(s) => HealNoteView::Skipped(s@),
            HealNote::Reconnecting(s) => HealNoteView::Reconnecting(s@),
            HealNote::CyclingRadio => HealNoteView::CyclingRadio,
            HealNote::CyclingConnection => HealNoteView::CyclingConnection,
            HealNote::ReengagingDevice => HealNoteView::ReengagingDevice,
            HealNote::ReengagingInterface => HealNoteView::ReengagingInterface,
        }
    }
}

impl View for HealStep {
    type V = HealStepView;

    open spec fn view(&self) -> HealStepView {
        match self {
            HealStep::Log(n) => HealStepView::Log(n@),
            HealStep::Run(argv) => HealStepView::Run(argv@.map_values(|a: String| a@)),
            HealStep::Sleep(s) => HealStepView::Sleep(*s),
            HealStep::Reengage => HealStepView::Reengage,
        }
    }
}

/// The views of a plan.
pub open spec fn plan_view(plan: Seq<HealStep>) -> Seq<HealStepView> {
    plan.map_values(|s: HealStep| s@)
}

/// The connection healing works on: the connected network, else the
/// preferred connection.
pub open spec fn heal_target(current: Option<String>, cfg: &Config, default_con: Seq<char>) -> Seq<char> {
    match current {
        Some(c) => c@,
        None => preferred_connection(cfg, default_con),
    }
}

/// The steps of a healing tier on a campus connection `con`.
pub open spec fn tier_steps(platform: Platform, tier: u8, con: Seq<char>) -> Seq<HealStepView> {
    let up = HealStepView::Run(seq!["nmcli"@, "connection"@, "up"@, con]);
    let connect = HealStepView::Run(seq!["netsh"@, "wlan"@, "connect"@, "name="@ + con]);
    match platform {
        Platform::Linux => if tier == 1 {
            seq![HealStepView::Log(HealNoteView::Reconnecting(con)), up]
        } else if tier == 2 {
            seq![
                HealStepView::Log(HealNoteView::CyclingRadio),
                HealStepView::Run(seq!["nmcli"@, "radio"@, "wifi"@, "off"@]),
                HealStepView::Sleep(2),
                HealStepView::Run(seq!["nmcli"@, "radio"@, "wifi"@, "on"@]),
                HealStepView::Sleep(5),
                up,
            ]
        } else if tier == 3 {
            seq![HealStepView::Log(HealNoteView::ReengagingDevice), HealStepView::Reengage, up]
        } else {
            Seq::empty()
        },
        Platform::Windows => if tier == 1 {
            seq![HealStepView::Log(HealNoteView::Reconnecting(con)), connect]
        } else if tier == 2 {
            seq![
                HealStepView::Log(HealNoteView::CyclingConnection),
                HealStepView::Run(seq!["netsh"@, "wlan"@, "disconnect"@]),
                HealStepView::Sleep(2),
                connect,
            ]
        } else if tier == 3 {
            seq![
                HealStepView::Log(HealNoteView::ReengagingInterface),
                HealStepView::Run(seq!["netsh"@, "interface"@, "set"@, "interface"@, "Wi-Fi"@, "disable"@]),
                HealStepView::Sleep(2),
                HealStepView::Run(seq!["netsh"@, "interface"@, "set"@, "interface"@, "Wi-Fi"@, "enable"@]),
                HealStepView::Sleep(4),
                connect,
            ]
        } else {
            Seq::empty()
        },
    }
}

/// The plan of a healing tier: nothing but a log line when the target is not
/// a campus network, otherwise the tier's steps.
pub open spec fn heal_plan_of(
    platform: Platform,
    tier: u8,
    current: Option<String>,
    cfg: &Config,
    default_con: Seq<char>,
) -> Seq<HealStepView> {
    let con = heal_target(current, cfg, default_con);
    if !campus_network(con, preferred_connection(cfg, default_con)) {
        seq![HealStepView::Log(HealNoteView::Skipped(con))]
    } else {
        tier_steps(platform, tier, con)
    }
}

fn run_of(parts: Vec<String>) -> (s: HealStep)
    ensures
        s@ == HealStepView::Run(parts@.map_values(|a: String| a@)),
{
    HealStep::Run(parts)
}

fn run3(a: &str, b: &str, c: &str) -> (s: HealStep)
    ensures
        s@ == HealStepView::Run(seq![a@, b@, c@]),
{
    let v = vec![String::from_str(a), String::from_str(b), String::from_str(c)];
    let s = run_of(v);
    assert(v@.map_values(|x: String| x@) =~= seq![a@, b@, c@]);
    s
}

fn run4(a: &str, b: &str, c: &str, d: &str) -> (s: HealStep)
    ensures
        s@ == HealStepView::Run(seq![a@, b@, c@, d@]),
{
    let v = vec![String::from_str(a), String::from_str(b), String::from_str(c), String::from_str(d)];
    let s = run_of(v);
    assert(v@.map_values(|x: String| x@) =~= seq![a@, b@, c@, d@]);
    s
}

fn run6(a: &str, b: &str, c: &str, d: &str, e: &str, f: &str) -> (s: HealStep)
    ensures
        s@ == HealStepView::Run(seq![a@, b@, c@, d@, e@, f@]),
{
    let v = vec![
        String::from_str(a),
        String::from_str(b),
        String::from_str(c),
        String::from_str(d),
        String::from_str(e),
        String::from_str(f),
    ];
    let s = run_of(v);
    assert(v@.map_values(|x: String| x@) =~= seq![a@, b@, c@, d@, e@, f@]);
    s
}

/// Plans a healing tier for the current (or preferred) connection.
pub fn heal_network(
    platform: Platform,
    tier: u8,
    current: Option<String>,
    cfg: &Config,
    default_con: &str,
) -> (plan: Vec<HealStep>)
    ensures
        plan_view(plan@) == heal_plan_of(platform, tier, current, cfg, default_con@),
{
    let con = get_active_wifi_ssid(current, cfg, default_con);
    let mut plan: Vec<HealStep> = Vec::new();
    if !is_campus_ssid(con.as_str(), cfg, default_con) {
        plan.push(HealStep::Log(HealNote::Skipped(con)));
        assert(plan_view(plan@) =~= heal_plan_of(platform, tier, current, cfg, default_con@));
        return plan;
    }
    let c = con.as_str();
    let name_arg = crate::text::concat_str("name=", c);
    match platform {
        Platform::Linux => {
            if tier == 1 {
                plan.push(HealStep::Log(HealNote::Reconnecting(con.clone())));
                plan.push(run4("nmcli", "connection", "up", c));
            } else if tier == 2 {
                plan.push(HealStep::Log(HealNote::CyclingRadio));
                plan.push(run4("nmcli", "radio", "wifi", "off"));
                plan.push(HealStep::Sleep(2));
                plan.push(run4("nmcli", "radio", "wifi", "on"));
                plan.push(HealStep::Sleep(5));
                plan.push(run4("nmcli", "connection", "up", c));
            } else if tier == 3 {
                plan.push(HealStep::Log(HealNote::ReengagingDevice));
                plan.push(HealStep::Reengage);
                plan.push(run4("nmcli", "connection", "up", c));
            }
        },
        Platform::Windows => {
            if tier == 1 {
                plan.push(HealStep::Log(HealNote::Reconnecting(con.clone())));
                plan.push(run4("netsh", "wlan", "connect", name_arg.as_str()));
            } else if tier == 2 {
                plan.push(HealStep::Log(HealNote::CyclingConnection));
                plan.push(run3("netsh", "wlan", "disconnect"));
                plan.push(HealStep::Sleep(2));
                plan.push(run4("netsh", "wlan", "connect", name_arg.as_str()));
            } else if tier == 3 {
                plan.push(HealStep::Log(HealNote::ReengagingInterface));
                plan.push(run6("netsh", "interface", "set", "interface", "Wi-Fi", "disable"));
                plan.push(HealStep::Sleep(2));
                plan.push(run6("netsh", "interface", "set", "interface", "Wi-Fi", "enable"));
                plan.push(HealStep::Sleep(4));
                plan.push(run4("netsh", "wlan", "connect", name_arg.as_str()));
            }
        },
    }
    assert(plan_view(plan@) =~= heal_plan_of(platform, tier, current, cfg, default_con@));
    plan
}

/// Whether `id -u` printed the root user's id (`0`, trimmed).
pub fn is_root_output(output: Option<String>) -> (r: bool)
    ensures
        r == (output matches Some(o) && trim(o@) == "0"@),
{
    match output {
        Some(o) => crate::text::same_text(&trim_exec(&chars_of(o.as_str())), "0"),
        None => false,
    }
}

/// The first Wi-Fi device in `nmcli -t -f DEVICE,TYPE dev` output: the
/// device field of the first line that mentions `:wifi`.
pub open spec fn wifi_device_of(ls: Seq<Seq<char>>) -> Option<Seq<char>>
    decreases ls.len(),
{
    if ls.len() == 0 {
        None
    } else if contains_text(ls[0], ":wifi"@) {
        Some(before_first(ls[0], ':'))
    } else {
        wifi_device_of(ls.drop_first())
    }
}

/// Finds the first Wi-Fi device in NetworkManager's device listing.
pub fn wifi_device(listing: &str) -> (r: Option<String>)
    ensures
        match r {
            Some(d) => wifi_device_of(lines(listing@)) == Some(d@),
            None => wifi_device_of(lines(listing@)) is None,
        },
{
    let ls = lines_exec(&chars_of(listing));
    let ghost all = ls@.map_values(|l: Vec<char>| l@);
    let marker = chars_of(":wifi");
    assert(all.skip(0) =~= all);
    let mut i: usize = 0;
    while i < ls.len()
        invariant
            i <= ls@.len(),
            all == ls@.map_values(|l: Vec<char>| l@),
            all == lines(listing@),
            marker@ == ":wifi"@,
            wifi_device_of(all) == wifi_device_of(all.skip(i as int)),
        decreases ls@.len() - i,
    {
        proof {
            assert(all.skip(i as int)[0] == ls@[i as int]@);
            assert(all.skip(i as int).drop_first() =~= all.skip(i + 1));
        }
        if contains_exec(&ls[i], &marker) {
            let name = match split_once_exec(&ls[i], ':') {
                Some((a, _)) => a,
                None => crate::text::slice_chars(&ls[i], 0, ls[i].len()),
            };
            proof {
                assert(ls@[i as int]@.subrange(0, ls@[i as int]@.len() as int) =~= ls@[i as int]@);
            }
            return Some(string_of(&name));
        }
        i = i + 1;
    }
    assert(all.skip(i as int) =~= Seq::<Seq<char>>::empty());
    None
}

/// How the Wi-Fi device is re-engaged on Linux: as root, NetworkManager is
/// restarted; otherwise the first Wi-Fi device in the device listing is
/// disconnected and connected again (nothing when no listing or no device).
pub open spec fn reengage_steps(is_root: bool, device: Option<Seq<char>>) -> Seq<HealStepView> {
    if is_root {
        seq![HealStepView::Run(seq!["systemctl"@, "restart"@, "NetworkManager"@]), HealStepView::Sleep(6)]
    } else {
        match device {
            Some(d) => seq![
                HealStepView::Run(seq!["nmcli"@, "device"@, "disconnect"@, d]),
                HealStepView::Sleep(2),
                HealStepView::Run(seq!["nmcli"@, "device"@, "connect"@, d]),
            ],
            None => Seq::empty(),
        }
    }
}

/// Plans the re-engagement of the Wi-Fi device.
pub fn reengage_plan(is_root: bool, device_listing: Option<String>) -> (plan: Vec<HealStep>)
    ensures
        plan_view(plan@) == reengage_steps(
            is_root,
            match device_listing {
                Some(l) => wifi_device_of(lines(l@)),
                None => None,
            },
        ),
{
    let mut plan: Vec<HealStep> = Vec::new();
    if is_root {
        plan.push(run3("systemctl", "restart", "NetworkManager"));
        plan.push(HealStep::Sleep(6));
    } else {
        match &device_listing {
            Some(l) => match wifi_device(l.as_str()) {
                Some(d) => {
                    plan.push(run4("nmcli", "device", "disconnect", d.as_str()));
                    plan.push(HealStep::Sleep(2));
                    plan.push(run4("nmcli", "device", "connect", d.as_str()));
                },
                None => {},
            },
            None => {},
        }
    }
    assert(plan_view(plan@) =~= reengage_steps(
        is_root,
        match device_listing {
            Some(l) => wifi_device_of(lines(l@)),
            None => None,
        },
    ));
    plan
}

/// The text of a healing log line.
pub open spec fn heal_note_text(n: HealNoteView) -> Seq<char> {
    match n {
        HealNoteView::Skipped(c) => "[Self-Healing] Skipped: '"@ + c + "' is not a PESU campus network."@,
        HealNoteView::Reconnecting(c) => "[Self-Healing L1] Reconnecting to '"@ + c + "'..."@,
        HealNoteView::CyclingRadio => "[Self-Healing L2] Cycling Wi-Fi radio..."@,
        HealNoteView::CyclingConnection => "[Self-Healing L2] Cycling Wi-Fi connection..."@,
        HealNoteView::ReengagingDevice => "[Self-Healing L3] Re-engaging Wi-Fi device interface..."@,
        HealNoteView::ReengagingInterface => "[Self-Healing L3] Re-engaging Wi-Fi network interface..."@,
    }
}

/// Renders a healing log line.
pub fn heal_note_message(n: &HealNote) -> (r: String)
    ensures
        r@ == heal_note_text(n@),
{
    match n {
        HealNote::Skipped(c) => crate::text::cat3(
            "[Self-Healing] Skipped: '",
            c.as_str(),
            "' is not a PESU campus network.",
        ),
        HealNote::Reconnecting(c) => crate::text::cat3("[Self-Healing L1] Reconnecting to '", c.as_str(), "'..."),
        HealNote::CyclingRadio => String::from_str("[Self-Healing L2] Cycling Wi-Fi radio..."),
        HealNote::CyclingConnection => String::from_str("[Self-Healing L2] Cycling Wi-Fi connection..."),
        HealNote::ReengagingDevice => String::from_str("[Self-Healing L3] Re-engaging Wi-Fi device interface..."),
        HealNote::ReengagingInterface => String::from_str("[Self-Healing L3] Re-engaging Wi-Fi network interface..."),
    }
}

/// Self-healing works on the network it was asked about: the connected
/// network when there is one, else the preferred connection. Off campus the
/// plan only logs that it skips that network. On campus, every reconnect log
/// line and every connect command of the plan names that network, and each
/// of the three tiers ends by connecting to it.
pub proof fn lemma_heal_uses_the_target(
    platform: Platform,
    tier: u8,
    current: Option<String>,
    cfg: &Config,
    default_con: Seq<char>,
)
    ensures
        ({
            let preferred = match cfg.preferred_ssid {
                Some(p) => p@,
                None => default_con,
            };
            let target = match current {
                Some(c) => c@,
                None => preferred,
            };
            let plan = heal_plan_of(platform, tier, current, cfg, default_con);
            &&& !campus_network(target, preferred) ==> plan == seq![HealStepView::Log(HealNoteView::Skipped(target))]
            &&& forall|i: int| 0 <= i < plan.len() ==> (#[trigger] plan[i] matches HealStepView::Log(
                HealNoteView::Reconnecting(c),
            ) ==> c == target)
            &&& forall|i: int| 0 <= i < plan.len() ==> (#[trigger] plan[i] matches HealStepView::Run(argv) ==> (
            argv.len() == 4 && argv[0] == "nmcli"@ && argv[1] == "connection"@ ==> argv[3] == target))
            &&& forall|i: int| 0 <= i < plan.len() ==> (#[trigger] plan[i] matches HealStepView::Run(argv) ==> (
            argv.len() == 4 && argv[0] == "netsh"@ && argv[2] == "connect"@ ==> argv[3] == "name="@ + target))
            &&& (campus_network(target, preferred) && 1 <= tier <= 3) ==> plan.last() == match platform {
                Platform::Linux => HealStepView::Run(seq!["nmcli"@, "connection"@, "up"@, target]),
                Platform::Windows => HealStepView::Run(seq!["netsh"@, "wlan"@, "connect"@, "name="@ + target]),
            }
        }),
{
    let preferred = match cfg.preferred_ssid {
        Some(p) => p@,
        None => default_con,
    };
    let target = match current {
        Some(c) => c@,
        None => preferred,
    };
    let plan = heal_plan_of(platform, tier, current, cfg, default_con);
    reveal_strlit("nmcli");
    reveal_strlit("netsh");
    reveal_strlit("connection");
    reveal_strlit("connect");
    reveal_strlit("radio");
    reveal_strlit("interface");
    reveal_strlit("wlan");
    reveal_strlit("disconnect");
    reveal_strlit("set");
    assert("radio"@.len() != "connection"@.len());
    assert("wlan"@.len() != "connection"@.len());
    assert("disconnect"@.len() != "connect"@.len());
    assert("set"@.len() != "connect"@.len());
    assert("interface"@.len() != "connect"@.len());
    assert("nmcli"@[1] != "netsh"@[1]);
}

} // verus!

use pesu_wifi::wifi::{is_campus_name, netsh_entry};
use pesu_wifi::config::Config;
use pesu_wifi::wifi::is_campus_ssid;

fn campus(ssid: &str) -> bool {
    is_campus_ssid(ssid, &Config::default(), "PESU-EC-Campus")
}

#[test]
fn test_is_campus_ssid() {
    assert!(campus("PESU-EC-Campus"));
    assert!(campus("PESU-RR-Campus"));
    assert!(campus("PES-WIFI"));
    assert!(campus("PES_WIFI"));
    assert!(campus("pesuniversity-guest"));
    assert!(!campus("Home_Network"));
    assert!(!campus("Space"));
    assert!(!campus(""));
}

use pesu_wifi::wifi::{
    get_active_wifi_ssid, get_current_wifi_ssid, get_default_wifi_con, heal_network,
    heal_note_message, is_root_output, reengage_plan, ssid_from_netsh, wifi_device, HealNote,
    HealStep, Platform,
};

fn describe(plan: &[HealStep]) -> Vec<String> {
    plan.iter()
        .map(|step| match step {
            HealStep::Log(note) => format!("log {}", heal_note_message(note)),
            HealStep::Run(argv) => format!("run {}", argv.join(" ")),
            HealStep::Sleep(secs) => format!("sleep {}", secs),
            HealStep::Reengage => "reengage".to_string(),
        })
        .collect()
}

fn preferring(ssid: &str) -> Config {
    let mut cfg = Config::default();
    cfg.preferred_ssid = Some(ssid.to_string());
    cfg
}

#[test]
fn default_connection_name() {
    assert_eq!(get_default_wifi_con(None), "PESU-EC-Campus");
    assert_eq!(get_default_wifi_con(Some("Lab".to_string())), "Lab");
}

#[test]
fn campus_names_from_the_changelog() {
    assert!(campus("PES-RR-Campus"));
    assert!(campus("pes-rr-campus"));
    assert!(campus("PESU-Guest"));
    assert!(!campus("PES-RR"));
}

#[test]
fn preferred_network_counts_as_campus() {
    assert!(is_campus_ssid("HostelNet", &preferring("HostelNet"), "PESU-EC-Campus"));
    assert!(!is_campus_ssid("HostelNet", &Config::default(), "PESU-EC-Campus"));
    assert!(is_campus_ssid("Lab", &Config::default(), "Lab"));
}

#[test]
fn networkmanager_listing() {
    let out = "Wired connection 1:802-3-ethernet\n PESU-EC-Campus :802-11-wireless\nother:802-11-wireless\n";
    assert_eq!(get_current_wifi_ssid(out), Some("PESU-EC-Campus".to_string()));
    assert_eq!(get_current_wifi_ssid("lo:loopback\n"), None);
    assert_eq!(get_current_wifi_ssid(""), None);
}

#[test]
fn netsh_listing() {
    let out = "    Name                   : Wi-Fi\r\n    State                  : Connected\r\n    SSID                   : PESU-RR-Campus\r\n    BSSID                  : aa:bb:cc:dd:ee:ff\r\n";
    assert_eq!(ssid_from_netsh(out), Some("PESU-RR-Campus".to_string()));
    let out = "    State                  : disconnected\r\n    SSID                   : PESU-RR-Campus\r\n";
    assert_eq!(ssid_from_netsh(out), None);
    let out = "    State                  : connected\r\n";
    assert_eq!(ssid_from_netsh(out), None);
}

#[test]
fn shown_network() {
    assert_eq!(get_active_wifi_ssid(Some("X".to_string()), &preferring("P"), "D"), "X");
    assert_eq!(get_active_wifi_ssid(None, &preferring("P"), "D"), "P");
    assert_eq!(get_active_wifi_ssid(None, &Config::default(), "D"), "D");
}

#[test]
fn healing_plans_on_linux() {
    let cfg = Config::default();
    let cur = || Some("PESU-EC-Campus".to_string());
    assert_eq!(
        describe(&heal_network(Platform::Linux, 1, cur(), &cfg, "PESU-EC-Campus")),
        vec![
            "log [Self-Healing L1] Reconnecting to 'PESU-EC-Campus'...",
            "run nmcli connection up PESU-EC-Campus",
        ]
    );
    assert_eq!(
        describe(&heal_network(Platform::Linux, 2, cur(), &cfg, "PESU-EC-Campus")),
        vec![
            "log [Self-Healing L2] Cycling Wi-Fi radio...",
            "run nmcli radio wifi off",
            "sleep 2",
            "run nmcli radio wifi on",
            "sleep 5",
            "run nmcli connection up PESU-EC-Campus",
        ]
    );
    assert_eq!(
        describe(&heal_network(Platform::Linux, 3, cur(), &cfg, "PESU-EC-Campus")),
        vec![
            "log [Self-Healing L3] Re-engaging Wi-Fi device interface...",
            "reengage",
            "run nmcli connection up PESU-EC-Campus",
        ]
    );
    assert!(heal_network(Platform::Linux, 4, cur(), &cfg, "PESU-EC-Campus").is_empty());
}

#[test]
fn healing_plans_on_windows() {
    let cfg = Config::default();
    assert_eq!(
        describe(&heal_network(Platform::Windows, 1, None, &cfg, "PESU-EC-Campus")),
        vec![
            "log [Self-Healing L1] Reconnecting to 'PESU-EC-Campus'...",
            "run netsh wlan connect name=PESU-EC-Campus",
        ]
    );
    assert_eq!(
        describe(&heal_network(Platform::Windows, 2, None, &cfg, "PESU-EC-Campus")),
        vec![
            "log [Self-Healing L2] Cycling Wi-Fi connection...",
            "run netsh wlan disconnect",
            "sleep 2",
            "run netsh wlan connect name=PESU-EC-Campus",
        ]
    );
    assert_eq!(
        describe(&heal_network(Platform::Windows, 3, None, &cfg, "PESU-EC-Campus")),
        vec![
            "log [Self-Healing L3] Re-engaging Wi-Fi network interface...",
            "run netsh interface set interface Wi-Fi disable",
            "sleep 2",
            "run netsh interface set interface Wi-Fi enable",
            "sleep 4",
            "run netsh wlan connect name=PESU-EC-Campus",
        ]
    );
}

#[test]
fn healing_skips_other_networks() {
    let plan = heal_network(Platform::Linux, 2, Some("Home".to_string()), &Config::default(), "PESU-EC-Campus");
    assert_eq!(
        describe(&plan),
        vec!["log [Self-Healing] Skipped: 'Home' is not a PESU campus network."]
    );
    assert!(matches!(&plan[0], HealStep::Log(HealNote::Skipped(n)) if n == "Home"));
}

#[test]
fn reengaging_the_device() {
    assert!(is_root_output(Some("0\n".to_string())));
    assert!(!is_root_output(Some("1000\n".to_string())));
    assert!(!is_root_output(None));
    assert_eq!(wifi_device("lo:loopback\nwlp2s0:wifi\nwlp3s0:wifi\n"), Some("wlp2s0".to_string()));
    assert_eq!(wifi_device("eth0:ethernet\n"), None);

    assert_eq!(
        describe(&reengage_plan(true, None)),
        vec!["run systemctl restart NetworkManager", "sleep 6"]
    );
    assert_eq!(
        describe(&reengage_plan(false, Some("wlp2s0:wifi\n".to_string()))),
        vec!["run nmcli device disconnect wlp2s0", "sleep 2", "run nmcli device connect wlp2s0"]
    );
    assert!(reengage_plan(false, Some("eth0:ethernet\n".to_string())).is_empty());
    assert!(reengage_plan(false, None).is_empty());
}

#[test]
fn campus_rule_and_netsh_lines_on_cased_text() {
    assert!(is_campus_name("PES-RR-CAMPUS", "PES-RR-Campus", "X"));
    assert!(is_campus_name("HOME", "Home", "Home"));
    assert!(!is_campus_name("HOME", "Home", "Lab"));
    assert_eq!(netsh_entry(false, None, "state", "Connected"), (true, None));
    assert_eq!(netsh_entry(false, None, "ssid", "Lab"), (false, Some("Lab".to_string())));
    assert_eq!(netsh_entry(true, Some("A".to_string()), "ssid", ""), (true, Some("A".to_string())));
    assert_eq!(netsh_entry(false, None, "bssid", "aa"), (false, None));
}

use pesu_wifi::clock::timestamp_from;
use pesu_wifi::daemon::{
    calculate_jittered_interval, get_keep_alive_interval, get_lock_file_path, interval_jitter_fits,
    is_daemon_running, jittered_interval, needs_process_listing, other_daemon_pid, parse_pid,
    poll_timeout_ms, should_notify, wlan_event_name, LockProbe, WlanSource, KEEP_ALIVE_INTERVAL,
};

#[test]
fn test_keep_alive_interval_default() {
    assert_eq!(get_keep_alive_interval(None, None), 180);
}

#[test]
fn test_keep_alive_interval_env_override() {
    assert_eq!(get_keep_alive_interval(Some("120".to_string()), None), 120);
}

#[test]
fn test_calculate_jittered_interval() {
    let val = calculate_jittered_interval(180);
    assert!(val >= 175 && val <= 185);
}

#[test]
fn test_lock_file_path_resolution() {
    let path = get_lock_file_path(None, "/home/student/.config/pesu-wifi");
    assert!(path.contains("daemon.lock") || path.contains("pesu_wifi_daemon.lock"));
    let path = get_lock_file_path(Some("/run/user/1000".to_string()), "/home/student/.config/pesu-wifi");
    assert!(path.contains("daemon.lock") || path.contains("pesu_wifi_daemon.lock"));
}

#[test]
fn keep_alive_interval_sources() {
    assert_eq!(KEEP_ALIVE_INTERVAL, 180);
    assert_eq!(get_keep_alive_interval(Some("abc".to_string()), None), 180);
    assert_eq!(get_keep_alive_interval(Some("abc".to_string()), Some(60)), 60);
    assert_eq!(get_keep_alive_interval(None, Some(0)), 180);
    assert_eq!(get_keep_alive_interval(Some("0".to_string()), Some(60)), 0);
    assert_eq!(get_keep_alive_interval(Some("".to_string()), Some(90)), 90);
}

#[test]
fn jitter_follows_the_timestamp() {
    assert_eq!(jittered_interval(180, 0), 175);
    assert_eq!(jittered_interval(180, 5), 180);
    assert_eq!(jittered_interval(180, 10), 185);
    assert_eq!(jittered_interval(180, 11), 175);
    assert_eq!(jittered_interval(180, 1_700_000_000_003), 180 + (1_700_000_000_003u128 % 11) as u64 - 5);
    assert_eq!(jittered_interval(12, 0), 10);
    assert_eq!(jittered_interval(0, 10), 10);
}

#[test]
fn jitter_fit_at_the_edges() {
    assert!(interval_jitter_fits(180, 0));
    assert!(interval_jitter_fits(i64::MAX as u64, 5));
    assert!(!interval_jitter_fits(i64::MAX as u64, 6));
    assert!(interval_jitter_fits(i64::MAX as u64, 0));
    assert!(!interval_jitter_fits(i64::MAX as u64 + 1, 0));
    assert!(interval_jitter_fits(i64::MAX as u64 + 1, 5));
}

#[test]
fn lock_file_locations() {
    assert_eq!(
        get_lock_file_path(Some("/run/user/1000".to_string()), "/cfg"),
        "/run/user/1000/pesu_wifi_daemon.lock"
    );
    assert_eq!(get_lock_file_path(Some(String::new()), "/cfg"), "/cfg/daemon.lock");
    assert_eq!(get_lock_file_path(None, "/cfg"), "/cfg/daemon.lock");
}

#[test]
fn pid_parsing() {
    let c = |s: &str| s.chars().collect::<Vec<char>>();
    assert_eq!(parse_pid(&c(" 4242\n")), Some(4242));
    assert_eq!(parse_pid(&c("")), None);
    assert_eq!(parse_pid(&c("12a")), None);
    assert_eq!(parse_pid(&c("4294967295")), Some(u32::MAX));
    assert_eq!(parse_pid(&c("4294967296")), None);
}

#[test]
fn daemon_discovery() {
    assert_eq!(other_daemon_pid("100\n200\n", 100), Some(200));
    assert_eq!(other_daemon_pid("100\n", 100), None);
    assert_eq!(other_daemon_pid("x\n  300 \n", 1), Some(300));

    assert!(!needs_process_listing(&LockProbe::Free));
    assert!(!needs_process_listing(&LockProbe::Held(Some("77\n".to_string()))));
    assert!(needs_process_listing(&LockProbe::Held(Some("garbage".to_string()))));
    assert!(needs_process_listing(&LockProbe::Held(None)));
    assert!(needs_process_listing(&LockProbe::Unopenable));

    assert_eq!(is_daemon_running(LockProbe::Free, Some("5\n".to_string()), 1), (false, None));
    assert_eq!(is_daemon_running(LockProbe::Held(Some("77\n".to_string())), None, 1), (true, Some(77)));
    assert_eq!(is_daemon_running(LockProbe::Held(None), Some("1\n9\n".to_string()), 1), (true, Some(9)));
    assert_eq!(is_daemon_running(LockProbe::Unopenable, Some("1\n".to_string()), 1), (true, None));
    assert_eq!(is_daemon_running(LockProbe::Held(Some(String::new())), None, 1), (true, None));
}

#[test]
fn notification_switch() {
    assert!(should_notify(true, &None));
    assert!(!should_notify(false, &None));
    assert!(!should_notify(true, &Some("0".to_string())));
    assert!(!should_notify(true, &Some("FaLsE".to_string())));
    assert!(should_notify(true, &Some("1".to_string())));
    assert!(should_notify(true, &Some("no".to_string())));
}

#[test]
fn poll_timeouts() {
    assert_eq!(poll_timeout_ms(None), -1);
    assert_eq!(poll_timeout_ms(Some(50)), 50);
    assert_eq!(poll_timeout_ms(Some(u128::MAX)), i32::MAX);
    assert_eq!(poll_timeout_ms(Some(i32::MAX as u128 + 1)), i32::MAX);
}

#[test]
fn wlan_event_names() {
    assert_eq!(wlan_event_name(WlanSource::Acm, 10), "ACM:ConnectionComplete");
    assert_eq!(wlan_event_name(WlanSource::Acm, 21), "ACM:Disconnected");
    assert_eq!(wlan_event_name(WlanSource::Acm, 13), "ACM:InterfaceArrival");
    assert_eq!(wlan_event_name(WlanSource::Acm, 14), "ACM:InterfaceRemoval");
    assert_eq!(wlan_event_name(WlanSource::Msm, 4), "MSM:Connected");
    assert_eq!(wlan_event_name(WlanSource::Msm, 10), "MSM:Disconnected");
    assert_eq!(wlan_event_name(WlanSource::Msm, 5), "MSM:RoamingStart");
    assert_eq!(wlan_event_name(WlanSource::Msm, 6), "MSM:RoamingEnd");
    assert_eq!(wlan_event_name(WlanSource::Msm, 21), "WlanNotification");
    assert_eq!(wlan_event_name(WlanSource::Other, 10), "WlanNotification");
}

#[test]
fn timestamps_from_clock_readings() {
    assert_eq!(timestamp_from(Ok(1_700_000_000_123)), 1_700_000_000_123);
    assert_eq!(timestamp_from(Err(())), 0);
}

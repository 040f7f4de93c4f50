use pesu_wifi::config::{
    add_account, config_file_candidates, config_from_env_lines, load_saved_config,
    env_file_candidates, env_file_content, get_active_credentials, get_config_dir,
    get_credentials_for, join_path_exec, load_config, parse_env_line, remove_account,
    resolve_selection, select_account, AccountError, Config,
};

fn config_with(accounts: &[(&str, &str)], active: Option<&str>) -> Config {
    let mut cfg = Config::default();
    for (u, p) in accounts {
        cfg.accounts.insert(u.to_string(), p.to_string());
    }
    cfg.active_user = active.map(|a| a.to_string());
    cfg
}

fn s(v: &str) -> String {
    v.to_string()
}

fn lines(v: &[&str]) -> Vec<String> {
    v.iter().map(|l| l.to_string()).collect()
}

#[test]
fn active_credentials_prefer_the_active_account() {
    let cfg = config_with(&[("alice", "a1"), ("bob", "b2")], Some("bob"));
    assert_eq!(get_active_credentials(&cfg), (Some(s("bob")), Some(s("b2"))));

    let cfg = config_with(&[("alice", "a1"), ("bob", "b2")], Some("carol"));
    assert_eq!(get_active_credentials(&cfg), (Some(s("alice")), Some(s("a1"))));

    let cfg = config_with(&[("alice", "a1")], None);
    assert_eq!(get_active_credentials(&cfg), (Some(s("alice")), Some(s("a1"))));

    assert_eq!(get_active_credentials(&Config::default()), (None, None));
}

#[test]
fn credentials_for_an_account() {
    let cfg = config_with(&[("alice", "a1")], None);
    assert_eq!(get_credentials_for(&cfg, "alice"), Some(s("a1")));
    assert_eq!(get_credentials_for(&cfg, "bob"), None);
}

#[test]
fn configuration_directory() {
    assert_eq!(get_config_dir(Some(s("/xdg")), Some(s("/home/u"))), "/xdg/pesu-wifi");
    assert_eq!(get_config_dir(Some(s("")), Some(s("/home/u"))), "/home/u/.config/pesu-wifi");
    assert_eq!(get_config_dir(None, Some(s("/home/u/"))), "/home/u/.config/pesu-wifi");
    assert_eq!(get_config_dir(None, None), "./.config/pesu-wifi");
    assert_eq!(join_path_exec("", "x"), "x");
}

#[test]
fn candidate_files() {
    assert_eq!(
        config_file_candidates("/c", &Some(s("stu"))),
        vec![s("/c/config.json"), s("/home/stu/.config/pesu-wifi/config.json"), s("/etc/pesu-wifi/config.json")]
    );
    assert_eq!(config_file_candidates("/c", &Some(s(""))), vec![s("/c/config.json"), s("/etc/pesu-wifi/config.json")]);
    assert_eq!(env_file_candidates("/c", &None), vec![s("/c/.env"), s(".env")]);
}

#[test]
fn env_lines() {
    let kv = |l: &str| parse_env_line(l).map(|(k, v)| (k.into_iter().collect::<String>(), v.into_iter().collect::<String>()));
    assert_eq!(kv("  PESU_USERNAME = 'alice' "), Some((s("PESU_USERNAME"), s("alice"))));
    assert_eq!(kv("PESU_PASSWORD=\"p=q\""), Some((s("PESU_PASSWORD"), s("p=q"))));
    assert_eq!(kv("# PESU_USERNAME=x"), None);
    assert_eq!(kv("   "), None);
    assert_eq!(kv("NOEQUALS"), None);
    assert_eq!(kv("K="), Some((s("K"), s(""))));
}

#[test]
fn env_file_configuration() {
    let cfg = config_from_env_lines(&lines(&["# saved", "PESU_USERNAME=alice", "PESU_PASSWORD='pw'"])).unwrap();
    assert_eq!(cfg.active_user, Some(s("alice")));
    assert_eq!(cfg.accounts.get("alice"), Some(&s("pw")));
    assert_eq!(cfg.accounts.len(), 1);
    assert!(cfg.preferred_ssid.is_none());

    let later_wins = config_from_env_lines(&lines(&["PESU_USERNAME=a", "PESU_USERNAME=b", "PESU_PASSWORD=p"])).unwrap();
    assert_eq!(later_wins.active_user, Some(s("b")));

    assert!(config_from_env_lines(&lines(&["PESU_USERNAME=alice"])).is_none());
    assert!(config_from_env_lines(&lines(&[])).is_none());
}

#[test]
fn environment_overrides_the_saved_login() {
    let json = config_with(&[("alice", "p1")], Some("alice"));
    let cfg = load_config(Some(json), &vec![], Some(s("bob")), Some(s("p2")));
    assert_eq!(get_active_credentials(&cfg), (Some(s("bob")), Some(s("p2"))));
    assert_eq!(cfg.accounts.get("alice"), Some(&s("p1")));

    let json = config_with(&[("alice", "p1")], Some("alice"));
    let cfg = load_config(Some(json), &vec![], Some(s("alice")), Some(s("new")));
    assert_eq!(get_active_credentials(&cfg), (Some(s("alice")), Some(s("new"))));
    assert_eq!(cfg.accounts.len(), 1);

    let json = config_with(&[("alice", "p1")], Some("alice"));
    let cfg = load_config(Some(json), &vec![], Some(s("bob")), Some(s("")));
    assert_eq!(get_active_credentials(&cfg), (Some(s("alice")), Some(s("p1"))));
}

#[test]
fn loading_order() {
    let json = config_with(&[("j", "jp")], Some("j"));
    let env_files = vec![lines(&["PESU_USERNAME=e", "PESU_PASSWORD=ep"])];
    let cfg = load_saved_config(Some(json), &env_files);
    assert_eq!(get_active_credentials(&cfg), (Some(s("j")), Some(s("jp"))));

    let env_files = vec![lines(&["PESU_USERNAME=half"]), lines(&["PESU_USERNAME=e", "PESU_PASSWORD=ep"])];
    let cfg = load_config(None, &env_files, None, None);
    assert_eq!(get_active_credentials(&cfg), (Some(s("e")), Some(s("ep"))));

    let cfg = load_config(None, &env_files, Some(s("v")), Some(s("vp")));
    assert_eq!(get_active_credentials(&cfg), (Some(s("v")), Some(s("vp"))));
    assert_eq!(cfg.accounts.get("e"), Some(&s("ep")));

    let cfg = load_config(None, &vec![], Some(s("v")), Some(s("vp")));
    assert_eq!(get_active_credentials(&cfg), (Some(s("v")), Some(s("vp"))));

    let cfg = load_config(None, &vec![], Some(s("v")), Some(s("")));
    assert!(cfg.active_user.is_none());
    assert!(cfg.accounts.is_empty());
}

#[test]
fn env_file_rendering() {
    let cfg = config_with(&[("alice", "a1"), ("bob", "b2")], Some("bob"));
    assert_eq!(env_file_content(&cfg), "# PESU WiFi Saved Credentials\nPESU_USERNAME=bob\nPESU_PASSWORD=b2\n");
    let cfg = config_with(&[("alice", "a1")], Some("ghost"));
    assert_eq!(env_file_content(&cfg), "# PESU WiFi Saved Credentials\nPESU_USERNAME=ghost\nPESU_PASSWORD=\n");
    assert_eq!(env_file_content(&Config::default()), "# PESU WiFi Saved Credentials\nPESU_USERNAME=\nPESU_PASSWORD=\n");
}

#[test]
fn saved_credentials_round_trip_through_the_env_file() {
    let mut cfg = Config::default();
    assert!(matches!(add_account(&mut cfg, " alice ", " pw "), Ok(false)));
    let text = env_file_content(&cfg);
    let back = config_from_env_lines(&text.lines().map(|l| l.to_string()).collect()).unwrap();
    assert_eq!(get_active_credentials(&back), (Some(s("alice")), Some(s("pw"))));
}

#[test]
fn adding_accounts() {
    let mut cfg = Config::default();
    assert!(matches!(add_account(&mut cfg, "  ", "pw"), Err(AccountError::EmptyUsername)));
    assert!(matches!(add_account(&mut cfg, "alice", " "), Err(AccountError::EmptyPassword)));
    assert!(cfg.accounts.is_empty());
    assert!(matches!(add_account(&mut cfg, "alice", "a1"), Ok(false)));
    assert!(matches!(add_account(&mut cfg, "bob", "b2"), Ok(false)));
    assert!(matches!(add_account(&mut cfg, "alice", "new"), Ok(true)));
    assert_eq!(cfg.active_user, Some(s("alice")));
    assert_eq!(cfg.accounts.get("alice"), Some(&s("new")));
    assert_eq!(cfg.accounts.get("bob"), Some(&s("b2")));
    assert_eq!(cfg.accounts.keys(), vec![s("alice"), s("bob")]);
}

#[test]
fn removing_accounts() {
    let mut cfg = config_with(&[("alice", "a1"), ("bob", "b2"), ("carol", "c3")], Some("alice"));
    assert!(matches!(remove_account(&mut cfg, ""), Err(AccountError::EmptyUsername)));
    assert!(matches!(remove_account(&mut cfg, "dave"), Err(AccountError::NotFound)));
    assert_eq!(remove_account(&mut cfg, "carol").ok(), Some(None));
    assert_eq!(cfg.active_user, Some(s("alice")));
    assert_eq!(remove_account(&mut cfg, " alice ").ok(), Some(Some(s("bob"))));
    assert_eq!(cfg.active_user, Some(s("bob")));
    assert_eq!(cfg.accounts.get("alice"), None);
    assert_eq!(remove_account(&mut cfg, "bob").ok(), Some(None));
    assert_eq!(cfg.active_user, None);
    assert!(cfg.accounts.is_empty());
}

#[test]
fn selecting_accounts() {
    let mut empty = Config::default();
    assert!(matches!(select_account(&mut empty, "alice"), Err(AccountError::NoAccounts)));
    let mut cfg = config_with(&[("alice", "a1"), ("bob", "b2")], Some("alice"));
    assert!(matches!(select_account(&mut cfg, "carol"), Err(AccountError::NotFound)));
    assert_eq!(cfg.active_user, Some(s("alice")));
    assert!(select_account(&mut cfg, " bob ").is_ok());
    assert_eq!(cfg.active_user, Some(s("bob")));
}

#[test]
fn menu_choices() {
    let users = vec![s("alice"), s("bob")];
    assert_eq!(resolve_selection("2\n", &users), "bob");
    assert_eq!(resolve_selection(" 1 ", &users), "alice");
    assert_eq!(resolve_selection("3", &users), "3");
    assert_eq!(resolve_selection("0", &users), "0");
    assert_eq!(resolve_selection(" carol\n", &users), "carol");
}

#[test]
fn saved_json_is_what_is_loaded() {
    let saved = config_with(&[("alice", "a1"), ("bob", "b2")], Some("bob"));
    let cfg = load_config(Some(config_with(&[("alice", "a1"), ("bob", "b2")], Some("bob"))), &vec![], None, Some(s("p")));
    assert_eq!(cfg.active_user, saved.active_user);
    assert_eq!(cfg.accounts.keys(), saved.accounts.keys());
    assert_eq!(cfg.accounts.get("bob"), Some(&s("b2")));
}

#[test]
fn active_credentials_exist_exactly_when_accounts_do() {
    let (u, p) = get_active_credentials(&config_with(&[("a", "b")], Some("zz")));
    assert!(u.is_some() && p.is_some());
    let (u, p) = get_active_credentials(&config_with(&[], Some("zz")));
    assert!(u.is_none() && p.is_none());
}

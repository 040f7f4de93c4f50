use pesu_wifi::portal::{fields_from_events, XmlEvent};
use pesu_wifi::portal::{clean_message, parse_xml};

#[test]
fn test_parse_xml_live_ack() {
    let xml = "<response><ack>ack</ack></response>";
    let parsed = parse_xml(xml);
    assert_eq!(parsed.get("ack").map(|s| s.as_str()), Some("ack"));
}

#[test]
fn test_parse_xml_login_cdata() {
    let xml = "<?xml version='1.0' ?><requestresponse><status><![CDATA[LIVE]]></status><message><![CDATA[You are signed in as {username}]]></message><logoutmessage><![CDATA[You have successfully logged off]]></logoutmessage></requestresponse>";
    let parsed = parse_xml(xml);
    assert_eq!(parsed.get("status").map(|s| s.as_str()), Some("LIVE"));
    assert_eq!(
        parsed.get("message").map(|s| s.as_str()),
        Some("You are signed in as {username}")
    );
    assert_eq!(
        parsed.get("logoutmessage").map(|s| s.as_str()),
        Some("You have successfully logged off")
    );
}

#[test]
fn test_parse_xml_html_entities() {
    let xml = "<requestresponse><status><![CDATA[LOGIN]]></status><message><![CDATA[You&#39;ve signed out]]></message></requestresponse>";
    let parsed = parse_xml(xml);
    assert_eq!(parsed.get("status").map(|s| s.as_str()), Some("LOGIN"));
    assert_eq!(
        parsed.get("message").map(|s| s.as_str()),
        Some("You've signed out")
    );
}

#[test]
fn test_clean_message() {
    let dirty = "<![CDATA[The system could not log you on. Make sure your password is correct]]>";
    assert_eq!(
        clean_message(dirty),
        "The system could not log you on. Make sure your password is correct"
    );
}

#[test]
fn test_parse_xml_failed_status() {
    let xml = "<requestresponse><status><![CDATA[FAILED]]></status><message><![CDATA[The system could not log you on. Make sure your password is correct]]></message></requestresponse>";
    let parsed = parse_xml(xml);
    assert_eq!(parsed.get("status").map(|s| s.as_str()), Some("FAILED"));
    assert_eq!(
        parsed.get("message").map(|s| s.as_str()),
        Some("The system could not log you on. Make sure your password is correct")
    );
}

use pesu_wifi::portal::{
    check_live, do_login, do_logout, get_live_url, get_login_url, get_logout_url, get_portal_base,
    get_probe_url, get_timestamp, is_live_reply, is_portal_online, live_query_url, login_form,
    logout_form, resolve_session_user, LiveStep, PortalReply,
};

fn body(s: &str) -> PortalReply {
    PortalReply::Body(s.to_string())
}

#[test]
fn portal_addresses() {
    assert_eq!(get_portal_base(None), "http://192.168.254.1:8090");
    assert_eq!(get_portal_base(Some("http://10.0.0.1".to_string())), "http://10.0.0.1");
    let base = "http://192.168.254.1:8090";
    assert_eq!(get_login_url(base), "http://192.168.254.1:8090/login.xml");
    assert_eq!(get_logout_url(base), "http://192.168.254.1:8090/logout.xml");
    assert_eq!(get_live_url(base), "http://192.168.254.1:8090/live");
    assert_eq!(get_probe_url(base), "http://192.168.254.1:8090/httpclient.html");
    assert_eq!(
        live_query_url("http://gw/live", "PES1UG20CS001", 1700000000123),
        "http://gw/live?mode=193&username=PES1UG20CS001&a=1700000000123&producttype=0"
    );
    assert_eq!(live_query_url("L", "u", 0), "L?mode=193&username=u&a=0&producttype=0");
}

#[test]
fn clock_gives_milliseconds_since_epoch() {
    let ts = get_timestamp();
    assert!(ts > 1_600_000_000_000);
}

#[test]
fn request_forms() {
    let f = login_form("alice", "s3cret", 42);
    let pairs: Vec<(String, String)> = f.into_iter().map(|x| (x.name, x.value)).collect();
    assert_eq!(
        pairs,
        vec![
            ("mode".to_string(), "191".to_string()),
            ("username".to_string(), "alice".to_string()),
            ("password".to_string(), "s3cret".to_string()),
            ("a".to_string(), "42".to_string()),
            ("producttype".to_string(), "0".to_string()),
        ]
    );
    let f = logout_form("bob", 7);
    let pairs: Vec<(String, String)> = f.into_iter().map(|x| (x.name, x.value)).collect();
    assert_eq!(
        pairs,
        vec![
            ("mode".to_string(), "193".to_string()),
            ("username".to_string(), "bob".to_string()),
            ("a".to_string(), "7".to_string()),
            ("producttype".to_string(), "0".to_string()),
        ]
    );
}

#[test]
fn session_user_choice() {
    assert_eq!(resolve_session_user(Some("x"), Some("y".to_string())), "x");
    assert_eq!(resolve_session_user(None, Some("y".to_string())), "y");
    assert_eq!(resolve_session_user(None, None), "user");
}

#[test]
fn login_reply_outcomes() {
    let live = "<requestresponse><status><![CDATA[LIVE]]></status><message><![CDATA[You are signed in as {username}]]></message></requestresponse>";
    assert_eq!(do_login("alice", body(live)), Ok("You are signed in as {username}".to_string()));

    let live_no_msg = "<requestresponse><status>live</status></requestresponse>";
    assert_eq!(do_login("alice", body(live_no_msg)), Ok("Signed in as alice".to_string()));

    let signed_in = "<requestresponse><status>OTHER</status><message>You have Signed In</message></requestresponse>";
    assert_eq!(do_login("alice", body(signed_in)), Err("You have Signed In".to_string()));

    let not_signed_in = "<requestresponse><status>FAILED</status><message>You are not signed in</message></requestresponse>";
    assert_eq!(do_login("alice", body(not_signed_in)), Err("You are not signed in".to_string()));

    let failed = "<requestresponse><status><![CDATA[FAILED]]></status><message><![CDATA[The system could not log you on. Make sure your password is correct]]></message></requestresponse>";
    assert_eq!(
        do_login("alice", body(failed)),
        Err("The system could not log you on. Make sure your password is correct".to_string())
    );

    let login = "<requestresponse><status>LOGIN</status></requestresponse>";
    assert_eq!(
        do_login("alice", body(login)),
        Err("Login failed: Invalid credentials or session limit reached".to_string())
    );

    let other = "<requestresponse><status>busy</status></requestresponse>";
    assert_eq!(do_login("alice", body(other)), Err("Login failed (status: BUSY)".to_string()));

    assert_eq!(do_login("alice", body("")), Err("Unexpected response from portal".to_string()));

    assert_eq!(
        do_login("alice", PortalReply::Unreachable("timed out".to_string())),
        Err("Portal unreachable (timed out)".to_string())
    );
    assert_eq!(
        do_login("alice", PortalReply::BadBody("bad utf-8".to_string())),
        Err("Invalid response body: bad utf-8".to_string())
    );
}

#[test]
fn logout_reply_outcomes() {
    let with_message = "<requestresponse><message><![CDATA[Bye]]></message><logoutmessage>Later</logoutmessage></requestresponse>";
    assert_eq!(do_logout(body(with_message)), Ok("Bye".to_string()));
    let logout_only = "<requestresponse><logoutmessage><![CDATA[You have successfully logged off]]></logoutmessage></requestresponse>";
    assert_eq!(do_logout(body(logout_only)), Ok("You have successfully logged off".to_string()));
    assert_eq!(do_logout(body("<r></r>")), Ok("Signed out successfully".to_string()));
    assert_eq!(
        do_logout(PortalReply::Unreachable("refused".to_string())),
        Err("Portal unreachable (refused)".to_string())
    );
}

#[test]
fn keepalive_replies() {
    assert!(is_live_reply(&body("<response><ack>ack</ack></response>")));
    assert!(is_live_reply(&body("<response><ack>ACK</ack></response>")));
    assert!(is_live_reply(&body("<r><status>Live</status></r>")));
    assert!(is_live_reply(&body("<r><status>ok</status></r>")));
    assert!(!is_live_reply(&body("<r><status>LOGIN</status></r>")));
    assert!(!is_live_reply(&body("")));
    assert!(!is_live_reply(&PortalReply::Unreachable("x".to_string())));
    assert!(!is_live_reply(&PortalReply::BadBody("x".to_string())));
}

#[test]
fn gateway_probe_and_retry() {
    assert!(is_portal_online(Some(200)));
    assert!(is_portal_online(Some(404)));
    assert!(is_portal_online(Some(499)));
    assert!(!is_portal_online(Some(500)));
    assert!(!is_portal_online(Some(199)));
    assert!(!is_portal_online(None));

    assert!(matches!(check_live(true, true), LiveStep::Done(true)));
    assert!(matches!(check_live(false, false), LiveStep::Done(false)));
    assert!(matches!(check_live(false, true), LiveStep::RetryAfterPause));
}

#[test]
fn parse_xml_salvages_broken_documents() {
    let broken = "<status>LIVE</status><message>hi &amp; bye</message><oops";
    let parsed = parse_xml(broken);
    assert_eq!(parsed.get("status").map(|s| s.as_str()), Some("LIVE"));
    assert_eq!(parsed.get("message").map(|s| s.as_str()), Some("hi & bye"));
    assert!(parse_xml("   ").is_empty());
}

#[test]
fn clean_message_entities() {
    assert_eq!(clean_message("  a &lt;b&gt; &quot;c&quot; &amp; d&#39;s  "), "a <b> \"c\" & d's");
    assert_eq!(clean_message(""), "");
}

#[test]
fn fields_from_given_events() {
    let events = vec![
        XmlEvent::Start("Status".to_string()),
        XmlEvent::CData("LIVE".to_string()),
        XmlEvent::End,
        XmlEvent::Text("stray".to_string()),
        XmlEvent::Start("message".to_string()),
        XmlEvent::Text(" a &amp; ".to_string()),
        XmlEvent::CData("b".to_string()),
        XmlEvent::End,
        XmlEvent::Eof,
    ];
    let fields = fields_from_events("", &events);
    assert_eq!(fields.get("status").map(|s| s.as_str()), Some("LIVE"));
    assert_eq!(fields.get("message").map(|s| s.as_str()), Some("a & b"));
    assert_eq!(fields.len(), 2);

    let failed = vec![XmlEvent::Start("ack".to_string()), XmlEvent::Failed];
    let fields = fields_from_events("<ack>ack</ack><status>ok</status", &failed);
    assert_eq!(fields.get("ack").map(|s| s.as_str()), Some("ack"));
    assert_eq!(fields.get("status"), None);
}

#[test]
fn login_and_keepalive_verdicts_on_cased_text() {
    assert_eq!(pesu_wifi::portal::login_reply("alice", "LIVE", ""), Ok("Signed in as alice".to_string()));
    assert_eq!(pesu_wifi::portal::login_reply("alice", "LIVE", "hi"), Ok("hi".to_string()));
    assert_eq!(pesu_wifi::portal::login_reply("alice", "FAILED", "no"), Err("no".to_string()));
    assert_eq!(
        pesu_wifi::portal::login_reply("alice", "LOGIN", ""),
        Err("Login failed: Invalid credentials or session limit reached".to_string())
    );
    assert_eq!(pesu_wifi::portal::login_reply("alice", "X", ""), Err("Login failed (status: X)".to_string()));
    assert_eq!(pesu_wifi::portal::login_reply("alice", "", ""), Err("Unexpected response from portal".to_string()));
    assert!(pesu_wifi::portal::live_answer("ack", ""));
    assert!(pesu_wifi::portal::live_answer("", "is live"));
    assert!(pesu_wifi::portal::live_answer("", "ok"));
    assert!(!pesu_wifi::portal::live_answer("nack", "login"));
}

use dns_watchdog::config::Profile;
use dns_watchdog::watchdog::{
    alert_texts, alert_texts_at, build_log_stream_cmd, domain_from_capture, match_profiles,
    parse_domain,
};

#[test]
fn parses_supported_dns_lines() {
    assert_eq!(
        parse_domain("mDNSResponder QueryRecord for Example.COM type A"),
        Some("example.com".to_string())
    );
    assert_eq!(
        parse_domain("dnscrypt-proxy querying tracker.example.org"),
        Some("tracker.example.org".to_string())
    );
    assert_eq!(
        parse_domain("10.0.0.1.53 > 10.0.0.2.55555: 1234 AAAA? sub.example.net."),
        Some("sub.example.net".to_string())
    );
    assert_eq!(
        parse_domain(r#"dns log "bare.example.io" token"#),
        Some("bare.example.io".to_string())
    );
}

#[test]
fn ignores_local_domains() {
    assert_eq!(parse_domain("querying printer.local"), None);
    assert_eq!(parse_domain("querying localhost"), None);
}

#[test]
fn matches_profiles_with_boundary_rules() {
    let profiles = vec![Profile {
        name: "Test".to_string(),
        watchlist: vec!["example.com".to_string(), "tracking.".to_string()],
        watchlist_file: String::new(),
        alert_sound: String::new(),
        alert_sound_duration: 0,
    }];

    assert_eq!(
        match_profiles("a.example.com", &profiles).map(|(rule, profile)| (rule, profile.name)),
        Some(("example.com".to_string(), "Test".to_string()))
    );
    assert!(match_profiles("badexample.com", &profiles).is_none());
    assert_eq!(
        match_profiles("cdn.tracking.vendor.net", &profiles).map(|(rule, _)| rule),
        Some("tracking.".to_string())
    );
}

fn profile(name: &str, rules: &[&str]) -> Profile {
    Profile {
        name: name.to_string(),
        watchlist: rules.iter().map(|r| r.to_string()).collect(),
        watchlist_file: String::new(),
        alert_sound: String::new(),
        alert_sound_duration: 0,
    }
}

#[test]
fn parse_domain_lowercases_and_trims_dots() {
    assert_eq!(
        parse_domain("1 A? WWW.Example.ORG. (30)"),
        Some("www.example.org".to_string())
    );
}

#[test]
fn parse_domain_without_domain_is_none() {
    assert_eq!(parse_domain("nothing to see here"), None);
    assert_eq!(parse_domain(""), None);
}

#[test]
fn parse_domain_rejects_local_suffix_in_quotes() {
    assert_eq!(parse_domain("log 'host.local' x"), None);
}

#[test]
fn domain_from_capture_trims_lowercases_and_filters() {
    assert_eq!(domain_from_capture("Ex.COM.."), Some("ex.com".to_string()));
    assert_eq!(domain_from_capture("LOCALHOST"), None);
    assert_eq!(domain_from_capture("local."), None);
    assert_eq!(domain_from_capture("nas.Local"), None);
    assert_eq!(domain_from_capture("notlocal"), Some("notlocal".to_string()));
}

#[test]
fn match_profiles_is_case_insensitive() {
    let profiles = vec![profile("P", &["Example.COM"])];
    let hit = match_profiles("WWW.EXAMPLE.com", &profiles).map(|(rule, p)| (rule, p.name));
    assert_eq!(hit, Some(("Example.COM".to_string(), "P".to_string())));
}

#[test]
fn match_profiles_exact_domain_matches() {
    let profiles = vec![profile("P", &["example.com"])];
    assert!(match_profiles("example.com", &profiles).is_some());
    assert!(match_profiles("example.com.evil.net", &profiles).is_none());
}

#[test]
fn match_profiles_first_profile_then_first_rule_wins() {
    let profiles = vec![
        profile("First", &["other.org", "example.com"]),
        profile("Second", &["example.com"]),
    ];
    let hit = match_profiles("x.example.com", &profiles).map(|(rule, p)| (rule, p.name));
    assert_eq!(hit, Some(("example.com".to_string(), "First".to_string())));
    let profiles = vec![profile("A", &["tracking.", "example.com"])];
    let hit = match_profiles("tracking.example.com", &profiles).map(|(rule, _)| rule);
    assert_eq!(hit, Some("tracking.".to_string()));
}

#[test]
fn match_profiles_returns_whole_profile() {
    let mut p = profile("Full", &["ads."]);
    p.alert_sound = "Ping".to_string();
    p.alert_sound_duration = 3;
    let profiles = vec![p];
    let (rule, got) = match_profiles("ads.example.com", &profiles).unwrap();
    assert_eq!(rule, "ads.");
    assert_eq!(got.alert_sound, "Ping");
    assert_eq!(got.alert_sound_duration, 3);
    assert_eq!(got.watchlist, vec!["ads.".to_string()]);
}

#[test]
fn match_profiles_empty_profiles() {
    assert!(match_profiles("example.com", &[]).is_none());
}

#[test]
fn build_log_stream_cmd_is_tcpdump() {
    assert_eq!(build_log_stream_cmd(), vec!["tcpdump", "-l", "-n", "port", "53"]);
}

#[test]
fn alert_texts_at_formats() {
    let t = alert_texts_at("ads.example.com", "ads.", "Work", "12:34:56");
    assert_eq!(t.title, "⚠️ DNS Watchdog: Work");
    assert_eq!(t.subtitle, "Rule: ads.");
    assert_eq!(t.body, "ads.example.com  [12:34:56]");
    assert_eq!(t.time, "12:34:56");
}

#[test]
fn alert_texts_uses_clock_time() {
    let t = alert_texts("d.com", "r", "P");
    assert_eq!(t.time.len(), 8);
    let b = t.time.as_bytes();
    assert_eq!(b[2], b':');
    assert_eq!(b[5], b':');
    for i in [0, 1, 3, 4, 6, 7] {
        assert!(b[i].is_ascii_digit());
    }
    assert_eq!(t.body, format!("d.com  [{}]", t.time));
}

#[test]
fn parse_domain_ignores_case_of_ascii_lines() {
    let lines = [
        "mDNSResponder QueryRecord for Example.COM type A",
        "dnscrypt-proxy querying tracker.example.org",
        "10.0.0.1.53 > 10.0.0.2.55555: 1234 AAAA? sub.example.net.",
        "resolver saw \"Ads.Tracker.io\" today",
        "log 'host.local' x",
        "nothing to see here",
    ];
    for line in lines {
        let found = parse_domain(line);
        assert_eq!(parse_domain(&line.to_ascii_uppercase()), found);
        assert_eq!(parse_domain(&line.to_ascii_lowercase()), found);
    }
}

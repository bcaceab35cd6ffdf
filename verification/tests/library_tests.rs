use std::sync::atomic::AtomicBool;
use std::sync::Arc;

use dns_watchdog::cli::{
    apply_verbose_flag, install_refusal, launchd_plist, log_level_from_name, run_refusal,
    uninstall_refusal, LogLevel,
};
use dns_watchdog::control::{
    notification_timeout_nanos, poll_interval_millis, poll_step, restart_backoff_seconds,
    run_step, stream_step, PollAction, RunAction, StreamAction, StreamEvent,
};
use dns_watchdog::config::{
    apply_watchlist_override, config_from_file, dedup_preserve_order, default_cooldown,
    default_log_level, default_profile_name, load_profile_watchlists, merge_raw_config,
    normalize_profile_paths, Config, Profile, RawConfig,
};
use dns_watchdog::notify::{
    afplay_args, escape_applescript, get_active_user, osascript_args, plan_notification,
};
use dns_watchdog::paths::{
    default_config_path, default_log_path, expand_user_path, expand_user_path_for_config,
    get_true_home, home_from_config_path, join, mac_home_for,
};
use dns_watchdog::rate_limit::RateLimiter;
use dns_watchdog::text::{decimal_string, trim_end_str, trim_str, watchlist_rules_of};
use dns_watchdog::watchdog::{clock_time_format, DnsWatchdog, LineOutcome};

fn strings(v: &[&str]) -> Vec<String> {
    v.iter().map(|s| s.to_string()).collect()
}

fn profile(name: &str, rules: &[&str]) -> Profile {
    Profile {
        name: name.to_string(),
        watchlist: strings(rules),
        watchlist_file: String::new(),
        alert_sound: String::new(),
        alert_sound_duration: 0,
    }
}

fn empty_raw() -> RawConfig {
    RawConfig {
        profiles: None,
        cooldown_seconds: None,
        log_level: None,
        verbose_non_hits: None,
        watchlist: None,
        watchlist_file: None,
        alert_sound: None,
        alert_sound_duration: None,
    }
}

// ----- defaults -----

#[test]
fn defaults_are_as_documented() {
    assert_eq!(default_profile_name(), "Default Profile");
    assert_eq!(default_cooldown(), 60);
    assert_eq!(default_log_level(), "INFO");
    let cfg = Config::default();
    assert_eq!(cfg.cooldown_seconds, 60);
    assert_eq!(cfg.log_level, "INFO");
    assert!(!cfg.verbose_non_hits);
    assert_eq!(cfg.profiles.len(), 1);
    let p = &cfg.profiles[0];
    assert_eq!(p.name, "Default Profile");
    assert_eq!(p.watchlist, strings(&["not-random-facebook.com"]));
    assert_eq!(
        p.watchlist_file,
        "~/project/clarity/Note/System_Configs/Blocklist/root_custom_blocklist.txt"
    );
    assert_eq!(p.alert_sound, "~/project/clarity/Note/Religion/Audio/qayamat.wav");
    assert_eq!(p.alert_sound_duration, 0);
}

// ----- merging a configuration file -----

#[test]
fn merge_legacy_watchlist_becomes_single_profile() {
    let mut cfg = Config::default();
    let mut raw = empty_raw();
    raw.watchlist = Some(strings(&["a.com"]));
    raw.alert_sound = Some("Ping".to_string());
    raw.profiles = Some(vec![profile("Ignored", &["b.com"])]);
    merge_raw_config(&mut cfg, raw);
    assert_eq!(cfg.profiles.len(), 1);
    assert_eq!(cfg.profiles[0].name, "Legacy Profile");
    assert_eq!(cfg.profiles[0].watchlist, strings(&["a.com"]));
    assert_eq!(cfg.profiles[0].watchlist_file, "");
    assert_eq!(cfg.profiles[0].alert_sound, "Ping");
    assert_eq!(cfg.profiles[0].alert_sound_duration, 0);
    assert_eq!(cfg.cooldown_seconds, 60);
}

#[test]
fn merge_legacy_watchlist_file_only() {
    let mut cfg = Config::default();
    let mut raw = empty_raw();
    raw.watchlist_file = Some("/tmp/list.txt".to_string());
    raw.alert_sound_duration = Some(4);
    merge_raw_config(&mut cfg, raw);
    assert_eq!(cfg.profiles.len(), 1);
    assert_eq!(cfg.profiles[0].name, "Legacy Profile");
    assert!(cfg.profiles[0].watchlist.is_empty());
    assert_eq!(cfg.profiles[0].watchlist_file, "/tmp/list.txt");
    assert_eq!(cfg.profiles[0].alert_sound_duration, 4);
}

#[test]
fn merge_profiles_and_settings() {
    let mut cfg = Config::default();
    let mut raw = empty_raw();
    raw.profiles = Some(vec![profile("Work", &["x.com"]), profile("Home", &[])]);
    raw.cooldown_seconds = Some(5);
    raw.log_level = Some("DEBUG".to_string());
    raw.verbose_non_hits = Some(true);
    merge_raw_config(&mut cfg, raw);
    assert_eq!(cfg.profiles.len(), 2);
    assert_eq!(cfg.profiles[0].name, "Work");
    assert_eq!(cfg.profiles[1].name, "Home");
    assert_eq!(cfg.cooldown_seconds, 5);
    assert_eq!(cfg.log_level, "DEBUG");
    assert!(cfg.verbose_non_hits);
}

#[test]
fn merge_empty_file_keeps_everything() {
    let mut cfg = Config::default();
    merge_raw_config(&mut cfg, empty_raw());
    assert_eq!(cfg.profiles.len(), 1);
    assert_eq!(cfg.profiles[0].name, "Default Profile");
    assert_eq!(cfg.cooldown_seconds, 60);
    assert_eq!(cfg.log_level, "INFO");
}

// ----- watchlists -----

#[test]
fn watchlist_rules_skip_blank_and_comment_lines() {
    let text = "  a.com  \n# comment\n\n\tb.net\r\n   #x\nc.org";
    assert_eq!(watchlist_rules_of(text), strings(&["a.com", "b.net", "c.org"]));
    assert!(watchlist_rules_of("").is_empty());
    assert_eq!(watchlist_rules_of("only\n"), strings(&["only"]));
}

#[test]
fn dedup_keeps_first_occurrences_in_order() {
    let mut v = strings(&["b", "a", "b", "c", "a", "b"]);
    dedup_preserve_order(&mut v);
    assert_eq!(v, strings(&["b", "a", "c"]));
    let mut e: Vec<String> = Vec::new();
    dedup_preserve_order(&mut e);
    assert!(e.is_empty());
}

#[test]
fn load_profile_watchlists_appends_file_rules_and_dedups() {
    let mut cfg = Config::default();
    cfg.profiles = vec![profile("A", &["x.com", "x.com"]), profile("B", &["y.com"])];
    cfg.profiles[0].watchlist_file = "/a.txt".to_string();
    let texts = vec![Some("y.com\nx.com\n# c\nz.com".to_string())];
    load_profile_watchlists(&mut cfg, &texts);
    assert_eq!(cfg.profiles[0].watchlist, strings(&["x.com", "y.com", "z.com"]));
    assert_eq!(cfg.profiles[1].watchlist, strings(&["y.com"]));
}

#[test]
fn load_profile_watchlists_ignores_text_without_file() {
    let mut cfg = Config::default();
    cfg.profiles = vec![profile("A", &["x.com"])];
    load_profile_watchlists(&mut cfg, &vec![Some("new.com".to_string())]);
    assert_eq!(cfg.profiles[0].watchlist, strings(&["x.com"]));
}

#[test]
fn watchlist_override_on_empty_config_adds_profile() {
    let mut cfg = Config::default();
    cfg.profiles.clear();
    apply_watchlist_override(&mut cfg, "/l.txt", Some("a.com\na.com\nb.com"));
    assert_eq!(cfg.profiles.len(), 1);
    assert_eq!(cfg.profiles[0].name, "CLI Override");
    assert_eq!(cfg.profiles[0].watchlist_file, "/l.txt");
    assert_eq!(cfg.profiles[0].watchlist, strings(&["a.com", "b.com"]));
}

#[test]
fn watchlist_override_changes_first_profile_only() {
    let mut cfg = Config::default();
    cfg.profiles = vec![profile("A", &["x.com"]), profile("B", &["y.com"])];
    apply_watchlist_override(&mut cfg, "/l.txt", None);
    assert_eq!(cfg.profiles.len(), 2);
    assert_eq!(cfg.profiles[0].watchlist_file, "/l.txt");
    assert_eq!(cfg.profiles[0].watchlist, strings(&["x.com"]));
    assert_eq!(cfg.profiles[1].watchlist_file, "");
    apply_watchlist_override(&mut cfg, "/m.txt", Some("z.com\nx.com"));
    assert_eq!(cfg.profiles[0].watchlist, strings(&["x.com", "z.com"]));
}

// ----- paths -----

#[test]
fn join_follows_pathbuf_push() {
    assert_eq!(join("/home/u", "x/y"), "/home/u/x/y");
    assert_eq!(join("/home/u/", "x"), "/home/u/x");
    assert_eq!(join("", "x"), "x");
    assert_eq!(join("/home/u", "/etc/hosts"), "/etc/hosts");
}

#[test]
fn home_and_default_paths() {
    assert_eq!(mac_home_for("bob"), "/Users/bob");
    assert_eq!(get_true_home(Some("bob"), true, Some("/root")), "/Users/bob");
    assert_eq!(get_true_home(Some("bob"), false, Some("/root")), "/root");
    assert_eq!(get_true_home(None, true, Some("/home/a")), "/home/a");
    assert_eq!(get_true_home(None, false, None), "~");
    assert_eq!(default_config_path("/Users/bob"), "/Users/bob/.dns_watchdog/config.json");
    assert_eq!(
        default_log_path("/Users/bob/.dns_watchdog/config.json"),
        Some("/Users/bob/.dns_watchdog/watchdog.log".to_string())
    );
    assert_eq!(default_log_path("/"), None);
}

#[test]
fn home_from_config_path_needs_dns_watchdog_dir() {
    assert_eq!(
        home_from_config_path("/Users/bob/.dns_watchdog/config.json"),
        Some("/Users/bob".to_string())
    );
    assert_eq!(home_from_config_path("/etc/dns/config.json"), None);
    assert_eq!(home_from_config_path("config.json"), None);
}

#[test]
fn expand_user_path_tilde_and_plain() {
    assert_eq!(expand_user_path("~/music/a.wav", "/Users/bob"), "/Users/bob/music/a.wav");
    assert_eq!(expand_user_path("Sosumi", "/Users/bob"), "Sosumi");
    assert_eq!(expand_user_path("/abs/path", "/Users/bob"), "/abs/path");
}

#[test]
fn expand_for_config_prefers_config_home() {
    assert_eq!(
        expand_user_path_for_config("~/a.txt", "/Users/eve/.dns_watchdog/config.json", "/root"),
        "/Users/eve/a.txt"
    );
    assert_eq!(
        expand_user_path_for_config("~/a.txt", "/etc/dw/config.json", "/root"),
        "/root/a.txt"
    );
}

#[test]
fn normalize_expands_nonempty_paths() {
    let mut cfg = Config::default();
    cfg.profiles = vec![profile("A", &[]), profile("B", &[])];
    cfg.profiles[0].watchlist_file = "~/l.txt".to_string();
    cfg.profiles[0].alert_sound = "Ping".to_string();
    normalize_profile_paths(&mut cfg, "/Users/eve/.dns_watchdog/config.json", "/root");
    assert_eq!(cfg.profiles[0].watchlist_file, "/Users/eve/l.txt");
    assert_eq!(cfg.profiles[0].alert_sound, "Ping");
    assert_eq!(cfg.profiles[1].watchlist_file, "");
    assert_eq!(cfg.profiles[1].alert_sound, "");
}

#[test]
fn config_from_file_without_file_gives_expanded_defaults() {
    let cfg = config_from_file(None, "/Users/eve/.dns_watchdog/config.json", "/root");
    assert_eq!(cfg.profiles.len(), 1);
    assert_eq!(
        cfg.profiles[0].watchlist_file,
        "/Users/eve/project/clarity/Note/System_Configs/Blocklist/root_custom_blocklist.txt"
    );
    assert_eq!(
        cfg.profiles[0].alert_sound,
        "/Users/eve/project/clarity/Note/Religion/Audio/qayamat.wav"
    );
    let mut raw = empty_raw();
    raw.cooldown_seconds = Some(9);
    let cfg = config_from_file(Some(raw), "/x/config.json", "/root");
    assert_eq!(cfg.cooldown_seconds, 9);
}

// ----- rate limiting -----

#[test]
fn rate_limiter_suppresses_within_cooldown() {
    let mut l = RateLimiter::new(60);
    assert_eq!(l.cooldown_seconds(), 60);
    assert!(l.should_alert_at("rule", 0));
    assert!(!l.should_alert_at("rule", 59_999_999_999));
    assert!(l.should_alert_at("other", 1));
    assert!(l.should_alert_at("rule", 60_000_000_000));
    assert!(!l.should_alert_at("rule", 60_000_000_001));
    assert!(!l.should_alert_at("rule", 5));
}

#[test]
fn rate_limiter_with_clock() {
    let mut l = RateLimiter::new(60);
    assert!(l.should_alert("r"));
    assert!(!l.should_alert("r"));
    let mut z = RateLimiter::new(0);
    assert!(z.should_alert("r"));
    assert!(z.should_alert("r"));
}

// ----- the monitor -----

#[test]
fn process_line_outcomes() {
    let mut cfg = Config::default();
    cfg.profiles = vec![profile("Ads", &["doubleclick.net"])];
    cfg.cooldown_seconds = 60;
    let mut w = DnsWatchdog::new(cfg, Arc::new(AtomicBool::new(false)));
    assert!(!w.stop_requested());
    assert!(matches!(w.process_line_at("no domain here", 0), LineOutcome::NoDomain));
    match w.process_line_at("querying good.example.com", 0) {
        LineOutcome::Unmatched { domain, verbose } => {
            assert_eq!(domain, "good.example.com");
            assert!(!verbose);
        }
        _ => panic!("expected an unmatched domain"),
    }
    match w.process_line_at("querying ad.DoubleClick.net", 0) {
        LineOutcome::Hit { domain, rule, profile, total_hits, alert } => {
            assert_eq!(domain, "ad.doubleclick.net");
            assert_eq!(rule, "doubleclick.net");
            assert_eq!(profile.name, "Ads");
            assert_eq!(total_hits, 1);
            assert!(alert);
        }
        _ => panic!("expected a hit"),
    }
    match w.process_line_at("querying ad.doubleclick.net", 1_000) {
        LineOutcome::Hit { total_hits, alert, .. } => {
            assert_eq!(total_hits, 2);
            assert!(!alert);
        }
        _ => panic!("expected a hit"),
    }
    assert_eq!(w.hits("ad.doubleclick.net"), 2);
    assert_eq!(w.hits("good.example.com"), 0);
    assert_eq!(w.config().profiles[0].name, "Ads");
    match w.process_line_at("querying x.doubleclick.net", 2_000) {
        LineOutcome::Hit { rule, total_hits, alert, .. } => {
            assert_eq!(rule, "doubleclick.net");
            assert_eq!(total_hits, 1);
            assert!(alert, "another domain hitting the same rule alerts on its own");
        }
        _ => panic!("expected a hit"),
    }
    match w.process_line("querying x.doubleclick.net") {
        LineOutcome::Hit { total_hits, alert, .. } => {
            assert_eq!(total_hits, 2);
            assert!(!alert);
        }
        _ => panic!("expected a hit"),
    }
    match w.process_line_at("querying ad.doubleclick.net", 60_000_000_000) {
        LineOutcome::Hit { total_hits, alert, .. } => {
            assert_eq!(total_hits, 3);
            assert!(alert);
        }
        _ => panic!("expected a hit"),
    }
}

#[test]
fn process_line_reports_verbose_setting() {
    let mut cfg = Config::default();
    cfg.profiles = vec![];
    cfg.verbose_non_hits = true;
    let flag = Arc::new(AtomicBool::new(false));
    let mut w = DnsWatchdog::new(cfg, flag.clone());
    assert!(!w.stop_requested());
    flag.store(true, std::sync::atomic::Ordering::SeqCst);
    assert!(w.stop_requested(), "the monitor watches the flag it was given");
    match w.process_line("querying a.example.com") {
        LineOutcome::Unmatched { verbose, .. } => assert!(verbose),
        _ => panic!("expected an unmatched domain"),
    }
}

// ----- notifications -----

#[test]
fn escape_applescript_escapes_backslash_and_quote() {
    assert_eq!(escape_applescript(r#"a"b\c"#), r#"a\"b\\c"#);
    assert_eq!(escape_applescript("plain"), "plain");
}

#[test]
fn plan_notification_with_sound_name() {
    let p = plan_notification("T", "S", "B \"x\"", "Ping", false);
    assert_eq!(
        p.script,
        "display notification \"B \\\"x\\\"\" with title \"T\" subtitle \"S\" sound name \"Ping\""
    );
    assert!(!p.play_sound_file);
}

#[test]
fn plan_notification_with_sound_file_or_none() {
    let p = plan_notification("T", "S", "B", "/a.wav", true);
    assert_eq!(p.script, "display notification \"B\" with title \"T\" subtitle \"S\"");
    assert!(p.play_sound_file);
    let q = plan_notification("T", "S", "B", "", true);
    assert_eq!(q.script, "display notification \"B\" with title \"T\" subtitle \"S\"");
    assert!(!q.play_sound_file);
}

#[test]
fn command_arguments() {
    assert_eq!(osascript_args("bob", "s"), strings(&["-u", "bob", "osascript", "-e", "s"]));
    assert_eq!(afplay_args("bob", 0, "/a.wav"), strings(&["-u", "bob", "afplay", "/a.wav"]));
    assert_eq!(
        afplay_args("bob", 120, "/a.wav"),
        strings(&["-u", "bob", "afplay", "-t", "120", "/a.wav"])
    );
}

#[test]
fn active_user_choice() {
    assert_eq!(get_active_user(Some(" alice\n"), Some("bob"), Some("carol")), "alice");
    assert_eq!(get_active_user(Some("root\n"), Some("bob"), Some("carol")), "bob");
    assert_eq!(get_active_user(Some("  "), None, Some("carol")), "carol");
    assert_eq!(get_active_user(None, None, None), "root");
}

// ----- command line -----

#[test]
fn log_levels() {
    assert_eq!(log_level_from_name("debug"), LogLevel::Debug);
    assert_eq!(log_level_from_name("Warning"), LogLevel::Warn);
    assert_eq!(log_level_from_name("ERROR"), LogLevel::Error);
    assert_eq!(log_level_from_name("INFO"), LogLevel::Info);
    assert_eq!(log_level_from_name("whatever"), LogLevel::Info);
}

#[test]
fn verbose_flag_sets_debug() {
    let mut cfg = Config::default();
    apply_verbose_flag(&mut cfg, false);
    assert_eq!(cfg.log_level, "INFO");
    apply_verbose_flag(&mut cfg, true);
    assert_eq!(cfg.log_level, "DEBUG");
}

#[test]
fn plist_names_program_config_and_logs() {
    let p = launchd_plist("/usr/local/bin/dns-watchdog", "/Users/bob/.dns_watchdog/config.json", "/Users/bob");
    assert!(p.starts_with("<?xml version=\"1.0\" encoding=\"UTF-8\"?>\n"));
    assert!(p.contains("    <string>/usr/local/bin/dns-watchdog</string>\n    <string>run</string>\n    <string>--config</string>\n    <string>/Users/bob/.dns_watchdog/config.json</string>\n"));
    assert!(p.contains("<string>/Users/bob/.dns_watchdog/launchd.out</string>"));
    assert!(p.ends_with("<string>/Users/bob/.dns_watchdog/launchd.err</string>\n</dict>\n</plist>"));
}

// ----- text -----

#[test]
fn text_helpers() {
    assert_eq!(trim_str(" \t a b \u{3000}"), "a b");
    assert_eq!(decimal_string(0), "0");
    assert_eq!(decimal_string(1234567890), "1234567890");
    assert_eq!(decimal_string(u64::MAX), "18446744073709551615");
}

// ----- loops -----

#[test]
fn run_step_decisions() {
    assert!(matches!(run_step(true, None), RunAction::Stop));
    assert!(matches!(run_step(true, Some(Err("x".to_string()))), RunAction::Stop));
    assert!(matches!(run_step(false, None), RunAction::StartStream));
    assert!(matches!(run_step(false, Some(Ok(()))), RunAction::StartStream));
    match run_step(false, Some(Err("boom".to_string()))) {
        RunAction::BackoffThenStart { error } => assert_eq!(error, "boom"),
        _ => panic!("expected a back-off"),
    }
    assert_eq!(restart_backoff_seconds(), 5);
}

#[test]
fn stream_step_decisions() {
    match stream_step(false, StreamEvent::Line("1 A? a.com. \r".to_string())) {
        StreamAction::Process(l) => assert_eq!(l, "1 A? a.com."),
        _ => panic!("expected a line to process"),
    }
    assert!(matches!(stream_step(true, StreamEvent::Line("x".to_string())), StreamAction::KillAndWait));
    assert!(matches!(stream_step(true, StreamEvent::ReadError("e".to_string())), StreamAction::KillAndWait));
    match stream_step(false, StreamEvent::ReadError("bad".to_string())) {
        StreamAction::KillAndFail(m) => assert_eq!(m, "failed reading tcpdump output: bad"),
        _ => panic!("expected a failure"),
    }
    match stream_step(false, StreamEvent::Exited { success: false, status: "exit status: 1".to_string() }) {
        StreamAction::Finish(Err(m)) => assert_eq!(m, "tcpdump exited with status exit status: 1"),
        _ => panic!("expected a failure"),
    }
    assert!(matches!(
        stream_step(true, StreamEvent::Exited { success: false, status: String::new() }),
        StreamAction::Finish(Ok(()))
    ));
    assert!(matches!(
        stream_step(false, StreamEvent::Exited { success: true, status: String::new() }),
        StreamAction::Finish(Ok(()))
    ));
    match stream_step(false, StreamEvent::StartFailed("nope".to_string())) {
        StreamAction::Finish(Err(m)) => assert_eq!(m, "failed to start tcpdump: nope"),
        _ => panic!("expected a failure"),
    }
    match stream_step(true, StreamEvent::NoStdout) {
        StreamAction::Finish(Err(m)) => assert_eq!(m, "failed to open tcpdump stdout"),
        _ => panic!("expected a failure"),
    }
    match stream_step(false, StreamEvent::WaitFailed("w".to_string())) {
        StreamAction::Finish(Err(m)) => assert_eq!(m, "failed waiting for tcpdump: w"),
        _ => panic!("expected a failure"),
    }
}

#[test]
fn poll_step_decisions() {
    let t = notification_timeout_nanos();
    assert_eq!(t, 5_000_000_000);
    assert_eq!(poll_interval_millis(), 50);
    assert!(matches!(poll_step(true, t + 1, t), PollAction::Collect));
    assert!(matches!(poll_step(false, t, t), PollAction::KillThenCollect));
    assert!(matches!(poll_step(false, t - 1, t), PollAction::WaitAndPoll));
}

#[test]
fn refusals() {
    assert_eq!(install_refusal(501, Some("bob")), Some("FATAL: You must run 'install' with sudo.".to_string()));
    assert_eq!(install_refusal(501, None), Some("FATAL: You must run 'install' with sudo.".to_string()));
    assert_eq!(install_refusal(0, None), None);
    assert_eq!(
        install_refusal(0, Some("root")),
        Some("Could not detect SUDO_USER. Run this using 'sudo ./target/release/dns-watchdog install'".to_string())
    );
    assert_eq!(install_refusal(0, Some("bob")), None);
    assert_eq!(uninstall_refusal(0), None);
    assert_eq!(uninstall_refusal(1), Some("FATAL: You must run 'uninstall' with sudo.".to_string()));
    assert_eq!(run_refusal(0), None);
    assert_eq!(
        run_refusal(7),
        Some("FATAL: You must run this script with sudo to sniff network packets!".to_string())
    );
}

#[test]
fn trim_end_keeps_leading_space() {
    assert_eq!(trim_end_str("  a b \t\r\n"), "  a b");
    assert_eq!(trim_end_str(""), "");
}

#[test]
fn limiter_sequence_spacing() {
    let mut l = RateLimiter::new(1);
    let times = [0u128, 400_000_000, 999_999_999, 1_000_000_000, 1_500_000_000, 2_000_000_000];
    let answers: Vec<bool> = times.iter().map(|t| l.should_alert_at("k", *t)).collect();
    assert_eq!(answers, vec![true, false, false, true, false, true]);
}

#[test]
fn clock_format_is_hours_minutes_seconds() {
    assert_eq!(clock_time_format(), "%H:%M:%S");
}

#[test]
fn limiter_spacing_over_mixed_keys() {
    let cooldown: u128 = 2_000_000_000;
    let mut l = RateLimiter::new(2);
    let keys = ["a", "b", "a", "c", "b", "a"];
    let mut last: Vec<(&str, u128)> = Vec::new();
    let mut t: u128 = 0;
    for step in 0..60u128 {
        let key = keys[(step % 6) as usize];
        t += 150_000_000 + (step % 7) * 90_000_000;
        let allowed = l.should_alert_at(key, t);
        let previous = last.iter().find(|(k, _)| *k == key).map(|(_, at)| *at);
        let expected = match previous {
            Some(at) => t - at >= cooldown,
            None => true,
        };
        assert_eq!(allowed, expected);
        if allowed {
            last.retain(|(k, _)| *k != key);
            last.push((key, t));
        }
    }
}

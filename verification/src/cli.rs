//! Decisions of the command-line program: the log level, the `--verbose`
//! switch and the launchd job that runs the monitor in the background.
use vstd::prelude::*;

use crate::config::{Config, ConfigView};
use crate::notify::opt_str_view;
use crate::paths::opt_view;
use crate::text::{contains_seq, lemma_occurs_within, occurs_at, to_uppercase, unicode_uppercase};

verus! {

/// How much the monitor logs.
#[derive(PartialEq, Eq, Structural, Debug, Clone, Copy)]
pub enum LogLevel {
    Debug,
    Info,
    Warn,
    Error,
}

/// The log level that a configured level name stands for, case being
/// ignored: `DEBUG`, `WARNING` and `ERROR` are recognised, anything else
/// means `INFO`.
pub open spec fn log_level_of(name: Seq<char>) -> LogLevel {
    let u = unicode_uppercase(name);
    if u == "DEBUG"@ {
        LogLevel::Debug
    } else if u == "WARNING"@ {
        LogLevel::Warn
    } else if u == "ERROR"@ {
        LogLevel::Error
    } else {
        LogLevel::Info
    }
}

/// The log level that a configured level name stands for (see
/// `log_level_of`).
pub fn log_level_from_name(name: &str) -> (l: LogLevel)
    ensures
        l == log_level_of(name@),
{
    let u = to_uppercase(name);
    if u == String::from_str("DEBUG") {
        LogLevel::Debug
    } else if u == String::from_str("WARNING") {
        LogLevel::Warn
    } else if u == String::from_str("ERROR") {
        LogLevel::Error
    } else {
        LogLevel::Info
    }
}

/// The `--verbose` switch: when given, the log level becomes `DEBUG`;
/// nothing else changes.
pub fn apply_verbose_flag(cfg: &mut Config, verbose: bool)
    ensures
        final(cfg)@ == (if verbose {
            ConfigView { log_level: "DEBUG"@, ..old(cfg)@ }
        } else {
            old(cfg)@
        }),
{
    if verbose {
        cfg.log_level = String::from_str("DEBUG");
    }
}

/// The launchd property list that runs `<exec_path> run --config
/// <config_path>` at load, keeps it alive, and sends its output to
/// `<home>/.dns_watchdog/launchd.out` and `.err`.
pub open spec fn launchd_plist_text(exec_path: Seq<char>, config_path: Seq<char>, home: Seq<char>) -> Seq<char> {
    "<?xml version=\"1.0\" encoding=\"UTF-8\"?>\n<!DOCTYPE plist PUBLIC \"-//Apple//DTD PLIST 1.0//EN\" \"http://www.apple.com/DTDs/PropertyList-1.0.dtd\">\n<plist version=\"1.0\">\n<dict>\n  <key>Label</key>\n  <string>com.user.dns-watchdog</string>\n\n  <key>ProgramArguments</key>\n  <array>\n    <string>"@
        + exec_path
        + "</string>\n    <string>run</string>\n    <string>--config</string>\n    <string>"@
        + config_path
        + "</string>\n  </array>\n\n  <key>RunAtLoad</key>\n  <true/>\n  <key>KeepAlive</key>\n  <true/>\n\n  <key>StandardOutPath</key>\n  <string>"@
        + home
        + "/.dns_watchdog/launchd.out</string>\n  <key>StandardErrorPath</key>\n  <string>"@
        + home + "/.dns_watchdog/launchd.err</string>\n</dict>\n</plist>"@
}

/// The launchd property list for the background job (see
/// `launchd_plist_text`).
pub fn launchd_plist(exec_path: &str, config_path: &str, home: &str) -> (r: String)
    ensures
        r@ == launchd_plist_text(exec_path@, config_path@, home@),
        contains_seq(r@, "<key>RunAtLoad</key>\n  <true/>"@),
        contains_seq(r@, "<key>KeepAlive</key>\n  <true/>"@),
{
    proof {
        lemma_plist_runs_at_load_and_keeps_alive(exec_path@, config_path@, home@);
    }
    let mut r = String::from_str(
        "<?xml version=\"1.0\" encoding=\"UTF-8\"?>\n<!DOCTYPE plist PUBLIC \"-//Apple//DTD PLIST 1.0//EN\" \"http://www.apple.com/DTDs/PropertyList-1.0.dtd\">\n<plist version=\"1.0\">\n<dict>\n  <key>Label</key>\n  <string>com.user.dns-watchdog</string>\n\n  <key>ProgramArguments</key>\n  <array>\n    <string>",
    );
    r.append(exec_path);
    r.append("</string>\n    <string>run</string>\n    <string>--config</string>\n    <string>");
    r.append(config_path);
    r.append(
        "</string>\n  </array>\n\n  <key>RunAtLoad</key>\n  <true/>\n  <key>KeepAlive</key>\n  <true/>\n\n  <key>StandardOutPath</key>\n  <string>",
    );
    r.append(home);
    r.append("/.dns_watchdog/launchd.out</string>\n  <key>StandardErrorPath</key>\n  <string>");
    r.append(home);
    r.append("/.dns_watchdog/launchd.err</string>\n</dict>\n</plist>");
    r
}

/// Whatever the paths, the launchd job starts the monitor when it is loaded
/// and keeps it alive: launchd restarts it whenever it exits.
pub proof fn lemma_plist_runs_at_load_and_keeps_alive(exec_path: Seq<char>, config_path: Seq<char>, home: Seq<char>)
    ensures
        contains_seq(launchd_plist_text(exec_path, config_path, home), "<key>RunAtLoad</key>\n  <true/>"@),
        contains_seq(launchd_plist_text(exec_path, config_path, home), "<key>KeepAlive</key>\n  <true/>"@),
{
    let head = "<?xml version=\"1.0\" encoding=\"UTF-8\"?>\n<!DOCTYPE plist PUBLIC \"-//Apple//DTD PLIST 1.0//EN\" \"http://www.apple.com/DTDs/PropertyList-1.0.dtd\">\n<plist version=\"1.0\">\n<dict>\n  <key>Label</key>\n  <string>com.user.dns-watchdog</string>\n\n  <key>ProgramArguments</key>\n  <array>\n    <string>"@
        + exec_path
        + "</string>\n    <string>run</string>\n    <string>--config</string>\n    <string>"@
        + config_path;
    let middle = "</string>\n  </array>\n\n  <key>RunAtLoad</key>\n  <true/>\n  <key>KeepAlive</key>\n  <true/>\n\n  <key>StandardOutPath</key>\n  <string>"@;
    let tail = home + "/.dns_watchdog/launchd.out</string>\n  <key>StandardErrorPath</key>\n  <string>"@ + home
        + "/.dns_watchdog/launchd.err</string>\n</dict>\n</plist>"@;
    assert(launchd_plist_text(exec_path, config_path, home) =~= head + middle + tail);
    let run_at_load = "<key>RunAtLoad</key>\n  <true/>"@;
    let keep_alive = "<key>KeepAlive</key>\n  <true/>"@;
    reveal_strlit("</string>\n  </array>\n\n  <key>RunAtLoad</key>\n  <true/>\n  <key>KeepAlive</key>\n  <true/>\n\n  <key>StandardOutPath</key>\n  <string>");
    reveal_strlit("<key>RunAtLoad</key>\n  <true/>");
    reveal_strlit("<key>KeepAlive</key>\n  <true/>");
    assert(middle.subrange(24, 54) =~= run_at_load);
    assert(middle.subrange(57, 87) =~= keep_alive);
    lemma_occurs_within(head, middle, tail, run_at_load, 24);
    lemma_occurs_within(head, middle, tail, keep_alive, 57);
}

/// Why `install` refuses to run, if it does: it needs root, and a console
/// user other than `root` to install the job for. `console_user` is `None`
/// while the user has not been looked up yet; then only root is checked.
pub fn install_refusal(euid: u32, console_user: Option<&str>) -> (r: Option<String>)
    ensures
        euid != 0 ==> opt_view(r) == Some("FATAL: You must run 'install' with sudo."@),
        euid == 0 && opt_str_view(console_user) == Some("root"@) ==> opt_view(r) == Some(
            "Could not detect SUDO_USER. Run this using 'sudo ./target/release/dns-watchdog install'"@,
        ),
        euid == 0 && opt_str_view(console_user) != Some("root"@) ==> r is None,
{
    if euid != 0 {
        return Some(String::from_str("FATAL: You must run 'install' with sudo."));
    }
    if let Some(u) = console_user {
        let user = String::from_str(u);
        if user == String::from_str("root") {
            return Some(
                String::from_str(
                    "Could not detect SUDO_USER. Run this using 'sudo ./target/release/dns-watchdog install'",
                ),
            );
        }
    }
    None
}

/// Why `uninstall` refuses to run, if it does: it needs root.
pub fn uninstall_refusal(euid: u32) -> (r: Option<String>)
    ensures
        euid != 0 ==> opt_view(r) == Some("FATAL: You must run 'uninstall' with sudo."@),
        euid == 0 ==> r is None,
{
    if euid != 0 {
        Some(String::from_str("FATAL: You must run 'uninstall' with sudo."))
    } else {
        None
    }
}

/// Why the monitor refuses to run, if it does: capturing packets needs root.
pub fn run_refusal(euid: u32) -> (r: Option<String>)
    ensures
        euid != 0 ==> opt_view(r) == Some("FATAL: You must run this script with sudo to sniff network packets!"@),
        euid == 0 ==> r is None,
{
    if euid != 0 {
        Some(String::from_str("FATAL: You must run this script with sudo to sniff network packets!"))
    } else {
        None
    }
}

} // verus!

# dns_watchdog

A DNS activity monitor for macOS. It streams DNS traffic from `tcpdump`,
extracts the queried domain from each line, matches it against watchlist
profiles and posts a desktop notification, with a per-domain cooldown.

The library under `src/` holds the logic with its contracts and proofs
(verified with Verus):

- `text` - trimming, line splitting, substring search, case mapping, decimals
- `paths` - path joining, `~` expansion, configuration and log locations
- `config` - profiles and configuration, defaults, merging a configuration
  file, watchlist files, deduplication
- `rate_limit` - the alert cooldown per key (the monitor keys it on the domain)
- `watchdog` - domain extraction, profile matching, per-line decisions,
  alert texts
- `notify` - the notification script, command arguments, the user to notify
- `cli` - log levels, the `--verbose` switch, the launchd job, root checks
- `control` - the decisions of the capture loops (restart with back-off,
  stop, per-line handling, the notification time limit) as step functions

`app/` is the program around it: command line, files, processes, logging
and the loops that perform the steps `control` decides.

## Commands

- `run` (the default) monitors DNS traffic; it needs root.
- `config` prints the active configuration; `init` writes the default one.
- `test` posts a test notification with the first profile's alert sound.
- `stop`, `install` and `uninstall` manage running instances and the
  launchd job.
- `--watchlist-file <path>` makes the first profile use that watchlist file
  (a profile named "CLI Override" is added when there is none), and
  `--verbose` sets the log level to `DEBUG`.

An alert posts a notification and plays the profile's sound; it opens no
other program.

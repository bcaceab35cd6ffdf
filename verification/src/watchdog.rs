//! The monitor's decisions: which domain a DNS traffic line names, which
//! profile rule it hits, whether the hit raises an alert, and the texts of
//! the alert.
use std::sync::atomic::AtomicBool;
use std::sync::Arc;
use vstd::hash_map::StringHashMap;
use vstd::prelude::*;

use crate::config::{Config, ConfigView, Profile, ProfileView};
use crate::rate_limit::{after_check, alert_allowed, RateLimiter, RateLimiterView};
use crate::text::{
    chars_of, concat2, contains_seq, ends_with_chars, equal_chars, has_suffix, string_from_chars,
    to_lowercase, unicode_lowercase, views, contains_chars,
};

verus! {

// ---------------------------------------------------------------------------
// Extracting the domain of a line
// ---------------------------------------------------------------------------
/// The patterns tried on a line, in order: resolver log lines
/// ("Query... for <domain>"), `querying <domain>`, tcpdump question records
/// ("A? <domain>."), and a bare quoted or space-delimited domain.
pub open spec fn dns_pattern(k: int) -> Seq<char> {
    if k == 0 {
        r"(?i)(?:Query|Resolve|resolv)\w*\s+for\s+([a-zA-Z0-9._\-]+\.[a-zA-Z]{2,})"@
    } else if k == 1 {
        r"(?i)querying\s+([a-zA-Z0-9._\-]+\.[a-zA-Z]{2,})"@
    } else if k == 2 {
        r"(?i)(?:^|\s)[A-Z0-9]+\?\s+([a-zA-Z0-9._\-]+\.[a-zA-Z]{2,})\."@
    } else {
        r#"[\s"']([a-zA-Z0-9](?:[a-zA-Z0-9\-]{0,61}[a-zA-Z0-9])?(?:\.[a-zA-Z]{2,})+)["'\s]"#@
    }
}

fn dns_pattern_str(k: usize) -> (p: &'static str)
    requires
        k < 4,
    ensures
        p@ == dns_pattern(k as int),
{
    if k == 0 {
        r"(?i)(?:Query|Resolve|resolv)\w*\s+for\s+([a-zA-Z0-9._\-]+\.[a-zA-Z]{2,})"
    } else if k == 1 {
        r"(?i)querying\s+([a-zA-Z0-9._\-]+\.[a-zA-Z]{2,})"
    } else if k == 2 {
        r"(?i)(?:^|\s)[A-Z0-9]+\?\s+([a-zA-Z0-9._\-]+\.[a-zA-Z]{2,})\."
    } else {
        r#"[\s"']([a-zA-Z0-9](?:[a-zA-Z0-9\-]{0,61}[a-zA-Z0-9])?(?:\.[a-zA-Z]{2,})+)["'\s]"#
    }
}

/// What the `regex` crate finds when it searches `haystack` for the regular
/// expression `pattern`: `None` when the pattern does not compile or does not
/// match; otherwise the text of the first match's capture group 1, if that
/// group took part in the match.
pub uninterp spec fn regex_group_one(pattern: Seq<char>, haystack: Seq<char>) -> Option<Option<Seq<char>>>;

/// The view of an optional optional string.
pub open spec fn opt_opt_view(o: Option<Option<String>>) -> Option<Option<Seq<char>>> {
    match o {
        Some(Some(s)) => Some(Some(s@)),
        Some(None) => Some(None),
        None => None,
    }
}

/// Compiles `pattern` with `regex::Regex::new`, searches `haystack` with
/// `Regex::captures` and takes capture group 1 with `Captures::get`. The
/// result is the name `regex_group_one` of the pattern and the haystack; a
/// pattern that does not compile gives `None`, as no match does.
#[verifier::external_body]
fn capture_group_one(pattern: &str, haystack: &str) -> (r: Option<Option<String>>)
    ensures
        opt_opt_view(r) == regex_group_one(pattern@, haystack@),
{
    let re = match regex::Regex::new(pattern) {
        Ok(re) => re,
        Err(_) => return None,
    };
    match re.captures(haystack) {
        Some(caps) => match caps.get(1) {
            Some(m) => Some(Some(m.as_str().to_string())),
            None => Some(None),
        },
        None => None,
    }
}

/// `s` without its trailing dots.
pub open spec fn trim_end_dots(s: Seq<char>) -> Seq<char>
    decreases s.len(),
{
    if s.len() > 0 && s.last() == '.' {
        trim_end_dots(s.drop_last())
    } else {
        s
    }
}

/// A local-network name, which is never reported.
pub open spec fn is_local_domain(d: Seq<char>) -> bool {
    d == "local"@ || d == "localhost"@ || has_suffix(d, ".local"@)
}

/// The domain that a captured name stands for: trailing dots removed,
/// lowercased, and nothing for local names.
pub open spec fn domain_of_capture(capture: Seq<char>) -> Option<Seq<char>> {
    let d = unicode_lowercase(trim_end_dots(capture));
    if is_local_domain(d) {
        None
    } else {
        Some(d)
    }
}

/// The domain found by trying the patterns from the `k`-th on: the first
/// pattern that matches decides.
pub open spec fn domain_from_patterns(line: Seq<char>, k: nat) -> Option<Seq<char>>
    decreases 4 - k,
{
    if k >= 4 {
        None
    } else {
        match regex_group_one(dns_pattern(k as int), line) {
            None => domain_from_patterns(line, k + 1),
            Some(None) => None,
            Some(Some(c)) => domain_of_capture(c),
        }
    }
}

/// The domain that a DNS traffic line names, if any.
pub open spec fn line_domain(line: Seq<char>) -> Option<Seq<char>> {
    domain_from_patterns(line, 0)
}

/// The domain that a captured name stands for (see `domain_of_capture`).
pub fn domain_from_capture(capture: &str) -> (d: Option<String>)
    ensures
        match d {
            Some(s) => domain_of_capture(capture@) == Some(s@),
            None => domain_of_capture(capture@) is None,
        },
{
    let v = chars_of(capture);
    let mut end = v.len();
    assert(v@.subrange(0, v.len() as int) =~= v@);
    while end > 0 && v[end - 1] == '.'
        invariant
            end <= v.len(),
            v@ == capture@,
            trim_end_dots(capture@) == trim_end_dots(v@.subrange(0, end as int)),
        decreases end,
    {
        assert(v@.subrange(0, end as int).drop_last() =~= v@.subrange(0, end - 1));
        end -= 1;
    }
    assert(v@.subrange(0, v.len() as int) =~= v@);
    let trimmed = string_from_chars(&v, 0, end);
    let lower = to_lowercase(trimmed.as_str());
    let lv = chars_of(lower.as_str());
    let local = chars_of(".local");
    let is_local = equal_chars(&lv, &chars_of("local")) || equal_chars(&lv, &chars_of("localhost"))
        || ends_with_chars(&lv, &local);
    if is_local {
        None
    } else {
        Some(lower)
    }
}

/// The domain that a DNS traffic line names (see `line_domain`): the
/// capture of the first pattern that matches, without trailing dots,
/// lowercased; nothing when no pattern matches or the domain is local.
pub fn parse_domain(line: &str) -> (d: Option<String>)
    ensures
        match d {
            Some(s) => line_domain(line@) == Some(s@),
            None => line_domain(line@) is None,
        },
{
    let mut k: usize = 0;
    while k < 4
        invariant
            k <= 4,
            line_domain(line@) == domain_from_patterns(line@, k as nat),
        decreases 4 - k,
    {
        match capture_group_one(dns_pattern_str(k), line) {
            None => {},
            Some(None) => return None,
            Some(Some(c)) => return domain_from_capture(c.as_str()),
        }
        k += 1;
    }
    None
}

// ---------------------------------------------------------------------------
// Matching profiles
// ---------------------------------------------------------------------------
/// A lowercased rule matches a lowercased domain: a rule that ends in `.`
/// matches any domain that contains it; any other rule matches the domain
/// itself and its subdomains.
pub open spec fn rule_matches(domain: Seq<char>, rule: Seq<char>) -> bool {
    if rule.len() > 0 && rule.last() == '.' {
        contains_seq(domain, rule)
    } else {
        domain == rule || has_suffix(domain, seq!['.'] + rule)
    }
}

/// Rule `j` of profile `i` matches `domain`, case being ignored.
pub open spec fn hit_at(domain: Seq<char>, profiles: Seq<ProfileView>, i: int, j: int) -> bool {
    &&& 0 <= i < profiles.len()
    &&& 0 <= j < profiles[i].watchlist.len()
    &&& rule_matches(unicode_lowercase(domain), unicode_lowercase(profiles[i].watchlist[j]))
}

/// Rule `j` of profile `i` is the first rule, in profile order and then in
/// watchlist order, that matches `domain`.
pub open spec fn is_first_hit(domain: Seq<char>, profiles: Seq<ProfileView>, i: int, j: int) -> bool {
    &&& hit_at(domain, profiles, i, j)
    &&& forall|i2: int, j2: int|
        (i2 < i || (i2 == i && j2 < j)) ==> !#[trigger] hit_at(domain, profiles, i2, j2)
}

/// No rule of any profile matches `domain`.
pub open spec fn no_hit(domain: Seq<char>, profiles: Seq<ProfileView>) -> bool {
    forall|i: int, j: int| !#[trigger] hit_at(domain, profiles, i, j)
}

/// The views of a slice of profiles.
pub open spec fn slice_profile_views(ps: Seq<Profile>) -> Seq<ProfileView> {
    ps.map_values(|p: Profile| p@)
}

fn rule_matches_exec(dl: &Vec<char>, rule: &str) -> (b: bool)
    ensures
        b == rule_matches(dl@, unicode_lowercase(rule@)),
{
    let el_s = to_lowercase(rule);
    let el = chars_of(el_s.as_str());
    if el.len() > 0 && el[el.len() - 1] == '.' {
        contains_chars(dl, &el)
    } else {
        if equal_chars(dl, &el) {
            return true;
        }
        let dotted = concat2(".", el_s.as_str());
        proof {
            reveal_strlit(".");
        }
        let dv = chars_of(dotted.as_str());
        assert(dv@ =~= seq!['.'] + el@);
        ends_with_chars(dl, &dv)
    }
}

/// The first rule, in profile order and then in watchlist order, that
/// matches `domain` case-insensitively, with a copy of its profile.
pub fn match_profiles(domain: &str, profiles: &[Profile]) -> (r: Option<(String, Profile)>)
    ensures
        match r {
            None => no_hit(domain@, slice_profile_views(profiles@)),
            Some((rule, p)) => exists|i: int, j: int|
                {
                    &&& #[trigger] is_first_hit(domain@, slice_profile_views(profiles@), i, j)
                    &&& rule@ == profiles@[i]@.watchlist[j]
                    &&& p@ == profiles@[i]@
                },
        },
{
    let ghost ps = slice_profile_views(profiles@);
    let dl_s = to_lowercase(domain);
    let dl = chars_of(dl_s.as_str());
    let mut i: usize = 0;
    while i < profiles.len()
        invariant
            i <= profiles.len(),
            ps == slice_profile_views(profiles@),
            dl@ == unicode_lowercase(domain@),
            forall|i2: int, j2: int| i2 < i ==> !#[trigger] hit_at(domain@, ps, i2, j2),
        decreases profiles.len() - i,
    {
        let p = &profiles[i];
        let mut j: usize = 0;
        while j < p.watchlist.len()
            invariant
                i < profiles.len(),
                j <= p.watchlist.len(),
                ps == slice_profile_views(profiles@),
                p == profiles@[i as int],
                dl@ == unicode_lowercase(domain@),
                forall|i2: int, j2: int| i2 < i ==> !#[trigger] hit_at(domain@, ps, i2, j2),
                forall|j2: int| j2 < j ==> !#[trigger] hit_at(domain@, ps, i as int, j2),
            decreases p.watchlist.len() - j,
        {
            assert(ps[i as int].watchlist[j as int] == p.watchlist@[j as int]@);
            if rule_matches_exec(&dl, p.watchlist[j].as_str()) {
                assert(hit_at(domain@, ps, i as int, j as int));
                assert(is_first_hit(domain@, ps, i as int, j as int));
                return Some((p.watchlist[j].clone(), p.copy()));
            }
            j += 1;
        }
        assert forall|i2: int, j2: int| i2 < i + 1 implies !#[trigger] hit_at(domain@, ps, i2, j2) by {
            if i2 == i && 0 <= j2 {
                if j2 >= p.watchlist.len() {
                    assert(!hit_at(domain@, ps, i2, j2));
                }
            }
        }
        i += 1;
    }
    assert forall|i2: int, j2: int| !#[trigger] hit_at(domain@, ps, i2, j2) by {
        if i2 >= profiles.len() {
            assert(!(0 <= i2 < ps.len()));
        }
    }
    None
}

/// The first hit is unique: two first hits for a domain are the same rule of
/// the same profile.
pub proof fn lemma_first_hit_unique(
    domain: Seq<char>,
    profiles: Seq<ProfileView>,
    i: int,
    j: int,
    i2: int,
    j2: int,
)
    requires
        is_first_hit(domain, profiles, i, j),
        is_first_hit(domain, profiles, i2, j2),
    ensures
        i == i2 && j == j2,
{
    if i2 < i || (i2 == i && j2 < j) {
        assert(!hit_at(domain, profiles, i2, j2));
    }
    if i < i2 || (i == i2 && j < j2) {
        assert(!hit_at(domain, profiles, i, j));
    }
}

/// A rule without a trailing dot matches the domain it names and every
/// subdomain of it.
pub proof fn lemma_rule_matches_subdomains(rule: Seq<char>, label: Seq<char>)
    requires
        rule.len() == 0 || rule.last() != '.',
    ensures
        rule_matches(rule, rule),
        rule_matches(label + seq!['.'] + rule, rule),
{
    let d = label + seq!['.'] + rule;
    assert(d.subrange(d.len() - (seq!['.'] + rule).len(), d.len() as int) =~= seq!['.'] + rule);
}

/// A rule that ends in a dot matches every domain that contains it.
pub proof fn lemma_dotted_rule_matches_containing(rule: Seq<char>, before: Seq<char>, after: Seq<char>)
    requires
        rule.len() > 0,
        rule.last() == '.',
    ensures
        rule_matches(before + rule + after, rule),
{
    let d = before + rule + after;
    assert(d.subrange(before.len() as int, (before.len() + rule.len()) as int) =~= rule);
    assert(crate::text::occurs_at(d, rule, before.len() as int));
}

// ---------------------------------------------------------------------------
// The monitor
// ---------------------------------------------------------------------------
/// The monitor's state: its configuration, the alert limiter, and how many
/// hits each domain has had.
pub struct DnsWatchdog {
    cfg: Config,
    limiter: RateLimiter,
    stats: StringHashMap<u64>,
    stop_flag: Arc<AtomicBool>,
}

/// The model of the monitor.
pub struct DnsWatchdogView {
    pub cfg: ConfigView,
    pub limiter: RateLimiterView,
    pub stats: Map<Seq<char>, u64>,
}

impl View for DnsWatchdog {
    type V = DnsWatchdogView;

    closed spec fn view(&self) -> DnsWatchdogView {
        DnsWatchdogView { cfg: self.cfg@, limiter: self.limiter@, stats: self.stats@ }
    }
}

/// What handling one line came to.
pub enum LineOutcome {
    /// The line names no domain.
    NoDomain,
    /// The line names a domain that no rule matches; `verbose` tells whether
    /// such domains are to be logged.
    Unmatched { domain: String, verbose: bool },
    /// A rule matched the domain: the rule, its profile, the domain's hit
    /// count so far, and whether an alert goes out.
    Hit { domain: String, rule: String, profile: Profile, total_hits: u64, alert: bool },
}

/// The model of a line's outcome.
pub enum LineOutcomeView {
    NoDomain,
    Unmatched { domain: Seq<char>, verbose: bool },
    Hit { domain: Seq<char>, rule: Seq<char>, profile: ProfileView, total_hits: u64, alert: bool },
}

impl View for LineOutcome {
    type V = LineOutcomeView;

    open spec fn view(&self) -> LineOutcomeView {
        match self {
            LineOutcome::NoDomain => LineOutcomeView::NoDomain,
            LineOutcome::Unmatched { domain, verbose } => LineOutcomeView::Unmatched {
                domain: domain@,
                verbose: *verbose,
            },
            LineOutcome::Hit { domain, rule, profile, total_hits, alert } => LineOutcomeView::Hit {
                domain: domain@,
                rule: rule@,
                profile: profile@,
                total_hits: *total_hits,
                alert: *alert,
            },
        }
    }
}

/// A domain's hit count after one more hit (it stays at the maximum once
/// there).
pub open spec fn bumped_hits(stats: Map<Seq<char>, u64>, domain: Seq<char>) -> u64 {
    let c: u64 = if stats.contains_key(domain) {
        stats[domain]
    } else {
        0
    };
    if c < u64::MAX {
        (c + 1) as u64
    } else {
        c
    }
}

/// Handling `line` at time `now` turns the monitor `v` into `v2` with the
/// outcome `out`: a line without a domain and an unmatched domain change
/// nothing; a hit counts one more hit for the domain and asks the limiter
/// about the domain: repeat alerts for the same domain are held back for the
/// cooldown.
pub open spec fn line_handled(
    v: DnsWatchdogView,
    line: Seq<char>,
    now: u128,
    out: LineOutcomeView,
    v2: DnsWatchdogView,
) -> bool {
    match line_domain(line) {
        None => out == LineOutcomeView::NoDomain && v2 == v,
        Some(d) => if no_hit(d, v.cfg.profiles) {
            out == (LineOutcomeView::Unmatched { domain: d, verbose: v.cfg.verbose_non_hits })
                && v2 == v
        } else {
            exists|i: int, j: int|
                {
                    &&& #[trigger] is_first_hit(d, v.cfg.profiles, i, j)
                    &&& out == (LineOutcomeView::Hit {
                        domain: d,
                        rule: v.cfg.profiles[i].watchlist[j],
                        profile: v.cfg.profiles[i],
                        total_hits: bumped_hits(v.stats, d),
                        alert: alert_allowed(v.limiter, d, now),
                    })
                    &&& v2 == (DnsWatchdogView {
                        cfg: v.cfg,
                        limiter: after_check(v.limiter, d, now),
                        stats: v.stats.insert(d, bumped_hits(v.stats, d)),
                    })
                }
        },
    }
}

impl DnsWatchdog {
    /// A monitor for `cfg` that has seen no hit; `stop_flag` is set from
    /// outside to ask it to stop.
    pub fn new(cfg: Config, stop_flag: Arc<AtomicBool>) -> (w: Self)
        ensures
            w@.cfg == cfg@,
            w@.limiter.cooldown_seconds == cfg@.cooldown_seconds,
            w@.limiter.last_alert == Map::<Seq<char>, u128>::empty(),
            w@.stats == Map::<Seq<char>, u64>::empty(),
            w.stop_flag() == stop_flag,
    {
        let cooldown = cfg.cooldown_seconds;
        DnsWatchdog { cfg, limiter: RateLimiter::new(cooldown), stats: StringHashMap::new(), stop_flag }
    }

    /// The flag that is set from outside to ask the monitor to stop.
    pub closed spec fn stop_flag(&self) -> Arc<AtomicBool> {
        self.stop_flag
    }

    /// The configuration the monitor runs with.
    pub fn config(&self) -> (c: &Config)
        ensures
            c@ == self@.cfg,
    {
        &self.cfg
    }

    /// The number of hits `domain` has had.
    pub fn hits(&self, domain: &str) -> (n: u64)
        ensures
            n == if self@.stats.contains_key(domain@) {
                self@.stats[domain@]
            } else {
                0
            },
    {
        match self.stats.get(domain) {
            Some(n) => *n,
            None => 0,
        }
    }

    /// Whether a stop was asked for. The flag is set from another thread, so
    /// nothing is promised of the answer.
    pub fn stop_requested(&self) -> bool {
        self.stop_flag.load(std::sync::atomic::Ordering::SeqCst)
    }

    /// Handles one DNS traffic line at time `now` (nanoseconds on the
    /// limiter's clock); see `line_handled`.
    pub fn process_line_at(&mut self, line: &str, now: u128) -> (out: LineOutcome)
        ensures
            line_handled(old(self)@, line@, now, out@, final(self)@),
    {
        let domain = match parse_domain(line) {
            Some(d) => d,
            None => return LineOutcome::NoDomain,
        };
        let ghost d = domain@;
        match match_profiles(domain.as_str(), self.cfg.profiles.as_slice()) {
            Some((rule, profile)) => {
                let c: u64 = match self.stats.get(domain.as_str()) {
                    Some(n) => *n,
                    None => 0,
                };
                let count: u64 = if c < u64::MAX {
                    c + 1
                } else {
                    c
                };
                self.stats.insert(domain.clone(), count);
                let alert = self.limiter.should_alert_at(domain.as_str(), now);
                proof {
                    let ps = old(self)@.cfg.profiles;
                    let (i, j) = choose|i: int, j: int|
                        {
                            &&& #[trigger] is_first_hit(d, ps, i, j)
                            &&& rule@ == self.cfg.profiles@[i]@.watchlist[j]
                            &&& profile@ == self.cfg.profiles@[i]@
                        };
                    assert(ps[i] == self.cfg.profiles@[i]@);
                    assert(!no_hit(d, ps)) by {
                        assert(hit_at(d, ps, i, j));
                    }
                    assert(is_first_hit(d, ps, i, j));
                }
                LineOutcome::Hit { domain, rule, profile, total_hits: count, alert }
            },
            None => {
                assert(slice_profile_views(self.cfg.profiles@) == self@.cfg.profiles);
                LineOutcome::Unmatched { domain, verbose: self.cfg.verbose_non_hits }
            },
        }
    }

    /// Handles one DNS traffic line now; the outcome is the one
    /// `process_line_at` gives at some time on the limiter's clock.
    pub fn process_line(&mut self, line: &str) -> (out: LineOutcome)
        ensures
            exists|now: u128| line_handled(old(self)@, line@, now, out@, final(self)@),
    {
        let now = self.limiter.elapsed_nanos();
        self.process_line_at(line, now)
    }
}

/// A line that names no domain, or a domain that no rule matches, leaves the
/// monitor as it was.
pub proof fn lemma_unmatched_lines_change_nothing(
    v: DnsWatchdogView,
    line: Seq<char>,
    now: u128,
    out: LineOutcomeView,
    v2: DnsWatchdogView,
)
    requires
        line_handled(v, line, now, out, v2),
        !(out is Hit),
    ensures
        v2 == v,
{
}

/// Every hit adds one to the domain's count (until the count's maximum) and
/// reports the new count; other domains' counts stay.
pub proof fn lemma_hit_counts_domain(
    v: DnsWatchdogView,
    line: Seq<char>,
    now: u128,
    out: LineOutcomeView,
    v2: DnsWatchdogView,
    other: Seq<char>,
)
    requires
        line_handled(v, line, now, out, v2),
        out is Hit,
    ensures
        line_domain(line) == Some(out->Hit_domain),
        v2.stats[out->Hit_domain] == out->Hit_total_hits,
        out->Hit_total_hits == bumped_hits(v.stats, out->Hit_domain),
        other != out->Hit_domain ==> v2.stats.contains_key(other) == v.stats.contains_key(other)
            && v2.stats[other] == v.stats[other],
        v2.cfg == v.cfg,
{
}

/// A hit raises an alert exactly when the limiter lets the domain through
/// at that time.
pub proof fn lemma_alert_iff_limiter_allows(
    v: DnsWatchdogView,
    line: Seq<char>,
    now: u128,
    out: LineOutcomeView,
    v2: DnsWatchdogView,
)
    requires
        line_handled(v, line, now, out, v2),
        out is Hit,
    ensures
        out->Hit_alert == alert_allowed(v.limiter, out->Hit_domain, now),
        v2.limiter == after_check(v.limiter, out->Hit_domain, now),
{
}

/// The same line handled twice within the cooldown raises at most one
/// alert: when the first time alerted, the second time is
/// the same hit, counted once more, and quiet.
pub proof fn lemma_repeated_hit_within_cooldown_is_quiet(
    v: DnsWatchdogView,
    line: Seq<char>,
    t: u128,
    out1: LineOutcomeView,
    v2: DnsWatchdogView,
    t2: u128,
    out2: LineOutcomeView,
    v3: DnsWatchdogView,
)
    requires
        line_handled(v, line, t, out1, v2),
        line_handled(v2, line, t2, out2, v3),
        out1 is Hit,
        out1->Hit_alert,
        t <= t2 < t + crate::rate_limit::cooldown_nanos(v.limiter.cooldown_seconds),
    ensures
        out2 is Hit,
        out2->Hit_rule == out1->Hit_rule,
        out2->Hit_domain == out1->Hit_domain,
        !out2->Hit_alert,
        out1->Hit_total_hits < u64::MAX ==> out2->Hit_total_hits == out1->Hit_total_hits + 1,
{
    let d = line_domain(line)->0;
    let ps = v.cfg.profiles;
    let (i, j) = choose|i: int, j: int|
        {
            &&& #[trigger] is_first_hit(d, ps, i, j)
            &&& out1 == (LineOutcomeView::Hit {
                domain: d,
                rule: ps[i].watchlist[j],
                profile: ps[i],
                total_hits: bumped_hits(v.stats, d),
                alert: alert_allowed(v.limiter, d, t),
            })
            &&& v2 == (DnsWatchdogView {
                cfg: v.cfg,
                limiter: after_check(v.limiter, d, t),
                stats: v.stats.insert(d, bumped_hits(v.stats, d)),
            })
        };
    assert(hit_at(d, ps, i, j));
    assert(!no_hit(d, v2.cfg.profiles));
    let (i2, j2) = choose|i2: int, j2: int|
        {
            &&& #[trigger] is_first_hit(d, v2.cfg.profiles, i2, j2)
            &&& out2 == (LineOutcomeView::Hit {
                domain: d,
                rule: v2.cfg.profiles[i2].watchlist[j2],
                profile: v2.cfg.profiles[i2],
                total_hits: bumped_hits(v2.stats, d),
                alert: alert_allowed(v2.limiter, d, t2),
            })
            &&& v3 == (DnsWatchdogView {
                cfg: v2.cfg,
                limiter: after_check(v2.limiter, d, t2),
                stats: v2.stats.insert(d, bumped_hits(v2.stats, d)),
            })
        };
    lemma_first_hit_unique(d, ps, i, j, i2, j2);
    crate::rate_limit::lemma_suppressed_within_cooldown(v.limiter, d, t, t2);
}

/// The cooldown is per domain: after a hit on one domain, a hit on another
/// domain is decided as if the first had not happened, whatever rule either
/// matched.
pub proof fn lemma_cooldown_is_per_domain(
    v: DnsWatchdogView,
    l1: Seq<char>,
    t1: u128,
    out1: LineOutcomeView,
    v2: DnsWatchdogView,
    l2: Seq<char>,
    t2: u128,
    out2: LineOutcomeView,
    v3: DnsWatchdogView,
)
    requires
        line_handled(v, l1, t1, out1, v2),
        line_handled(v2, l2, t2, out2, v3),
        out1 is Hit,
        out2 is Hit,
        out1->Hit_domain != out2->Hit_domain,
    ensures
        out2->Hit_alert == alert_allowed(v.limiter, out2->Hit_domain, t2),
{
    lemma_alert_iff_limiter_allows(v, l1, t1, out1, v2);
    lemma_alert_iff_limiter_allows(v2, l2, t2, out2, v3);
    crate::rate_limit::lemma_keys_independent(v.limiter, out1->Hit_domain, out2->Hit_domain, t1, t2);
}

/// A domain that a line names is never a local-network name.
pub proof fn lemma_line_domain_not_local(line: Seq<char>)
    ensures
        line_domain(line) matches Some(d) ==> !is_local_domain(d),
{
    lemma_domain_from_patterns_not_local(line, 0);
}

proof fn lemma_domain_from_patterns_not_local(line: Seq<char>, k: nat)
    ensures
        domain_from_patterns(line, k) matches Some(d) ==> !is_local_domain(d),
    decreases 4 - k,
{
    if k < 4 {
        lemma_domain_from_patterns_not_local(line, k + 1);
    }
}

/// Matching ignores case: two domains with the same lowercase form hit the
/// same rules.
pub proof fn lemma_matching_ignores_case(
    d1: Seq<char>,
    d2: Seq<char>,
    profiles: Seq<ProfileView>,
    i: int,
    j: int,
)
    requires
        unicode_lowercase(d1) == unicode_lowercase(d2),
    ensures
        hit_at(d1, profiles, i, j) == hit_at(d2, profiles, i, j),
        is_first_hit(d1, profiles, i, j) == is_first_hit(d2, profiles, i, j),
{
    if is_first_hit(d1, profiles, i, j) {
        assert forall|i2: int, j2: int|
            (i2 < i || (i2 == i && j2 < j)) implies !#[trigger] hit_at(d2, profiles, i2, j2) by {
            assert(!hit_at(d1, profiles, i2, j2));
        }
    }
    if is_first_hit(d2, profiles, i, j) {
        assert forall|i2: int, j2: int|
            (i2 < i || (i2 == i && j2 < j)) implies !#[trigger] hit_at(d1, profiles, i2, j2) by {
            assert(!hit_at(d2, profiles, i2, j2));
        }
    }
}

// ---------------------------------------------------------------------------
// Alerts
// ---------------------------------------------------------------------------
/// A clock time `HH:MM:SS`: eight characters, digits apart from the two
/// colons.
pub open spec fn is_clock_time(s: Seq<char>) -> bool {
    &&& s.len() == 8
    &&& s[2] == ':'
    &&& s[5] == ':'
    &&& forall|i: int|
        0 <= i < 8 && i != 2 && i != 5 ==> '0' <= #[trigger] s[i] && s[i] <= '9'
}

/// Calls `chrono::Local::now()` and formats it with the format string
/// `fmt` (`DateTime::format`). Only the format `%H:%M:%S` is accepted. The
/// time depends on the clock, so only the shape chrono's format documentation
/// gives for that format is promised: two-digit hour, minute and second
/// separated by colons.
#[verifier::external_body]
fn local_time_formatted(fmt: &str) -> (s: String)
    requires
        fmt@ == "%H:%M:%S"@,
    ensures
        is_clock_time(s@),
{
    chrono::Local::now().format(fmt).to_string()
}

/// The format of the clock time in alerts: hour, minute and second.
pub fn clock_time_format() -> (f: &'static str)
    ensures
        f@ == "%H:%M:%S"@,
{
    "%H:%M:%S"
}

/// The texts of an alert notification.
pub struct AlertTexts {
    pub title: String,
    pub subtitle: String,
    pub body: String,
    pub time: String,
}

/// Builds the notification texts for a hit on `domain` by `rule` of the
/// profile called `profile_name` at clock time `time`.
pub fn alert_texts_at(domain: &str, rule: &str, profile_name: &str, time: &str) -> (t: AlertTexts)
    ensures
        t.title@ == "⚠️ DNS Watchdog: "@ + profile_name@,
        t.subtitle@ == "Rule: "@ + rule@,
        t.body@ == domain@ + "  ["@ + time@ + "]"@,
        t.time@ == time@,
{
    let title = concat2("⚠️ DNS Watchdog: ", profile_name);
    let subtitle = concat2("Rule: ", rule);
    let mut body = concat2(domain, "  [");
    body.append(time);
    body.append("]");
    AlertTexts { title, subtitle, body, time: String::from_str(time) }
}

/// Builds the notification texts for a hit now (see `alert_texts_at`); the
/// time is the local clock time.
pub fn alert_texts(domain: &str, rule: &str, profile_name: &str) -> (t: AlertTexts)
    ensures
        is_clock_time(t.time@),
        t.title@ == "⚠️ DNS Watchdog: "@ + profile_name@,
        t.subtitle@ == "Rule: "@ + rule@,
        t.body@ == domain@ + "  ["@ + t.time@ + "]"@,
{
    let time = local_time_formatted(clock_time_format());
    alert_texts_at(domain, rule, profile_name, time.as_str())
}

/// The command that streams DNS traffic: `tcpdump -l -n port 53`.
pub fn build_log_stream_cmd() -> (cmd: Vec<String>)
    ensures
        views(cmd@) == seq!["tcpdump"@, "-l"@, "-n"@, "port"@, "53"@],
{
    let mut cmd: Vec<String> = Vec::new();
    cmd.push(String::from_str("tcpdump"));
    cmd.push(String::from_str("-l"));
    cmd.push(String::from_str("-n"));
    cmd.push(String::from_str("port"));
    cmd.push(String::from_str("53"));
    assert(views(cmd@) =~= seq!["tcpdump"@, "-l"@, "-n"@, "port"@, "53"@]);
    cmd
}

} // verus!

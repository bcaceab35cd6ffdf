//! The configuration: watchlist profiles, the alert cooldown and logging
//! options, their defaults, and how a configuration file and watchlist files
//! fill them in.
use vstd::hash_set::StringHashSet;
use vstd::prelude::*;

use crate::paths::{config_path_expansion, expand_user_path_for_config};
use crate::text::{lemma_views_push, views, watchlist_rules, watchlist_rules_of};

verus! {

/// A watchlist with the sound that announces its hits.
#[derive(Debug, Clone)]
pub struct Profile {
    pub name: String,
    pub watchlist: Vec<String>,
    pub watchlist_file: String,
    pub alert_sound: String,
    pub alert_sound_duration: u64,
}

/// The model of a profile.
#[verifier::ext_equal]
pub struct ProfileView {
    pub name: Seq<char>,
    pub watchlist: Seq<Seq<char>>,
    pub watchlist_file: Seq<char>,
    pub alert_sound: Seq<char>,
    pub alert_sound_duration: u64,
}

impl View for Profile {
    type V = ProfileView;

    open spec fn view(&self) -> ProfileView {
        ProfileView {
            name: self.name@,
            watchlist: views(self.watchlist@),
            watchlist_file: self.watchlist_file@,
            alert_sound: self.alert_sound@,
            alert_sound_duration: self.alert_sound_duration,
        }
    }
}

/// The settings of the monitor.
#[derive(Debug, Clone)]
pub struct Config {
    pub profiles: Vec<Profile>,
    pub cooldown_seconds: u64,
    pub log_level: String,
    pub verbose_non_hits: bool,
}

/// The model of a configuration.
#[verifier::ext_equal]
pub struct ConfigView {
    pub profiles: Seq<ProfileView>,
    pub cooldown_seconds: u64,
    pub log_level: Seq<char>,
    pub verbose_non_hits: bool,
}

/// The views of a sequence of profiles.
pub open spec fn profile_views(ps: Seq<Profile>) -> Seq<ProfileView> {
    ps.map_values(|p: Profile| p@)
}

impl View for Config {
    type V = ConfigView;

    open spec fn view(&self) -> ConfigView {
        ConfigView {
            profiles: profile_views(self.profiles@),
            cooldown_seconds: self.cooldown_seconds,
            log_level: self.log_level@,
            verbose_non_hits: self.verbose_non_hits,
        }
    }
}

/// What a configuration file holds: every field may be missing. The legacy
/// layout names one watchlist at the top level instead of profiles.
#[derive(Debug)]
pub struct RawConfig {
    pub profiles: Option<Vec<Profile>>,
    pub cooldown_seconds: Option<u64>,
    pub log_level: Option<String>,
    pub verbose_non_hits: Option<bool>,
    pub watchlist: Option<Vec<String>>,
    pub watchlist_file: Option<String>,
    pub alert_sound: Option<String>,
    pub alert_sound_duration: Option<u64>,
}

/// The model of a configuration file's contents.
pub struct RawConfigView {
    pub profiles: Option<Seq<ProfileView>>,
    pub cooldown_seconds: Option<u64>,
    pub log_level: Option<Seq<char>>,
    pub verbose_non_hits: Option<bool>,
    pub watchlist: Option<Seq<Seq<char>>>,
    pub watchlist_file: Option<Seq<char>>,
    pub alert_sound: Option<Seq<char>>,
    pub alert_sound_duration: Option<u64>,
}

impl View for RawConfig {
    type V = RawConfigView;

    open spec fn view(&self) -> RawConfigView {
        RawConfigView {
            profiles: match self.profiles {
                Some(ps) => Some(profile_views(ps@)),
                None => None,
            },
            cooldown_seconds: self.cooldown_seconds,
            log_level: match self.log_level {
                Some(s) => Some(s@),
                None => None,
            },
            verbose_non_hits: self.verbose_non_hits,
            watchlist: match self.watchlist {
                Some(w) => Some(views(w@)),
                None => None,
            },
            watchlist_file: match self.watchlist_file {
                Some(s) => Some(s@),
                None => None,
            },
            alert_sound: match self.alert_sound {
                Some(s) => Some(s@),
                None => None,
            },
            alert_sound_duration: self.alert_sound_duration,
        }
    }
}

// ---------------------------------------------------------------------------
// Defaults
// ---------------------------------------------------------------------------
/// The profile that a fresh configuration holds.
pub open spec fn default_profile_view() -> ProfileView {
    ProfileView {
        name: "Default Profile"@,
        watchlist: seq!["not-random-facebook.com"@],
        watchlist_file: "~/project/clarity/Note/System_Configs/Blocklist/root_custom_blocklist.txt"@,
        alert_sound: "~/project/clarity/Note/Religion/Audio/qayamat.wav"@,
        alert_sound_duration: 0,
    }
}

/// A fresh configuration: the default profile, a cooldown of a minute,
/// logging at `INFO`, unmatched domains not logged.
pub open spec fn default_config_view() -> ConfigView {
    ConfigView {
        profiles: seq![default_profile_view()],
        cooldown_seconds: 60,
        log_level: "INFO"@,
        verbose_non_hits: false,
    }
}

/// The name a profile gets when the configuration file gives none.
pub fn default_profile_name() -> (s: String)
    ensures
        s@ == "Default Profile"@,
{
    String::from_str("Default Profile")
}

/// The cooldown, in seconds, when the configuration file gives none.
pub fn default_cooldown() -> (c: u64)
    ensures
        c == 60,
{
    60
}

/// The log level when the configuration file gives none.
pub fn default_log_level() -> (s: String)
    ensures
        s@ == "INFO"@,
{
    String::from_str("INFO")
}

impl Default for Profile {
    fn default() -> (p: Self)
        ensures
            p@ == default_profile_view(),
    {
        let mut watchlist: Vec<String> = Vec::new();
        watchlist.push(String::from_str("not-random-facebook.com"));
        let p = Profile {
            name: default_profile_name(),
            watchlist,
            watchlist_file: String::from_str(
                "~/project/clarity/Note/System_Configs/Blocklist/root_custom_blocklist.txt",
            ),
            alert_sound: String::from_str("~/project/clarity/Note/Religion/Audio/qayamat.wav"),
            alert_sound_duration: 0,
        };
        assert(p@.watchlist =~= default_profile_view().watchlist);
        p
    }
}

impl Default for Config {
    fn default() -> (c: Self)
        ensures
            c@ == default_config_view(),
    {
        let mut profiles: Vec<Profile> = Vec::new();
        profiles.push(Profile::default());
        let c = Config {
            profiles,
            cooldown_seconds: default_cooldown(),
            log_level: default_log_level(),
            verbose_non_hits: false,
        };
        assert(c@.profiles =~= default_config_view().profiles);
        c
    }
}

// ---------------------------------------------------------------------------
// Copies
// ---------------------------------------------------------------------------
/// A copy of a list of strings.
pub fn copy_strings(v: &Vec<String>) -> (r: Vec<String>)
    ensures
        views(r@) == views(v@),
{
    let mut r: Vec<String> = Vec::new();
    let mut i: usize = 0;
    while i < v.len()
        invariant
            i <= v.len(),
            views(r@) == views(v@).take(i as int),
        decreases v.len() - i,
    {
        let ghost before = r@;
        r.push(v[i].clone());
        proof {
            lemma_views_push(before, v@[i as int]);
        }
        assert(views(r@) =~= views(v@).take(i + 1));
        i += 1;
    }
    assert(views(v@).take(v.len() as int) =~= views(v@));
    r
}

impl Profile {
    /// A copy of this profile.
    pub fn copy(&self) -> (p: Profile)
        ensures
            p@ == self@,
    {
        Profile {
            name: self.name.clone(),
            watchlist: copy_strings(&self.watchlist),
            watchlist_file: self.watchlist_file.clone(),
            alert_sound: self.alert_sound.clone(),
            alert_sound_duration: self.alert_sound_duration,
        }
    }
}

// ---------------------------------------------------------------------------
// Deduplication
// ---------------------------------------------------------------------------
/// `s` with every item after its first occurrence left out.
pub open spec fn dedup_seq(s: Seq<Seq<char>>) -> Seq<Seq<char>>
    decreases s.len(),
{
    if s.len() == 0 {
        Seq::empty()
    } else {
        let prev = dedup_seq(s.drop_last());
        if prev.contains(s.last()) {
            prev
        } else {
            prev.push(s.last())
        }
    }
}

/// Removes every item that occurred earlier in the list, keeping the first
/// occurrences in their order.
pub fn dedup_preserve_order(items: &mut Vec<String>)
    ensures
        views(final(items)@) == dedup_seq(views(old(items)@)),
{
    let ghost orig = views(items@);
    let mut seen = StringHashSet::new();
    let mut out: Vec<String> = Vec::new();
    let mut i: usize = 0;
    while i < items.len()
        invariant
            i <= items.len(),
            orig == views(items@),
            views(out@) == dedup_seq(orig.take(i as int)),
            forall|x: Seq<char>| seen@.contains(x) <==> views(out@).contains(x),
        decreases items.len() - i,
    {
        assert(orig.take(i + 1).drop_last() =~= orig.take(i as int));
        if !seen.contains(items[i].as_str()) {
            seen.insert(items[i].clone());
            out.push(items[i].clone());
            proof {
                assert(views(out@) =~= dedup_seq(orig.take(i as int)).push(orig[i as int]));
                assert forall|x: Seq<char>| seen@.contains(x) <==> views(out@).contains(x) by {
                    if views(out@).contains(x) && x != orig[i as int] {
                        let k = choose|k: int| 0 <= k < views(out@).len() && views(out@)[k] == x;
                        assert(views(out@).drop_last()[k] == x);
                        assert(views(out@).drop_last() =~= dedup_seq(orig.take(i as int)));
                    }
                    if x == orig[i as int] {
                        assert(views(out@)[views(out@).len() - 1] == x);
                    }
                    if seen@.contains(x) && x != orig[i as int] {
                        let prev = dedup_seq(orig.take(i as int));
                        let k = choose|k: int| 0 <= k < prev.len() && prev[k] == x;
                        assert(views(out@)[k] == x);
                    }
                }
            }
        }
        i += 1;
    }
    assert(orig.take(items.len() as int) =~= orig);
    *items = out;
}

/// Deduplication leaves no item twice.
pub proof fn lemma_dedup_no_duplicates(s: Seq<Seq<char>>)
    ensures
        dedup_seq(s).no_duplicates(),
    decreases s.len(),
{
    if s.len() > 0 {
        lemma_dedup_no_duplicates(s.drop_last());
    }
}

/// Deduplication keeps exactly the items of the list.
pub proof fn lemma_dedup_same_items(s: Seq<Seq<char>>, x: Seq<char>)
    ensures
        dedup_seq(s).contains(x) <==> s.contains(x),
    decreases s.len(),
{
    if s.len() > 0 {
        lemma_dedup_same_items(s.drop_last(), x);
        let prev = dedup_seq(s.drop_last());
        if s.drop_last().contains(x) {
            let k = choose|k: int| 0 <= k < s.drop_last().len() && s.drop_last()[k] == x;
            assert(s[k] == x);
        }
        if s.contains(x) && x != s.last() {
            let k = choose|k: int| 0 <= k < s.len() && s[k] == x;
            assert(s.drop_last()[k] == x);
        }
        if dedup_seq(s).contains(x) && !prev.contains(s.last()) && x != s.last() {
            let k = choose|k: int| 0 <= k < dedup_seq(s).len() && dedup_seq(s)[k] == x;
            assert(prev[k] == x);
        }
        if x == s.last() && !prev.contains(s.last()) {
            assert(dedup_seq(s)[dedup_seq(s).len() - 1] == x);
        }
        if prev.contains(x) && !prev.contains(s.last()) {
            let k = choose|k: int| 0 <= k < prev.len() && prev[k] == x;
            assert(dedup_seq(s)[k] == x);
        }
    }
}

/// A list without repeated items is left as it is.
pub proof fn lemma_dedup_keeps_distinct(s: Seq<Seq<char>>)
    requires
        s.no_duplicates(),
    ensures
        dedup_seq(s) == s,
    decreases s.len(),
{
    if s.len() > 0 {
        assert(s.drop_last().no_duplicates());
        lemma_dedup_keeps_distinct(s.drop_last());
        if s.drop_last().contains(s.last()) {
            let k = choose|k: int| 0 <= k < s.drop_last().len() && s.drop_last()[k] == s.last();
            assert(s[k] == s[s.len() - 1]);
        }
        assert(s.drop_last().push(s.last()) =~= s);
    }
}

/// Deduplicating twice gives what deduplicating once gives.
pub proof fn lemma_dedup_idempotent(s: Seq<Seq<char>>)
    ensures
        dedup_seq(dedup_seq(s)) == dedup_seq(s),
{
    lemma_dedup_no_duplicates(s);
    lemma_dedup_keeps_distinct(dedup_seq(s));
}

/// Items that come first keep their place: deduplicating a prefix of the
/// list gives a prefix of the deduplicated list.
pub proof fn lemma_dedup_prefix(s: Seq<Seq<char>>, k: int)
    requires
        0 <= k <= s.len(),
    ensures
        dedup_seq(s.take(k)).len() <= dedup_seq(s).len(),
        dedup_seq(s).take(dedup_seq(s.take(k)).len() as int) == dedup_seq(s.take(k)),
    decreases s.len() - k,
{
    if k < s.len() {
        lemma_dedup_prefix(s, k + 1);
        assert(s.take(k + 1).drop_last() =~= s.take(k));
        let a = dedup_seq(s.take(k));
        let b = dedup_seq(s.take(k + 1));
        assert(b.take(a.len() as int) =~= a);
        assert(dedup_seq(s).take(a.len() as int) =~= b.take(a.len() as int));
    } else {
        assert(s.take(k) =~= s);
        assert(dedup_seq(s).take(dedup_seq(s).len() as int) =~= dedup_seq(s));
    }
}

// ---------------------------------------------------------------------------
// Building a configuration
// ---------------------------------------------------------------------------
/// The profiles of a configuration after a configuration file was read: the
/// legacy top-level watchlist, where the file has one, becomes the single
/// profile; else the file's profiles, if it lists them; else those already
/// there.
pub open spec fn merged_profiles(cfg: ConfigView, raw: RawConfigView) -> Seq<ProfileView> {
    if raw.watchlist is Some || raw.watchlist_file is Some {
        seq![
            ProfileView {
                name: "Legacy Profile"@,
                watchlist: match raw.watchlist {
                    Some(w) => w,
                    None => Seq::empty(),
                },
                watchlist_file: match raw.watchlist_file {
                    Some(f) => f,
                    None => Seq::empty(),
                },
                alert_sound: match raw.alert_sound {
                    Some(s) => s,
                    None => Seq::empty(),
                },
                alert_sound_duration: match raw.alert_sound_duration {
                    Some(d) => d,
                    None => 0,
                },
            },
        ]
    } else if raw.profiles is Some {
        raw.profiles->0
    } else {
        cfg.profiles
    }
}

/// A configuration with what a configuration file holds laid over it: every
/// setting the file gives replaces the one there.
pub open spec fn merged_config(cfg: ConfigView, raw: RawConfigView) -> ConfigView {
    ConfigView {
        profiles: merged_profiles(cfg, raw),
        cooldown_seconds: match raw.cooldown_seconds {
            Some(c) => c,
            None => cfg.cooldown_seconds,
        },
        log_level: match raw.log_level {
            Some(l) => l,
            None => cfg.log_level,
        },
        verbose_non_hits: match raw.verbose_non_hits {
            Some(v) => v,
            None => cfg.verbose_non_hits,
        },
    }
}

fn string_or_empty(s: Option<String>) -> (r: String)
    ensures
        r@ == match s {
            Some(x) => x@,
            None => Seq::<char>::empty(),
        },
{
    match s {
        Some(x) => x,
        None => String::new(),
    }
}

/// A configuration file that sets nothing leaves the configuration as it was.
pub proof fn lemma_merge_of_empty_file_changes_nothing(cfg: ConfigView, raw: RawConfigView)
    requires
        raw.profiles is None,
        raw.cooldown_seconds is None,
        raw.log_level is None,
        raw.verbose_non_hits is None,
        raw.watchlist is None,
        raw.watchlist_file is None,
    ensures
        merged_config(cfg, raw) == cfg,
{
}

/// Merging the same configuration file twice gives what merging it once
/// gives.
pub proof fn lemma_merge_idempotent(cfg: ConfigView, raw: RawConfigView)
    ensures
        merged_config(merged_config(cfg, raw), raw) == merged_config(cfg, raw),
{
}

/// Whatever layout a configuration file gives its profiles in (profiles,
/// the legacy top-level watchlist, or none), each setting it gives (the
/// cooldown, the log level, the logging of non-hits) replaces the one in
/// the configuration, and each it leaves out stays as it was.
pub proof fn lemma_file_settings_replace_configured_ones(cfg: ConfigView, raw: RawConfigView)
    ensures
        merged_config(cfg, raw).cooldown_seconds == (if raw.cooldown_seconds is Some {
            raw.cooldown_seconds->0
        } else {
            cfg.cooldown_seconds
        }),
        merged_config(cfg, raw).log_level == (if raw.log_level is Some {
            raw.log_level->0
        } else {
            cfg.log_level
        }),
        merged_config(cfg, raw).verbose_non_hits == (if raw.verbose_non_hits is Some {
            raw.verbose_non_hits->0
        } else {
            cfg.verbose_non_hits
        }),
{
}

/// A file in the legacy layout (a top-level watchlist or watchlist file)
/// gives the configuration exactly one profile, "Legacy Profile", with the
/// file's watchlist (empty when it names none) and watchlist file.
pub proof fn lemma_legacy_layout_gives_one_profile(cfg: ConfigView, raw: RawConfigView)
    requires
        raw.watchlist is Some || raw.watchlist_file is Some,
    ensures
        merged_config(cfg, raw).profiles.len() == 1,
        merged_config(cfg, raw).profiles[0].name == "Legacy Profile"@,
        raw.watchlist is Some ==> merged_config(cfg, raw).profiles[0].watchlist == raw.watchlist->0,
        raw.watchlist is None ==> merged_config(cfg, raw).profiles[0].watchlist.len() == 0,
        raw.watchlist_file is Some ==> merged_config(cfg, raw).profiles[0].watchlist_file
            == raw.watchlist_file->0,
{
}

/// Lays what a configuration file holds over `cfg` (see `merged_config`).
pub fn merge_raw_config(cfg: &mut Config, raw: RawConfig)
    ensures
        final(cfg)@ == merged_config(old(cfg)@, raw@),
        final(cfg)@.cooldown_seconds == (if raw.cooldown_seconds is Some {
            raw.cooldown_seconds->0
        } else {
            old(cfg)@.cooldown_seconds
        }),
        final(cfg)@.log_level == (if raw.log_level is Some {
            raw.log_level->0@
        } else {
            old(cfg)@.log_level
        }),
        final(cfg)@.verbose_non_hits == (if raw.verbose_non_hits is Some {
            raw.verbose_non_hits->0
        } else {
            old(cfg)@.verbose_non_hits
        }),
{
    proof {
        lemma_file_settings_replace_configured_ones(old(cfg)@, raw@);
    }
    let ghost raw_view = raw@;
    let RawConfig {
        profiles,
        cooldown_seconds,
        log_level,
        verbose_non_hits,
        watchlist,
        watchlist_file,
        alert_sound,
        alert_sound_duration,
    } = raw;
    if watchlist.is_some() || watchlist_file.is_some() {
        let wl = match watchlist {
            Some(w) => w,
            None => Vec::new(),
        };
        let legacy = Profile {
            name: String::from_str("Legacy Profile"),
            watchlist: wl,
            watchlist_file: string_or_empty(watchlist_file),
            alert_sound: string_or_empty(alert_sound),
            alert_sound_duration: match alert_sound_duration {
                Some(d) => d,
                None => 0,
            },
        };
        assert(views(legacy.watchlist@) =~= match raw_view.watchlist {
            Some(w) => w,
            None => Seq::<Seq<char>>::empty(),
        });
        let mut ps: Vec<Profile> = Vec::new();
        ps.push(legacy);
        cfg.profiles = ps;
        assert(profile_views(cfg.profiles@) =~~= merged_profiles(old(cfg)@, raw_view));
    } else if let Some(ps) = profiles {
        cfg.profiles = ps;
    }
    if let Some(c) = cooldown_seconds {
        cfg.cooldown_seconds = c;
    }
    if let Some(l) = log_level {
        cfg.log_level = l;
    }
    if let Some(v) = verbose_non_hits {
        cfg.verbose_non_hits = v;
    }
}

/// A profile whose watchlist file and alert sound paths were expanded as
/// paths named in the configuration file at `config_path`; empty paths stay
/// empty and everything else is kept.
pub open spec fn profile_paths_normalized(
    before: ProfileView,
    after: ProfileView,
    config_path: Seq<char>,
    home: Seq<char>,
) -> bool {
    &&& after.name == before.name
    &&& after.watchlist == before.watchlist
    &&& after.alert_sound_duration == before.alert_sound_duration
    &&& if before.watchlist_file.len() == 0 {
        after.watchlist_file == before.watchlist_file
    } else {
        config_path_expansion(before.watchlist_file, config_path, home, after.watchlist_file)
    }
    &&& if before.alert_sound.len() == 0 {
        after.alert_sound == before.alert_sound
    } else {
        config_path_expansion(before.alert_sound, config_path, home, after.alert_sound)
    }
}

/// Expands the watchlist file and alert sound paths of every profile as paths
/// named in the configuration file at `config_path`, with `home` as the home
/// directory.
pub fn normalize_profile_paths(cfg: &mut Config, config_path: &str, home: &str)
    ensures
        final(cfg)@.profiles.len() == old(cfg)@.profiles.len(),
        forall|i: int|
            0 <= i < old(cfg)@.profiles.len() ==> profile_paths_normalized(
                #[trigger] old(cfg)@.profiles[i],
                final(cfg)@.profiles[i],
                config_path@,
                home@,
            ),
        final(cfg)@.cooldown_seconds == old(cfg)@.cooldown_seconds,
        final(cfg)@.log_level == old(cfg)@.log_level,
        final(cfg)@.verbose_non_hits == old(cfg)@.verbose_non_hits,
{
    let ghost before = cfg@.profiles;
    let mut out: Vec<Profile> = Vec::new();
    let mut i: usize = 0;
    while i < cfg.profiles.len()
        invariant
            i <= cfg.profiles.len(),
            before == profile_views(cfg.profiles@),
            out.len() == i,
            forall|j: int|
                0 <= j < i ==> profile_paths_normalized(
                    #[trigger] before[j],
                    out@[j]@,
                    config_path@,
                    home@,
                ),
        decreases cfg.profiles.len() - i,
    {
        let p = &cfg.profiles[i];
        let watchlist_file = if p.watchlist_file.as_str().is_empty() {
            p.watchlist_file.clone()
        } else {
            expand_user_path_for_config(p.watchlist_file.as_str(), config_path, home)
        };
        let alert_sound = if p.alert_sound.as_str().is_empty() {
            p.alert_sound.clone()
        } else {
            expand_user_path_for_config(p.alert_sound.as_str(), config_path, home)
        };
        out.push(
            Profile {
                name: p.name.clone(),
                watchlist: copy_strings(&p.watchlist),
                watchlist_file,
                alert_sound,
                alert_sound_duration: p.alert_sound_duration,
            },
        );
        i += 1;
    }
    cfg.profiles = out;
}

/// Appends to `list` the watchlist rules that `text` lists.
pub fn append_rules(list: &mut Vec<String>, text: &str)
    ensures
        views(final(list)@) == views(old(list)@) + watchlist_rules(text@),
{
    let rules = watchlist_rules_of(text);
    let ghost start = views(list@);
    let mut k: usize = 0;
    while k < rules.len()
        invariant
            k <= rules.len(),
            views(rules@) == watchlist_rules(text@),
            views(list@) == start + views(rules@).take(k as int),
        decreases rules.len() - k,
    {
        let ghost before = list@;
        list.push(rules[k].clone());
        proof {
            lemma_views_push(before, rules@[k as int]);
        }
        assert(views(list@) =~= start + views(rules@).take(k + 1));
        k += 1;
    }
    assert(views(rules@).take(rules.len() as int) =~= views(rules@));
}

/// A profile after its watchlist file was read: the rules the file lists, if
/// the profile names a file and its text is at hand, follow the inline rules,
/// and the whole list is deduplicated.
pub open spec fn profile_with_file_rules(p: ProfileView, text: Option<Seq<char>>) -> ProfileView {
    ProfileView {
        watchlist: dedup_seq(
            if p.watchlist_file.len() > 0 && text is Some {
                p.watchlist + watchlist_rules(text->0)
            } else {
                p.watchlist
            },
        ),
        ..p
    }
}

/// After its watchlist file was read, a profile lists no rule twice, keeps
/// every inline rule, and lists every rule of the file it names.
pub proof fn lemma_file_rules_loaded(p: ProfileView, text: Option<Seq<char>>, r: Seq<char>)
    ensures
        profile_with_file_rules(p, text).watchlist.no_duplicates(),
        p.watchlist.contains(r) ==> profile_with_file_rules(p, text).watchlist.contains(r),
        p.watchlist_file.len() > 0 && text is Some && watchlist_rules(text->0).contains(r)
            ==> profile_with_file_rules(p, text).watchlist.contains(r),
{
    let all = if p.watchlist_file.len() > 0 && text is Some {
        p.watchlist + watchlist_rules(text->0)
    } else {
        p.watchlist
    };
    lemma_dedup_no_duplicates(all);
    lemma_dedup_same_items(all, r);
    if p.watchlist.contains(r) {
        let k = choose|k: int| 0 <= k < p.watchlist.len() && p.watchlist[k] == r;
        assert(all[k] == r);
    }
    if p.watchlist_file.len() > 0 && text is Some && watchlist_rules(text->0).contains(r) {
        let rules = watchlist_rules(text->0);
        let k = choose|k: int| 0 <= k < rules.len() && rules[k] == r;
        assert(all[p.watchlist.len() + k] == r);
    }
}

/// Adds to every profile the rules of its watchlist file. `texts[i]` is the
/// text of profile `i`'s file when it could be read, `None` (or missing) when
/// it could not; a profile that names no file ignores it.
pub fn load_profile_watchlists(cfg: &mut Config, texts: &Vec<Option<String>>)
    ensures
        final(cfg)@.profiles.len() == old(cfg)@.profiles.len(),
        forall|i: int|
            0 <= i < old(cfg)@.profiles.len() ==> #[trigger] final(cfg)@.profiles[i]
                == profile_with_file_rules(
                old(cfg)@.profiles[i],
                if i < texts@.len() {
                    match texts@[i] {
                        Some(t) => Some(t@),
                        None => None,
                    }
                } else {
                    None
                },
            ),
        final(cfg)@.cooldown_seconds == old(cfg)@.cooldown_seconds,
        final(cfg)@.log_level == old(cfg)@.log_level,
        final(cfg)@.verbose_non_hits == old(cfg)@.verbose_non_hits,
{
    let ghost before = cfg@.profiles;
    let mut out: Vec<Profile> = Vec::new();
    let mut i: usize = 0;
    while i < cfg.profiles.len()
        invariant
            i <= cfg.profiles.len(),
            before == profile_views(cfg.profiles@),
            out.len() == i,
            forall|j: int|
                0 <= j < i ==> #[trigger] out@[j]@ == profile_with_file_rules(
                    before[j],
                    if j < texts@.len() {
                        match texts@[j] {
                            Some(t) => Some(t@),
                            None => None,
                        }
                    } else {
                        None
                    },
                ),
        decreases cfg.profiles.len() - i,
    {
        let mut p = cfg.profiles[i].copy();
        let ghost pv = p@;
        if !p.watchlist_file.as_str().is_empty() && i < texts.len() {
            match &texts[i] {
                Some(t) => append_rules(&mut p.watchlist, t.as_str()),
                None => {},
            }
        }
        assert(views(p.watchlist@) =~= if pv.watchlist_file.len() > 0 && i < texts@.len()
            && texts@[i as int] is Some {
            pv.watchlist + watchlist_rules(texts@[i as int]->0@)
        } else {
            pv.watchlist
        });
        dedup_preserve_order(&mut p.watchlist);
        proof {
            assert(p@ =~~= profile_with_file_rules(
                before[i as int],
                if i < texts@.len() {
                    match texts@[i as int] {
                        Some(t) => Some(t@),
                        None => None,
                    }
                } else {
                    None
                },
            ));
        }
        out.push(p);
        i += 1;
    }
    cfg.profiles = out;
}

/// The first profile after a watchlist file was named on the command line:
/// it names that file, and when the file's text is at hand its rules follow
/// the profile's own and the list is deduplicated.
pub open spec fn overridden_profile(p: ProfileView, file: Seq<char>, text: Option<Seq<char>>) -> ProfileView {
    ProfileView {
        watchlist_file: file,
        watchlist: match text {
            Some(t) => dedup_seq(p.watchlist + watchlist_rules(t)),
            None => p.watchlist,
        },
        ..p
    }
}

/// The profile that stands for a watchlist file named on the command line
/// when the configuration has no profile.
pub open spec fn cli_override_profile(file: Seq<char>) -> ProfileView {
    ProfileView {
        name: "CLI Override"@,
        watchlist: Seq::empty(),
        watchlist_file: file,
        alert_sound: Seq::empty(),
        alert_sound_duration: 0,
    }
}

/// Makes the first profile use the watchlist file named on the command line,
/// adding a profile for it when there is none. `text` is the file's text when
/// it could be read.
pub fn apply_watchlist_override(cfg: &mut Config, watchlist_file: &str, text: Option<&str>)
    ensures
        final(cfg)@.profiles.len() == if old(cfg)@.profiles.len() == 0 {
            1
        } else {
            old(cfg)@.profiles.len()
        },
        final(cfg)@.profiles[0] == overridden_profile(
            if old(cfg)@.profiles.len() == 0 {
                cli_override_profile(watchlist_file@)
            } else {
                old(cfg)@.profiles[0]
            },
            watchlist_file@,
            match text {
                Some(t) => Some(t@),
                None => None,
            },
        ),
        forall|i: int|
            1 <= i < old(cfg)@.profiles.len() ==> #[trigger] final(cfg)@.profiles[i]
                == old(cfg)@.profiles[i],
        final(cfg)@.cooldown_seconds == old(cfg)@.cooldown_seconds,
        final(cfg)@.log_level == old(cfg)@.log_level,
        final(cfg)@.verbose_non_hits == old(cfg)@.verbose_non_hits,
{
    let ghost before = cfg@.profiles;
    let mut first = if cfg.profiles.len() == 0 {
        Profile {
            name: String::from_str("CLI Override"),
            watchlist: Vec::new(),
            watchlist_file: String::from_str(watchlist_file),
            alert_sound: String::new(),
            alert_sound_duration: 0,
        }
    } else {
        let mut p = cfg.profiles[0].copy();
        p.watchlist_file = String::from_str(watchlist_file);
        p
    };
    let ghost fv = first@;
    assert(fv.watchlist =~= (if before.len() == 0 {
        cli_override_profile(watchlist_file@)
    } else {
        before[0]
    }).watchlist);
    if let Some(t) = text {
        append_rules(&mut first.watchlist, t);
        dedup_preserve_order(&mut first.watchlist);
    }
    let mut out: Vec<Profile> = Vec::new();
    out.push(first);
    let mut i: usize = 1;
    while i < cfg.profiles.len()
        invariant
            1 <= i,
            i <= cfg.profiles.len() || cfg.profiles.len() == 0,
            cfg.profiles.len() == 0 ==> i == 1,
            before == profile_views(cfg.profiles@),
            out.len() == i,
            out@[0]@ == overridden_profile(
                if before.len() == 0 {
                    cli_override_profile(watchlist_file@)
                } else {
                    before[0]
                },
                watchlist_file@,
                match text {
                    Some(t) => Some(t@),
                    None => None,
                },
            ),
            forall|j: int| 1 <= j < i ==> #[trigger] out@[j]@ == before[j],
        decreases cfg.profiles.len() - i,
    {
        out.push(cfg.profiles[i].copy());
        i += 1;
    }
    cfg.profiles = out;
}

/// The defaults with a configuration file's contents laid over them, when
/// the file could be read and parsed.
pub open spec fn file_config_base(raw: Option<RawConfig>) -> ConfigView {
    match raw {
        Some(r) => merged_config(default_config_view(), r@),
        None => default_config_view(),
    }
}

/// The configuration that a configuration file at `config_path` gives,
/// before watchlist files are read: the defaults, with the file's contents
/// laid over them when it could be read and parsed, and the profiles' paths
/// expanded with `home` as the home directory.
pub fn config_from_file(raw: Option<RawConfig>, config_path: &str, home: &str) -> (cfg: Config)
    ensures
        cfg@.profiles.len() == file_config_base(raw).profiles.len(),
        forall|i: int|
            0 <= i < file_config_base(raw).profiles.len() ==> profile_paths_normalized(
                #[trigger] file_config_base(raw).profiles[i],
                cfg@.profiles[i],
                config_path@,
                home@,
            ),
        cfg@.cooldown_seconds == file_config_base(raw).cooldown_seconds,
        cfg@.log_level == file_config_base(raw).log_level,
        cfg@.verbose_non_hits == file_config_base(raw).verbose_non_hits,
        cfg@.cooldown_seconds == (if raw is Some && raw->0.cooldown_seconds is Some {
            raw->0.cooldown_seconds->0
        } else {
            default_config_view().cooldown_seconds
        }),
        cfg@.log_level == (if raw is Some && raw->0.log_level is Some {
            raw->0.log_level->0@
        } else {
            default_config_view().log_level
        }),
        cfg@.verbose_non_hits == (if raw is Some && raw->0.verbose_non_hits is Some {
            raw->0.verbose_non_hits->0
        } else {
            default_config_view().verbose_non_hits
        }),
{
    let mut cfg = Config::default();
    match raw {
        Some(r) => merge_raw_config(&mut cfg, r),
        None => {},
    }
    normalize_profile_paths(&mut cfg, config_path, home);
    cfg
}

} // verus!

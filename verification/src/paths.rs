//! Path handling: joining, `~` expansion and the locations derived from the
//! home directory and the configuration file.
use vstd::prelude::*;

use crate::text::{chars_of, concat2, string_from_chars, has_prefix};

verus! {

/// The view of an optional string.
pub open spec fn opt_view(o: Option<String>) -> Option<Seq<char>> {
    match o {
        Some(s) => Some(s@),
        None => None,
    }
}

/// `base` with `rel` pushed onto it, as `PathBuf::push` does on Unix: an
/// absolute `rel` replaces `base`; otherwise a `/` separates the two unless
/// `base` is empty or already ends in `/`.
pub open spec fn join_path(base: Seq<char>, rel: Seq<char>) -> Seq<char> {
    if rel.len() > 0 && rel[0] == '/' {
        rel
    } else if base.len() > 0 && base.last() != '/' {
        base + seq!['/'] + rel
    } else {
        base + rel
    }
}

/// What `Path::parent` gives for a path.
pub uninterp spec fn path_parent(p: Seq<char>) -> Option<Seq<char>>;

/// What `Path::file_name` gives for a path.
pub uninterp spec fn path_file_name(p: Seq<char>) -> Option<Seq<char>>;

/// Calls `Path::parent`: the path without its final component. The result is
/// the name `path_parent`; the documentation adds that the empty path and the
/// root have no parent.
#[verifier::external_body]
fn parent_of(p: &str) -> (r: Option<String>)
    ensures
        opt_view(r) == path_parent(p@),
        p@.len() == 0 ==> r is None,
        p@ == seq!['/'] ==> r is None,
{
    match std::path::Path::new(p).parent() {
        Some(q) => Some(q.to_string_lossy().into_owned()),
        None => None,
    }
}

/// Calls `Path::file_name`: the final component of the path. The result is
/// the name `path_file_name`; the documentation adds that a path that ends
/// in `..` has none.
#[verifier::external_body]
fn file_name_of(p: &str) -> (r: Option<String>)
    ensures
        opt_view(r) == path_file_name(p@),
        p@ == seq!['.', '.'] ==> r is None,
{
    match std::path::Path::new(p).file_name() {
        Some(f) => Some(f.to_string_lossy().into_owned()),
        None => None,
    }
}

/// Calls `shellexpand::full`, which expands `$VAR`, `${VAR}` and a leading
/// `~` from the environment; a lookup error comes back as `None`. The result
/// depends on the environment, so it is not named. The crate's source shows
/// that an input without `$` that does not start with `~` comes back
/// unchanged, and that is what is promised; nothing is said of other inputs.
#[verifier::external_body]
fn shell_expand(p: &str) -> (r: Option<String>)
    ensures
        !p@.contains('$') && !has_prefix(p@, seq!['~']) ==> opt_view(r) == Some(p@),
{
    match shellexpand::full(p) {
        Ok(s) => Some(s.into_owned()),
        Err(_) => None,
    }
}

/// `p` with a leading `~/` taken as the home directory `home`; any other
/// input is handed to the shell expansion, and comes back as it was where
/// that fails. The relation holds between the input and every result that
/// the environment allows.
pub open spec fn user_path_expansion(p: Seq<char>, home: Seq<char>, r: Seq<char>) -> bool {
    if has_prefix(p, seq!['~', '/']) {
        r == join_path(home, p.subrange(2, p.len() as int))
    } else if !p.contains('$') && !has_prefix(p, seq!['~']) {
        r == p
    } else {
        true
    }
}

/// The home directory that a configuration file path reveals: the parent of
/// its directory, when that directory is called `.dns_watchdog`.
pub open spec fn home_of_config_path(config_path: Seq<char>) -> Option<Seq<char>> {
    match path_parent(config_path) {
        Some(dir) => match path_file_name(dir) {
            Some(name) => if name == ".dns_watchdog"@ {
                path_parent(dir)
            } else {
                None
            },
            None => None,
        },
        None => None,
    }
}

/// A path of the configuration file expanded: a leading `~/` is taken as the
/// home directory that the configuration file's location reveals, if it
/// reveals one, and otherwise as for `user_path_expansion`.
pub open spec fn config_path_expansion(
    p: Seq<char>,
    config_path: Seq<char>,
    home: Seq<char>,
    r: Seq<char>,
) -> bool {
    if has_prefix(p, seq!['~', '/']) && home_of_config_path(config_path) is Some {
        r == join_path(home_of_config_path(config_path)->0, p.subrange(2, p.len() as int))
    } else {
        user_path_expansion(p, home, r)
    }
}

/// The home directory to use: `/Users/<sudo user>` when the program runs
/// under sudo and that directory exists, else the user's home directory,
/// else `~`.
pub open spec fn true_home(
    sudo_user: Option<Seq<char>>,
    mac_home_exists: bool,
    home_dir: Option<Seq<char>>,
) -> Seq<char> {
    if sudo_user is Some && mac_home_exists {
        "/Users/"@ + sudo_user->0
    } else if home_dir is Some {
        home_dir->0
    } else {
        "~"@
    }
}

/// `base` with `rel` pushed onto it (`PathBuf::push` on Unix).
pub fn join(base: &str, rel: &str) -> (r: String)
    ensures
        r@ == join_path(base@, rel@),
{
    let b = chars_of(base);
    let q = chars_of(rel);
    if q.len() > 0 && q[0] == '/' {
        return String::from_str(rel);
    }
    if b.len() > 0 && b[b.len() - 1] != '/' {
        let r = concat2(base, "/");
        proof {
            reveal_strlit("/");
        }
        let mut r = r;
        r.append(rel);
        assert(r@ =~= base@ + seq!['/'] + rel@);
        r
    } else {
        concat2(base, rel)
    }
}

/// The directory `/Users/<user>` that holds a macOS user's home.
pub fn mac_home_for(user: &str) -> (r: String)
    ensures
        r@ == "/Users/"@ + user@,
{
    concat2("/Users/", user)
}

/// Chooses the home directory (see `true_home`) from what the environment
/// gave: the sudo user, whether `/Users/<sudo user>` exists, and the user's
/// home directory.
pub fn get_true_home(sudo_user: Option<&str>, mac_home_exists: bool, home_dir: Option<&str>) -> (r: String)
    ensures
        r@ == true_home(
            match sudo_user {
                Some(u) => Some(u@),
                None => None,
            },
            mac_home_exists,
            match home_dir {
                Some(h) => Some(h@),
                None => None,
            },
        ),
{
    if let Some(u) = sudo_user {
        if mac_home_exists {
            return mac_home_for(u);
        }
    }
    match home_dir {
        Some(h) => String::from_str(h),
        None => String::from_str("~"),
    }
}

/// Expands a user path: a leading `~/` is the home directory `home`; any
/// other path goes through shell expansion and is kept as it is where that
/// fails.
pub fn expand_user_path(p: &str, home: &str) -> (r: String)
    ensures
        user_path_expansion(p@, home@, r@),
{
    let v = chars_of(p);
    if v.len() >= 2 && v[0] == '~' && v[1] == '/' {
        assert(p@.subrange(0, 2) =~= seq!['~', '/']);
        let rest = string_from_chars(&v, 2, v.len());
        return join(home, rest.as_str());
    }
    assert(!has_prefix(p@, seq!['~', '/']));
    match shell_expand(p) {
        Some(s) => s,
        None => String::from_str(p),
    }
}

/// The home directory that a configuration file path reveals (see
/// `home_of_config_path`).
pub fn home_from_config_path(config_path: &str) -> (r: Option<String>)
    ensures
        opt_view(r) == home_of_config_path(config_path@),
{
    let dir = match parent_of(config_path) {
        Some(d) => d,
        None => return None,
    };
    let name = match file_name_of(dir.as_str()) {
        Some(n) => n,
        None => return None,
    };
    let expected = String::from_str(".dns_watchdog");
    if name == expected {
        parent_of(dir.as_str())
    } else {
        None
    }
}

/// Expands a path named in the configuration file (see
/// `config_path_expansion`).
pub fn expand_user_path_for_config(p: &str, config_path: &str, home: &str) -> (r: String)
    ensures
        config_path_expansion(p@, config_path@, home@, r@),
{
    let v = chars_of(p);
    if v.len() >= 2 && v[0] == '~' && v[1] == '/' {
        assert(p@.subrange(0, 2) =~= seq!['~', '/']);
        if let Some(h) = home_from_config_path(config_path) {
            let rest = string_from_chars(&v, 2, v.len());
            return join(h.as_str(), rest.as_str());
        }
    }
    expand_user_path(p, home)
}

/// The default configuration file, `<home>/.dns_watchdog/config.json`.
pub fn default_config_path(home: &str) -> (r: String)
    ensures
        r@ == join_path(join_path(home@, ".dns_watchdog"@), "config.json"@),
{
    let dir = join(home, ".dns_watchdog");
    join(dir.as_str(), "config.json")
}

/// The default log file, `watchdog.log` beside the configuration file; none
/// when the configuration path has no parent.
pub fn default_log_path(config_path: &str) -> (r: Option<String>)
    ensures
        opt_view(r) == match path_parent(config_path@) {
            Some(dir) => Some(join_path(dir, "watchdog.log"@)),
            None => None,
        },
{
    match parent_of(config_path) {
        Some(dir) => Some(join(dir.as_str(), "watchdog.log")),
        None => None,
    }
}

} // verus!

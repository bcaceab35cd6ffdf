//! Desktop notifications: the AppleScript that posts one, the commands that
//! run it and play the alert sound, and the user they run as.
use vstd::prelude::*;

use crate::text::{chars_of, concat2, decimal, decimal_string, push_chars, trim, trim_str, views};

verus! {

/// One character as it stands inside an AppleScript string literal.
pub open spec fn escape_char(c: char) -> Seq<char> {
    if c == '\\' {
        seq!['\\', '\\']
    } else if c == '"' {
        seq!['\\', '"']
    } else {
        seq![c]
    }
}

/// A text as it stands inside an AppleScript string literal: backslashes and
/// double quotes are escaped with a backslash.
pub open spec fn escape_seq(s: Seq<char>) -> Seq<char>
    decreases s.len(),
{
    if s.len() == 0 {
        Seq::empty()
    } else {
        escape_seq(s.drop_last()) + escape_char(s.last())
    }
}

/// What an AppleScript string literal's content reads as: a backslash takes
/// the next character as it is.
pub open spec fn unescape_seq(s: Seq<char>) -> Seq<char>
    decreases s.len(),
{
    if s.len() >= 2 && s[0] == '\\' {
        seq![s[1]] + unescape_seq(s.skip(2))
    } else if s.len() > 0 {
        seq![s[0]] + unescape_seq(s.skip(1))
    } else {
        Seq::empty()
    }
}

proof fn lemma_escape_concat(s: Seq<char>, t: Seq<char>)
    ensures
        escape_seq(s + t) == escape_seq(s) + escape_seq(t),
    decreases t.len(),
{
    if t.len() == 0 {
        assert(s + t =~= s);
        assert(escape_seq(s) + escape_seq(t) =~= escape_seq(s));
    } else {
        lemma_escape_concat(s, t.drop_last());
        assert((s + t).drop_last() =~= s + t.drop_last());
        assert(escape_seq(s + t) =~= escape_seq(s) + escape_seq(t));
    }
}

proof fn lemma_unescape_after_escaped_char(c: char, rest: Seq<char>)
    ensures
        unescape_seq(escape_char(c) + rest) == seq![c] + unescape_seq(rest),
{
    let e = escape_char(c) + rest;
    if c == '\\' || c == '"' {
        assert(e.skip(2) =~= rest);
    } else {
        assert(e.skip(1) =~= rest);
    }
}

/// Escaping loses nothing: the escaped text reads back as the text it was
/// made from.
pub proof fn lemma_escape_roundtrip(s: Seq<char>)
    ensures
        unescape_seq(escape_seq(s)) == s,
    decreases s.len(),
{
    if s.len() > 0 {
        let rest = s.skip(1);
        assert(s =~= seq![s[0]] + rest);
        lemma_escape_concat(seq![s[0]], rest);
        assert(seq![s[0]].drop_last() =~= Seq::<char>::empty());
        assert(escape_seq(Seq::<char>::empty()) =~= Seq::<char>::empty());
        assert(escape_seq(seq![s[0]]) =~= escape_char(s[0]));
        lemma_unescape_after_escaped_char(s[0], escape_seq(rest));
        lemma_escape_roundtrip(rest);
        assert(seq![s[0]] + rest =~= s);
    }
}

/// Escapes a text for an AppleScript string literal (see `escape_seq`).
pub fn escape_applescript(value: &str) -> (r: String)
    ensures
        r@ == escape_seq(value@),
{
    let v = chars_of(value);
    let mut out: Vec<char> = Vec::new();
    let mut i: usize = 0;
    while i < v.len()
        invariant
            i <= v.len(),
            v@ == value@,
            out@ == escape_seq(v@.subrange(0, i as int)),
        decreases v.len() - i,
    {
        let c = v[i];
        if c == '\\' {
            out.push('\\');
            out.push('\\');
        } else if c == '"' {
            out.push('\\');
            out.push('"');
        } else {
            out.push(c);
        }
        assert(v@.subrange(0, i + 1).drop_last() =~= v@.subrange(0, i as int));
        assert(out@ =~= escape_seq(v@.subrange(0, i + 1)));
        i += 1;
    }
    assert(v@.subrange(0, v.len() as int) =~= v@);
    let mut r = String::new();
    push_chars(&mut r, &out);
    r
}

/// The AppleScript that posts a notification; a sound that is not a file is
/// taken as the name of a system sound and played with it.
pub open spec fn notification_script(
    title: Seq<char>,
    subtitle: Seq<char>,
    body: Seq<char>,
    sound: Seq<char>,
    sound_is_file: bool,
) -> Seq<char> {
    "display notification \""@ + escape_seq(body) + "\" with title \""@ + escape_seq(title)
        + "\" subtitle \""@ + escape_seq(subtitle) + "\""@ + if sound.len() > 0 && !sound_is_file {
        " sound name \""@ + escape_seq(sound) + "\""@
    } else {
        Seq::empty()
    }
}

/// What posting a notification takes: the AppleScript, and whether the
/// sound is a file to be played on its own.
pub struct NotificationPlan {
    pub script: String,
    pub play_sound_file: bool,
}

/// Plans a notification with `title`, `subtitle` and `body`. `sound` is the
/// profile's alert sound and `sound_is_file` tells whether it names an
/// existing file: such a sound is played on its own, any other non-empty
/// sound is named in the script.
pub fn plan_notification(
    title: &str,
    subtitle: &str,
    body: &str,
    sound: &str,
    sound_is_file: bool,
) -> (p: NotificationPlan)
    ensures
        p.script@ == notification_script(title@, subtitle@, body@, sound@, sound_is_file),
        p.play_sound_file == (sound@.len() > 0 && sound_is_file),
{
    let mut script = concat2("display notification \"", escape_applescript(body).as_str());
    script.append("\" with title \"");
    script.append(escape_applescript(title).as_str());
    script.append("\" subtitle \"");
    script.append(escape_applescript(subtitle).as_str());
    script.append("\"");
    let has_sound = !sound.is_empty();
    if has_sound && !sound_is_file {
        script.append(" sound name \"");
        script.append(escape_applescript(sound).as_str());
        script.append("\"");
    }
    assert(script@ =~= notification_script(title@, subtitle@, body@, sound@, sound_is_file));
    NotificationPlan { script, play_sound_file: has_sound && sound_is_file }
}

/// The arguments of `sudo` that run the script as `user`:
/// `-u <user> osascript -e <script>`.
pub fn osascript_args(user: &str, script: &str) -> (args: Vec<String>)
    ensures
        views(args@) == seq!["-u"@, user@, "osascript"@, "-e"@, script@],
{
    let mut args: Vec<String> = Vec::new();
    args.push(String::from_str("-u"));
    args.push(String::from_str(user));
    args.push(String::from_str("osascript"));
    args.push(String::from_str("-e"));
    args.push(String::from_str(script));
    assert(views(args@) =~= seq!["-u"@, user@, "osascript"@, "-e"@, script@]);
    args
}

/// The arguments of `sudo` that play a sound file as `user`:
/// `-u <user> afplay [-t <seconds>] <path>`, the time limit given only when
/// `duration` is not zero.
pub fn afplay_args(user: &str, duration: u64, path: &str) -> (args: Vec<String>)
    ensures
        views(args@) == seq!["-u"@, user@, "afplay"@] + (if duration > 0 {
            seq!["-t"@, decimal(duration as nat)]
        } else {
            Seq::empty()
        }) + seq![path@],
{
    let mut args: Vec<String> = Vec::new();
    args.push(String::from_str("-u"));
    args.push(String::from_str(user));
    args.push(String::from_str("afplay"));
    if duration > 0 {
        args.push(String::from_str("-t"));
        args.push(decimal_string(duration));
    }
    args.push(String::from_str(path));
    assert(views(args@) =~= seq!["-u"@, user@, "afplay"@] + (if duration > 0 {
        seq!["-t"@, decimal(duration as nat)]
    } else {
        Seq::empty()
    }) + seq![path@]);
    args
}

/// The user to notify: the console user that `stat` reported (trimmed),
/// unless it is `root` or empty; else the sudo user; else `$USER`; else
/// `root`.
pub open spec fn active_user(
    console: Option<Seq<char>>,
    sudo_user: Option<Seq<char>>,
    user: Option<Seq<char>>,
) -> Seq<char> {
    if console is Some && trim(console->0) != "root"@ && trim(console->0).len() > 0 {
        trim(console->0)
    } else if sudo_user is Some {
        sudo_user->0
    } else if user is Some {
        user->0
    } else {
        "root"@
    }
}

/// The view of an optional text.
pub open spec fn opt_str_view(o: Option<&str>) -> Option<Seq<char>> {
    match o {
        Some(s) => Some(s@),
        None => None,
    }
}

/// Chooses the user to notify (see `active_user`) from what the system
/// reported: `stat`'s output when it succeeded, the sudo user and `$USER`.
pub fn get_active_user(console: Option<&str>, sudo_user: Option<&str>, user: Option<&str>) -> (r: String)
    ensures
        r@ == active_user(opt_str_view(console), opt_str_view(sudo_user), opt_str_view(user)),
{
    if let Some(out) = console {
        let u = trim_str(out);
        let root = String::from_str("root");
        if !(u == root) && !u.as_str().is_empty() {
            return u;
        }
    }
    if let Some(s) = sudo_user {
        return String::from_str(s);
    }
    if let Some(s) = user {
        return String::from_str(s);
    }
    String::from_str("root")
}

} // verus!

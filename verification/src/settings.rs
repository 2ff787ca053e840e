use vstd::prelude::*;

use crate::control::{next_state, ControlAction, PlayState};
use crate::text::{concat, push_char};

verus! {

/// What `regex` gives for `Regex::new(pattern)` followed by `replace_all(text, replacement)`:
/// `None` when the pattern does not compile.
pub uninterp spec fn spec_regex_replace_all(
    pattern: Seq<char>,
    text: Seq<char>,
    replacement: Seq<char>,
) -> Option<Seq<char>>;

/// `regex::Regex::new(pattern)` and then `Regex::replace_all(text, replacement)`:
/// every match of the pattern in the text replaced by the replacement, in which
/// `$name` stands for a capture group. The crate's semantics are named, not
/// written out; the result is a function of the three texts.
#[verifier::external_body]
fn regex_replace_all(pattern: &str, text: &str, replacement: &str) -> (r: Option<String>)
    ensures
        r matches Some(s) ==> spec_regex_replace_all(pattern@, text@, replacement@) == Some(s@),
        r is None ==> spec_regex_replace_all(pattern@, text@, replacement@) is None,
{
    match regex::Regex::new(pattern) {
        Ok(re) => Some(re.replace_all(text, replacement).into_owned()),
        Err(_) => None,
    }
}

/// The pattern of a line `key = "..."` of the player's configuration, at the start of a line.
pub open spec fn setting_pattern(key: Seq<char>) -> Seq<char> {
    "(?m)^"@ + key + "\\s*=\\s*\"(.*)"@
}

/// The line `key = "value"`.
pub open spec fn setting_line(key: Seq<char>, value: Seq<char>) -> Seq<char> {
    key + " = \""@ + value + "\""@
}

/// The configuration text with every line `key = "..."` set to `key = "value"`.
pub open spec fn spec_replace_setting(contents: Seq<char>, key: Seq<char>, value: Seq<char>) -> Option<Seq<char>> {
    spec_regex_replace_all(setting_pattern(key), contents, setting_line(key, value))
}

/// `s` with a backslash before every double quote.
pub open spec fn escape_quotes(s: Seq<char>) -> Seq<char>
    decreases s.len(),
{
    if s.len() == 0 {
        s
    } else if s[0] == '"' {
        seq!['\\', '"'] + escape_quotes(s.drop_first())
    } else {
        seq![s[0]] + escape_quotes(s.drop_first())
    }
}

/// `s` with a backslash before every double quote (`s.replace("\"", "\\\"")`).
pub fn escape_quotes_exec(s: &str) -> (r: String)
    ensures
        r@ == escape_quotes(s@),
{
    let mut r = String::new();
    let n = s.unicode_len();
    let mut i: usize = 0;
    assert(s@.skip(0) =~= s@);
    while i < n
        invariant
            n == s@.len(),
            i <= n,
            escape_quotes(s@) == r@ + escape_quotes(s@.skip(i as int)),
        decreases n - i,
    {
        let c = s.get_char(i);
        let ghost rest = s@.skip(i as int);
        let ghost before = r@;
        assert(rest[0] == c);
        assert(rest.drop_first() =~= s@.skip(i + 1));
        if c == '"' {
            push_char(&mut r, '\\');
            push_char(&mut r, '"');
            assert(before + (seq!['\\', '"'] + escape_quotes(rest.drop_first())) =~= r@ + escape_quotes(
                rest.drop_first(),
            ));
        } else {
            push_char(&mut r, c);
            assert(before + (seq![c] + escape_quotes(rest.drop_first())) =~= r@ + escape_quotes(rest.drop_first()));
        }
        i = i + 1;
    }
    assert(s@.skip(n as int) =~= Seq::<char>::empty());
    assert(r@ + Seq::<char>::empty() =~= r@);
    r
}

/// The configuration text `contents` with every line `key = "..."` set to `key = "value"`.
/// `None` only when the pattern made from `key` does not compile.
pub fn replace_setting(contents: &str, key: &str, value: &str) -> (r: Option<String>)
    ensures
        r matches Some(s) ==> spec_replace_setting(contents@, key@, value@) == Some(s@),
        r is None ==> spec_replace_setting(contents@, key@, value@) is None,
{
    let head = concat("(?m)^", key);
    let pattern = concat(head.as_str(), "\\s*=\\s*\"(.*)");
    let a = concat(key, " = \"");
    let b = concat(a.as_str(), value);
    let line = concat(b.as_str(), "\"");
    regex_replace_all(pattern.as_str(), contents, line.as_str())
}

/// The option's text, when there is one.
pub open spec fn opt_text(r: Option<String>) -> Option<Seq<char>> {
    match r {
        Some(s) => Some(s@),
        None => None,
    }
}

/// The configuration text after a wallpaper starts: its id in `current_wallpaper_id`,
/// and its name, with double quotes escaped, in `current_wallpaper_name`.
pub open spec fn spec_current_wallpaper_contents(
    contents: Seq<char>,
    wallpaper_id: Seq<char>,
    wallpaper_name: Seq<char>,
) -> Option<Seq<char>> {
    match spec_replace_setting(contents, "current_wallpaper_id"@, wallpaper_id) {
        Some(c) => spec_replace_setting(c, "current_wallpaper_name"@, escape_quotes(wallpaper_name)),
        None => None,
    }
}

/// The configuration text after a wallpaper starts (the text that
/// `save_current_wallpaper` writes).
pub fn current_wallpaper_contents(contents: &str, wallpaper_id: &str, wallpaper_name: &str) -> (r: Option<String>)
    ensures
        opt_text(r) == spec_current_wallpaper_contents(contents@, wallpaper_id@, wallpaper_name@),
{
    let first = replace_setting(contents, "current_wallpaper_id", wallpaper_id)?;
    let escaped = escape_quotes_exec(wallpaper_name);
    replace_setting(first.as_str(), "current_wallpaper_name", escaped.as_str())
}

/// The text of a stored play state.
pub open spec fn opt_state_text(s: Option<String>) -> Option<Seq<char>> {
    match s {
        Some(t) => Some(t@),
        None => None,
    }
}

/// The state after `action` and the configuration text that stores it in
/// `play_state` (what `save_play_state` writes and keeps).
pub fn play_state_contents(contents: &str, current_state: Option<String>, action: &ControlAction) -> (r: (
    Option<String>,
    PlayState,
))
    ensures
        r.1 == next_state(opt_state_text(current_state), *action),
        opt_text(r.0) == spec_replace_setting(contents@, "play_state"@, crate::control::state_name(r.1)),
{
    let state = ControlAction::to_state(current_state, action);
    let text = replace_setting(contents, "play_state", state.name());
    (text, state)
}

/// The configuration text that keeps `wallpaper_id` as the wallpaper shown before SDDM.
pub fn pre_sddm_contents(contents: &str, wallpaper_id: &str) -> (r: Option<String>)
    ensures
        opt_text(r) == spec_replace_setting(contents@, "pre_sddm_wallpaper_id"@, wallpaper_id@),
{
    replace_setting(contents, "pre_sddm_wallpaper_id", wallpaper_id)
}

/// The configuration text that keeps `wallpaper_id` as the wallpaper shown before the lock screen.
pub fn pre_wallock_contents(contents: &str, wallpaper_id: &str) -> (r: Option<String>)
    ensures
        opt_text(r) == spec_replace_setting(contents@, "pre_wallock_wallpaper_id"@, wallpaper_id@),
{
    replace_setting(contents, "pre_wallock_wallpaper_id", wallpaper_id)
}

/// Where `check` backs up the wallpaper engine configuration: `<file>.back-<stamp>`.
pub fn backup_path(config_file: &str, stamp: &str) -> (r: String)
    ensures
        r@ == config_file@ + ".back-"@ + stamp@,
{
    let a = concat(config_file, ".back-");
    concat(a.as_str(), stamp)
}

} // verus!

//! Achievements: where the helper writes a game's achievement data, the icons' URLs, the
//! helper's commands, and reading its answers. Running the helper and reading its files
//! happen outside this crate.
use vstd::prelude::*;

use crate::text::{
    chars_of, contains, contains_seq, decimal, decimal_u64, ends_with, has_prefix, has_suffix,
    owned, push_all, starts_with, string_from_chars, trim, trim_str,
};

verus! {

pub open spec fn texts(v: Seq<String>) -> Seq<Seq<char>> {
    v.map_values(|s: String| s@)
}

/// The helper's cache directory of an account, as path components below the data
/// directory: `cache/<steam_id>`.
pub fn cache_dir_for(steam_id: &str) -> (r: Vec<String>)
    ensures
        texts(r@) == seq!["cache"@, steam_id@],
{
    let mut r: Vec<String> = Vec::new();
    r.push(owned("cache"));
    r.push(owned(steam_id));
    assert(texts(r@) =~= seq!["cache"@, steam_id@]);
    r
}

/// Where the helper writes a game's achievement data, as path components below the data
/// directory: `cache/<steam_id>/<steam_id>/achievement_data/<app_id>.json`.
pub fn achievement_file_path(steam_id: &str, app_id: u32) -> (r: Vec<String>)
    ensures
        texts(r@) == seq![
            "cache"@,
            steam_id@,
            steam_id@,
            "achievement_data"@,
            decimal(app_id as nat) + ".json"@,
        ],
{
    let mut r = cache_dir_for(steam_id);
    let ghost t0 = texts(r@);
    r.push(owned(steam_id));
    r.push(owned("achievement_data"));
    let mut f = decimal_u64(app_id as u64);
    let j = chars_of(".json");
    push_all(&mut f, j.as_slice());
    r.push(string_from_chars(f.as_slice()));
    assert(texts(r@) =~= t0.push(steam_id@).push("achievement_data"@).push(decimal(app_id as nat) + ".json"@));
    assert(texts(r@) =~= seq![
        "cache"@,
        steam_id@,
        steam_id@,
        "achievement_data"@,
        decimal(app_id as nat) + ".json"@,
    ]);
    r
}

/// The icon URL of an achievement: a URL is kept, a file name is put under the game's
/// images, a bare hash gets `.jpg`; no icon gives an empty text.
pub open spec fn icon_url_of(app_id: u32, icon: Option<Seq<char>>) -> Seq<char> {
    match icon {
        Some(raw) if trim(raw).len() > 0 => {
            let hash = trim(raw);
            if has_prefix(hash, "http://"@) || has_prefix(hash, "https://"@) {
                hash
            } else {
                let file = if has_suffix(hash, ".jpg"@) || has_suffix(hash, ".png"@) {
                    hash
                } else {
                    hash + ".jpg"@
                };
                "https://cdn.steamstatic.com/steamcommunity/public/images/apps/"@ + decimal(app_id as nat) + "/"@ + file
            }
        },
        _ => Seq::empty(),
    }
}

/// The icon URL of an achievement of `app_id` with icon `icon`.
pub fn achievement_icon_url(app_id: u32, icon: Option<&str>) -> (r: String)
    ensures
        r@ == icon_url_of(app_id, match icon {
            Some(s) => Some(s@),
            None => None,
        }),
{
    let raw = match icon {
        Some(s) => s,
        None => {
            return String::new();
        },
    };
    let hash = trim_str(raw);
    let h = chars_of(hash.as_str());
    if h.len() == 0 {
        return String::new();
    }
    let p1 = chars_of("http://");
    let p2 = chars_of("https://");
    if starts_with(h.as_slice(), p1.as_slice()) || starts_with(h.as_slice(), p2.as_slice()) {
        return hash;
    }
    let s1 = chars_of(".jpg");
    let s2 = chars_of(".png");
    let mut file = chars_of(hash.as_str());
    if !(ends_with(h.as_slice(), s1.as_slice()) || ends_with(h.as_slice(), s2.as_slice())) {
        push_all(&mut file, s1.as_slice());
    }
    let mut v = chars_of("https://cdn.steamstatic.com/steamcommunity/public/images/apps/");
    let d = decimal_u64(app_id as u64);
    push_all(&mut v, d.as_slice());
    let sl = chars_of("/");
    push_all(&mut v, sl.as_slice());
    push_all(&mut v, file.as_slice());
    string_from_chars(v.as_slice())
}

fn action_args(command: &str, app_id: u32, achievement_id: Option<&str>) -> (r: Vec<String>)
    ensures
        texts(r@) == match achievement_id {
            Some(a) => seq![command@, decimal(app_id as nat), a@],
            None => seq![command@, decimal(app_id as nat)],
        },
{
    let mut r: Vec<String> = Vec::new();
    r.push(owned(command));
    let d = decimal_u64(app_id as u64);
    r.push(string_from_chars(d.as_slice()));
    match achievement_id {
        Some(a) => {
            r.push(owned(a));
            assert(texts(r@) =~= seq![command@, decimal(app_id as nat), a@]);
        },
        None => {
            assert(texts(r@) =~= seq![command@, decimal(app_id as nat)]);
        },
    }
    r
}

/// The helper's arguments to unlock an achievement.
pub fn unlock_achievement(app_id: u32, achievement_id: &str) -> (r: Vec<String>)
    ensures
        texts(r@) == seq!["unlock_achievement"@, decimal(app_id as nat), achievement_id@],
{
    action_args("unlock_achievement", app_id, Some(achievement_id))
}

/// The helper's arguments to lock an achievement.
pub fn lock_achievement(app_id: u32, achievement_id: &str) -> (r: Vec<String>)
    ensures
        texts(r@) == seq!["lock_achievement"@, decimal(app_id as nat), achievement_id@],
{
    action_args("lock_achievement", app_id, Some(achievement_id))
}

/// The helper's arguments to toggle an achievement.
pub fn toggle_achievement(app_id: u32, achievement_id: &str) -> (r: Vec<String>)
    ensures
        texts(r@) == seq!["toggle_achievement"@, decimal(app_id as nat), achievement_id@],
{
    action_args("toggle_achievement", app_id, Some(achievement_id))
}

/// The helper's arguments to unlock every achievement of a game.
pub fn unlock_all(app_id: u32) -> (r: Vec<String>)
    ensures
        texts(r@) == seq!["unlock_all_achievements"@, decimal(app_id as nat)],
{
    action_args("unlock_all_achievements", app_id, None)
}

/// The helper's arguments to lock every achievement of a game.
pub fn lock_all(app_id: u32) -> (r: Vec<String>)
    ensures
        texts(r@) == seq!["lock_all_achievements"@, decimal(app_id as nat)],
{
    action_args("lock_all_achievements", app_id, None)
}

/// The helper's arguments to write a game's achievement data into `cache_dir`.
pub fn achievement_data_args(app_id: u32, cache_dir: &str) -> (r: Vec<String>)
    ensures
        texts(r@) == seq!["get_achievement_data"@, decimal(app_id as nat), cache_dir@],
{
    action_args("get_achievement_data", app_id, Some(cache_dir))
}

/// What stops reading achievement data after the helper ran: an error report in its output
/// (the output itself, trimmed), else a failed exit with error output (trimmed).
pub open spec fn achievement_run_failure(stdout: Seq<char>, exit_ok: bool, stderr: Seq<char>) -> Option<Seq<char>> {
    if contains_seq(trim(stdout), "\"error\""@) {
        Some(trim(stdout))
    } else if !exit_ok && trim(stderr).len() > 0 {
        Some(trim(stderr))
    } else {
        None
    }
}

/// Whether the helper's run failed, from its output, exit and error output.
pub fn achievement_run_error(stdout: &str, exit_ok: bool, stderr: &str) -> (r: Option<String>)
    ensures
        crate::steam::opt_text(r) == achievement_run_failure(stdout@, exit_ok, stderr@),
{
    let out = trim_str(stdout);
    let o = chars_of(out.as_str());
    let marker = chars_of("\"error\"");
    if contains(o.as_slice(), marker.as_slice()) {
        return Some(out);
    }
    if !exit_ok {
        let err = trim_str(stderr);
        if !err.as_str().is_empty() {
            return Some(err);
        }
    }
    None
}

/// The error when the helper left no data file at `path`.
pub fn achievement_file_missing(path: &str) -> (r: String)
    ensures
        r@ == "Achievement data file was not created at "@ + path@ + "."@,
{
    let mut v = chars_of("Achievement data file was not created at ");
    let p = chars_of(path);
    push_all(&mut v, p.as_slice());
    let d = chars_of(".");
    push_all(&mut v, d.as_slice());
    string_from_chars(v.as_slice())
}

} // verus!

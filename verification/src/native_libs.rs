//! The native helper programs: which file is used (a configured path or the bundled one),
//! the bundle's contents and its manifest token. Looking at the file system happens
//! outside this crate, which reports what it found.
use vstd::prelude::*;

use crate::achievements::texts;
use crate::steam::opt_text;
use crate::text::{chars_of, decimal, decimal_u64, owned, push_all, string_from_chars, trim, trim_str};

verus! {

/// The idling and achievements helper.
pub open spec fn utility_exe() -> Seq<char> {
    "SteamSuiteUtility.exe"@
}

/// The save slot command line program.
pub open spec fn cli_exe() -> Seq<char> {
    "SaveSlotStudio.Cli.exe"@
}

/// The files the bundle holds, the helper first.
pub fn runtime_lib_names() -> (r: Vec<String>)
    ensures
        texts(r@) == seq![
            "SteamSuiteUtility.exe"@,
            "steam_api.dll"@,
            "Steamworks.NET.dll"@,
            "Newtonsoft.Json.dll"@,
            "SaveSlotStudio.Cli.exe"@,
        ],
{
    let mut r: Vec<String> = Vec::new();
    r.push(owned("SteamSuiteUtility.exe"));
    r.push(owned("steam_api.dll"));
    r.push(owned("Steamworks.NET.dll"));
    r.push(owned("Newtonsoft.Json.dll"));
    r.push(owned("SaveSlotStudio.Cli.exe"));
    assert(texts(r@) =~= seq![
        "SteamSuiteUtility.exe"@,
        "steam_api.dll"@,
        "Steamworks.NET.dll"@,
        "Newtonsoft.Json.dll"@,
        "SaveSlotStudio.Cli.exe"@,
    ]);
    r
}

/// The configured path to use (trimmed), when one is configured.
pub fn custom_helper_path(custom: &str) -> (r: Option<String>)
    ensures
        opt_text(r) == if trim(custom@).len() > 0 {
            Some(trim(custom@))
        } else {
            None::<Seq<char>>
        },
{
    let t = trim_str(custom);
    if t.as_str().is_empty() {
        None
    } else {
        Some(t)
    }
}

/// Where a helper file is: a configured path (trimmed) must exist; without one, the file
/// in the bundle directory must. `custom_exists` says whether the configured path exists;
/// `bundled` is the bundle file's path and whether it exists, or why the bundle directory
/// was not found.
pub open spec fn bundled_file(
    file_name: Seq<char>,
    custom: Seq<char>,
    custom_exists: bool,
    bundled: Result<(Seq<char>, bool), Seq<char>>,
) -> Result<Seq<char>, Seq<char>> {
    if trim(custom).len() > 0 {
        if custom_exists {
            Ok(trim(custom))
        } else {
            Err("Native helper not found at "@ + trim(custom))
        }
    } else {
        match bundled {
            Err(e) => Err(e),
            Ok((path, true)) => Ok(path),
            Ok((_, false)) => Err(file_name + " not found. Run scripts/build-release.ps1 to bundle native helpers."@),
        }
    }
}

pub open spec fn bundled_view(b: Result<(String, bool), String>) -> Result<(Seq<char>, bool), Seq<char>> {
    match b {
        Ok((p, e)) => Ok((p@, e)),
        Err(e) => Err(e@),
    }
}

/// Resolves a helper file (see [`bundled_file`]).
pub fn resolve_bundled_file(
    file_name: &str,
    custom: &str,
    custom_exists: bool,
    bundled: Result<(String, bool), String>,
) -> (r: Result<String, String>)
    ensures
        match (r, bundled_file(file_name@, custom@, custom_exists, bundled_view(bundled))) {
            (Ok(a), Ok(b)) => a@ == b,
            (Err(a), Err(b)) => a@ == b,
            _ => false,
        },
{
    let t = trim_str(custom);
    if !t.as_str().is_empty() {
        if custom_exists {
            return Ok(t);
        }
        let mut v = chars_of("Native helper not found at ");
        let tc = chars_of(t.as_str());
        push_all(&mut v, tc.as_slice());
        return Err(string_from_chars(v.as_slice()));
    }
    match bundled {
        Err(e) => Err(e),
        Ok((path, exists)) => {
            if exists {
                Ok(path)
            } else {
                let mut v = chars_of(file_name);
                let m = chars_of(" not found. Run scripts/build-release.ps1 to bundle native helpers.");
                push_all(&mut v, m.as_slice());
                Err(string_from_chars(v.as_slice()))
            }
        },
    }
}

/// Whether a helper file can be used.
pub fn bundled_ready(file_name: &str, custom: &str, custom_exists: bool, bundled: Result<(String, bool), String>) -> (b:
    bool)
    ensures
        b == bundled_file(file_name@, custom@, custom_exists, bundled_view(bundled)) is Ok,
{
    resolve_bundled_file(file_name, custom, custom_exists, bundled).is_ok()
}

/// Resolves the idling and achievements helper.
pub fn resolve_utility_path(custom: &str, custom_exists: bool, bundled: Result<(String, bool), String>) -> (r:
    Result<String, String>)
    ensures
        match (r, bundled_file(utility_exe(), custom@, custom_exists, bundled_view(bundled))) {
            (Ok(a), Ok(b)) => a@ == b,
            (Err(a), Err(b)) => a@ == b,
            _ => false,
        },
{
    resolve_bundled_file("SteamSuiteUtility.exe", custom, custom_exists, bundled)
}

/// Whether the idling and achievements helper can be used.
pub fn utility_ready(custom: &str, custom_exists: bool, bundled: Result<(String, bool), String>) -> (b: bool)
    ensures
        b == bundled_file(utility_exe(), custom@, custom_exists, bundled_view(bundled)) is Ok,
{
    bundled_ready("SteamSuiteUtility.exe", custom, custom_exists, bundled)
}

/// Resolves the save slot command line program.
pub fn resolve_cli_path(custom: &str, custom_exists: bool, bundled: Result<(String, bool), String>) -> (r:
    Result<String, String>)
    ensures
        match (r, bundled_file(cli_exe(), custom@, custom_exists, bundled_view(bundled))) {
            (Ok(a), Ok(b)) => a@ == b,
            (Err(a), Err(b)) => a@ == b,
            _ => false,
        },
{
    resolve_bundled_file("SaveSlotStudio.Cli.exe", custom, custom_exists, bundled)
}

/// Whether the save slot command line program can be used.
pub fn cli_ready(custom: &str, custom_exists: bool, bundled: Result<(String, bool), String>) -> (b: bool)
    ensures
        b == bundled_file(cli_exe(), custom@, custom_exists, bundled_view(bundled)) is Ok,
{
    bundled_ready("SaveSlotStudio.Cli.exe", custom, custom_exists, bundled)
}

/// The bundle directory: next to the program when the helper is there, else the
/// development directory when it is there.
pub open spec fn libs_dir_choice(loose: Seq<char>, loose_ok: bool, dev: Seq<char>, dev_ok: bool) -> Result<Seq<char>, Seq<char>> {
    if loose_ok {
        Ok(loose)
    } else if dev_ok {
        Ok(dev)
    } else {
        Err("Native libs not found. Build helpers into libs/ or run scripts/build-release.ps1."@)
    }
}

/// Chooses the bundle directory from the two places looked at.
pub fn choose_libs_dir(loose: String, loose_ok: bool, dev: String, dev_ok: bool) -> (r: Result<String, String>)
    ensures
        match (r, libs_dir_choice(loose@, loose_ok, dev@, dev_ok)) {
            (Ok(a), Ok(b)) => a@ == b,
            (Err(a), Err(b)) => a@ == b,
            _ => false,
        },
{
    if loose_ok {
        Ok(loose)
    } else if dev_ok {
        Ok(dev)
    } else {
        Err(owned("Native libs not found. Build helpers into libs/ or run scripts/build-release.ps1."))
    }
}

/// The manifest token of a bundle: the version, then each file as `name:length`, joined by
/// `|`.
pub open spec fn manifest_token_text(version: Seq<char>, files: Seq<(Seq<char>, usize)>) -> Seq<char>
    decreases files.len(),
{
    if files.len() == 0 {
        version
    } else {
        manifest_token_text(version, files.drop_last()) + "|"@ + files.last().0 + ":"@ + decimal(files.last().1 as nat)
    }
}

pub open spec fn file_views(v: Seq<(String, usize)>) -> Seq<(Seq<char>, usize)> {
    v.map_values(|f: (String, usize)| (f.0@, f.1))
}

/// The manifest token of the bundle of `version` holding `files` (name and length).
pub fn manifest_token(version: &str, files: &Vec<(String, usize)>) -> (r: String)
    ensures
        r@ == manifest_token_text(version@, file_views(files@)),
{
    let ghost fv = file_views(files@);
    let mut v = chars_of(version);
    for i in 0..files.len()
        invariant
            fv == file_views(files@),
            v@ == manifest_token_text(version@, fv.take(i as int)),
    {
        assert(fv.take(i + 1).drop_last() =~= fv.take(i as int));
        let bar = chars_of("|");
        push_all(&mut v, bar.as_slice());
        let n = chars_of(files[i].0.as_str());
        push_all(&mut v, n.as_slice());
        let c = chars_of(":");
        push_all(&mut v, c.as_slice());
        let d = decimal_u64(files[i].1 as u64);
        push_all(&mut v, d.as_slice());
    }
    assert(fv.take(files.len() as int) =~= fv);
    string_from_chars(v.as_slice())
}

/// Whether the extracted bundle is current: the saved manifest (trimmed) is the token.
pub fn manifest_matches(saved: &str, token: &str) -> (b: bool)
    ensures
        b == (trim(saved@) == token@),
{
    let t = trim_str(saved);
    let a = chars_of(t.as_str());
    let c = chars_of(token);
    crate::text::chars_eq(a.as_slice(), c.as_slice())
}

} // verus!

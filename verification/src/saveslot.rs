//! Save slots: what the save slot command line program is asked, and how its answers are
//! read. Running it and parsing its JSON happen outside this crate.
use vstd::prelude::*;

use crate::achievements::texts;
use crate::text::{chars_of, decimal, decimal_int, decimal_u64, owned, push_all, string_from_chars, trim, trim_str};

verus! {

/// Where the vault is and whether it is usable.
pub struct SaveSlotStatus {
    pub vault_root: String,
    pub ready: bool,
}

/// A stored snapshot of a game's saves.
pub struct SaveSlotSnapshot {
    pub id: String,
    pub created_at: String,
    pub note: Option<String>,
    pub file_count: i32,
    pub size_bytes: i64,
}

/// A named profile of a game's saves.
pub struct SaveSlotProfile {
    pub name: String,
    pub slug: String,
    pub snapshots: Vec<SaveSlotSnapshot>,
}

/// The saves of one game.
pub struct SaveSlotGameState {
    pub app_id: u32,
    pub name: String,
    pub steam_id64: String,
    pub vault_root: String,
    pub save_location_count: i32,
    pub profiles: Vec<SaveSlotProfile>,
}

/// A game with saves.
pub struct SaveSlotGameSummary {
    pub app_id: u32,
    pub name: String,
    pub save_location_count: i32,
    pub in_vault: bool,
    pub has_live_saves: bool,
}

/// The message of a finished action.
pub struct SaveSlotActionResult {
    pub message: String,
}

/// The program's answer: whether it succeeded, its error, and its data.
pub struct CliEnvelope<T> {
    pub success: bool,
    pub error: Option<String>,
    pub data: Option<T>,
}

/// The program's arguments to report the vault's status.
pub fn get_status() -> (r: Vec<String>)
    ensures
        texts(r@) == seq!["status"@],
{
    let mut r: Vec<String> = Vec::new();
    r.push(owned("status"));
    assert(texts(r@) =~= seq!["status"@]);
    r
}

/// The program's arguments to list the games with saves.
pub fn list_games_with_saves() -> (r: Vec<String>)
    ensures
        texts(r@) == seq!["games-with-saves"@],
{
    let mut r: Vec<String> = Vec::new();
    r.push(owned("games-with-saves"));
    assert(texts(r@) =~= seq!["games-with-saves"@]);
    r
}

/// The program's arguments to report one game's saves.
pub fn get_game_state(app_id: u32) -> (r: Vec<String>)
    ensures
        texts(r@) == seq!["game-state"@, decimal(app_id as nat)],
{
    let mut r: Vec<String> = Vec::new();
    r.push(owned("game-state"));
    let d = decimal_u64(app_id as u64);
    r.push(string_from_chars(d.as_slice()));
    assert(texts(r@) =~= seq!["game-state"@, decimal(app_id as nat)]);
    r
}

/// The program's arguments to create a profile.
pub fn create_profile(app_id: u32, name: &str) -> (r: Vec<String>)
    ensures
        texts(r@) == seq!["create-profile"@, decimal(app_id as nat), name@],
{
    let mut r: Vec<String> = Vec::new();
    r.push(owned("create-profile"));
    let d = decimal_u64(app_id as u64);
    r.push(string_from_chars(d.as_slice()));
    r.push(owned(name));
    assert(texts(r@) =~= seq!["create-profile"@, decimal(app_id as nat), name@]);
    r
}

/// The program's arguments to back up a profile.
pub fn backup(app_id: u32, profile_slug: &str) -> (r: Vec<String>)
    ensures
        texts(r@) == seq!["backup"@, decimal(app_id as nat), profile_slug@],
{
    let mut r: Vec<String> = Vec::new();
    r.push(owned("backup"));
    let d = decimal_u64(app_id as u64);
    r.push(string_from_chars(d.as_slice()));
    r.push(owned(profile_slug));
    assert(texts(r@) =~= seq!["backup"@, decimal(app_id as nat), profile_slug@]);
    r
}

/// The program's arguments to restore a snapshot of a profile.
pub fn restore(app_id: u32, profile_slug: &str, snapshot_id: &str) -> (r: Vec<String>)
    ensures
        texts(r@) == seq!["restore"@, decimal(app_id as nat), profile_slug@, snapshot_id@],
{
    let mut r: Vec<String> = Vec::new();
    r.push(owned("restore"));
    let d = decimal_u64(app_id as u64);
    r.push(string_from_chars(d.as_slice()));
    r.push(owned(profile_slug));
    r.push(owned(snapshot_id));
    assert(texts(r@) =~= seq!["restore"@, decimal(app_id as nat), profile_slug@, snapshot_id@]);
    r
}

/// The program's arguments to open the vault.
pub fn open_vault() -> (r: Vec<String>)
    ensures
        texts(r@) == seq!["open-vault"@],
{
    let mut r: Vec<String> = Vec::new();
    r.push(owned("open-vault"));
    assert(texts(r@) =~= seq!["open-vault"@]);
    r
}

/// How an exit code is written for debugging: `Some(<code>)` or `None`.
pub open spec fn exit_code_text(code: Option<i32>) -> Seq<char> {
    match code {
        Some(c) => "Some("@ + decimal_int(c as int) + ")"@,
        None => "None"@,
    }
}

/// The error of a failed run: the error of the program's answer, else its error output,
/// else its output (both trimmed), else the exit code. `envelope_error` is the answer's
/// error field when the output is an answer.
pub open spec fn cli_failure_text(stdout: Seq<char>, stderr: Seq<char>, envelope_error: Option<Option<Seq<char>>>, code: Option<i32>) -> Seq<char> {
    match envelope_error {
        Some(Some(e)) => e,
        _ => if trim(stderr).len() > 0 {
            trim(stderr)
        } else if trim(stdout).len() > 0 {
            trim(stdout)
        } else {
            "SaveSlot CLI exited with code "@ + exit_code_text(code)
        },
    }
}

fn i32_text(c: i32) -> (r: Vec<char>)
    ensures
        r@ == decimal_int(c as int),
{
    if c < 0 {
        let mut v = chars_of("-");
        proof {
            reveal_strlit("-");
        }
        assert(v@ =~= seq!['-']);
        let m: u64 = (0i64 - c as i64) as u64;
        let d = decimal_u64(m);
        push_all(&mut v, d.as_slice());
        assert(v@ == seq!['-'] + decimal((-(c as int)) as nat));
        v
    } else {
        decimal_u64(c as u64)
    }
}

/// The error of a failed run of the program.
pub fn cli_failure(stdout: &str, stderr: &str, envelope_error: Option<Option<String>>, code: Option<i32>) -> (r: String)
    ensures
        r@ == cli_failure_text(stdout@, stderr@, match envelope_error {
            Some(Some(e)) => Some(Some(e@)),
            Some(None) => Some(None),
            None => None,
        }, code),
{
    if let Some(Some(e)) = envelope_error {
        return e;
    }
    let err = trim_str(stderr);
    if !err.as_str().is_empty() {
        return err;
    }
    let out = trim_str(stdout);
    if !out.as_str().is_empty() {
        return out;
    }
    let mut v = chars_of("SaveSlot CLI exited with code ");
    match code {
        Some(c) => {
            let a = chars_of("Some(");
            push_all(&mut v, a.as_slice());
            let d = i32_text(c);
            push_all(&mut v, d.as_slice());
            let b = chars_of(")");
            push_all(&mut v, b.as_slice());
        },
        None => {
            let n = chars_of("None");
            push_all(&mut v, n.as_slice());
        },
    }
    string_from_chars(v.as_slice())
}

/// What a successful run's output gives: no output is an error (the error output, trimmed,
/// or a default); an output that is no answer is invalid JSON; a failed answer gives its
/// error; a successful one its data.
pub open spec fn cli_response_result<T>(stdout: Seq<char>, stderr: Seq<char>, envelope: Result<CliEnvelope<T>, Seq<char>>) -> Result<T, Seq<char>> {
    if trim(stdout).len() == 0 {
        Err(if trim(stderr).len() > 0 {
            trim(stderr)
        } else {
            "SaveSlot CLI produced no output."@
        })
    } else {
        match envelope {
            Err(e) => Err("Invalid SaveSlot CLI JSON: "@ + e),
            Ok(env) => if env.success {
                match env.data {
                    Some(d) => Ok(d),
                    None => Err("SaveSlot CLI succeeded but returned no data."@),
                }
            } else {
                Err(
                    match env.error {
                        Some(e) => e@,
                        None => "Unknown SaveSlot CLI error."@,
                    },
                )
            },
        }
    }
}

/// Reads a successful run's output: `envelope` is the output (trimmed) parsed as an
/// answer, or the parser's error.
pub fn parse_cli_response<T>(stdout: &str, stderr: &str, envelope: Result<CliEnvelope<T>, String>) -> (r: Result<T, String>)
    ensures
        match (r, cli_response_result(stdout@, stderr@, match envelope {
            Ok(e) => Ok(e),
            Err(e) => Err(e@),
        })) {
            (Ok(a), Ok(b)) => a == b,
            (Err(a), Err(b)) => a@ == b,
            _ => false,
        },
{
    let out = trim_str(stdout);
    if out.as_str().is_empty() {
        let err = trim_str(stderr);
        if err.as_str().is_empty() {
            return Err(owned("SaveSlot CLI produced no output."));
        }
        return Err(err);
    }
    match envelope {
        Err(e) => {
            let mut v = chars_of("Invalid SaveSlot CLI JSON: ");
            let ec = chars_of(e.as_str());
            push_all(&mut v, ec.as_slice());
            Err(string_from_chars(v.as_slice()))
        },
        Ok(env) => {
            if env.success {
                match env.data {
                    Some(d) => Ok(d),
                    None => Err(owned("SaveSlot CLI succeeded but returned no data.")),
                }
            } else {
                match env.error {
                    Some(e) => Err(e),
                    None => Err(owned("Unknown SaveSlot CLI error.")),
                }
            }
        },
    }
}

} // verus!

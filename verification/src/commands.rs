//! The decisions of the application's commands and of its automation: which games are
//! farmed, what the settings remember, how the game list is marked, and what runs at
//! start-up. The commands' plumbing (window, state locks, requests) is outside this crate.
use vstd::prelude::*;

use crate::cards::MAX_ENRICH_PER_SCAN;
use crate::credentials::LoginWindowResult;
use crate::idling::{running_views, IdleView, RunningIdleProcess};
use crate::ops::farm_limit_of;
use crate::session::SteamAccount;
use crate::settings::{AppSettings, SettingsView};
use crate::steam::{game_views, opt_text, GameView, SteamGame};
use crate::text::{chars_eq, chars_of, owned, trim, trim_str};

verus! {

/// A game picked in the interface.
pub struct GameInput {
    pub app_id: u32,
    pub name: String,
}

/// The games card farming starts from a pick: the first ones, up to the limit; none is an
/// error.
pub fn farm_selection(games: Vec<GameInput>, max_idle_games: u32) -> (r: Result<Vec<GameInput>, String>)
    ensures
        ({
            let n = if games@.len() < farm_limit_of(max_idle_games) {
                games@.len() as int
            } else {
                farm_limit_of(max_idle_games)
            };
            &&& n == 0 ==> (r matches Err(e) && e@ == "Select at least one game to farm."@)
            &&& n > 0 ==> (r matches Ok(v) && v@ == games@.take(n))
        }),
{
    let limit = crate::ops::farm_limit(max_idle_games);
    let mut selected = games;
    selected.truncate(limit);
    if selected.len() == 0 {
        return Err(owned("Select at least one game to farm."));
    }
    Ok(selected)
}

/// The ids of picked games, in order.
pub fn input_ids(games: &Vec<GameInput>) -> (r: Vec<u32>)
    ensures
        r@ == games@.map_values(|g: GameInput| g.app_id),
{
    let mut r: Vec<u32> = Vec::new();
    for i in 0..games.len()
        invariant
            r@ == games@.take(i as int).map_values(|g: GameInput| g.app_id),
    {
        r.push(games[i].app_id);
        assert(games@.take(i + 1).map_values(|g: GameInput| g.app_id) =~= games@.take(i as int).map_values(
            |g: GameInput| g.app_id,
        ).push(games@[i as int].app_id));
    }
    assert(games@.take(games.len() as int) =~= games@);
    r
}

/// The settings after idling `app_id` started: the game is remembered once.
pub open spec fn idle_remembered(s: SettingsView, app_id: u32) -> SettingsView {
    if s.idle_game_ids.contains(app_id) {
        s
    } else {
        SettingsView { idle_game_ids: s.idle_game_ids.push(app_id), ..s }
    }
}

/// Remembers a game that idles; true when the settings changed.
pub fn remember_idle_game(settings: &mut AppSettings, app_id: u32) -> (changed: bool)
    ensures
        final(settings)@ == idle_remembered(old(settings)@, app_id),
        changed == !old(settings)@.idle_game_ids.contains(app_id),
{
    for i in 0..settings.idle_game_ids.len()
        invariant
            forall|k: int| 0 <= k < i ==> settings.idle_game_ids@[k] != app_id,
    {
        if settings.idle_game_ids[i] == app_id {
            assert(settings.idle_game_ids@[i as int] == app_id);
            return false;
        }
    }
    settings.idle_game_ids.push(app_id);
    true
}

/// Whether a process of `source` idles `app_id`.
pub open spec fn runs_from(running: Seq<IdleView>, app_id: u32, source: Seq<char>) -> bool {
    exists|k: int| 0 <= k < running.len() && running[k].app_id == app_id && running[k].source == source
}

pub open spec fn with_running(g: GameView, running: Seq<IdleView>) -> GameView {
    GameView { is_idling: runs_from(running, g.app_id, "idle"@), is_farming: runs_from(running, g.app_id, "farm"@), ..g }
}

fn runs_from_exec(running: &Vec<RunningIdleProcess>, app_id: u32, source: &[char]) -> (b: bool)
    ensures
        b == runs_from(running_views(running@), app_id, source@),
{
    let ghost rv = running_views(running@);
    for k in 0..running.len()
        invariant
            rv == running_views(running@),
            forall|m: int| 0 <= m < k ==> !(rv[m].app_id == app_id && rv[m].source == source@),
    {
        let s = chars_of(running[k].source.as_str());
        if running[k].app_id == app_id && chars_eq(s.as_slice(), source) {
            assert(rv[k as int].app_id == app_id && rv[k as int].source == source@);
            return true;
        }
    }
    false
}

/// Marks each game that idles or farms.
pub fn mark_running(games: &mut Vec<SteamGame>, running: &Vec<RunningIdleProcess>)
    ensures
        final(games)@.len() == old(games)@.len(),
        forall|i: int| 0 <= i < old(games)@.len() ==> (#[trigger] final(games)@[i])@ == with_running(old(games)@[i]@, running_views(running@)),
{
    let ghost start = games@;
    let idle = chars_of("idle");
    let farm = chars_of("farm");
    let n = games.len();
    for i in 0..n
        invariant
            n == start.len(),
            games@.len() == n,
            idle@ == "idle"@,
            farm@ == "farm"@,
            forall|j: int| 0 <= j < i ==> (#[trigger] games@[j])@ == with_running(start[j]@, running_views(running@)),
            forall|j: int| i <= j < n ==> #[trigger] games@[j] == start[j],
    {
        let id = games[i].app_id;
        let is_idling = runs_from_exec(running, id, idle.as_slice());
        let is_farming = runs_from_exec(running, id, farm.as_slice());
        games[i].is_idling = is_idling;
        games[i].is_farming = is_farming;
    }
}

/// How many games one card scan may ask about: the request's count (20 when none), at most 20.
pub fn enrich_limit(max_count: Option<u32>) -> (r: usize)
    ensures
        r == match max_count {
            Some(c) => if c < 20 {
                c as int
            } else {
                20
            },
            None => 20,
        },
        r <= MAX_ENRICH_PER_SCAN,
{
    let c = match max_count {
        Some(c) => c,
        None => 20,
    };
    if c < 20 {
        c as usize
    } else {
        20
    }
}

/// The settings after the Steam client's account was detected: it becomes the active
/// account when none is set.
pub open spec fn detected_adopted(s: SettingsView, account: Option<SteamAccount>) -> SettingsView {
    match account {
        Some(a) => if s.steam_id.len() == 0 {
            SettingsView { steam_id: a.steam_id@, ..s }
        } else {
            s
        },
        None => s,
    }
}

/// Adopts the detected account when none is set; true when the settings changed.
pub fn adopt_detected_account(settings: &mut AppSettings, account: &Option<SteamAccount>) -> (changed: bool)
    ensures
        final(settings)@ == detected_adopted(old(settings)@, *account),
        changed == (account is Some && old(settings)@.steam_id.len() == 0),
{
    match account {
        Some(a) => {
            if settings.steam_id.as_str().is_empty() {
                settings.steam_id = a.steam_id.clone();
                true
            } else {
                false
            }
        },
        None => false,
    }
}

/// The games an inventory scan may look at: the cached library's ids and names; an empty
/// library is an error.
pub fn inventory_candidates(games: &Vec<SteamGame>) -> (r: Result<Vec<(u32, String)>, String>)
    ensures
        games@.len() == 0 ==> (r matches Err(e) && e@ == "Load your library first (Games → Refresh with Steam running)."@),
        games@.len() > 0 ==> (r matches Ok(v) && v@.len() == games@.len() && forall|i: int|
            0 <= i < v@.len() ==> (#[trigger] v@[i]).0 == games@[i].app_id && v@[i].1@ == games@[i].name@),
{
    if games.len() == 0 {
        return Err(owned("Load your library first (Games → Refresh with Steam running)."));
    }
    let mut v: Vec<(u32, String)> = Vec::new();
    for i in 0..games.len()
        invariant
            v@.len() == i,
            forall|j: int| 0 <= j < i ==> (#[trigger] v@[j]).0 == games@[j].app_id && v@[j].1@ == games@[j].name@,
    {
        v.push((games[i].app_id, games[i].name.clone()));
    }
    Ok(v)
}

/// The display name a session refresh stores: the checked session's name, else the Steam
/// client's persona when it has a visible one; trimmed, and an error when empty.
pub open spec fn refreshed_name(validated: Result<Seq<char>, Seq<char>>, active: Result<Option<SteamAccount>, String>) -> Result<Seq<char>, Seq<char>> {
    let user = match validated {
        Ok(u) => u,
        Err(_) => match active {
            Ok(Some(a)) => if trim(a.persona_name@).len() > 0 {
                a.persona_name@
            } else {
                Seq::empty()
            },
            _ => Seq::empty(),
        },
    };
    if trim(user).len() == 0 {
        Err("Could not resolve display name"@)
    } else {
        Ok(trim(user))
    }
}

/// The name to store after a session check (`validated`) and the Steam client's account.
pub fn refreshed_user(validated: Result<String, String>, active: Result<Option<SteamAccount>, String>) -> (r: Result<String, String>)
    ensures
        match (r, refreshed_name(match validated {
            Ok(u) => Ok(u@),
            Err(e) => Err(e@),
        }, active)) {
            (Ok(a), Ok(b)) => a@ == b,
            (Err(a), Err(b)) => a@ == b,
            _ => false,
        },
{
    let user = match validated {
        Ok(u) => u,
        Err(_) => match active {
            Ok(Some(a)) => {
                let t = trim_str(a.persona_name.as_str());
                if t.as_str().is_empty() {
                    String::new()
                } else {
                    a.persona_name
                }
            },
            _ => String::new(),
        },
    };
    let t = trim_str(user.as_str());
    if t.as_str().is_empty() {
        return Err(owned("Could not resolve display name"));
    }
    Ok(t)
}

/// The session cookies a finished login window gives, or why there are none.
pub fn login_credentials(result: LoginWindowResult) -> (r: Result<(String, String), String>)
    ensures
        !result.success ==> (r matches Err(e) && e@ == match result.message {
            Some(m) => m@,
            None => "Steam login failed"@,
        }),
        result.success && result.session_id is None ==> (r matches Err(e) && e@ == "Missing sessionid from Steam login"@),
        result.success && result.session_id is Some && result.steam_login_secure is None ==> (r matches Err(e) && e@
            == "Missing steamLoginSecure from Steam login"@),
        result.success && result.session_id is Some && result.steam_login_secure is Some ==> (r matches Ok(p) && p.0@
            == result.session_id->0@ && p.1@ == result.steam_login_secure->0@),
{
    if !result.success {
        return Err(match result.message {
            Some(m) => m,
            None => owned("Steam login failed"),
        });
    }
    let sid = match result.session_id {
        Some(s) => s,
        None => {
            return Err(owned("Missing sessionid from Steam login"));
        },
    };
    let sls = match result.steam_login_secure {
        Some(s) => s,
        None => {
            return Err(owned("Missing steamLoginSecure from Steam login"));
        },
    };
    Ok((sid, sls))
}

/// The giveaway points are only fetched with a session cookie.
pub fn points_precheck(cookie: &str) -> (r: Result<(), String>)
    ensures
        r is Ok <==> cookie@.len() > 0,
        r matches Err(e) ==> e@ == "Set your SteamGifts PHPSESSID in Settings."@,
{
    if cookie.is_empty() {
        return Err(owned("Set your SteamGifts PHPSESSID in Settings."));
    }
    Ok(())
}

/// The scheduler starts only with a task chain.
pub fn chain_precheck(tasks: &Vec<String>) -> (r: Result<(), String>)
    ensures
        r is Ok <==> tasks@.len() > 0,
        r matches Err(e) ==> e@ == "Add at least one task to the scheduler chain."@,
{
    if tasks.len() == 0 {
        return Err(owned("Add at least one task to the scheduler chain."));
    }
    Ok(())
}

/// The giveaway task needs a session cookie.
pub fn giveaway_task_precheck(cookie: &str) -> (r: Result<(), String>)
    ensures
        r is Ok <==> cookie@.len() > 0,
        r matches Err(e) ==> e@ == "SteamGifts PHPSESSID required."@,
{
    if cookie.is_empty() {
        return Err(owned("SteamGifts PHPSESSID required."));
    }
    Ok(())
}

/// Longest card farming task, in minutes.
pub const FARM_MAX_MINUTES: u64 = 120;

/// Length of the idling task, in minutes.
pub const IDLE_RUN_MINUTES: u64 = 30;

/// How long the giveaway task lets the bot run: the refresh delay in minutes (at least
/// one), in seconds.
pub fn giveaway_task_secs(refresh_delay_minutes: u32) -> (r: u64)
    ensures
        r == (if refresh_delay_minutes >= 1 {
            refresh_delay_minutes
        } else {
            1
        }) * 60,
{
    let m: u64 = if refresh_delay_minutes >= 1 {
        refresh_delay_minutes as u64
    } else {
        1
    };
    m * 60
}

/// What the card farming task does at a check: stop with an error when asked to stop, end
/// at the deadline or when no farming process is left, else wait.
pub enum FarmCheck {
    Stopped,
    Done,
    Wait,
}

pub fn farm_task_check(stop_requested: bool, deadline_passed: bool, farm_processes: usize) -> (r: FarmCheck)
    ensures
        stop_requested ==> r is Stopped,
        !stop_requested && (deadline_passed || farm_processes == 0) ==> r is Done,
        !stop_requested && !deadline_passed && farm_processes > 0 ==> r is Wait,
{
    if stop_requested {
        FarmCheck::Stopped
    } else if deadline_passed || farm_processes == 0 {
        FarmCheck::Done
    } else {
        FarmCheck::Wait
    }
}

/// What resumes when the application starts: card farming (when on and with games),
/// idling (when set to start with the application and with games), and the scheduler
/// (when on).
pub fn startup_plan(settings: &AppSettings) -> (r: (bool, bool, bool))
    ensures
        r.0 == (settings.card_farming_enabled && settings.farm_game_ids@.len() > 0),
        r.1 == (settings.auto_idle_on_start && settings.idle_game_ids@.len() > 0),
        r.2 == settings.scheduler_enabled,
{
    (
        settings.card_farming_enabled && settings.farm_game_ids.len() > 0,
        settings.auto_idle_on_start && settings.idle_game_ids.len() > 0,
        settings.scheduler_enabled,
    )
}

/// The argument that marks a start at login.
pub open spec fn startup_arg() -> Seq<char> {
    "--startup"@
}

/// Whether the application was started at login: one of its arguments is `--startup`.
pub fn is_startup_launch(args: &Vec<String>) -> (b: bool)
    ensures
        b == exists|i: int| 0 <= i < args@.len() && args@[i]@ == startup_arg(),
{
    let s = chars_of("--startup");
    for i in 0..args.len()
        invariant
            s@ == startup_arg(),
            forall|k: int| 0 <= k < i ==> args@[k]@ != startup_arg(),
    {
        let a = chars_of(args[i].as_str());
        if chars_eq(a.as_slice(), s.as_slice()) {
            assert(args@[i as int]@ == startup_arg());
            return true;
        }
    }
    false
}

/// Remembering a game twice is remembering it once: the idle list never holds a game
/// twice when it did not before.
pub proof fn law_idle_list_stays_distinct(s: SettingsView, app_id: u32)
    requires
        s.idle_game_ids.no_duplicates(),
    ensures
        idle_remembered(s, app_id).idle_game_ids.no_duplicates(),
        idle_remembered(s, app_id).idle_game_ids.contains(app_id),
        idle_remembered(idle_remembered(s, app_id), app_id) == idle_remembered(s, app_id),
{
    let ids = s.idle_game_ids;
    if !ids.contains(app_id) {
        let n = ids.push(app_id);
        assert(n[ids.len() as int] == app_id);
        assert forall|i: int, j: int| 0 <= i < n.len() && 0 <= j < n.len() && i != j implies n[i] != n[j] by {
            if i < ids.len() && j < ids.len() {
                assert(n[i] == ids[i] && n[j] == ids[j]);
            } else if i < ids.len() {
                assert(n[i] == ids[i]);
            } else {
                assert(n[j] == ids[j]);
            }
        }
    }
}

} // verus!

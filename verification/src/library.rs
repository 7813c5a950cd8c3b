//! The game library: the games the helper or the Web API reports, merged into one list.
use vstd::prelude::*;

use crate::ops::OwnedGame;
use crate::rate_limit::{
    is_block_status, report_rate_limited, spec_blocked_until, spec_cooldown_secs, RateLimiter,
    SteamEndpoint, STORE_COOLDOWN_SECS,
};
use crate::steam::{capsule_url_text, game_views, is_success_status, status_line, status_line_text, steam_capsule_url, GameView, SteamGame};
use crate::text::{chars_of, decimal, decimal_u64, owned, push_all, string_from_chars, trim, trim_str};

verus! {

/// A game as the helper's ownership file lists it.
pub open spec fn utility_game(g: OwnedGame) -> GameView {
    GameView {
        app_id: g.appid,
        name: g.name@,
        playtime_forever: 0,
        img_url: capsule_url_text(g.appid),
        has_cards: false,
        is_farming: false,
        is_idling: false,
    }
}

/// The library entries of the helper's ownership file, in its order.
pub fn games_from_utility(games: &Vec<OwnedGame>) -> (r: Vec<SteamGame>)
    ensures
        game_views(r@) == games@.map_values(|g: OwnedGame| utility_game(g)),
{
    let mut r: Vec<SteamGame> = Vec::new();
    for i in 0..games.len()
        invariant
            r@.len() == i,
            forall|k: int| 0 <= k < i ==> (#[trigger] r@[k])@ == utility_game(games@[k]),
    {
        let g = &games[i];
        r.push(SteamGame {
            app_id: g.appid,
            name: g.name.clone(),
            playtime_forever: 0,
            img_url: steam_capsule_url(g.appid),
            has_cards: false,
            is_farming: false,
            is_idling: false,
        });
    }
    assert(game_views(r@) =~= games@.map_values(|g: OwnedGame| utility_game(g)));
    r
}

/// A game as the Web API lists it.
pub struct ApiOwnedGame {
    pub appid: u32,
    pub name: Option<String>,
    pub playtime_forever: Option<u32>,
}

pub open spec fn api_game(g: ApiOwnedGame) -> GameView {
    GameView {
        app_id: g.appid,
        name: match g.name {
            Some(n) => n@,
            None => "App "@ + decimal(g.appid as nat),
        },
        playtime_forever: match g.playtime_forever {
            Some(p) => p,
            None => 0,
        },
        img_url: capsule_url_text(g.appid),
        has_cards: false,
        is_farming: false,
        is_idling: false,
    }
}

/// The library entries of a Web API answer, in its order.
pub fn games_from_api(games: &Vec<ApiOwnedGame>) -> (r: Vec<SteamGame>)
    ensures
        game_views(r@) == games@.map_values(|g: ApiOwnedGame| api_game(g)),
{
    let mut r: Vec<SteamGame> = Vec::new();
    for i in 0..games.len()
        invariant
            r@.len() == i,
            forall|k: int| 0 <= k < i ==> (#[trigger] r@[k])@ == api_game(games@[k]),
    {
        let g = &games[i];
        let name = match &g.name {
            Some(n) => n.clone(),
            None => {
                let mut v = chars_of("App ");
                let d = decimal_u64(g.appid as u64);
                push_all(&mut v, d.as_slice());
                string_from_chars(v.as_slice())
            },
        };
        r.push(SteamGame {
            app_id: g.appid,
            name,
            playtime_forever: match g.playtime_forever {
                Some(p) => p,
                None => 0,
            },
            img_url: steam_capsule_url(g.appid),
            has_cards: false,
            is_farming: false,
            is_idling: false,
        });
    }
    assert(game_views(r@) =~= games@.map_values(|g: ApiOwnedGame| api_game(g)));
    r
}

/// The play time the Web API reports for `app_id`: that of its first entry with that id.
pub open spec fn api_playtime(api: Seq<GameView>, app_id: u32) -> Option<u32>
    decreases api.len(),
{
    if api.len() == 0 {
        None
    } else if api[0].app_id == app_id {
        Some(api[0].playtime_forever)
    } else {
        api_playtime(api.drop_first(), app_id)
    }
}

pub open spec fn with_playtime(g: GameView, api: Seq<GameView>) -> GameView {
    match api_playtime(api, g.app_id) {
        Some(p) => GameView { playtime_forever: p, ..g },
        None => g,
    }
}

fn playtime_in(api: &Vec<SteamGame>, app_id: u32) -> (r: Option<u32>)
    ensures
        r == api_playtime(game_views(api@), app_id),
{
    let ghost av = game_views(api@);
    assert(av.skip(0) =~= av);
    for k in 0..api.len()
        invariant
            av == game_views(api@),
            api_playtime(av, app_id) == api_playtime(av.skip(k as int), app_id),
    {
        assert(av.skip(k as int).drop_first() =~= av.skip(k + 1));
        assert(av.skip(k as int)[0] == av[k as int]);
        if api[k].app_id == app_id {
            return Some(api[k].playtime_forever);
        }
    }
    assert(av.skip(api.len() as int) =~= Seq::<GameView>::empty());
    None
}

/// Takes each game's play time from the Web API's list when the game is on it.
pub fn merge_playtime(games: &mut Vec<SteamGame>, api_games: &Vec<SteamGame>)
    ensures
        final(games)@.len() == old(games)@.len(),
        forall|i: int| 0 <= i < old(games)@.len() ==> (#[trigger] final(games)@[i])@ == with_playtime(old(games)@[i]@, game_views(api_games@)),
{
    let ghost start = games@;
    let n = games.len();
    for i in 0..n
        invariant
            n == start.len(),
            games@.len() == n,
            forall|j: int| 0 <= j < i ==> (#[trigger] games@[j])@ == with_playtime(start[j]@, game_views(api_games@)),
            forall|j: int| i <= j < n ==> #[trigger] games@[j] == start[j],
    {
        let id = games[i].app_id;
        match playtime_in(api_games, id) {
            Some(p) => {
                games[i].playtime_forever = p;
            },
            None => {},
        }
    }
}

/// Why the library cannot be loaded when neither the helper nor the Web API gave it.
pub fn library_unavailable_error(steam_running: bool, utility_found: bool) -> (r: String)
    ensures
        !steam_running ==> r@ == "Steam is not running. Launch Steam and sign in."@,
        steam_running && !utility_found ==> r@ == "SteamSuiteUtility not found. Place it in libs/ or set a custom path."@,
        steam_running && utility_found ==> r@ == "Could not load your game library from Steam."@,
{
    if !steam_running {
        owned("Steam is not running. Launch Steam and sign in.")
    } else if !utility_found {
        owned("SteamSuiteUtility not found. Place it in libs/ or set a custom path.")
    } else {
        owned("Could not load your game library from Steam.")
    }
}

/// Asked for the library from the local cache before any was stored.
pub fn library_cache_missing() -> (r: String)
    ensures
        r@ == "Load your library first (Games → Refresh with Steam running)."@,
{
    owned("Load your library first (Games → Refresh with Steam running).")
}

/// URL of the Web API's owned games request.
pub fn owned_games_api_url(api_key: &str, steam_id: &str) -> (r: String)
    ensures
        r@ == "https://api.steampowered.com/IPlayerService/GetOwnedGames/v1/?key="@ + api_key@ + "&steamid="@
            + steam_id@ + "&include_appinfo=1&include_played_free_games=1&format=json"@,
{
    let mut v = chars_of("https://api.steampowered.com/IPlayerService/GetOwnedGames/v1/?key=");
    let k = chars_of(api_key);
    push_all(&mut v, k.as_slice());
    let s = chars_of("&steamid=");
    push_all(&mut v, s.as_slice());
    let i = chars_of(steam_id);
    push_all(&mut v, i.as_slice());
    let t = chars_of("&include_appinfo=1&include_played_free_games=1&format=json");
    push_all(&mut v, t.as_slice());
    string_from_chars(v.as_slice())
}

/// What the status of a Web API answer means.
pub open spec fn web_api_status_result(status: u16) -> Result<(), Seq<char>> {
    if is_block_status(status) {
        Err("Steam Web API HTTP "@ + decimal(status as nat) + " — requests paused to protect your IP."@)
    } else if !is_success_status(status) {
        Err("Steam API HTTP "@ + status_line_text(status))
    } else {
        Ok(())
    }
}

/// Handles the status of a Web API answer at Unix second `now`: a blocking status pauses
/// the Web API; it and any other status outside 200..=299 are refused.
pub fn web_api_status_check(limiter: &mut RateLimiter, status: u16, now: u64) -> (r: Result<(), String>)
    requires
        now <= u64::MAX - STORE_COOLDOWN_SECS,
    ensures
        is_block_status(status) ==> spec_blocked_until(SteamEndpoint::WebApi, final(limiter).persisted) == now
            + spec_cooldown_secs(SteamEndpoint::WebApi),
        !is_block_status(status) ==> *final(limiter) == *old(limiter),
        match (r, web_api_status_result(status)) {
            (Ok(()), Ok(())) => true,
            (Err(a), Err(b)) => a@ == b,
            _ => false,
        },
{
    if report_rate_limited(limiter, SteamEndpoint::WebApi, status, now) {
        let mut v = chars_of("Steam Web API HTTP ");
        let d = decimal_u64(status as u64);
        push_all(&mut v, d.as_slice());
        let t = chars_of(" — requests paused to protect your IP.");
        push_all(&mut v, t.as_slice());
        return Err(string_from_chars(v.as_slice()));
    }
    if status < 200 || status > 299 {
        let mut v = chars_of("Steam API HTTP ");
        let l = status_line(status);
        let lc = chars_of(l.as_str());
        push_all(&mut v, lc.as_slice());
        return Err(string_from_chars(v.as_slice()));
    }
    Ok(())
}

/// The helper's report after an ownership check, when its output parsed as one.
pub struct OwnershipReport {
    pub success: bool,
    pub error: Option<String>,
    pub suggestion: Option<String>,
}

/// What stops an ownership check: a failure report (its error, or a default, with the
/// suggestion in brackets), else a failed exit (the helper's error output, trimmed, or the
/// exit status).
pub open spec fn ownership_error(report: Option<OwnershipReport>, exit_ok: bool, stderr: Seq<char>, exit_text: Seq<char>) -> Option<Seq<char>> {
    match report {
        Some(r) => if r.success {
            None
        } else {
            let msg = match r.error {
                Some(e) => e@,
                None => "check_ownership failed"@,
            };
            Some(
                match r.suggestion {
                    Some(h) => msg + " ("@ + h@ + ")"@,
                    None => msg,
                },
            )
        },
        None => if exit_ok {
            None
        } else if trim(stderr).len() > 0 {
            Some(trim(stderr))
        } else {
            Some("check_ownership exited with "@ + exit_text)
        },
    }
}

/// Whether an ownership check failed, and why. `report` is the helper's output read as a
/// report, when it is one; `exit_text` is how its exit status is written.
pub fn ownership_check_error(report: Option<OwnershipReport>, exit_ok: bool, stderr: &str, exit_text: &str) -> (r:
    Option<String>)
    ensures
        crate::steam::opt_text(r) == ownership_error(report, exit_ok, stderr@, exit_text@),
{
    match report {
        Some(rep) => {
            if rep.success {
                None
            } else {
                let mut v = match rep.error {
                    Some(e) => chars_of(e.as_str()),
                    None => chars_of("check_ownership failed"),
                };
                match rep.suggestion {
                    Some(h) => {
                        let a = chars_of(" (");
                        push_all(&mut v, a.as_slice());
                        let hc = chars_of(h.as_str());
                        push_all(&mut v, hc.as_slice());
                        let b = chars_of(")");
                        push_all(&mut v, b.as_slice());
                    },
                    None => {},
                }
                Some(string_from_chars(v.as_slice()))
            }
        },
        None => {
            if exit_ok {
                None
            } else {
                let t = trim_str(stderr);
                if !t.as_str().is_empty() {
                    Some(t)
                } else {
                    let mut v = chars_of("check_ownership exited with ");
                    let e = chars_of(exit_text);
                    push_all(&mut v, e.as_slice());
                    Some(string_from_chars(v.as_slice()))
                }
            }
        },
    }
}

} // verus!

//! The Steam client's status, the game list's entries, answers of Steam's HTTP services,
//! and product key redemption.
use vstd::prelude::*;

use crate::rate_limit::{
    cooldown_message, cooldown_text, is_block_status, minutes_ceil, report_rate_limited,
    spec_blocked_until, spec_cooldown_secs, RateLimiter, SteamEndpoint, STORE_COOLDOWN_SECS,
};
use crate::session::SteamAccount;
use crate::text::{
    chars_of, decimal, decimal_u64, eq_ignore_ascii_case, eq_ignore_case_chars, owned, push_all,
    string_from_chars, trim, trim_str,
};

verus! {

/// What the application shows about the Steam client.
pub struct SteamClientStatus {
    pub steam_running: bool,
    pub steam_user: Option<String>,
    pub steam_id: Option<String>,
    pub utility_ready: bool,
    pub utility_path: Option<String>,
    pub error: Option<String>,
}

/// A game of the library.
pub struct SteamGame {
    pub app_id: u32,
    pub name: String,
    pub playtime_forever: u32,
    pub img_url: String,
    pub has_cards: bool,
    pub is_farming: bool,
    pub is_idling: bool,
}

/// Mathematical model of [`SteamGame`].
pub struct GameView {
    pub app_id: u32,
    pub name: Seq<char>,
    pub playtime_forever: u32,
    pub img_url: Seq<char>,
    pub has_cards: bool,
    pub is_farming: bool,
    pub is_idling: bool,
}

impl View for SteamGame {
    type V = GameView;

    open spec fn view(&self) -> GameView {
        GameView {
            app_id: self.app_id,
            name: self.name@,
            playtime_forever: self.playtime_forever,
            img_url: self.img_url@,
            has_cards: self.has_cards,
            is_farming: self.is_farming,
            is_idling: self.is_idling,
        }
    }
}

pub open spec fn game_views(v: Seq<SteamGame>) -> Seq<GameView> {
    v.map_values(|g: SteamGame| g@)
}

/// The outcome of redeeming a product key.
pub struct RedeemResult {
    pub success: bool,
    pub message: String,
}

/// Header image of a game on Steam's CDN.
pub open spec fn capsule_url_text(app_id: u32) -> Seq<char> {
    "https://cdn.cloudflare.steamstatic.com/steam/apps/"@ + decimal(app_id as nat) + "/header.jpg"@
}

/// URL of a game's header image.
pub fn steam_capsule_url(app_id: u32) -> (r: String)
    ensures
        r@ == capsule_url_text(app_id),
{
    let mut v = chars_of("https://cdn.cloudflare.steamstatic.com/steam/apps/");
    let d = decimal_u64(app_id as u64);
    push_all(&mut v, d.as_slice());
    let t = chars_of("/header.jpg");
    push_all(&mut v, t.as_slice());
    string_from_chars(v.as_slice())
}

/// Whether a process name is the Steam client's (any ASCII case).
pub fn is_steam_process_name(name: &str) -> (b: bool)
    ensures
        b == (eq_ignore_ascii_case(name@, "steam.exe"@) || eq_ignore_ascii_case(name@, "steam"@)),
{
    let n = chars_of(name);
    let a = chars_of("steam.exe");
    let b = chars_of("steam");
    eq_ignore_case_chars(n.as_slice(), a.as_slice()) || eq_ignore_case_chars(n.as_slice(), b.as_slice())
}

pub open spec fn opt_text(o: Option<String>) -> Option<Seq<char>> {
    match o {
        Some(s) => Some(s@),
        None => None,
    }
}

/// The client status from what was found: the helper's path (or why it is missing), the
/// signed-in account (or the error reading it), and whether Steam runs.
pub fn client_status(
    utility: Result<String, String>,
    account: Result<Option<SteamAccount>, String>,
    steam_running: bool,
) -> (r: SteamClientStatus)
    ensures
        r.steam_running == steam_running,
        r.utility_ready == (utility is Ok),
        opt_text(r.utility_path) == match utility {
            Ok(p) => Some(p@),
            Err(_) => None::<Seq<char>>,
        },
        opt_text(r.steam_user) == match account {
            Ok(Some(a)) => Some(a.persona_name@),
            _ => None::<Seq<char>>,
        },
        opt_text(r.steam_id) == match account {
            Ok(Some(a)) => Some(a.steam_id@),
            _ => None::<Seq<char>>,
        },
        opt_text(r.error) == if steam_running {
            None::<Seq<char>>
        } else {
            Some("Steam client is not running. Launch Steam and sign in."@)
        },
{
    let (steam_user, steam_id) = match account {
        Ok(Some(a)) => (Some(a.persona_name), Some(a.steam_id)),
        _ => (None, None),
    };
    let (utility_ready, utility_path) = match utility {
        Ok(p) => (true, Some(p)),
        Err(_) => (false, None),
    };
    SteamClientStatus {
        steam_running,
        steam_user,
        steam_id,
        utility_ready,
        utility_path,
        error: if steam_running {
            None
        } else {
            Some(owned("Steam client is not running. Launch Steam and sign in."))
        },
    }
}

/// The reason phrase that `http::StatusCode::canonical_reason` gives for `code` (none for
/// a code outside 100..=999, which is no status code).
pub uninterp spec fn canonical_reason(code: u16) -> Option<Seq<char>>;

/// `reqwest::StatusCode::from_u16` and `StatusCode::canonical_reason` of `http`: the
/// standard reason phrase of a status code. The contract names this result; the table of
/// phrases is not restated.
#[verifier::external_body]
fn status_reason(code: u16) -> (r: Option<String>)
    ensures
        opt_text(r) == canonical_reason(code),
{
    match reqwest::StatusCode::from_u16(code) {
        Ok(s) => s.canonical_reason().map(String::from),
        Err(_) => None,
    }
}

/// How a status code is written: the number, then its reason phrase.
pub open spec fn status_line_text(code: u16) -> Seq<char> {
    decimal(code as nat) + " "@ + match canonical_reason(code) {
        Some(r) => r,
        None => "<unknown status code>"@,
    }
}

/// A status code as `http::StatusCode` displays it, e.g. `404 Not Found`.
pub fn status_line(code: u16) -> (r: String)
    ensures
        r@ == status_line_text(code),
{
    let mut v = decimal_u64(code as u64);
    let sp = chars_of(" ");
    push_all(&mut v, sp.as_slice());
    let reason = match status_reason(code) {
        Some(r) => chars_of(r.as_str()),
        None => chars_of("<unknown status code>"),
    };
    push_all(&mut v, reason.as_slice());
    string_from_chars(v.as_slice())
}

/// A successful status: 200 to 299.
pub open spec fn is_success_status(code: u16) -> bool {
    200 <= code <= 299
}

/// The key to redeem (trimmed), or why the request is not made.
pub open spec fn redeem_request(
    session_id: Seq<char>,
    login_secure: Seq<char>,
    key: Seq<char>,
) -> Result<Seq<char>, Seq<char>> {
    if trim(key).len() == 0 {
        Err("Enter a product key."@)
    } else if session_id.len() == 0 || login_secure.len() == 0 {
        Err("Steam web session required. Sign in via Settings → Credentials."@)
    } else {
        Ok(trim(key))
    }
}

/// Checks a key and the web session before a redemption; gives the trimmed key.
pub fn redeem_precheck(session_id: &str, login_secure: &str, key: &str) -> (r: Result<String, String>)
    ensures
        match (r, redeem_request(session_id@, login_secure@, key@)) {
            (Ok(a), Ok(b)) => a@ == b,
            (Err(a), Err(b)) => a@ == b,
            _ => false,
        },
{
    let k = trim_str(key);
    if k.as_str().is_empty() {
        return Err(owned("Enter a product key."));
    }
    if session_id.is_empty() || login_secure.is_empty() {
        return Err(owned("Steam web session required. Sign in via Settings → Credentials."));
    }
    Ok(k)
}

/// The cookie of a Steam store request.
pub fn store_cookie(session_id: &str, login_secure: &str) -> (r: String)
    ensures
        r@ == "sessionid="@ + session_id@ + "; steamLoginSecure="@ + login_secure@,
{
    let mut v = chars_of("sessionid=");
    let a = chars_of(session_id);
    push_all(&mut v, a.as_slice());
    let b = chars_of("; steamLoginSecure=");
    push_all(&mut v, b.as_slice());
    let c = chars_of(login_secure);
    push_all(&mut v, c.as_slice());
    string_from_chars(v.as_slice())
}

/// The error of a redemption answer with status `status`, if any: a blocking status pauses
/// the store and is answered with the pause's message.
pub open spec fn redeem_status_error(status: u16, cooldown: Option<Seq<char>>) -> Option<Seq<char>> {
    if is_block_status(status) {
        Some(
            match cooldown {
                Some(m) => m,
                None => "Steam Store HTTP "@ + decimal(status as nat) + "."@,
            },
        )
    } else if !is_success_status(status) {
        Some("Steam HTTP "@ + status_line_text(status))
    } else {
        None
    }
}

/// Handles the status of a redemption answer: a blocking status (403, 429, 503) pauses the
/// store at Unix second `now` and is refused with the pause's message; another status
/// outside 200..=299 is refused too.
pub fn redeem_http_check(limiter: &mut RateLimiter, status: u16, now: u64) -> (r: Result<(), String>)
    requires
        now <= u64::MAX - STORE_COOLDOWN_SECS,
    ensures
        is_block_status(status) ==> spec_blocked_until(SteamEndpoint::Store, final(limiter).persisted)
            == now + spec_cooldown_secs(SteamEndpoint::Store),
        !is_block_status(status) ==> *final(limiter) == *old(limiter),
        match r {
            Ok(()) => redeem_status_error(status, None) is None,
            Err(e) => redeem_status_error(
                status,
                Some(cooldown_text(SteamEndpoint::Store, minutes_ceil(spec_cooldown_secs(SteamEndpoint::Store)))),
            ) == Some(e@),
        },
        r is Ok <==> is_success_status(status),
{
    let blocked = report_rate_limited(limiter, SteamEndpoint::Store, status, now);
    if blocked {
        let msg = cooldown_message(limiter, SteamEndpoint::Store, now);
        return match msg {
            Some(m) => Err(m),
            None => {
                let mut v = chars_of("Steam Store HTTP ");
                let d = decimal_u64(status as u64);
                push_all(&mut v, d.as_slice());
                let p = chars_of(".");
                push_all(&mut v, p.as_slice());
                Err(string_from_chars(v.as_slice()))
            },
        };
    }
    if status < 200 || status > 299 {
        let mut v = chars_of("Steam HTTP ");
        let l = status_line(status);
        let lc = chars_of(l.as_str());
        push_all(&mut v, lc.as_slice());
        return Err(string_from_chars(v.as_slice()));
    }
    Ok(())
}

/// What Steam's answer to a key registration means.
pub open spec fn redeem_outcome(success: Option<u8>, details: Option<u32>) -> (bool, Seq<char>) {
    let code: u8 = match success {
        Some(c) => c,
        None => 0,
    };
    if code == 1 {
        (true, "Key redeemed successfully."@)
    } else if code == 2 {
        (true, "You already own this product."@)
    } else if code == 9 {
        (false, "Invalid product key."@)
    } else if code == 13 {
        (false, "This key cannot be redeemed in your region."@)
    } else if code == 14 {
        (false, "Too many redemption attempts. Try again later."@)
    } else if code == 15 {
        (false, "Key already used by another account."@)
    } else {
        (
            false,
            "Redemption failed"@ + match details {
                Some(d) => " (code "@ + decimal(d as nat) + ")"@,
                None => Seq::<char>::empty(),
            } + "."@,
        )
    }
}

/// The result shown for Steam's answer to a key registration: its `success` code and
/// `purchase_result_details`.
pub fn redeem_result(success: Option<u8>, details: Option<u32>) -> (r: RedeemResult)
    ensures
        (r.success, r.message@) == redeem_outcome(success, details),
{
    let code: u8 = match success {
        Some(c) => c,
        None => 0,
    };
    if code == 1 {
        RedeemResult { success: true, message: owned("Key redeemed successfully.") }
    } else if code == 2 {
        RedeemResult { success: true, message: owned("You already own this product.") }
    } else if code == 9 {
        RedeemResult { success: false, message: owned("Invalid product key.") }
    } else if code == 13 {
        RedeemResult { success: false, message: owned("This key cannot be redeemed in your region.") }
    } else if code == 14 {
        RedeemResult { success: false, message: owned("Too many redemption attempts. Try again later.") }
    } else if code == 15 {
        RedeemResult { success: false, message: owned("Key already used by another account.") }
    } else {
        let mut v = chars_of("Redemption failed");
        match details {
            Some(d) => {
                let a = chars_of(" (code ");
                push_all(&mut v, a.as_slice());
                let n = decimal_u64(d as u64);
                push_all(&mut v, n.as_slice());
                let b = chars_of(")");
                push_all(&mut v, b.as_slice());
            },
            None => {},
        }
        let dot = chars_of(".");
        push_all(&mut v, dot.as_slice());
        RedeemResult { success: false, message: string_from_chars(v.as_slice()) }
    }
}

} // verus!

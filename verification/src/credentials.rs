//! The Steam web session: whether one is stored, the cookies sent with it, reading the
//! signed-in name off the community page, and the login window's decisions.
use vstd::prelude::*;

use crate::accounts::{clear_credentials as clear_account_credentials, credentials_cleared, credentials_updated, update_credentials};
use crate::session::SteamAccount;
use crate::settings::{AppSettings, SettingsView};
use crate::steam::opt_text;
use crate::text::{
    chars_eq, chars_of, has_prefix, owned, push_all, starts_with, string_from_chars, trim, trim_str,
};

verus! {

/// Whether a web session is stored, and under which name.
pub struct CredentialsStatus {
    pub connected: bool,
    pub user: Option<String>,
}

/// What the login window came to.
pub struct LoginWindowResult {
    pub success: bool,
    pub session_id: Option<String>,
    pub steam_login_secure: Option<String>,
    pub message: Option<String>,
}

/// A session is stored when both of its cookies are.
pub open spec fn has_session(s: SettingsView) -> bool {
    s.steam_session_id.len() > 0 && s.steam_login_secure.len() > 0
}

/// The name shown for a stored session: the stored one (trimmed) when set, else the
/// signed-in account's persona when it has a visible one.
pub open spec fn status_user(s: SettingsView, active: Result<Option<SteamAccount>, String>) -> Option<Seq<char>> {
    if !has_session(s) {
        None
    } else if trim(s.steam_credentials_user).len() > 0 {
        Some(trim(s.steam_credentials_user))
    } else {
        match active {
            Ok(Some(a)) => if trim(a.persona_name@).len() > 0 {
                Some(a.persona_name@)
            } else {
                None
            },
            _ => None,
        }
    }
}

/// The credentials status of `settings`; `active` is the Steam client's signed-in account
/// (or the error reading it).
pub fn status_from_settings(settings: &AppSettings, active: Result<Option<SteamAccount>, String>) -> (r:
    CredentialsStatus)
    ensures
        r.connected == has_session(settings@),
        opt_text(r.user) == status_user(settings@, active),
{
    let connected = !settings.steam_session_id.as_str().is_empty() && !settings.steam_login_secure.as_str().is_empty();
    let stored = trim_str(settings.steam_credentials_user.as_str());
    let user = if connected {
        if !stored.as_str().is_empty() {
            Some(stored)
        } else {
            match active {
                Ok(Some(a)) => {
                    let t = trim_str(a.persona_name.as_str());
                    if t.as_str().is_empty() {
                        None
                    } else {
                        Some(a.persona_name)
                    }
                },
                _ => None,
            }
        }
    } else {
        None
    };
    CredentialsStatus { connected, user }
}

/// The cookie header of community requests for `steam_id`: the session cookies, and the
/// parental and machine cookies when a machine token (trimmed) is stored.
pub open spec fn cookie_header_text(s: SettingsView, steam_id: Seq<char>) -> Option<Seq<char>> {
    if !has_session(s) {
        None
    } else {
        let base = "sessionid="@ + s.steam_session_id + "; steamLoginSecure="@ + s.steam_login_secure;
        let sma = trim(s.steam_machine_auth);
        if sma.len() == 0 {
            Some(base)
        } else {
            Some(base + "; steamparental="@ + sma + "; steamMachineAuth"@ + steam_id + "="@ + sma)
        }
    }
}

fn session_cookie_chars(session_id: &str, login_secure: &str, machine: Option<&[char]>, steam_id: &str) -> (r: Vec<char>)
    ensures
        r@ == "sessionid="@ + session_id@ + "; steamLoginSecure="@ + login_secure@ + match machine {
            Some(m) => "; steamparental="@ + m@ + "; steamMachineAuth"@ + steam_id@ + "="@ + m@,
            None => Seq::<char>::empty(),
        },
{
    let mut v = chars_of("sessionid=");
    let a = chars_of(session_id);
    push_all(&mut v, a.as_slice());
    let b = chars_of("; steamLoginSecure=");
    push_all(&mut v, b.as_slice());
    let c = chars_of(login_secure);
    push_all(&mut v, c.as_slice());
    match machine {
        Some(m) => {
            let d = chars_of("; steamparental=");
            push_all(&mut v, d.as_slice());
            push_all(&mut v, m);
            let e = chars_of("; steamMachineAuth");
            push_all(&mut v, e.as_slice());
            let f = chars_of(steam_id);
            push_all(&mut v, f.as_slice());
            let g = chars_of("=");
            push_all(&mut v, g.as_slice());
            push_all(&mut v, m);
        },
        None => {
            assert(v@ + Seq::<char>::empty() =~= v@);
        },
    }
    v
}

/// The cookie header of community requests for `steam_id`, when a session is stored.
pub fn build_cookie_header(settings: &AppSettings, steam_id: &str) -> (r: Option<String>)
    ensures
        opt_text(r) == cookie_header_text(settings@, steam_id@),
{
    if settings.steam_session_id.as_str().is_empty() || settings.steam_login_secure.as_str().is_empty() {
        return None;
    }
    let sma = trim_str(settings.steam_machine_auth.as_str());
    let m = chars_of(sma.as_str());
    let v = if m.len() == 0 {
        session_cookie_chars(settings.steam_session_id.as_str(), settings.steam_login_secure.as_str(), None, steam_id)
    } else {
        session_cookie_chars(
            settings.steam_session_id.as_str(),
            settings.steam_login_secure.as_str(),
            Some(m.as_slice()),
            steam_id,
        )
    };
    Some(string_from_chars(v.as_slice()))
}

/// The cookie of a session check: the machine token is sent when given and not empty.
pub fn session_cookie_value(session_id: &str, login_secure: &str, machine_auth: Option<&str>, steam_id: &str) -> (r:
    String)
    ensures
        r@ == "sessionid="@ + session_id@ + "; steamLoginSecure="@ + login_secure@ + match machine_auth {
            Some(m) => if m@.len() > 0 {
                "; steamparental="@ + m@ + "; steamMachineAuth"@ + steam_id@ + "="@ + m@
            } else {
                Seq::<char>::empty()
            },
            None => Seq::<char>::empty(),
        },
{
    let v = match machine_auth {
        Some(m) => {
            if m.is_empty() {
                session_cookie_chars(session_id, login_secure, None, steam_id)
            } else {
                let mc = chars_of(m);
                session_cookie_chars(session_id, login_secure, Some(mc.as_slice()), steam_id)
            }
        },
        None => session_cookie_chars(session_id, login_secure, None, steam_id),
    };
    string_from_chars(v.as_slice())
}

/// A session belongs to `steam_id` only when its login cookie starts with that id.
pub fn validate_precheck(login_secure: &str, steam_id: &str) -> (r: Result<(), String>)
    ensures
        r is Ok <==> has_prefix(login_secure@, steam_id@),
        r matches Err(e) ==> e@ == "Credentials do not match the detected Steam account."@,
{
    let a = chars_of(login_secure);
    let b = chars_of(steam_id);
    if !starts_with(a.as_slice(), b.as_slice()) {
        return Err(owned("Credentials do not match the detected Steam account."));
    }
    Ok(())
}

/// Whether the community page shows the signed-in account's (hidden) dropdown menu.
pub uninterp spec fn dropdown_shown(html: Seq<char>) -> bool;

/// What the persona link pattern captures as the name (its second group), at its first match.
pub uninterp spec fn persona_link_name(html: Seq<char>) -> Option<Seq<char>>;

/// What the account pulldown pattern captures as the name, at its first match.
pub uninterp spec fn pulldown_name(html: Seq<char>) -> Option<Seq<char>>;

/// `regex::Regex::new` and `Regex::is_match` of `regex` with the pattern of the signed-in
/// account's dropdown menu. The contract names the answer.
#[verifier::external_body]
fn match_dropdown(html: &str) -> (r: bool)
    ensures
        r == dropdown_shown(html@),
{
    let re = regex::Regex::new(r#"<div\s+class="popup_block_new"\s+id="account_dropdown"\s+style="display:\s*none;"#).unwrap();
    re.is_match(html)
}

/// `regex::Regex::new` and `Regex::captures` of `regex` with the persona link pattern:
/// the second group at the first match. The contract names it.
#[verifier::external_body]
fn capture_persona_link(html: &str) -> (r: Option<String>)
    ensures
        opt_text(r) == persona_link_name(html@),
{
    let re = regex::Regex::new(
        r#"<a\s+href="https://steamcommunity\.com/(id|profiles)/[^"]*"\s+data-miniprofile="\d+">([^<]+)\s*"#,
    ).unwrap();
    re.captures(html).map(|c| c[2].to_string())
}

/// `regex::Regex::new` and `Regex::captures` of `regex` with the account pulldown pattern:
/// the first group at the first match. The contract names it.
#[verifier::external_body]
fn capture_pulldown(html: &str) -> (r: Option<String>)
    ensures
        opt_text(r) == pulldown_name(html@),
{
    let re = regex::Regex::new(r#"id="account_pulldown"[^>]*>([^<]+)<"#).unwrap();
    re.captures(html).map(|c| c[1].to_string())
}

/// The signed-in name from what the two patterns captured: the persona link's name, else
/// the pulldown's, each trimmed and only when not empty.
pub open spec fn persona_choice(link: Option<Seq<char>>, pulldown: Option<Seq<char>>) -> Option<Seq<char>> {
    match link {
        Some(n) if trim(n).len() > 0 => Some(trim(n)),
        _ => match pulldown {
            Some(n) if trim(n).len() > 0 => Some(trim(n)),
            _ => None,
        },
    }
}

/// The signed-in name read off the community page (see [`persona_choice`]).
pub open spec fn persona_name_of(html: Seq<char>) -> Option<Seq<char>> {
    persona_choice(persona_link_name(html), pulldown_name(html))
}

/// The signed-in name from the persona link's and the pulldown's captured names.
pub fn persona_from_captures(link: Option<String>, pulldown: Option<String>) -> (r: Option<String>)
    ensures
        opt_text(r) == persona_choice(opt_text(link), opt_text(pulldown)),
{
    if let Some(n) = link {
        let t = trim_str(n.as_str());
        if !t.as_str().is_empty() {
            return Some(t);
        }
    }
    if let Some(n) = pulldown {
        let t = trim_str(n.as_str());
        if !t.as_str().is_empty() {
            return Some(t);
        }
    }
    None
}

/// The signed-in name on the community page `html`.
pub fn extract_persona_name(html: &str) -> (r: Option<String>)
    ensures
        opt_text(r) == persona_name_of(html@),
{
    persona_from_captures(capture_persona_link(html), capture_pulldown(html))
}

/// What a session check comes to, from the community page it loaded and the Steam
/// client's signed-in account.
pub open spec fn session_user_result(html: Seq<char>, active: Result<Option<SteamAccount>, String>) -> Result<
    Seq<char>,
    Seq<char>,
> {
    if !dropdown_shown(html) {
        Err("Not logged in."@)
    } else if persona_name_of(html) is Some {
        Ok(persona_name_of(html)->0)
    } else {
        match active {
            Ok(Some(a)) => if trim(a.persona_name@).len() > 0 {
                Ok(a.persona_name@)
            } else {
                Err("Logged in but could not read your Steam display name."@)
            },
            _ => Err("Logged in but could not read your Steam display name."@),
        }
    }
}

/// The signed-in name a session check finds on the community page `html`; `active` is the
/// Steam client's signed-in account (or the error reading it).
pub fn session_user(html: &str, active: Result<Option<SteamAccount>, String>) -> (r: Result<String, String>)
    ensures
        match (r, session_user_result(html@, active)) {
            (Ok(a), Ok(b)) => a@ == b,
            (Err(a), Err(b)) => a@ == b,
            _ => false,
        },
{
    if !match_dropdown(html) {
        return Err(owned("Not logged in."));
    }
    if let Some(name) = extract_persona_name(html) {
        return Ok(name);
    }
    if let Ok(Some(a)) = active {
        let t = trim_str(a.persona_name.as_str());
        if !t.as_str().is_empty() {
            return Ok(a.persona_name);
        }
    }
    Err(owned("Logged in but could not read your Steam display name."))
}

/// Stores validated credentials for `steam_id` under the name `user` (trimmed), and gives
/// the resulting status.
pub fn save_credentials(
    settings: &mut AppSettings,
    steam_id: &str,
    session_id: String,
    login_secure: String,
    machine_auth: Option<String>,
    user: &str,
) -> (r: CredentialsStatus)
    ensures
        final(settings)@ == credentials_updated(
            old(settings)@,
            steam_id@,
            session_id@,
            login_secure@,
            match machine_auth {
                Some(m) => m@,
                None => Seq::<char>::empty(),
            },
            trim(user@),
        ),
        r.connected,
        opt_text(r.user) == Some(trim(user@)),
{
    let m = match machine_auth {
        Some(m) => m,
        None => String::new(),
    };
    let name = trim_str(user);
    update_credentials(settings, steam_id, session_id, login_secure, m, name.clone());
    CredentialsStatus { connected: true, user: Some(name) }
}

/// The settings after the stored session was cleared: with no active account its four
/// fields are emptied, else the active account's profile loses its session.
pub open spec fn session_cleared(s: SettingsView) -> SettingsView {
    if s.steam_id.len() == 0 {
        SettingsView {
            steam_session_id: Seq::empty(),
            steam_login_secure: Seq::empty(),
            steam_machine_auth: Seq::empty(),
            steam_credentials_user: Seq::empty(),
            ..s
        }
    } else {
        credentials_cleared(s, s.steam_id)
    }
}

/// Clears the stored web session of the active account.
pub fn clear_credentials(settings: &mut AppSettings)
    ensures
        final(settings)@ == session_cleared(old(settings)@),
{
    if settings.steam_id.as_str().is_empty() {
        settings.steam_session_id = String::new();
        settings.steam_login_secure = String::new();
        settings.steam_machine_auth = String::new();
        settings.steam_credentials_user = String::new();
    } else {
        let id = settings.steam_id.clone();
        clear_account_credentials(settings, id.as_str());
    }
}

/// The last `sessionid` and the last `steamLoginSecure` cookie, when both are present.
pub open spec fn last_cookie(cookies: Seq<(Seq<char>, Seq<char>)>, name: Seq<char>) -> Option<Seq<char>>
    decreases cookies.len(),
{
    if cookies.len() == 0 {
        None
    } else if cookies.last().0 == name {
        Some(cookies.last().1)
    } else {
        last_cookie(cookies.drop_last(), name)
    }
}

pub open spec fn cookie_views(v: Seq<(String, String)>) -> Seq<(Seq<char>, Seq<char>)> {
    v.map_values(|c: (String, String)| (c.0@, c.1@))
}

/// The session cookies among the login window's cookies (name, value).
pub fn steam_cookies(cookies: &Vec<(String, String)>) -> (r: Option<(String, String)>)
    ensures
        match (last_cookie(cookie_views(cookies@), "sessionid"@), last_cookie(cookie_views(cookies@), "steamLoginSecure"@)) {
            (Some(a), Some(b)) => r matches Some(p) && p.0@ == a && p.1@ == b,
            _ => r is None,
        },
{
    let ghost cv = cookie_views(cookies@);
    let sid_name = chars_of("sessionid");
    let sls_name = chars_of("steamLoginSecure");
    let mut sid: Option<String> = None;
    let mut sls: Option<String> = None;
    for i in 0..cookies.len()
        invariant
            cv == cookie_views(cookies@),
            sid_name@ == "sessionid"@,
            sls_name@ == "steamLoginSecure"@,
            opt_text(sid) == last_cookie(cv.take(i as int), "sessionid"@),
            opt_text(sls) == last_cookie(cv.take(i as int), "steamLoginSecure"@),
    {
        assert(cv.take(i + 1).drop_last() =~= cv.take(i as int));
        let n = chars_of(cookies[i].0.as_str());
        if chars_eq(n.as_slice(), sid_name.as_slice()) {
            sid = Some(cookies[i].1.clone());
        }
        if chars_eq(n.as_slice(), sls_name.as_slice()) {
            sls = Some(cookies[i].1.clone());
        }
    }
    assert(cv.take(cookies.len() as int) =~= cv);
    match (sid, sls) {
        (Some(a), Some(b)) => Some((a, b)),
        _ => None,
    }
}

/// How long the login window waits for a sign-in: five minutes, in nanoseconds.
pub const LOGIN_TIMEOUT_NANOS: u64 = 300_000_000_000;

/// A successful sign-in.
pub fn login_found(session_id: String, login_secure: String) -> (r: LoginWindowResult)
    ensures
        r.success,
        opt_text(r.session_id) == Some(session_id@),
        opt_text(r.steam_login_secure) == Some(login_secure@),
        r.message is None,
{
    LoginWindowResult { success: true, session_id: Some(session_id), steam_login_secure: Some(login_secure), message: None }
}

fn login_failed(message: &str) -> (r: LoginWindowResult)
    ensures
        !r.success,
        r.session_id is None,
        r.steam_login_secure is None,
        opt_text(r.message) == Some(message@),
{
    LoginWindowResult { success: false, session_id: None, steam_login_secure: None, message: Some(owned(message)) }
}

/// What the login window does at one check: `None` to wait and check again, else its
/// result. It looks, in order, at a close request, the time since it was shown, whether its
/// page still exists, and the session cookies found.
pub fn login_poll(
    close_requested: bool,
    elapsed_nanos: u64,
    webview_present: bool,
    cookies: Option<(String, String)>,
) -> (r: Option<LoginWindowResult>)
    ensures
        close_requested ==> (r matches Some(x) && !x.success && opt_text(x.message) == Some("Login window closed"@)),
        !close_requested && elapsed_nanos > LOGIN_TIMEOUT_NANOS ==> (r matches Some(x) && !x.success
            && opt_text(x.message) == Some("Login timed out"@)),
        !close_requested && elapsed_nanos <= LOGIN_TIMEOUT_NANOS && !webview_present ==> (r matches Some(x)
            && !x.success && opt_text(x.message) == Some("Login window closed"@)),
        !close_requested && elapsed_nanos <= LOGIN_TIMEOUT_NANOS && webview_present ==> match cookies {
            Some((a, b)) => r matches Some(x) && x.success && opt_text(x.session_id) == Some(a@) && opt_text(
                x.steam_login_secure,
            ) == Some(b@) && x.message is None,
            None => r is None,
        },
        r matches Some(x) ==> (x.success || (x.session_id is None && x.steam_login_secure is None)),
{
    if close_requested {
        return Some(login_failed("Login window closed"));
    }
    if elapsed_nanos > LOGIN_TIMEOUT_NANOS {
        return Some(login_failed("Login timed out"));
    }
    if !webview_present {
        return Some(login_failed("Login window closed"));
    }
    match cookies {
        Some((a, b)) => Some(login_found(a, b)),
        None => None,
    }
}

/// Clearing the stored session leaves no session: the credentials status then reports
/// disconnected and no name, whatever the Steam client says (for an active account id
/// without surrounding white space).
pub proof fn law_cleared_session_disconnected(s: SettingsView, active: Result<Option<SteamAccount>, String>)
    requires
        trim(s.steam_id) == s.steam_id,
    ensures
        !has_session(session_cleared(s)),
        status_user(session_cleared(s), active) is None,
{
    if s.steam_id.len() > 0 {
        crate::accounts::law_clear_active_credentials(s);
    }
}

} // verus!

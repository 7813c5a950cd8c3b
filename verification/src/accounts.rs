//! Per-account profiles: which fields of the settings belong to the active Steam
//! account, and how they move between the settings and the stored profiles.
use vstd::prelude::*;

use crate::session::{account_known, account_views, has_account_id, AccountView, SteamAccount};
use crate::settings::{
    backfilled, copy_ids, AppSettings, ProfileMap, ProfileView, SettingsView, SteamAccountProfile,
};
use crate::text::{
    chars_eq, chars_of, is_ws, owned, push_all, string_from_chars, trim, trim_end, trim_start, trim_str,
};

verus! {

/// The fields of the settings that belong to the active account.
pub open spec fn profile_of(s: SettingsView) -> ProfileView {
    ProfileView {
        steam_session_id: s.steam_session_id,
        steam_login_secure: s.steam_login_secure,
        steam_machine_auth: s.steam_machine_auth,
        steam_credentials_user: s.steam_credentials_user,
        steam_api_key: s.steam_api_key,
        steam_country_code: s.steam_country_code,
        idle_game_ids: s.idle_game_ids,
        farm_game_ids: s.farm_game_ids,
        auto_idle_on_start: s.auto_idle_on_start,
        card_farming_enabled: s.card_farming_enabled,
        steamgifts_cookie: s.steamgifts_cookie,
        indiegala_cookie: s.indiegala_cookie,
    }
}

/// The country code that a profile gives the settings: `"eu"` when it has none.
pub open spec fn effective_country(cc: Seq<char>) -> Seq<char> {
    if cc.len() == 0 {
        "eu"@
    } else {
        cc
    }
}

/// The settings with the account fields taken from `p`.
pub open spec fn with_profile(s: SettingsView, p: ProfileView) -> SettingsView {
    SettingsView {
        steam_session_id: p.steam_session_id,
        steam_login_secure: p.steam_login_secure,
        steam_machine_auth: p.steam_machine_auth,
        steam_credentials_user: p.steam_credentials_user,
        steam_api_key: p.steam_api_key,
        steam_country_code: effective_country(p.steam_country_code),
        idle_game_ids: p.idle_game_ids,
        farm_game_ids: p.farm_game_ids,
        auto_idle_on_start: p.auto_idle_on_start,
        card_farming_enabled: p.card_farming_enabled,
        steamgifts_cookie: p.steamgifts_cookie,
        indiegala_cookie: p.indiegala_cookie,
        ..s
    }
}

/// The settings after the active account's fields were stored under its (trimmed) id.
pub open spec fn persisted(s: SettingsView) -> SettingsView {
    let id = trim(s.steam_id);
    if id.len() == 0 {
        s
    } else {
        SettingsView { account_profiles: s.account_profiles.insert(id, profile_of(s)), ..s }
    }
}

/// The profile stored under `id`, or the empty one.
pub open spec fn stored_or_empty(m: Map<Seq<char>, ProfileView>, id: Seq<char>) -> ProfileView {
    if m.dom().contains(id) {
        m[id]
    } else {
        ProfileView::empty()
    }
}

/// The settings after the active account's stored profile was loaded into them.
pub open spec fn applied(s: SettingsView) -> SettingsView {
    let id = trim(s.steam_id);
    if id.len() == 0 {
        s
    } else {
        with_profile(s, stored_or_empty(s.account_profiles, id))
    }
}

/// The settings after their first load created the active account's profile.
pub open spec fn migrated(s: SettingsView, client_active: Option<Seq<char>>) -> SettingsView {
    if s.account_profiles.len() != 0 {
        s
    } else {
        let s1 = if s.steam_id.len() == 0 && client_active is Some {
            SettingsView { steam_id: client_active->0, ..s }
        } else {
            s
        };
        if s1.steam_id.len() == 0 {
            s1
        } else {
            SettingsView {
                account_profiles: s1.account_profiles.insert(s1.steam_id, profile_of(s1)),
                ..s1
            }
        }
    }
}

/// The settings after switching the active account to `id` (already trimmed and known).
pub open spec fn switched_to(s: SettingsView, id: Seq<char>) -> SettingsView {
    let s1 = persisted(s);
    let s2 = SettingsView { steam_id: id, ..s1 };
    let s3 = if s2.account_profiles.dom().contains(id) {
        s2
    } else {
        SettingsView { account_profiles: s2.account_profiles.insert(id, ProfileView::empty()), ..s2 }
    };
    applied(s3)
}

/// A profile with new web-session credentials.
pub open spec fn with_credentials(
    p: ProfileView,
    session_id: Seq<char>,
    login_secure: Seq<char>,
    machine_auth: Seq<char>,
    user: Seq<char>,
) -> ProfileView {
    ProfileView {
        steam_session_id: session_id,
        steam_login_secure: login_secure,
        steam_machine_auth: machine_auth,
        steam_credentials_user: user,
        ..p
    }
}

/// The settings after storing new credentials for `id`.
pub open spec fn credentials_updated(
    s: SettingsView,
    id: Seq<char>,
    session_id: Seq<char>,
    login_secure: Seq<char>,
    machine_auth: Seq<char>,
    user: Seq<char>,
) -> SettingsView {
    let s1 = persisted(s);
    let p = with_credentials(
        stored_or_empty(s1.account_profiles, id),
        session_id,
        login_secure,
        machine_auth,
        user,
    );
    let s2 = SettingsView { account_profiles: s1.account_profiles.insert(id, p), ..s1 };
    if s2.steam_id == id {
        applied(s2)
    } else {
        s2
    }
}

/// The settings after the credentials stored for `id` were cleared.
pub open spec fn credentials_cleared(s: SettingsView, id: Seq<char>) -> SettingsView {
    let s1 = persisted(s);
    let s2 = if s1.account_profiles.dom().contains(id) {
        SettingsView {
            account_profiles: s1.account_profiles.insert(
                id,
                with_credentials(
                    s1.account_profiles[id],
                    Seq::empty(),
                    Seq::empty(),
                    Seq::empty(),
                    Seq::empty(),
                ),
            ),
            ..s1
        }
    } else {
        s1
    };
    if s2.steam_id == id {
        applied(s2)
    } else {
        s2
    }
}

/// File of the owned-games cache of an account, relative to the data directory.
pub open spec fn owned_games_file(steam_id: Seq<char>) -> Seq<char> {
    if steam_id.len() == 0 {
        "owned_games.json"@
    } else {
        "owned_games_"@ + steam_id + ".json"@
    }
}

/// File of the known-wins cache of an account, relative to the data directory.
pub open spec fn known_wins_file(steam_id: Seq<char>) -> Seq<char> {
    if steam_id.len() == 0 {
        "known_wins.json"@
    } else {
        "known_wins_"@ + steam_id + ".json"@
    }
}

fn account_file(steam_id: &str, plain: &str, prefix: &str) -> (r: String)
    ensures
        r@ == (if steam_id@.len() == 0 {
            plain@
        } else {
            prefix@ + steam_id@ + ".json"@
        }),
{
    if steam_id.is_empty() {
        return owned(plain);
    }
    let mut v = chars_of(prefix);
    let id = chars_of(steam_id);
    push_all(&mut v, id.as_slice());
    let ext = chars_of(".json");
    push_all(&mut v, ext.as_slice());
    string_from_chars(v.as_slice())
}

/// Path of the owned-games cache of an account, relative to the data directory.
pub fn owned_games_path(steam_id: &str) -> (r: String)
    ensures
        r@ == owned_games_file(steam_id@),
{
    account_file(steam_id, "owned_games.json", "owned_games_")
}

/// Path of the known-wins cache of an account, relative to the data directory.
pub fn known_wins_path(steam_id: &str) -> (r: String)
    ensures
        r@ == known_wins_file(steam_id@),
{
    account_file(steam_id, "known_wins.json", "known_wins_")
}

/// The account fields of the settings, as a profile.
pub fn profile_from_settings(settings: &AppSettings) -> (p: SteamAccountProfile)
    ensures
        p@ == profile_of(settings@),
{
    SteamAccountProfile {
        steam_session_id: settings.steam_session_id.clone(),
        steam_login_secure: settings.steam_login_secure.clone(),
        steam_machine_auth: settings.steam_machine_auth.clone(),
        steam_credentials_user: settings.steam_credentials_user.clone(),
        steam_api_key: settings.steam_api_key.clone(),
        steam_country_code: settings.steam_country_code.clone(),
        idle_game_ids: copy_ids(&settings.idle_game_ids),
        farm_game_ids: copy_ids(&settings.farm_game_ids),
        auto_idle_on_start: settings.auto_idle_on_start,
        card_farming_enabled: settings.card_farming_enabled,
        steamgifts_cookie: settings.steamgifts_cookie.clone(),
        indiegala_cookie: settings.indiegala_cookie.clone(),
    }
}

/// Loads a profile into the account fields of the settings.
pub fn apply_profile_to_settings(settings: &mut AppSettings, profile: &SteamAccountProfile)
    ensures
        final(settings)@ == with_profile(old(settings)@, profile@),
{
    settings.steam_session_id = profile.steam_session_id.clone();
    settings.steam_login_secure = profile.steam_login_secure.clone();
    settings.steam_machine_auth = profile.steam_machine_auth.clone();
    settings.steam_credentials_user = profile.steam_credentials_user.clone();
    settings.steam_api_key = profile.steam_api_key.clone();
    settings.steam_country_code = if profile.steam_country_code.as_str().is_empty() {
        owned("eu")
    } else {
        profile.steam_country_code.clone()
    };
    settings.idle_game_ids = copy_ids(&profile.idle_game_ids);
    settings.farm_game_ids = copy_ids(&profile.farm_game_ids);
    settings.auto_idle_on_start = profile.auto_idle_on_start;
    settings.card_farming_enabled = profile.card_farming_enabled;
    settings.steamgifts_cookie = profile.steamgifts_cookie.clone();
    settings.indiegala_cookie = profile.indiegala_cookie.clone();
}

/// Stores the active account's fields under its trimmed id (nothing when the id is blank).
pub fn persist_active_profile(settings: &mut AppSettings)
    ensures
        final(settings)@ == persisted(old(settings)@),
{
    let steam_id = trim_str(settings.steam_id.as_str());
    if steam_id.as_str().is_empty() {
        return;
    }
    let profile = profile_from_settings(settings);
    settings.account_profiles.insert(steam_id.as_str(), profile);
}

/// Loads the profile stored under the active account's trimmed id (an empty one when
/// nothing is stored; nothing happens when the id is blank).
pub fn apply_active_profile(settings: &mut AppSettings)
    ensures
        final(settings)@ == applied(old(settings)@),
{
    let steam_id = trim_str(settings.steam_id.as_str());
    if steam_id.as_str().is_empty() {
        return;
    }
    let profile = match settings.account_profiles.get(steam_id.as_str()) {
        Some(p) => p,
        None => SteamAccountProfile::default(),
    };
    apply_profile_to_settings(settings, &profile);
}

/// First load of settings without profiles: takes the Steam client's active account when
/// no id is set and stores the current fields as that account's profile. Returns the id
/// whose legacy cache files are to be moved, when a profile was created.
pub fn migrate_legacy(settings: &mut AppSettings, client_active_steam_id: Option<String>) -> (r:
    Option<String>)
    ensures
        final(settings)@ == migrated(
            old(settings)@,
            match client_active_steam_id {
                Some(id) => Some(id@),
                None => None,
            },
        ),
        r is Some <==> (old(settings)@.account_profiles.len() == 0
            && final(settings)@.steam_id.len() != 0),
        r matches Some(id) ==> id@ == final(settings)@.steam_id,
{
    if !settings.account_profiles.is_empty() {
        return None;
    }
    if settings.steam_id.as_str().is_empty() {
        if let Some(id) = client_active_steam_id {
            settings.steam_id = id;
        }
    }
    if settings.steam_id.as_str().is_empty() {
        return None;
    }
    let profile = profile_from_settings(settings);
    let id = settings.steam_id.clone();
    settings.account_profiles.insert(id.as_str(), profile);
    Some(id)
}

/// Gives every stored profile without an API key or country code the global one.
pub fn backfill_per_account_api(settings: &mut AppSettings)
    ensures
        final(settings)@ == (if old(settings)@.account_profiles.len() == 0 {
            old(settings)@
        } else {
            SettingsView {
                account_profiles: old(settings)@.account_profiles.map_values(
                    |p: ProfileView|
                        backfilled(p, old(settings)@.steam_api_key, old(settings)@.steam_country_code),
                ),
                ..old(settings)@
            }
        }),
{
    if settings.account_profiles.is_empty() {
        return;
    }
    let global_key = settings.steam_api_key.clone();
    let global_cc = settings.steam_country_code.clone();
    settings.account_profiles.backfill_defaults(&global_key, &global_cc);
}

pub open spec fn switch_result(
    s: SettingsView,
    steam_id: Seq<char>,
    accounts: Result<Seq<AccountView>, Seq<char>>,
) -> Result<SettingsView, Seq<char>> {
    let id = trim(steam_id);
    if id.len() == 0 {
        Err("Steam ID is required."@)
    } else {
        match accounts {
            Err(e) => Err(e),
            Ok(list) => if !has_account_id(list, id) {
                Err("Account not found in local Steam login list."@)
            } else {
                Ok(switched_to(s, id))
            },
        }
    }
}

/// Makes `steam_id` (trimmed) the active account: stores the current account's fields,
/// then loads the target's profile (creating an empty one). `accounts` is the local Steam
/// client's account list, or the error of reading it. On error the settings stay as they were.
pub fn switch_account(
    settings: &mut AppSettings,
    steam_id: &str,
    accounts: Result<Vec<SteamAccount>, String>,
) -> (r: Result<(), String>)
    ensures
        match switch_result(
            old(settings)@,
            steam_id@,
            match accounts {
                Ok(v) => Ok(account_views(v@)),
                Err(e) => Err(e@),
            },
        ) {
            Ok(s) => r is Ok && final(settings)@ == s,
            Err(e) => r matches Err(m) && m@ == e && final(settings)@ == old(settings)@,
        },
{
    let steam_id = trim_str(steam_id);
    if steam_id.as_str().is_empty() {
        return Err(owned("Steam ID is required."));
    }
    let accounts = match accounts {
        Ok(v) => v,
        Err(e) => return Err(e),
    };
    let id_chars = chars_of(steam_id.as_str());
    if !account_known(&accounts, id_chars.as_slice()) {
        return Err(owned("Account not found in local Steam login list."));
    }
    persist_active_profile(settings);
    settings.steam_id = steam_id.clone();
    if !settings.account_profiles.contains_key(steam_id.as_str()) {
        settings.account_profiles.insert(steam_id.as_str(), SteamAccountProfile::default());
    }
    apply_active_profile(settings);
    Ok(())
}

fn same_text(a: &String, b: &str) -> (r: bool)
    ensures
        r == (a@ == b@),
{
    let x = chars_of(a.as_str());
    let y = chars_of(b);
    chars_eq(x.as_slice(), y.as_slice())
}

/// Stores new web-session credentials in the profile of `steam_id` (created when missing),
/// after saving the active account's fields; reloads them when `steam_id` is the active one.
pub fn update_credentials(
    settings: &mut AppSettings,
    steam_id: &str,
    session_id: String,
    login_secure: String,
    machine_auth: String,
    credentials_user: String,
)
    ensures
        final(settings)@ == credentials_updated(
            old(settings)@,
            steam_id@,
            session_id@,
            login_secure@,
            machine_auth@,
            credentials_user@,
        ),
{
    persist_active_profile(settings);
    let mut profile = match settings.account_profiles.get(steam_id) {
        Some(p) => p,
        None => SteamAccountProfile::default(),
    };
    profile.steam_session_id = session_id;
    profile.steam_login_secure = login_secure;
    profile.steam_machine_auth = machine_auth;
    profile.steam_credentials_user = credentials_user;
    settings.account_profiles.insert(steam_id, profile);
    if same_text(&settings.steam_id, steam_id) {
        apply_active_profile(settings);
    }
}

/// Clears the web-session credentials stored for `steam_id`, after saving the active
/// account's fields; reloads them when `steam_id` is the active one.
pub fn clear_credentials(settings: &mut AppSettings, steam_id: &str)
    ensures
        final(settings)@ == credentials_cleared(old(settings)@, steam_id@),
{
    persist_active_profile(settings);
    if let Some(mut profile) = settings.account_profiles.get(steam_id) {
        profile.steam_session_id = String::new();
        profile.steam_login_secure = String::new();
        profile.steam_machine_auth = String::new();
        profile.steam_credentials_user = String::new();
        settings.account_profiles.insert(steam_id, profile);
    }
    if same_text(&settings.steam_id, steam_id) {
        apply_active_profile(settings);
    }
}

/// The settings after every stored profile without an API key or country code got the
/// global one.
pub open spec fn backfilled_settings(s: SettingsView) -> SettingsView {
    if s.account_profiles.len() == 0 {
        s
    } else {
        SettingsView {
            account_profiles: s.account_profiles.map_values(
                |p: ProfileView| backfilled(p, s.steam_api_key, s.steam_country_code),
            ),
            ..s
        }
    }
}

/// Settings as read from the file, made ready for use: the first load creates the active
/// account's profile, profiles get the global API key and country code they lack, and the
/// active account's profile is loaded. Returns the id whose legacy cache files are to be
/// moved, when a profile was created.
pub fn prepare_loaded_settings(settings: &mut AppSettings, client_active_steam_id: Option<String>) -> (r:
    Option<String>)
    ensures
        final(settings)@ == applied(
            backfilled_settings(
                migrated(
                    old(settings)@,
                    match client_active_steam_id {
                        Some(id) => Some(id@),
                        None => None,
                    },
                ),
            ),
        ),
{
    let moved = migrate_legacy(settings, client_active_steam_id);
    backfill_per_account_api(settings);
    apply_active_profile(settings);
    moved
}

/// Leaves the profiles as they are (an empty map stays an empty map).
pub fn ensure_account_profiles_map(settings: &mut AppSettings)
    ensures
        final(settings)@ == old(settings)@,
{
    if settings.account_profiles.is_empty() {
        settings.account_profiles = ProfileMap::new();
    }
}

} // verus!

verus! {

proof fn lemma_trim_start_no_lead(s: Seq<char>)
    ensures
        trim_start(s).len() > 0 ==> !is_ws(trim_start(s)[0]),
        trim_start(s).len() <= s.len(),
        trim_start(s) == s.subrange(s.len() - trim_start(s).len(), s.len() as int),
    decreases s.len(),
{
    if s.len() > 0 && is_ws(s[0]) {
        lemma_trim_start_no_lead(s.drop_first());
        let t = trim_start(s.drop_first());
        assert(s.drop_first().subrange(s.drop_first().len() - t.len(), s.drop_first().len() as int)
            == s.subrange(s.len() - t.len(), s.len() as int));
    } else {
        assert(s.subrange(0, s.len() as int) == s);
    }
}

proof fn lemma_trim_end_shape(s: Seq<char>)
    ensures
        trim_end(s).len() > 0 ==> !is_ws(trim_end(s).last()),
        trim_end(s).len() <= s.len(),
        trim_end(s) == s.subrange(0, trim_end(s).len() as int),
    decreases s.len(),
{
    if s.len() > 0 && is_ws(s.last()) {
        lemma_trim_end_shape(s.drop_last());
        let t = trim_end(s.drop_last());
        assert(s.drop_last().subrange(0, t.len() as int) == s.subrange(0, t.len() as int));
    } else {
        assert(s.subrange(0, s.len() as int) == s);
    }
}

proof fn lemma_trim_fixed(u: Seq<char>)
    requires
        u.len() > 0 ==> !is_ws(u[0]) && !is_ws(u.last()),
    ensures
        trim(u) == u,
{
}

/// `trim` gives text with no white space at either end, so trimming twice changes nothing.
pub proof fn lemma_trim_idempotent(s: Seq<char>)
    ensures
        trim(trim(s)) == trim(s),
{
    let a = trim_start(s);
    lemma_trim_start_no_lead(s);
    lemma_trim_end_shape(a);
    let t = trim_end(a);
    if t.len() > 0 {
        assert(t[0] == a[0]);
    }
    lemma_trim_fixed(t);
}

/// Applying the active profile right after storing it changes nothing but an empty country
/// code, which becomes `"eu"`.
pub proof fn law_apply_after_persist(s: SettingsView)
    requires
        trim(s.steam_id).len() > 0,
    ensures
        applied(persisted(s)) == (SettingsView {
            steam_country_code: effective_country(s.steam_country_code),
            ..persisted(s)
        }),
{
    let id = trim(s.steam_id);
    assert(persisted(s).account_profiles.dom().contains(id));
    assert(stored_or_empty(persisted(s).account_profiles, id) == profile_of(s));
}

/// Switching from the active account to another known account and back restores every
/// setting of the first account; only the stored profiles (and an empty country code,
/// which becomes `"eu"`) can differ.
pub proof fn law_switch_round_trip(s: SettingsView, other: Seq<char>, accounts: Seq<AccountView>)
    requires
        trim(s.steam_id).len() > 0,
        trim(other).len() > 0,
        has_account_id(accounts, trim(s.steam_id)),
        has_account_id(accounts, trim(other)),
    ensures
        switch_result(s, other, Ok(accounts)) is Ok,
        ({
            let s1 = switch_result(s, other, Ok(accounts))->Ok_0;
            let back = switch_result(s1, s.steam_id, Ok(accounts));
            &&& back is Ok
            &&& back->Ok_0 == (SettingsView {
                steam_id: trim(s.steam_id),
                steam_country_code: effective_country(s.steam_country_code),
                account_profiles: back->Ok_0.account_profiles,
                ..s
            })
        }),
{
    let a = trim(s.steam_id);
    let b = trim(other);
    lemma_trim_idempotent(s.steam_id);
    lemma_trim_idempotent(other);
    let s1 = switched_to(s, b);
    assert(s1.steam_id == b);
    assert(s1.account_profiles.dom().contains(a));
    assert(s1.account_profiles[a] == profile_of(s)) by {
        if a != b {
        } else {
        }
    }
    let back = switched_to(s1, a);
    let p1 = persisted(s1);
    if a != b {
        assert(p1.account_profiles[a] == profile_of(s));
    } else {
        assert(profile_of(s1) == ProfileView {
            steam_country_code: effective_country(s.steam_country_code),
            ..profile_of(s)
        });
    }
    assert(back == (SettingsView {
        steam_id: a,
        steam_country_code: effective_country(s.steam_country_code),
        account_profiles: back.account_profiles,
        ..s
    }));
}

/// New credentials stored for the active account (an id without surrounding white space)
/// become the active settings' credentials, and its stored profile holds them.
pub proof fn law_update_active_credentials(
    s: SettingsView,
    session_id: Seq<char>,
    login_secure: Seq<char>,
    machine_auth: Seq<char>,
    user: Seq<char>,
)
    requires
        s.steam_id.len() > 0,
        trim(s.steam_id) == s.steam_id,
    ensures
        ({
            let r = credentials_updated(s, s.steam_id, session_id, login_secure, machine_auth, user);
            &&& r.steam_session_id == session_id
            &&& r.steam_login_secure == login_secure
            &&& r.steam_machine_auth == machine_auth
            &&& r.steam_credentials_user == user
            &&& r.steam_id == s.steam_id
            &&& r.account_profiles.dom().contains(s.steam_id)
            &&& r.account_profiles[s.steam_id].steam_session_id == session_id
            &&& r.account_profiles[s.steam_id].steam_login_secure == login_secure
        }),
{
    let id = s.steam_id;
    let s1 = persisted(s);
    assert(s1.account_profiles.dom().contains(id));
}

/// Clearing the credentials of the active account (an id without surrounding white space)
/// leaves the active settings and its stored profile without a web session.
pub proof fn law_clear_active_credentials(s: SettingsView)
    requires
        s.steam_id.len() > 0,
        trim(s.steam_id) == s.steam_id,
    ensures
        ({
            let r = credentials_cleared(s, s.steam_id);
            &&& r.steam_session_id.len() == 0
            &&& r.steam_login_secure.len() == 0
            &&& r.steam_machine_auth.len() == 0
            &&& r.steam_credentials_user.len() == 0
            &&& r.account_profiles.dom().contains(s.steam_id)
            &&& r.account_profiles[s.steam_id].steam_session_id.len() == 0
            &&& r.account_profiles[s.steam_id].steam_login_secure.len() == 0
        }),
{
    let id = s.steam_id;
    let s1 = persisted(s);
    assert(s1.account_profiles.dom().contains(id));
}

} // verus!

use steam_suite::accounts::{
    clear_credentials, known_wins_path, owned_games_path, prepare_loaded_settings, switch_account, update_credentials,
};
use steam_suite::curl::parse_curl_output;
use steam_suite::curl::curl_args;
use steam_suite::rate_limit::{
    acquire_step, cooldown_message, rate_limit_status, report_rate_limited, reset_cooldowns, AcquireStep,
    PersistedCooldowns, RateLimiter, SteamEndpoint,
};
use steam_suite::scheduler::{scheduler_task, SchedulerState, SchedulerTask};
use steam_suite::session::{
    build_account_context, get_client_active_account, parse_login_users, resolve_steam_id, SteamAccount,
};
use steam_suite::settings::{settings_path, AppSettings};
use steam_suite::steam::{
    client_status, is_steam_process_name, redeem_http_check, redeem_precheck, redeem_result, status_line,
    steam_capsule_url, store_cookie,
};

const UA: &str = "Mozilla/5.0 (Windows NT 10.0; Win64; x64) AppleWebKit/537.36 (KHTML, like Gecko) Chrome/131.0.0.0 Safari/537.36";

const LOGIN_USERS: &str = "\"users\"\n{\n\t\"76561198000000001\"\n\t{\n\t\t\"AccountName\"\t\t\"alice\"\n\t\t\"PersonaName\"\t\t\"Alice\"\n\t\t\"MostRecent\"\t\t\"1\"\n\t\t\"Timestamp\"\t\t\"1700000000\"\n\t}\n\t\"76561198000000002\"\n\t{\n\t\t\"AccountName\"\t\t\"bob\"\n\t\t\"PersonaName\"\t\t\"\"\n\t\t\"MostRecent\"\t\t\"0\"\n\t\t\"Timestamp\"\t\t\"1700000500\"\n\t}\n\t\"76561198000000003\"\n\t{\n\t\t\"MostRecent\"\t\t\"0\"\n\t}\n}\n";

fn account(id: &str, name: &str, active: bool) -> SteamAccount {
    SteamAccount {
        steam_id: id.to_string(),
        persona_name: name.to_string(),
        account_name: name.to_lowercase(),
        most_recent: 0,
        is_active: active,
    }
}

#[test]
fn curl_arguments() {
    let args = curl_args("https://x.test/", "get", &[], None);
    let expected: Vec<String> = ["-sS", "-L", "--compressed", "-w", "__STATUS__%{http_code}", "-A", UA, "-X", "GET", "https://x.test/"]
        .iter()
        .map(|s| s.to_string())
        .collect();
    assert_eq!(args, expected);
}

#[test]
fn curl_arguments_with_form_body() {
    let headers = vec![("Cookie".to_string(), "PHPSESSID=a".to_string())];
    let args = curl_args("https://x.test/ajax", "post", &headers, Some("a=1"));
    assert_eq!(&args[8..], &["POST", "-H", "Cookie: PHPSESSID=a", "-H", "Content-Type: application/x-www-form-urlencoded", "--data-raw", "a=1", "https://x.test/ajax"]);
    let typed = vec![("content-TYPE".to_string(), "text/plain".to_string())];
    let args = curl_args("u", "POST", &typed, Some("b"));
    assert_eq!(&args[8..], &["POST", "-H", "content-TYPE: text/plain", "--data-raw", "b", "u"]);
}

#[test]
fn curl_output_reading() {
    let ok = parse_curl_output(true, "hello__STATUS__200", "").unwrap();
    assert_eq!((ok.status, ok.body.as_str()), (200, "hello"));
    let last = parse_curl_output(true, "a__STATUS__1__STATUS__ 404\n", "").unwrap();
    assert_eq!((last.status, last.body.as_str()), (404, "a__STATUS__1"));
    let plus = parse_curl_output(false, "b__STATUS__+301", "ignored").unwrap();
    assert_eq!((plus.status, plus.body.as_str()), (301, "b"));
    assert_eq!(parse_curl_output(false, "", "boom").err().unwrap(), "curl exited: boom");
    assert_eq!(parse_curl_output(true, "no marker", "").err().unwrap(), "curl response missing status marker");
    assert_eq!(
        parse_curl_output(true, "x__STATUS__abc", "").err().unwrap(),
        "invalid curl status: invalid digit found in string"
    );
    assert_eq!(
        parse_curl_output(true, "x__STATUS__", "").err().unwrap(),
        "invalid curl status: cannot parse integer from empty string"
    );
    assert_eq!(
        parse_curl_output(true, "x__STATUS__70000", "").err().unwrap(),
        "invalid curl status: number too large to fit in target type"
    );
}

#[test]
fn status_lines() {
    assert_eq!(status_line(404), "404 Not Found");
    assert_eq!(status_line(200), "200 OK");
    assert_eq!(status_line(599), "599 <unknown status code>");
    assert_eq!(status_line(42), "42 <unknown status code>");
}

#[test]
fn redeem_answers() {
    let ok = redeem_result(Some(1), None);
    assert!(ok.success);
    assert_eq!(ok.message, "Key redeemed successfully.");
    assert!(redeem_result(Some(2), None).success);
    assert_eq!(redeem_result(Some(9), None).message, "Invalid product key.");
    assert_eq!(redeem_result(Some(13), None).message, "This key cannot be redeemed in your region.");
    assert_eq!(redeem_result(Some(14), None).message, "Too many redemption attempts. Try again later.");
    assert_eq!(redeem_result(Some(15), None).message, "Key already used by another account.");
    let other = redeem_result(Some(42), Some(53));
    assert!(!other.success);
    assert_eq!(other.message, "Redemption failed (code 53).");
    assert_eq!(redeem_result(None, None).message, "Redemption failed.");
}

#[test]
fn redeem_request_checks() {
    assert_eq!(redeem_precheck("s", "l", "  ").unwrap_err(), "Enter a product key.");
    assert_eq!(
        redeem_precheck("", "l", "KEY").unwrap_err(),
        "Steam web session required. Sign in via Settings → Credentials."
    );
    assert_eq!(redeem_precheck("s", "l", " AAAA-BBBB ").unwrap(), "AAAA-BBBB");
    assert_eq!(store_cookie("s1", "l1"), "sessionid=s1; steamLoginSecure=l1");
}

#[test]
fn redeem_status_pauses_the_store() {
    let now = 1_000_000;
    let mut limiter = RateLimiter::new(0, PersistedCooldowns::none());
    assert!(redeem_http_check(&mut limiter, 200, now).is_ok());
    assert_eq!(redeem_http_check(&mut limiter, 500, now).unwrap_err(), "Steam HTTP 500 Internal Server Error");
    assert_eq!(limiter.persisted.store_blocked_until, 0);
    assert_eq!(
        redeem_http_check(&mut limiter, 429, now).unwrap_err(),
        "Steam Store is temporarily paused to protect your IP (60 min remaining). Card detection uses cached data only."
    );
    assert_eq!(limiter.persisted.store_blocked_until, now + 3600);
}

#[test]
fn rate_limiter_cooldowns() {
    let now = 5_000;
    let mut limiter = RateLimiter::new(0, PersistedCooldowns::none());
    assert!(cooldown_message(&limiter, SteamEndpoint::Store, now).is_none());
    assert!(!report_rate_limited(&mut limiter, SteamEndpoint::Store, 404, now));
    assert!(report_rate_limited(&mut limiter, SteamEndpoint::WebApi, 503, now));
    let status = rate_limit_status(&limiter, now + 61);
    assert!(status.web_api_paused && !status.store_paused);
    assert_eq!(status.web_api_minutes_remaining, 29);
    assert_eq!(
        cooldown_message(&limiter, SteamEndpoint::WebApi, now).unwrap(),
        "Steam Web API is temporarily paused to protect your IP (30 min remaining). Card detection uses cached data only."
    );
    match acquire_step(&mut limiter, SteamEndpoint::WebApi, now, 1) {
        AcquireStep::Denied(m) => assert_eq!(m, "Steam Web API requests paused for 30 more minutes to avoid IP blocks."),
        _ => panic!("expected a refusal"),
    }
    reset_cooldowns(&mut limiter);
    assert!(cooldown_message(&limiter, SteamEndpoint::WebApi, now).is_none());
}

#[test]
fn rate_limiter_spacing() {
    let mut limiter = RateLimiter::new(0, PersistedCooldowns::none());
    let sec: u64 = 1_000_000_000;
    assert!(matches!(acquire_step(&mut limiter, SteamEndpoint::Store, 10, sec), AcquireStep::Granted));
    match acquire_step(&mut limiter, SteamEndpoint::Store, 10, sec + sec / 2) {
        AcquireStep::Wait(n) => assert_eq!(n, 3 * sec / 2),
        _ => panic!("expected a wait"),
    }
    assert!(matches!(acquire_step(&mut limiter, SteamEndpoint::Store, 10, 3 * sec), AcquireStep::Granted));
    for k in 0..4u64 {
        assert!(matches!(acquire_step(&mut limiter, SteamEndpoint::Store, 10, (5 + 2 * k) * sec), AcquireStep::Granted));
    }
    // six requests in this minute: the seventh waits for the minute to end
    match acquire_step(&mut limiter, SteamEndpoint::Store, 10, 20 * sec) {
        AcquireStep::Wait(n) => assert_eq!(n, 60 * sec - 20 * sec),
        _ => panic!("expected a wait"),
    }
}

#[test]
fn scheduler_chain() {
    let tasks = vec!["card-farming".to_string(), "giveaways".to_string()];
    let mut s = SchedulerState::default();
    s.start(&tasks);
    assert!(s.status.running);
    assert_eq!(s.next_task().unwrap(), "card-farming");
    s.finish_task("card-farming", Err("boom".to_string()), &tasks);
    assert_eq!(s.status.last_error.as_deref(), Some("card-farming: boom"));
    assert_eq!(s.status.current_task.as_deref(), Some("giveaways"));
    s.advance(&tasks);
    assert!(!s.status.running);
    assert_eq!(s.status.completed_tasks, tasks);
    assert!(s.next_task().is_none());
    s.start(&tasks);
    s.fail("bad".to_string());
    assert!(!s.status.running);
    assert_eq!(s.status.last_error.as_deref(), Some("bad"));
}

#[test]
fn scheduler_task_names() {
    assert!(matches!(scheduler_task("card-farming"), Ok(SchedulerTask::CardFarming)));
    assert!(matches!(scheduler_task("auto-idler"), Ok(SchedulerTask::AutoIdler)));
    assert!(matches!(scheduler_task("giveaways"), Ok(SchedulerTask::Giveaways)));
    assert!(matches!(scheduler_task("redeem"), Ok(SchedulerTask::Redeem)));
    assert_eq!(scheduler_task("dance").err().unwrap(), "Unknown scheduler task: dance");
}

#[test]
fn login_users_file() {
    let accounts = parse_login_users(LOGIN_USERS);
    assert_eq!(accounts.len(), 2);
    assert_eq!(accounts[0].steam_id, "76561198000000001");
    assert_eq!(accounts[0].persona_name, "Alice");
    assert!(accounts[0].is_active);
    assert_eq!(accounts[0].most_recent, 1_700_000_000);
    assert_eq!(accounts[1].persona_name, "bob");
    assert_eq!(accounts[1].account_name, "bob");
    let active = get_client_active_account(&accounts).unwrap();
    assert_eq!(active.steam_id, "76561198000000001");
}

#[test]
fn account_context() {
    let accounts = vec![account("2", "Bob", false), account("1", "Alice", true)];
    let ctx = build_account_context("2", accounts);
    assert_eq!(ctx.selected_persona_name.as_deref(), Some("Bob"));
    assert_eq!(ctx.client_active_steam_id.as_deref(), Some("1"));
    assert_eq!(ctx.client_active_persona_name.as_deref(), Some("Alice"));
    assert!(ctx.client_mismatch);
    assert_eq!(ctx.accounts.len(), 2);
}

#[test]
fn steam_id_resolution() {
    assert_eq!(resolve_steam_id("  123 ", Err("x".to_string())).unwrap(), "123");
    assert_eq!(
        resolve_steam_id("", Ok(None)).unwrap_err(),
        "No Steam account found. Sign in to the Steam client."
    );
    assert_eq!(resolve_steam_id("", Err("vdf".to_string())).unwrap_err(), "vdf");
    assert_eq!(resolve_steam_id(" ", Ok(Some(account("9", "N", true)))).unwrap(), "9");
}

#[test]
fn settings_defaults() {
    let s = AppSettings::default();
    assert_eq!(s.steam_country_code, "eu");
    assert_eq!(s.max_idle_games, 32);
    assert_eq!(s.refresh_delay_minutes, 10);
    assert_eq!(s.max_pages, 5);
    assert_eq!(s.max_giveaway_end_hours, 3);
    assert!(s.notify_on_win && s.minimize_to_tray_on_close);
    assert_eq!(s.scheduler_tasks, vec!["card-farming", "auto-idler", "giveaways", "redeem"]);
    assert!(s.account_profiles.is_empty());
    assert_eq!(settings_path(), "settings.json");
    assert_eq!(owned_games_path(""), "owned_games.json");
    assert_eq!(owned_games_path("765"), "owned_games_765.json");
    assert_eq!(known_wins_path("765"), "known_wins_765.json");
}

#[test]
fn switching_accounts_keeps_each_profile() {
    let mut s = AppSettings::default();
    s.steam_id = "1".to_string();
    s.steam_api_key = "key-one".to_string();
    let accounts = vec![account("1", "A", true), account("2", "B", false)];
    switch_account(&mut s, " 2 ", Ok(accounts.iter().map(|a| a.duplicate()).collect())).unwrap();
    assert_eq!(s.steam_id, "2");
    assert_eq!(s.steam_api_key, "");
    s.steam_api_key = "key-two".to_string();
    switch_account(&mut s, "1", Ok(accounts.iter().map(|a| a.duplicate()).collect())).unwrap();
    assert_eq!(s.steam_api_key, "key-one");
    assert_eq!(switch_account(&mut s, "  ", Ok(Vec::new())).unwrap_err(), "Steam ID is required.");
    assert_eq!(
        switch_account(&mut s, "3", Ok(accounts.iter().map(|a| a.duplicate()).collect())).unwrap_err(),
        "Account not found in local Steam login list."
    );
    assert_eq!(s.steam_id, "1");
}

#[test]
fn credentials_of_the_active_account() {
    let mut s = AppSettings::default();
    s.steam_id = "1".to_string();
    update_credentials(&mut s, "1", "sid".to_string(), "1||tok".to_string(), "".to_string(), "Alice".to_string());
    assert_eq!(s.steam_session_id, "sid");
    assert_eq!(s.steam_credentials_user, "Alice");
    clear_credentials(&mut s, "1");
    assert_eq!(s.steam_session_id, "");
    assert_eq!(s.steam_login_secure, "");
    assert_eq!(s.account_profiles.get("1").unwrap().steam_session_id, "");
}

#[test]
fn first_load_creates_the_profile() {
    let mut s = AppSettings::default();
    s.steam_api_key = "k".to_string();
    let moved = prepare_loaded_settings(&mut s, Some("77".to_string()));
    assert_eq!(moved.as_deref(), Some("77"));
    assert_eq!(s.steam_id, "77");
    assert_eq!(s.account_profiles.len(), 1);
    assert_eq!(s.account_profiles.get("77").unwrap().steam_api_key, "k");
    assert_eq!(s.steam_api_key, "k");
    let again = prepare_loaded_settings(&mut s, Some("88".to_string()));
    assert!(again.is_none());
    assert_eq!(s.steam_id, "77");
}

#[test]
fn client_status_report() {
    let st = client_status(Err("missing".to_string()), Ok(Some(account("5", "Eve", true))), false);
    assert!(!st.steam_running && !st.utility_ready);
    assert_eq!(st.steam_user.as_deref(), Some("Eve"));
    assert_eq!(st.steam_id.as_deref(), Some("5"));
    assert_eq!(st.error.as_deref(), Some("Steam client is not running. Launch Steam and sign in."));
    let ok = client_status(Ok("C:/u.exe".to_string()), Err("x".to_string()), true);
    assert!(ok.utility_ready && ok.error.is_none() && ok.steam_user.is_none());
    assert_eq!(ok.utility_path.as_deref(), Some("C:/u.exe"));
    assert!(is_steam_process_name("Steam.EXE"));
    assert!(!is_steam_process_name("steamwebhelper.exe"));
    assert_eq!(steam_capsule_url(440), "https://cdn.cloudflare.steamstatic.com/steam/apps/440/header.jpg");
}

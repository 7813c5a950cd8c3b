use std::collections::HashMap;

use steam_suite::achievements::{
    achievement_data_args, achievement_file_missing, achievement_file_path, achievement_icon_url, achievement_run_error,
    cache_dir_for, lock_achievement, lock_all, toggle_achievement, unlock_achievement, unlock_all,
};
use steam_suite::cards::{
    appdetails_categories_url, apply_card_batch, apply_cached_trading_cards, card_batch_status, cards_to_fetch,
    count_uncached, enrich_early_exit, enrich_message, finish_enrich, has_card_category, is_stale, CachedEntry,
};
use steam_suite::commands::{
    adopt_detected_account, enrich_limit, farm_selection, farm_task_check, giveaway_task_secs, input_ids,
    inventory_candidates, is_startup_launch, login_credentials, mark_running, refreshed_user, remember_idle_game,
    startup_plan, FarmCheck, GameInput,
};
use steam_suite::credentials::{
    build_cookie_header, clear_credentials, extract_persona_name, login_poll, persona_from_captures, save_credentials, session_cookie_value,
    session_user, status_from_settings, steam_cookies, validate_precheck, LoginWindowResult, LOGIN_TIMEOUT_NANOS,
};
use steam_suite::idling::{
    check_spawned, cleanup_dead_processes, idle_command_args, idle_pid_for, is_utility_process_name, list_running,
    stop_all_by_source, stop_idle, ProcessInfo,
};
use steam_suite::inventory::{
    extract_app_context_json, fallback_summaries, index_cache_file, index_cache_fresh, inventory_count,
    inventory_icon_url, inventory_precheck, inventory_status_check, inventory_url, map_asset, read_inventory_page,
    summaries_from_contexts, ContextEntry, InventoryAsset, InventoryDescription, InventoryPage,
};
use steam_suite::library::{
    games_from_api, games_from_utility, library_unavailable_error, merge_playtime, ownership_check_error,
    web_api_status_check, ApiOwnedGame, OwnershipReport,
};
use steam_suite::native_libs::{
    choose_libs_dir, cli_ready, custom_helper_path, manifest_matches, manifest_token, resolve_bundled_file,
    resolve_utility_path, runtime_lib_names, utility_ready,
};
use steam_suite::ops::{
    farm_games, farm_limit, farm_precheck, farm_process_count, game_names_for_ids, idle_precheck, record_farm_started,
    stop_all_idle, stop_farm, OwnedGame,
};
use steam_suite::profile::{
    format_money, top_game_price,
    cache_is_usable, country_config, currency_code, find_game_detail, game_counts, is_partial, merge_price_map,
    online_failure, price_totals, profile_cache_valid, steaminfo_summary, top_games, GameDetails, OwnedGameEntry,
    PriceCents, StoreAppEntry, SummaryFields,
};
use steam_suite::rate_limit::{PersistedCooldowns, RateLimiter};
use steam_suite::saveslot::{backup, cli_failure, get_game_state, parse_cli_response, restore, CliEnvelope};
use steam_suite::session::SteamAccount;
use steam_suite::settings::AppSettings;
use steam_suite::steam::SteamGame;

fn game(app_id: u32, name: &str) -> SteamGame {
    SteamGame {
        app_id,
        name: name.to_string(),
        playtime_forever: 0,
        img_url: String::new(),
        has_cards: false,
        is_farming: false,
        is_idling: false,
    }
}

fn proc(app_id: u32, pid: u32, source: &str) -> ProcessInfo<u32> {
    ProcessInfo { child: pid * 10, app_id, pid, name: format!("App {app_id}"), source: source.to_string() }
}

#[test]
fn card_cache_marks_and_counts() {
    let now: u64 = 10_000_000;
    let mut cache: HashMap<u32, CachedEntry> = HashMap::new();
    cache.insert(10, CachedEntry { has_cards: true, updated_at: now - 100 });
    cache.insert(20, CachedEntry { has_cards: true, updated_at: now - 3_000_000 });
    let mut games = vec![game(10, "a"), game(20, "b"), game(30, "c")];
    apply_cached_trading_cards(&mut games, &cache);
    assert!(games[0].has_cards && games[1].has_cards && !games[2].has_cards);
    assert_eq!(count_uncached(&games, &cache, now), 2);
    assert!(is_stale(&CachedEntry { has_cards: false, updated_at: 0 }, 2_592_001));
    assert!(!is_stale(&CachedEntry { has_cards: false, updated_at: 5 }, 2));
}

#[test]
fn scans_ask_for_the_smallest_ids_once() {
    let cache: HashMap<u32, CachedEntry> = HashMap::new();
    let games = vec![game(30, "c"), game(10, "a"), game(30, "c2"), game(20, "b")];
    assert_eq!(cards_to_fetch(&games, &cache, 0, 2), vec![10, 20]);
    assert_eq!(cards_to_fetch(&games, &cache, 0, 100), vec![10, 20, 30]);
    assert!(cards_to_fetch(&games, &cache, 0, 0).is_empty());
    let many: Vec<SteamGame> = (0..30u32).map(|i| game(100 - i, "g")).collect();
    let picked = cards_to_fetch(&many, &cache, 0, 50);
    assert_eq!(picked.len(), 20);
    assert_eq!(picked[0], 71);
    assert_eq!(picked[19], 90);
}

#[test]
fn stored_answers_are_fresh() {
    let now = 500;
    let mut cache: HashMap<u32, CachedEntry> = HashMap::new();
    apply_card_batch(&mut cache, &vec![(7, true), (8, false)], now);
    let games = vec![game(7, "x"), game(8, "y")];
    assert_eq!(count_uncached(&games, &cache, now), 0);
    assert!(cards_to_fetch(&games, &cache, now, 20).is_empty());
    assert!(cache[&7].has_cards && !cache[&8].has_cards);
}

#[test]
fn card_categories_and_requests() {
    assert!(has_card_category(&Some(vec![Some(2), None, Some(29)])));
    assert!(!has_card_category(&Some(vec![Some(2)])));
    assert!(!has_card_category(&None));
    assert_eq!(
        appdetails_categories_url(&[440, 570]),
        "https://store.steampowered.com/api/appdetails?appids=440,570&filters=categories"
    );
    let mut limiter = RateLimiter::new(0, PersistedCooldowns::none());
    assert_eq!(card_batch_status(&mut limiter, 200, 100), Ok(true));
    assert_eq!(card_batch_status(&mut limiter, 404, 100), Ok(false));
    assert!(card_batch_status(&mut limiter, 403, 100).is_err());
    assert_eq!(limiter.persisted.store_blocked_until, 3700);
}

#[test]
fn scan_messages() {
    assert_eq!(enrich_message(0, 0, 0), "All games already cached.");
    assert_eq!(enrich_message(0, 4, 4), "No new card data fetched. Use Scan again later (rate-limited).");
    assert_eq!(
        enrich_message(3, 5, 2),
        "Scanned 3 game(s). 2 still uncached — run Scan again when ready (max 20 per scan)."
    );
    assert_eq!(enrich_message(3, 3, 0), "Scanned 3 game(s). Card cache is up to date.");
}

#[test]
fn scans_stop_early() {
    let cache: HashMap<u32, CachedEntry> = HashMap::new();
    let mut none: Vec<SteamGame> = Vec::new();
    let r = enrich_early_exit(&mut none, &cache, 0, None).unwrap();
    assert_eq!(r.message, "No games in library.");
    let mut games = vec![game(1, "a")];
    assert!(enrich_early_exit(&mut games, &cache, 0, None).is_none());
    let paused = enrich_early_exit(&mut games, &cache, 0, Some("paused".to_string())).unwrap();
    assert_eq!((paused.updated, paused.remaining_uncached, paused.message.as_str()), (0, 1, "paused"));
    let mut c2 = cache.clone();
    c2.insert(1, CachedEntry { has_cards: true, updated_at: 0 });
    let done = finish_enrich(&mut games, &c2, 0, 1, 1);
    assert!(games[0].has_cards);
    assert_eq!(done.message, "Scanned 1 game(s). Card cache is up to date.");
}

#[test]
fn idle_table() {
    let mut table = vec![proc(1, 11, "idle"), proc(2, 22, "farm"), proc(3, 33, "farm"), proc(1, 44, "farm")];
    assert_eq!(idle_pid_for(&table, 1).unwrap(), 11);
    assert_eq!(idle_pid_for(&table, 9).unwrap_err(), "No idle process for app 9");
    let listed = list_running(&mut table, &[false, false, false, false]);
    assert_eq!(listed.len(), 4);
    assert_eq!((listed[1].app_id, listed[1].pid, listed[1].source.as_str()), (2, 22, "farm"));
    assert_eq!(farm_process_count(&listed), 3);
    let pids = stop_all_by_source(&mut table, "farm");
    assert_eq!(pids, vec![22, 33, 44]);
    assert_eq!(table.len(), 1);
    assert_eq!(table[0].child, 110);
    assert_eq!(farm_process_count(&list_running(&mut table, &[false])), 0);
}

#[test]
fn idle_listing_drops_ended_processes() {
    let mut table = vec![proc(1, 11, "idle"), proc(2, 22, "farm"), proc(3, 33, "farm")];
    let listed = list_running(&mut table, &[false, true, false]);
    assert_eq!(listed.len(), 2);
    assert_eq!((listed[0].pid, listed[1].pid), (11, 33));
    assert_eq!(table.len(), 2);
    assert_eq!(table[1].pid, 33);
}

#[test]
fn idle_stop_and_cleanup() {
    let mut table = vec![proc(1, 11, "idle"), proc(2, 22, "idle"), proc(1, 33, "idle")];
    assert_eq!(stop_idle(&mut table, 9, Ok(())).unwrap_err(), "No idle process for app 9");
    assert_eq!(table.len(), 3);
    assert_eq!(stop_idle(&mut table, 1, Err("denied".to_string())).unwrap_err(), "denied");
    assert_eq!(table.len(), 3);
    assert!(stop_idle(&mut table, 1, Ok(())).is_ok());
    assert_eq!(table.len(), 1);
    assert_eq!(table[0].pid, 22);
    let mut t2 = vec![proc(1, 1, "idle"), proc(2, 2, "idle"), proc(3, 3, "farm")];
    cleanup_dead_processes(&mut t2, &[true, false, true]);
    assert_eq!(t2.len(), 1);
    assert_eq!(t2[0].pid, 2);
    assert_eq!(stop_all_idle(&mut t2), vec![2]);
    assert!(t2.is_empty());
}

#[test]
fn spawned_processes_are_checked() {
    let table = vec![proc(1, 11, "farm"), proc(2, 22, "farm")];
    assert!(check_spawned(&table, &[true, true], &[1, 2]).is_ok());
    assert_eq!(check_spawned(&table, &[true, false], &[1, 2]).unwrap_err(), "Failed to start idling for app 2");
    assert_eq!(check_spawned(&table, &[true, true], &[3]).unwrap_err(), "Failed to start idling for app 3");
    assert!(is_utility_process_name("SteamSuiteUtility.EXE"));
    assert!(!is_utility_process_name("steam.exe"));
    assert_eq!(idle_command_args(440, "Team Fortress"), vec!["idle", "440", "Team Fortress"]);
}

#[test]
fn farming_plans() {
    let owned = vec![OwnedGame { appid: 10, name: "Ten".to_string() }, OwnedGame { appid: 10, name: "Dup".to_string() }];
    let names = game_names_for_ids(&[10, 11], Some(&owned));
    assert_eq!(names, vec![(10, "Ten".to_string()), (11, "App 11".to_string())]);
    assert_eq!(game_names_for_ids(&[10], None), vec![(10, "App 10".to_string())]);
    assert_eq!(farm_limit(0), 1);
    assert_eq!(farm_limit(99), 32);
    assert_eq!(farm_limit(5), 5);
    assert_eq!(farm_games(&[1, 2, 3], 2, None).len(), 2);
    assert_eq!(farm_precheck(&[], true).unwrap_err(), "No games selected for card farming.");
    assert_eq!(farm_precheck(&[1], false).unwrap_err(), "Steam client is not running.");
    assert_eq!(idle_precheck(&[], false), Ok(false));
    assert_eq!(idle_precheck(&[1], true), Ok(true));
    let mut s = AppSettings::default();
    record_farm_started(&mut s, vec![1, 2]);
    assert!(s.card_farming_enabled);
    assert_eq!(s.farm_game_ids, vec![1, 2]);
    let mut table = vec![proc(1, 11, "farm"), proc(5, 55, "idle")];
    assert_eq!(stop_farm(&mut table, &mut s), vec![11]);
    assert!(!s.card_farming_enabled);
    assert_eq!(table.len(), 1);
}

#[test]
fn inventory_icons_and_urls() {
    assert_eq!(inventory_icon_url("  "), "");
    assert_eq!(inventory_icon_url(" https://x/y.png "), "https://x/y.png");
    assert_eq!(
        inventory_icon_url("abc"),
        "https://community.cloudflare.steamstatic.com/economy/image/abc/96fx96f"
    );
    assert_eq!(
        inventory_url("765", 753, 6, 500, Some("99")),
        "https://steamcommunity.com/inventory/765/753/6?l=english&count=500&start_assetid=99"
    );
    assert_eq!(inventory_precheck("").unwrap_err(), "No Steam account detected.");
    assert_eq!(index_cache_file("765"), "inventory_index_765.json");
    assert!(index_cache_fresh("765", 100, "765", 100 + 21_599));
    assert!(!index_cache_fresh("765", 100, "765", 100 + 21_600));
    assert!(!index_cache_fresh("1", 100, "765", 100));
    assert_eq!(inventory_count(true, Some(1), Some(7)), 7);
    assert_eq!(inventory_count(true, Some(0), Some(7)), 0);
    assert_eq!(inventory_count(false, Some(1), Some(7)), 0);
}

#[test]
fn inventory_statuses() {
    assert!(inventory_status_check(200, "Inventory").is_ok());
    assert_eq!(
        inventory_status_check(403, "Inventory").unwrap_err(),
        "Inventory blocked (HTTP 403). Set credentials in Settings or make inventory public."
    );
    assert_eq!(inventory_status_check(500, "Inventory page").unwrap_err(), "Inventory page HTTP 500 Internal Server Error");
}

fn desc(classid: &str, instanceid: &str, name: Option<&str>) -> InventoryDescription {
    InventoryDescription {
        classid: classid.to_string(),
        instanceid: instanceid.to_string(),
        name: name.map(|n| n.to_string()),
        marketable: Some(1),
        tradable: Some(0),
        icon_url: Some("ic".to_string()),
        market_hash_name: Some("hash".to_string()),
    }
}

#[test]
fn inventory_assets_and_pages() {
    let descs = vec![desc("c1", "5", Some("Wrong")), desc("c1", "0", None), desc("c2", "9", Some("Two"))];
    let a = InventoryAsset { assetid: "a1".to_string(), classid: "c1".to_string(), instanceid: Some("7".to_string()) };
    let item = map_asset(&a, &descs).unwrap();
    assert_eq!(item.id, "a1");
    assert_eq!(item.name, "Unknown");
    assert!(item.marketable && !item.tradable);
    assert_eq!(item.icon_url, "https://community.cloudflare.steamstatic.com/economy/image/ic/96fx96f");
    let missing = InventoryAsset { assetid: "a2".to_string(), classid: "c3".to_string(), instanceid: None };
    assert!(map_asset(&missing, &descs).is_none());
    let page = InventoryPage {
        success: Some(1),
        error: None,
        more_items: Some(1),
        last_assetid: Some("a2".to_string()),
        total_inventory_count: Some(2),
        assets: Some(vec![a, missing]),
        descriptions: Some(descs),
    };
    let (items, cursor) = read_inventory_page(&page).unwrap();
    assert_eq!(items.len(), 1);
    assert_eq!(cursor.as_deref(), Some("a2"));
    let private = InventoryPage {
        success: Some(0),
        error: None,
        more_items: None,
        last_assetid: None,
        total_inventory_count: None,
        assets: None,
        descriptions: None,
    };
    assert_eq!(read_inventory_page(&private).err().unwrap(), "Inventory is private or unavailable.");
}

#[test]
fn inventory_context_data() {
    let html = r#"<script>var g_rgAppContextData = {"440":{"appid":440,"rgContexts":{"2":{"id":"2"}}}};
var other = {};</script>"#;
    assert_eq!(
        extract_app_context_json(html).unwrap(),
        r#"{"440":{"appid":440,"rgContexts":{"2":{"id":"2"}}}}"#
    );
    assert!(extract_app_context_json("<p>nothing</p>").is_none());
    assert!(extract_app_context_json("var g_rgAppContextData = {\"a\":{").is_none());
}

#[test]
fn inventory_summaries_most_items_first() {
    let entries = vec![
        ContextEntry { appid: 440, name: "TF2".to_string(), context_id: "2".to_string(), asset_count: 5 },
        ContextEntry { appid: 753, name: "Steam".to_string(), context_id: "6".to_string(), asset_count: 9 },
        ContextEntry { appid: 570, name: "Dota".to_string(), context_id: "x".to_string(), asset_count: 5 },
        ContextEntry { appid: 730, name: "CS".to_string(), context_id: "2".to_string(), asset_count: 0 },
    ];
    let s = summaries_from_contexts(&entries).unwrap();
    assert_eq!(s.iter().map(|x| x.app_id).collect::<Vec<_>>(), vec![753, 440, 570]);
    assert_eq!(s[2].context_id, 2);
    assert_eq!(summaries_from_contexts(&Vec::new()).err().unwrap(), "No inventory found on this account.");
    let f = fallback_summaries(3, &vec![(753, "x".to_string(), 50), (440, "TF2".to_string(), 4), (570, "Dota".to_string(), 0)])
        .unwrap();
    assert_eq!(f.iter().map(|x| (x.app_id, x.context_id, x.item_count)).collect::<Vec<_>>(), vec![(440, 2, 4), (753, 6, 3)]);
    assert_eq!(
        fallback_summaries(0, &Vec::new()).err().unwrap(),
        "No inventory found. Make inventory public or add credentials in Settings."
    );
}

#[test]
fn library_lists() {
    let from_file = games_from_utility(&vec![OwnedGame { appid: 5, name: "Five".to_string() }]);
    assert_eq!(from_file[0].img_url, "https://cdn.cloudflare.steamstatic.com/steam/apps/5/header.jpg");
    let api = games_from_api(&vec![
        ApiOwnedGame { appid: 5, name: None, playtime_forever: Some(90) },
        ApiOwnedGame { appid: 6, name: Some("Six".to_string()), playtime_forever: None },
    ]);
    assert_eq!(api[0].name, "App 5");
    assert_eq!(api[1].playtime_forever, 0);
    let mut games = vec![game(5, "Five"), game(7, "Seven")];
    merge_playtime(&mut games, &api);
    assert_eq!(games[0].playtime_forever, 90);
    assert_eq!(games[1].playtime_forever, 0);
    assert_eq!(library_unavailable_error(false, true), "Steam is not running. Launch Steam and sign in.");
    assert_eq!(library_unavailable_error(true, false), "SteamSuiteUtility not found. Place it in libs/ or set a custom path.");
    let mut limiter = RateLimiter::new(0, PersistedCooldowns::none());
    assert_eq!(
        web_api_status_check(&mut limiter, 429, 10).unwrap_err(),
        "Steam Web API HTTP 429 — requests paused to protect your IP."
    );
    assert_eq!(limiter.persisted.web_api_blocked_until, 1810);
    assert_eq!(web_api_status_check(&mut limiter, 404, 10).unwrap_err(), "Steam API HTTP 404 Not Found");
}

#[test]
fn ownership_checks() {
    let failed = OwnershipReport { success: false, error: Some("no".to_string()), suggestion: Some("retry".to_string()) };
    assert_eq!(ownership_check_error(Some(failed), true, "", "").unwrap(), "no (retry)");
    let bare = OwnershipReport { success: false, error: None, suggestion: None };
    assert_eq!(ownership_check_error(Some(bare), true, "", "").unwrap(), "check_ownership failed");
    assert_eq!(ownership_check_error(None, false, "  ", "exit status: 2").unwrap(), "check_ownership exited with exit status: 2");
    assert_eq!(ownership_check_error(None, false, " err ", "x").unwrap(), "err");
    assert!(ownership_check_error(None, true, "err", "x").is_none());
}

#[test]
fn achievement_paths_and_icons() {
    assert_eq!(cache_dir_for("765"), vec!["cache", "765"]);
    assert_eq!(achievement_file_path("765", 440), vec!["cache", "765", "765", "achievement_data", "440.json"]);
    assert_eq!(achievement_icon_url(440, None), "");
    assert_eq!(achievement_icon_url(440, Some(" http://a/b ")), "http://a/b");
    assert_eq!(
        achievement_icon_url(440, Some("abc")),
        "https://cdn.steamstatic.com/steamcommunity/public/images/apps/440/abc.jpg"
    );
    assert_eq!(
        achievement_icon_url(440, Some("abc.png")),
        "https://cdn.steamstatic.com/steamcommunity/public/images/apps/440/abc.png"
    );
    assert_eq!(unlock_achievement(440, "ACH"), vec!["unlock_achievement", "440", "ACH"]);
    assert_eq!(lock_achievement(440, "ACH"), vec!["lock_achievement", "440", "ACH"]);
    assert_eq!(toggle_achievement(440, "ACH"), vec!["toggle_achievement", "440", "ACH"]);
    assert_eq!(unlock_all(440), vec!["unlock_all_achievements", "440"]);
    assert_eq!(lock_all(440), vec!["lock_all_achievements", "440"]);
    assert_eq!(achievement_data_args(440, "/c"), vec!["get_achievement_data", "440", "/c"]);
    assert_eq!(achievement_run_error(" {\"error\":1} ", true, "").unwrap(), "{\"error\":1}");
    assert_eq!(achievement_run_error("ok", false, " bad ").unwrap(), "bad");
    assert!(achievement_run_error("ok", false, " ").is_none());
    assert_eq!(achievement_file_missing("/a/b.json"), "Achievement data file was not created at /a/b.json.");
}

#[test]
fn native_helpers() {
    assert_eq!(runtime_lib_names()[0], "SteamSuiteUtility.exe");
    assert_eq!(custom_helper_path("  /x  ").as_deref(), Some("/x"));
    assert!(custom_helper_path(" ").is_none());
    assert_eq!(resolve_bundled_file("F.exe", " /x ", true, Err("e".to_string())).unwrap(), "/x");
    assert_eq!(resolve_bundled_file("F.exe", "/x", false, Ok(("b".to_string(), true))).unwrap_err(), "Native helper not found at /x");
    assert_eq!(resolve_bundled_file("F.exe", "", false, Ok(("b".to_string(), true))).unwrap(), "b");
    assert_eq!(
        resolve_utility_path("", false, Ok(("b".to_string(), false))).unwrap_err(),
        "SteamSuiteUtility.exe not found. Run scripts/build-release.ps1 to bundle native helpers."
    );
    assert!(!utility_ready("", false, Err("none".to_string())));
    assert!(cli_ready("", false, Ok(("c".to_string(), true))));
    assert_eq!(
        choose_libs_dir("a".to_string(), false, "b".to_string(), false).unwrap_err(),
        "Native libs not found. Build helpers into libs/ or run scripts/build-release.ps1."
    );
    assert_eq!(choose_libs_dir("a".to_string(), false, "b".to_string(), true).unwrap(), "b");
    assert_eq!(manifest_token("1.0", &vec![("a.dll".to_string(), 10), ("b.exe".to_string(), 2)]), "1.0|a.dll:10|b.exe:2");
    assert!(manifest_matches(" 1.0|a:1\n", "1.0|a:1"));
}

#[test]
fn save_slot_commands() {
    assert_eq!(get_game_state(440), vec!["game-state", "440"]);
    assert_eq!(backup(440, "main"), vec!["backup", "440", "main"]);
    assert_eq!(restore(440, "main", "s1"), vec!["restore", "440", "main", "s1"]);
    assert_eq!(cli_failure("", "", Some(Some("bad".to_string())), Some(1)), "bad");
    assert_eq!(cli_failure(" out ", " ", Some(None), Some(1)), "out");
    assert_eq!(cli_failure("", "", None, Some(-2)), "SaveSlot CLI exited with code Some(-2)");
    assert_eq!(cli_failure("", "", None, None), "SaveSlot CLI exited with code None");
    let ok: Result<u32, String> = parse_cli_response(" {} ", "", Ok(CliEnvelope { success: true, error: None, data: Some(5u32) }));
    assert_eq!(ok, Ok(5));
    let empty: Result<u32, String> = parse_cli_response("  ", "", Err("x".to_string()));
    assert_eq!(empty.unwrap_err(), "SaveSlot CLI produced no output.");
    let bad: Result<u32, String> = parse_cli_response("{", "", Err("EOF".to_string()));
    assert_eq!(bad.unwrap_err(), "Invalid SaveSlot CLI JSON: EOF");
    let no_data: Result<u32, String> = parse_cli_response("{}", "", Ok(CliEnvelope { success: true, error: None, data: None }));
    assert_eq!(no_data.unwrap_err(), "SaveSlot CLI succeeded but returned no data.");
    let failed: Result<u32, String> = parse_cli_response("{}", "", Ok(CliEnvelope { success: false, error: None, data: None }));
    assert_eq!(failed.unwrap_err(), "Unknown SaveSlot CLI error.");
}

#[test]
fn profile_regions_and_counts() {
    assert_eq!(country_config("UK"), ("GBP".to_string(), "uk".to_string()));
    assert_eq!(country_config("eu"), ("EUR".to_string(), "eu".to_string()));
    assert_eq!(country_config("xx"), ("USD".to_string(), "us".to_string()));
    assert_eq!(currency_code("Ca"), "CAD");
    let games = vec![
        OwnedGameEntry { appid: 1, name: None, playtime_forever: Some(30), playtime_2weeks: None },
        OwnedGameEntry { appid: 2, name: Some("Two".to_string()), playtime_forever: Some(0), playtime_2weeks: Some(3) },
        OwnedGameEntry { appid: 3, name: Some("Three".to_string()), playtime_forever: Some(90), playtime_2weeks: None },
    ];
    assert_eq!(game_counts(&games), (3, 2, 1, 120));
    let mut prices: HashMap<u32, PriceCents> = HashMap::new();
    merge_price_map(
        &mut prices,
        &vec![
            StoreAppEntry { id: "3".to_string(), success: true, overview: Some((1999, 999, "9,99€".to_string())) },
            StoreAppEntry { id: "1".to_string(), success: true, overview: Some((500, 0, "0,00€".to_string())) },
            StoreAppEntry { id: "x".to_string(), success: true, overview: Some((1, 1, "1".to_string())) },
            StoreAppEntry { id: "2".to_string(), success: false, overview: Some((1, 1, "1".to_string())) },
        ],
    );
    assert_eq!(prices.len(), 2);
    let top = top_games(&games, &prices);
    assert_eq!(top.iter().map(|t| t.app_id).collect::<Vec<_>>(), vec![3, 1, 2]);
    assert_eq!(top[0].current_price_formatted.as_deref(), Some("9,99€"));
    assert_eq!(top[1].current_price_formatted.as_deref(), Some("Free"));
    assert_eq!(top[1].name, "App 1");
    assert!(top[2].current_price_formatted.is_none());
    assert_eq!(top[2].recent_playtime_minutes, 3);
    let list = vec![
        PriceCents { initial: 100, final_price: 50, formatted: String::new() },
        PriceCents { initial: 300, final_price: 0, formatted: String::new() },
    ];
    assert_eq!(price_totals(&list), (400, 50));
    assert!(is_partial(1, 8));
    assert!(!is_partial(2, 8));
    assert!(!is_partial(0, 8));
}

#[test]
fn profile_cache_rules() {
    assert!(!cache_is_usable(101, "€0.00", "€0.00"));
    assert!(cache_is_usable(100, "€0.00", "€0.00"));
    assert!(cache_is_usable(500, "€12.50", "€0.00"));
    assert!(!cache_is_usable(500, "€10.00", "€0.00"));
    assert!(profile_cache_valid(3, "1", "eu", 100, "1", "eu", 100 + 86_399, true));
    assert!(!profile_cache_valid(2, "1", "eu", 100, "1", "eu", 100, true));
    assert!(!profile_cache_valid(3, "1", "uk", 100, "1", "eu", 100, true));
    assert!(!profile_cache_valid(3, "1", "eu", 100, "1", "eu", 100 + 86_400, true));
    assert_eq!(
        online_failure("timeout", " ").unwrap(),
        "Could not load profile stats: timeout. Add a Steam Web API key in Settings for fallback."
    );
    assert!(online_failure("timeout", "KEY").is_none());
}

#[test]
fn online_summary_fields() {
    let f = SummaryFields {
        nickname: None,
        persona_name: Some("Pers".to_string()),
        avatar_large: None,
        avatar_full: Some("full".to_string()),
        url: None,
        bans_vac: None,
        vac: Some(2),
        bans_game: Some(1),
        game: Some(9),
    };
    let (p, a, u, v, g) = steaminfo_summary(f, "765");
    assert_eq!((p.as_str(), a.as_str(), u.as_str(), v, g), ("Pers", "full", "https://steamcommunity.com/profiles/765", 2, 1));
    let details = vec![
        GameDetails { id: Some(1), name: Some("A".to_string()) },
        GameDetails { id: None, name: Some("B".to_string()) },
        GameDetails { id: Some(2), name: Some("B".to_string()) },
    ];
    assert_eq!(find_game_detail(&details, 2, "zzz"), Some(2));
    assert_eq!(find_game_detail(&details, 9, "B"), Some(1));
    assert_eq!(find_game_detail(&details, 9, "C"), None);
}

#[test]
fn credentials_cookies_and_status() {
    let mut s = AppSettings::default();
    assert!(build_cookie_header(&s, "765").is_none());
    s.steam_session_id = "sid".to_string();
    s.steam_login_secure = "765||t".to_string();
    assert_eq!(build_cookie_header(&s, "765").unwrap(), "sessionid=sid; steamLoginSecure=765||t");
    s.steam_machine_auth = " m ".to_string();
    assert_eq!(
        build_cookie_header(&s, "765").unwrap(),
        "sessionid=sid; steamLoginSecure=765||t; steamparental=m; steamMachineAuth765=m"
    );
    assert_eq!(session_cookie_value("a", "b", Some(""), "1"), "sessionid=a; steamLoginSecure=b");
    assert_eq!(validate_precheck("999||x", "765").unwrap_err(), "Credentials do not match the detected Steam account.");
    assert!(validate_precheck("765||x", "765").is_ok());
    let active = SteamAccount {
        steam_id: "765".to_string(),
        persona_name: "Client".to_string(),
        account_name: "c".to_string(),
        most_recent: 0,
        is_active: true,
    };
    let st = status_from_settings(&s, Ok(Some(active.duplicate())));
    assert!(st.connected);
    assert_eq!(st.user.as_deref(), Some("Client"));
    s.steam_credentials_user = " Stored ".to_string();
    assert_eq!(status_from_settings(&s, Ok(None)).user.as_deref(), Some("Stored"));
    s.steam_id = "765".to_string();
    let saved = save_credentials(&mut s, "765", "n".to_string(), "765||n".to_string(), None, "  Name ");
    assert_eq!(saved.user.as_deref(), Some("Name"));
    assert_eq!(s.steam_session_id, "n");
    clear_credentials(&mut s);
    let cleared = status_from_settings(&s, Ok(Some(active)));
    assert!(!cleared.connected);
    assert!(cleared.user.is_none());
}

#[test]
fn community_page_names() {
    let page = r#"<div class="popup_block_new" id="account_dropdown" style="display: none;"></div>
<a href="https://steamcommunity.com/id/someone/" data-miniprofile="123">  Gabe  </a>"#;
    assert_eq!(extract_persona_name(page).as_deref(), Some("Gabe"));
    assert_eq!(session_user(page, Ok(None)).unwrap(), "Gabe");
    let pulldown = r#"<div class="popup_block_new" id="account_dropdown" style="display:none;"></div><span id="account_pulldown" class="x"> Pull </span>"#;
    assert_eq!(session_user(pulldown, Ok(None)).unwrap(), "Pull");
    let bare = r#"<div class="popup_block_new"   id="account_dropdown" style="display: none;"></div>"#;
    assert_eq!(
        session_user(bare, Ok(None)).unwrap_err(),
        "Logged in but could not read your Steam display name."
    );
    assert_eq!(session_user("<html></html>", Ok(None)).unwrap_err(), "Not logged in.");
}

#[test]
fn login_window_steps() {
    let cookies = vec![
        ("sessionid".to_string(), "s1".to_string()),
        ("other".to_string(), "o".to_string()),
        ("steamLoginSecure".to_string(), "l1".to_string()),
        ("sessionid".to_string(), "s2".to_string()),
    ];
    assert_eq!(steam_cookies(&cookies), Some(("s2".to_string(), "l1".to_string())));
    assert!(steam_cookies(&vec![("sessionid".to_string(), "s".to_string())]).is_none());
    let closed = login_poll(true, 0, true, None).unwrap();
    assert!(!closed.success);
    assert_eq!(closed.message.as_deref(), Some("Login window closed"));
    let timed = login_poll(false, LOGIN_TIMEOUT_NANOS + 1, true, None).unwrap();
    assert_eq!(timed.message.as_deref(), Some("Login timed out"));
    assert!(login_poll(false, LOGIN_TIMEOUT_NANOS, true, None).is_none());
    let found = login_poll(false, 5, true, Some(("a".to_string(), "b".to_string()))).unwrap();
    assert!(found.success);
    assert_eq!(found.session_id.as_deref(), Some("a"));
    let gone = login_poll(false, 5, false, None).unwrap();
    assert_eq!(gone.message.as_deref(), Some("Login window closed"));
}

#[test]
fn command_decisions() {
    let picks: Vec<GameInput> = (1..=40).map(|i| GameInput { app_id: i, name: format!("G{i}") }).collect();
    let selected = farm_selection(picks, 99).unwrap();
    assert_eq!(selected.len(), 32);
    assert_eq!(input_ids(&selected)[31], 32);
    assert_eq!(farm_selection(Vec::new(), 5).err().unwrap(), "Select at least one game to farm.");
    let mut s = AppSettings::default();
    assert!(remember_idle_game(&mut s, 7));
    assert!(!remember_idle_game(&mut s, 7));
    assert_eq!(s.idle_game_ids, vec![7]);
    let mut games = vec![game(1, "a"), game(2, "b")];
    let running = list_running(&mut vec![proc(1, 10, "idle"), proc(2, 20, "farm")], &[false, false]);
    mark_running(&mut games, &running);
    assert!(games[0].is_idling && !games[0].is_farming);
    assert!(games[1].is_farming && !games[1].is_idling);
    assert_eq!(enrich_limit(None), 20);
    assert_eq!(enrich_limit(Some(5)), 5);
    assert_eq!(enrich_limit(Some(50)), 20);
    let acc = Some(SteamAccount {
        steam_id: "9".to_string(),
        persona_name: "N".to_string(),
        account_name: "n".to_string(),
        most_recent: 0,
        is_active: true,
    });
    assert!(adopt_detected_account(&mut s, &acc));
    assert_eq!(s.steam_id, "9");
    assert!(!adopt_detected_account(&mut s, &acc));
    assert_eq!(inventory_candidates(&Vec::new()).err().unwrap(), "Load your library first (Games → Refresh with Steam running).");
    assert_eq!(inventory_candidates(&vec![game(3, "c")]).unwrap(), vec![(3, "c".to_string())]);
    assert_eq!(refreshed_user(Ok(" Me ".to_string()), Ok(None)).unwrap(), "Me");
    assert_eq!(refreshed_user(Err("x".to_string()), Ok(None)).unwrap_err(), "Could not resolve display name");
    let r = LoginWindowResult { success: false, session_id: None, steam_login_secure: None, message: None };
    assert_eq!(login_credentials(r).unwrap_err(), "Steam login failed");
    let r = LoginWindowResult { success: true, session_id: Some("s".to_string()), steam_login_secure: None, message: None };
    assert_eq!(login_credentials(r).unwrap_err(), "Missing steamLoginSecure from Steam login");
    assert!(matches!(farm_task_check(true, false, 3), FarmCheck::Stopped));
    assert!(matches!(farm_task_check(false, false, 0), FarmCheck::Done));
    assert!(matches!(farm_task_check(false, false, 2), FarmCheck::Wait));
    assert_eq!(giveaway_task_secs(0), 60);
    s.scheduler_enabled = true;
    assert_eq!(startup_plan(&s), (false, false, true));
    assert!(is_startup_launch(&vec!["app".to_string(), "--startup".to_string()]));
    assert!(!is_startup_launch(&vec!["app".to_string()]));
}

#[test]
fn money_is_written_with_the_currency_sign_and_two_decimals() {
    assert_eq!(format_money(0, "USD"), "$0.00");
    assert_eq!(format_money(1005, "EUR"), "€10.05");
    assert_eq!(format_money(123456, "GBP"), "£1234.56");
    assert_eq!(format_money(99, "CAD"), "CA$0.99");
    assert_eq!(format_money(250, "AUD"), "A$2.50");
    assert_eq!(format_money(7, "NZD"), "NZ$0.07");
    assert_eq!(format_money(100, "XYZ"), "$1.00");
}

#[test]
fn top_game_price_prefers_the_formatted_price() {
    assert_eq!(top_game_price(Some("€19,99".to_string()), Some(1999)), "€19,99");
    assert_eq!(top_game_price(Some("  ".to_string()), Some(1999)), "$19.99");
    assert_eq!(top_game_price(None, Some(0)), "Free");
    assert_eq!(top_game_price(None, None), "Free");
}

#[test]
fn persona_name_from_captures() {
    assert_eq!(persona_from_captures(Some("  Gabe ".to_string()), Some("Other".to_string())), Some("Gabe".to_string()));
    assert_eq!(persona_from_captures(Some("   ".to_string()), Some(" Pull ".to_string())), Some("Pull".to_string()));
    assert_eq!(persona_from_captures(None, Some("  ".to_string())), None);
    assert_eq!(persona_from_captures(None, None), None);
}

#[test]
fn failed_login_carries_no_session() {
    for r in [login_poll(true, 0, true, Some(("s".to_string(), "l".to_string()))), login_poll(false, 0, false, None)] {
        let r = r.unwrap();
        assert!(!r.success);
        assert!(r.session_id.is_none() && r.steam_login_secure.is_none());
    }
}

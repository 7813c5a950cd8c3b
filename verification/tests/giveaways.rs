use steam_suite::bot::{
    bot_log_text, decide_entry, entry_delay, log_timestamp, next_page, points_after_entry, push_log,
    refresh_delay_secs, start_precondition, BotLog, EntryDecision, GiveawayBotStatus, GiveawayLogEntry,
};
use steam_suite::bot_run::{BotAction, BotEvent, BotMachine, BotSettings, BotStage};
use steam_suite::steamgifts::{
    giveaway_from_row, points_from_matches, won_from_matches, xsrf_from_matches,
    claim_payload, claim_response, claim_xsrf, code_from_href, digits_only, entry_payload, entry_response,
    giveaway_url, normalize_cookie, page_response, parse_points, parse_search_page_at, parse_won_page,
    search_page_url, within_end_window_at, GiveawayItem, SteamgiftsService, WonGiveaway,
};
use steam_suite::wins::{register_new_wins, should_check_wins, win_notification_body, win_notification_title, KnownWins};

fn item(is_entered: bool, cost: u32, ends_at: Option<i64>) -> GiveawayItem {
    GiveawayItem {
        name: "Portal".to_string(),
        code: "AbC12".to_string(),
        cost,
        image_url: String::new(),
        is_entered,
        ends_at,
        ends_label: String::new(),
    }
}

fn won(code: &str) -> WonGiveaway {
    WonGiveaway {
        name: format!("Game {code}"),
        code: code.to_string(),
        image_url: String::new(),
        source: "steamgifts".to_string(),
        url: format!("https://www.steamgifts.com/giveaway/{code}/"),
    }
}

#[test]
fn normalize_cookie_keeps_only_the_session() {
    assert_eq!(normalize_cookie("  abc123  "), "PHPSESSID=abc123");
    assert_eq!(normalize_cookie("foo=1; PHPSESSID=xyz ; bar=2"), "PHPSESSID=xyz");
    assert_eq!(normalize_cookie("PHPSESSID=  q1 "), "PHPSESSID=  q1");
    assert_eq!(normalize_cookie("a=1; b=2"), "PHPSESSID=a=1");
    assert_eq!(normalize_cookie(" tok ;b=2"), "PHPSESSID=tok");
    assert_eq!(normalize_cookie("   "), "");
}

#[test]
fn normalize_cookie_is_stable() {
    for raw in ["abc", "a=1; b=2", "foo=1; PHPSESSID=xyz ; bar=2", ";x", "   "] {
        let once = normalize_cookie(raw);
        assert_eq!(normalize_cookie(&once), once);
        assert!(!once.contains(';'));
    }
}

#[test]
fn service_needs_a_cookie() {
    let s = SteamgiftsService::new("abc");
    assert_eq!(s.cookie_header().as_str(), "PHPSESSID=abc");
    assert!(s.fetch_precondition().is_ok());
    let empty = SteamgiftsService::new("  ");
    assert_eq!(empty.fetch_precondition().unwrap_err(), "PHPSESSID cookie is required. Set it in Settings.");
}

#[test]
fn service_headers() {
    let s = SteamgiftsService::new("abc");
    let h = s.headers(true, true);
    assert_eq!(h.len(), 5);
    assert_eq!(h[0], ("Cookie".to_string(), "PHPSESSID=abc".to_string()));
    assert_eq!(h[3], ("Origin".to_string(), "https://www.steamgifts.com".to_string()));
    assert_eq!(h[4].1, "application/x-www-form-urlencoded");
    assert_eq!(s.headers(false, false).len(), 3);
}

#[test]
fn page_responses() {
    assert_eq!(
        page_response(403, "x".to_string()).unwrap_err(),
        "HTTP 403 Forbidden — invalid or expired PHPSESSID. Paste a fresh PHPSESSID from steamgifts.com cookies in Settings."
    );
    assert_eq!(page_response(500, "x".to_string()).unwrap_err(), "HTTP 500");
    assert_eq!(
        page_response(200, "<p>Just a moment...</p>".to_string()).unwrap_err(),
        "Cloudflare blocked the request. Paste a fresh PHPSESSID from your browser."
    );
    assert_eq!(page_response(200, "ok".to_string()).unwrap(), "ok");
}

#[test]
fn urls_and_payloads() {
    assert_eq!(search_page_url(3), "https://www.steamgifts.com/giveaways/search?page=3");
    assert_eq!(giveaway_url("AbC12"), "https://www.steamgifts.com/giveaway/AbC12/");
    assert_eq!(entry_payload("AbC12", "tok"), "xsrf_token=tok&do=entry_insert&code=AbC12");
    assert_eq!(claim_payload("AbC12", "tok"), "xsrf_token=tok&do=redeem&code=AbC12");
}

#[test]
fn entry_and_claim_answers() {
    assert!(entry_response(200).is_ok());
    assert_eq!(entry_response(403).unwrap_err(), "HTTP 403 — refresh your PHPSESSID cookie in Settings.");
    assert_eq!(entry_response(502).unwrap_err(), "HTTP 502");
    assert!(claim_response(200, "{\"type\":\"success\"}").is_ok());
    assert_eq!(claim_response(200, "nope").unwrap_err(), "Claim failed: nope");
    assert_eq!(claim_response(403, "").unwrap_err(), "HTTP 403 — refresh your PHPSESSID cookie.");
    let long = "x".repeat(130);
    assert_eq!(claim_response(200, &long).unwrap_err(), format!("Claim failed: {}", "x".repeat(120)));
}

#[test]
fn digits_and_codes() {
    assert_eq!(digits_only("1,234P"), 1234);
    assert_eq!(digits_only("abc"), 0);
    assert_eq!(digits_only("99999999999"), 0);
    assert_eq!(code_from_href("/giveaway/AbC12/some-game/"), "AbC12");
    assert_eq!(code_from_href("nothing"), "");
}

#[test]
fn points_from_the_navigation_bar() {
    let html = r#"<html><body><a class="nav__points">1,234</a><span class="nav__user-name"> Alice </span></body></html>"#;
    let p = parse_points(html);
    assert_eq!(p.points, 1234);
    assert_eq!(p.username, "Alice");
    let none = parse_points("<html><body></body></html>");
    assert_eq!(none.points, 0);
    assert_eq!(none.username, "");
}

#[test]
fn search_page_rows() {
    let html = r#"<html><body>
<input type="hidden" name="xsrf_token" value="XYZ">
<a class="nav__points">150</a>
<div class="giveaway__row-inner-wrap is-faded">
  <a class="giveaway__heading__name" href="/giveaway/AbC12/portal/">Portal</a>
  <span class="giveaway__heading__thin">(1 Copies)</span>
  <span class="giveaway__heading__thin">(15P)</span>
  <a class="giveaway__icon" href="https://store.steampowered.com/app/400/"></a>
  <span data-timestamp="1800000000">old</span>
  <span data-timestamp="2000000000">2 hours</span>
  <span data-timestamp="1950000000">soon</span>
</div>
<div class="giveaway__row-inner-wrap">
  <span class="giveaway__heading__thin">(5P)</span>
</div>
</body></html>"#;
    let (points, xsrf, rows) = parse_search_page_at(html, 1_900_000_000);
    assert_eq!(points, 150);
    assert_eq!(xsrf, "XYZ");
    assert_eq!(rows.len(), 2);
    assert_eq!(rows[0].name, "Portal");
    assert_eq!(rows[0].code, "AbC12");
    assert_eq!(rows[0].cost, 15);
    assert_eq!(rows[0].image_url, "https://cdn.cloudflare.steamstatic.com/steam/apps/400/capsule_184x69.jpg");
    assert!(rows[0].is_entered);
    assert_eq!(rows[0].ends_at, Some(1_950_000_000));
    assert_eq!(rows[0].ends_label, "soon");
    assert_eq!(rows[1].name, "Unknown");
    assert_eq!(rows[1].code, "");
    assert_eq!(rows[1].cost, 5);
    assert!(!rows[1].is_entered);
    assert_eq!(rows[1].ends_at, None);
}

#[test]
fn won_page_skips_entries_still_running() {
    let html = r#"<html><body>
<div class="table__row-inner-wrap"><a class="table__column__heading" href="/giveaway/Win01/game-one/"> Game One </a></div>
<div class="table__row-inner-wrap"><a class="table__column__heading" href="/giveaway/Win02/game-two/">Game Two</a><form><input name="do" value="entry_delete"></form></div>
<div class="table__row-inner-wrap"><a class="table__column__heading" href="https://www.steamgifts.com/giveaway/Win03/g/">Three</a></div>
</body></html>"#;
    let wins = parse_won_page(html);
    assert_eq!(wins.len(), 2);
    assert_eq!(wins[0].name, "Game One");
    assert_eq!(wins[0].code, "Win01");
    assert_eq!(wins[0].source, "steamgifts");
    assert_eq!(wins[0].url, "https://www.steamgifts.com/giveaway/Win01/game-one/");
    assert_eq!(wins[1].code, "www.steamgifts.com");
    assert_eq!(wins[1].url, "https://www.steamgifts.com/giveaway/Win03/g/");
}

#[test]
fn claim_token_from_the_giveaway_page() {
    let html = r#"<html><body><input name="xsrf_token" value="T0K"></body></html>"#;
    assert_eq!(claim_xsrf(html).unwrap(), "T0K");
    assert_eq!(claim_xsrf("<html></html>").unwrap_err(), "Could not read XSRF token for gift claim.");
}

#[test]
fn end_window() {
    let now = 1_000_000;
    assert!(within_end_window_at(&item(false, 1, Some(now + 3600)), 2, now));
    assert!(!within_end_window_at(&item(false, 1, Some(now + 3 * 3600)), 2, now));
    assert!(within_end_window_at(&item(false, 1, None), 0, now));
    assert!(!within_end_window_at(&item(false, 1, None), 2, now));
}

#[test]
fn bot_entry_decisions() {
    let now = 1_000_000;
    assert!(matches!(decide_entry(&item(true, 5, Some(now + 60)), 100, 3, now), EntryDecision::Skip));
    assert!(matches!(decide_entry(&item(false, 5, Some(now + 5 * 3600)), 100, 3, now), EntryDecision::Skip));
    assert!(matches!(decide_entry(&item(false, 50, Some(now + 60)), 10, 3, now), EntryDecision::OutOfPoints));
    assert!(matches!(decide_entry(&item(false, 10, Some(now + 60)), 10, 3, now), EntryDecision::Enter));
    assert_eq!(points_after_entry(20, 15), 5);
    assert_eq!(points_after_entry(10, 15), 0);
}

#[test]
fn bot_paging_and_delays() {
    assert_eq!(next_page(1, 3), (2, false));
    assert_eq!(next_page(3, 3), (1, true));
    assert_eq!(next_page(1, 0), (1, true));
    assert_eq!(refresh_delay_secs(0), 60);
    assert_eq!(refresh_delay_secs(10), 600);
    assert_eq!(entry_delay(0), 2);
    assert_eq!(entry_delay(5), 5);
    assert_eq!(start_precondition("  ").unwrap_err(), "PHPSESSID cookie is required.");
    assert!(start_precondition("abc").is_ok());
}

#[test]
fn bot_log_is_bounded() {
    let mut logs: Vec<GiveawayLogEntry> = Vec::new();
    for i in 0..205 {
        push_log(&mut logs, format!("{i}"), format!("m{i}"));
    }
    assert_eq!(logs.len(), 200);
    assert_eq!(logs[0].message, "m5");
    assert_eq!(logs[199].message, "m204");
    assert_eq!(logs[199].timestamp, "204");
}

#[test]
fn bot_log_lines() {
    assert_eq!(bot_log_text(&BotLog::Page { page: 2, points: 150 }), "[SteamGifts] Page 2 — 150P");
    assert_eq!(
        bot_log_text(&BotLog::NotEnoughPoints { name: "Portal".to_string() }),
        "[SteamGifts] Not enough points for Portal"
    );
    assert_eq!(
        bot_log_text(&BotLog::EntryFailed { name: "Portal".to_string(), error: "HTTP 500".to_string() }),
        "[SteamGifts] Failed Portal: HTTP 500"
    );
    assert_eq!(bot_log_text(&BotLog::Waiting { minutes: 10 }), "Waiting 10 min for refresh");
    assert_eq!(bot_log_text(&BotLog::Stopped), "Bot stopped");
    assert_eq!(log_timestamp(1_700_000_000), "1700000000");
}

#[test]
fn bot_status_marks() {
    let mut s = GiveawayBotStatus::default();
    s.mark_started();
    assert!(s.running);
    assert_eq!(s.last_message, "Bot started");
    s.mark_page(120, 2);
    assert_eq!((s.points, s.current_page, s.source.as_str()), (120, 2, "steamgifts"));
    s.mark_entered("Portal");
    assert_eq!(s.entries_today, 1);
    assert_eq!(s.last_message, "Entered Portal");
    s.mark_countdown(30);
    assert_eq!((s.countdown_label.as_str(), s.countdown_seconds), ("refresh", 30));
    s.mark_stopped();
    assert!(!s.running);
    assert_eq!(s.countdown_label, "");
    assert_eq!(s.countdown_seconds, 0);
    assert_eq!(s.last_message, "Bot stopped");
    s.mark_stopping();
    assert_eq!(s.last_message, "Stopping...");
}

#[test]
fn wins_are_new_only_once() {
    let mut known = KnownWins::new();
    let wins = vec![won("A"), won("B"), won("A")];
    let first = register_new_wins(&mut known, &wins);
    assert_eq!(first.len(), 2);
    assert_eq!(first[0].code, "A");
    assert_eq!(first[1].code, "B");
    assert!(known.contains("A") && known.contains("B") && !known.contains("C"));
    let second = register_new_wins(&mut known, &wins);
    assert!(second.is_empty());
    let mut codes = known.to_codes();
    codes.sort();
    assert_eq!(codes, vec!["A".to_string(), "B".to_string()]);
}

#[test]
fn known_wins_from_stored_codes() {
    let stored = vec!["A".to_string(), "A".to_string(), "B".to_string()];
    let mut known = KnownWins::from_codes(&stored);
    assert_eq!(known.to_codes().len(), 2);
    assert!(!known.insert("A"));
    assert!(known.insert("C"));
    let fresh = register_new_wins(&mut known, &vec![won("C"), won("D")]);
    assert_eq!(fresh.len(), 1);
    assert_eq!(fresh[0].code, "D");
}

#[test]
fn win_notifications() {
    assert_eq!(win_notification_title(), "Steam Suite — Giveaway Won!");
    assert_eq!(win_notification_body("Portal"), "You won: Portal");
    assert!(!should_check_wins("   "));
    assert!(should_check_wins("abc"));
}

fn named(name: &str, code: &str, cost: u32, is_entered: bool) -> GiveawayItem {
    GiveawayItem {
        name: name.to_string(),
        code: code.to_string(),
        cost,
        image_url: String::new(),
        is_entered,
        ends_at: None,
        ends_label: String::new(),
    }
}

fn one_page_bot() -> BotMachine {
    BotMachine::new(BotSettings { max_pages: 1, max_end_hours: 0, entry_delay_secs: 0, refresh_delay_minutes: 1 })
}

fn messages(lines: &[BotLog]) -> Vec<String> {
    lines.iter().map(bot_log_text).collect()
}

#[test]
fn bot_round_enters_what_it_can_afford() {
    let mut bot = one_page_bot();
    let mut status = GiveawayBotStatus::default();
    let (action, lines) = bot.step(&mut status, BotEvent::Begin, false, 0);
    assert!(matches!(action, BotAction::ReadPage { page: 1 }));
    assert!(lines.is_empty());
    assert!(status.running);
    assert_eq!(status.last_message, "Bot started");

    let page = vec![named("Old", "A1", 5, true), named("Portal", "B2", 10, false), named("Dear Esther", "C3", 30, false)];
    let (action, lines) = bot.step(&mut status, BotEvent::PageRead(Ok((35, "tok".to_string(), page))), false, 0);
    assert!(matches!(action, BotAction::Pause { secs: 2 }));
    assert_eq!(messages(&lines), vec!["[SteamGifts] Page 1 — 35P".to_string()]);
    assert_eq!(status.points, 35);
    assert_eq!(status.source, "steamgifts");

    let (action, lines) = bot.step(&mut status, BotEvent::Paused, false, 0);
    match action {
        BotAction::Enter { code, xsrf } => {
            assert_eq!(code, "B2");
            assert_eq!(xsrf, "tok");
        }
        _ => panic!("expected an entry"),
    }
    assert!(lines.is_empty());

    let (action, lines) = bot.step(&mut status, BotEvent::EntryAnswered(Ok(())), false, 0);
    assert_eq!(
        messages(&lines),
        vec![
            "[SteamGifts] Entered: Portal".to_string(),
            "[SteamGifts] Not enough points for Dear Esther".to_string(),
            "Waiting 1 min for refresh".to_string(),
        ]
    );
    assert_eq!(status.entries_today, 1);
    assert_eq!(status.last_message, "Entered Portal");
    assert!(matches!(action, BotAction::CheckWins));
    assert!(matches!(bot.stage, BotStage::CheckingWins));
    assert_eq!(bot.page, 1);
}

#[test]
fn bot_stops_the_page_when_points_run_out() {
    let mut bot = one_page_bot();
    let mut status = GiveawayBotStatus::default();
    bot.step(&mut status, BotEvent::Begin, false, 0);
    let page = vec![named("Expensive", "X1", 50, false), named("Cheap", "X2", 1, false)];
    let (action, lines) = bot.step(&mut status, BotEvent::PageRead(Ok((10, "t".to_string(), page))), false, 0);
    assert!(matches!(action, BotAction::CheckWins));
    assert_eq!(
        messages(&lines),
        vec![
            "[SteamGifts] Page 1 — 10P".to_string(),
            "[SteamGifts] Not enough points for Expensive".to_string(),
            "Waiting 1 min for refresh".to_string(),
        ]
    );
}

#[test]
fn bot_counts_down_then_reads_again() {
    let mut bot = BotMachine::new(BotSettings { max_pages: 2, max_end_hours: 0, entry_delay_secs: 5, refresh_delay_minutes: 0 });
    let mut status = GiveawayBotStatus::default();
    bot.step(&mut status, BotEvent::Begin, false, 0);
    let (action, lines) = bot.step(&mut status, BotEvent::PageRead(Err("HTTP 500".to_string())), false, 0);
    assert!(matches!(action, BotAction::ReadPage { page: 2 }));
    assert_eq!(messages(&lines), vec!["[SteamGifts] Error: HTTP 500".to_string()]);
    assert_eq!(status.last_message, "HTTP 500");
    let (action, _) = bot.step(&mut status, BotEvent::PageRead(Ok((0, String::new(), Vec::new()))), false, 0);
    assert!(matches!(action, BotAction::CheckWins));
    let (action, _) = bot.step(&mut status, BotEvent::WinsChecked, false, 0);
    assert!(matches!(action, BotAction::Tick));
    assert_eq!(status.countdown_label, "refresh");
    assert_eq!(status.countdown_seconds, 59);
    let mut ticks = 1;
    loop {
        let (action, _) = bot.step(&mut status, BotEvent::Paused, false, 0);
        match action {
            BotAction::Tick => ticks += 1,
            BotAction::ReadPage { page } => {
                assert_eq!(page, 1);
                break;
            }
            _ => panic!("unexpected action"),
        }
    }
    assert_eq!(ticks, 60);
    assert_eq!(status.countdown_seconds, 0);
}

#[test]
fn bot_stop_request_ends_it() {
    let mut bot = one_page_bot();
    let mut status = GiveawayBotStatus::default();
    bot.step(&mut status, BotEvent::Begin, false, 0);
    let page = vec![named("Portal", "B2", 10, false)];
    let (action, _) = bot.step(&mut status, BotEvent::PageRead(Ok((35, "tok".to_string(), page))), false, 0);
    assert!(matches!(action, BotAction::Pause { .. }));
    let (action, lines) = bot.step(&mut status, BotEvent::Paused, true, 0);
    assert!(matches!(action, BotAction::Finish));
    assert_eq!(messages(&lines), vec!["Bot stopped".to_string()]);
    assert!(!status.running);
    assert_eq!(status.last_message, "Bot stopped");
    assert!(matches!(bot.stage, BotStage::Done));
}

fn m(text: &str, attr: Option<&str>) -> (String, Option<String>) {
    (text.to_string(), attr.map(|a| a.to_string()))
}

#[test]
fn navigation_bar_from_matches() {
    let p = points_from_matches(&vec![m("1,234P", None)], &vec![m("  alice ", None)]);
    assert_eq!(p.points, 1234);
    assert_eq!(p.username, "alice");
    let none = points_from_matches(&Vec::new(), &Vec::new());
    assert_eq!((none.points, none.username.as_str()), (0, ""));
    assert_eq!(xsrf_from_matches(&vec![m("", Some("tok")), m("", Some("x"))]), "tok");
    assert_eq!(xsrf_from_matches(&Vec::new()), "");
}

#[test]
fn giveaway_row_from_matches() {
    let g = giveaway_from_row(
        &Some("giveaway__row-inner-wrap is-faded".to_string()),
        &vec![m("(3 Copies)", None), m("(25P)", None)],
        &vec![m("  Portal 2 ", Some("/giveaway/AbC12/portal-2"))],
        Some("620".to_string()),
        &Vec::new(),
        0,
    );
    assert_eq!(g.name, "Portal 2");
    assert_eq!(g.code, "AbC12");
    assert_eq!(g.cost, 25);
    assert_eq!(g.image_url, "https://cdn.cloudflare.steamstatic.com/steam/apps/620/capsule_184x69.jpg");
    assert!(g.is_entered);
    assert_eq!(g.ends_at, None);
    let bare = giveaway_from_row(&None, &Vec::new(), &Vec::new(), None, &Vec::new(), 0);
    assert_eq!((bare.name.as_str(), bare.cost, bare.image_url.as_str(), bare.is_entered), ("Unknown", 0, "", false));
}

#[test]
fn won_row_from_matches() {
    let w = won_from_matches(&Vec::new(), &vec![m(" Celeste ", Some("/giveaway/Xy9/celeste"))]).unwrap();
    assert_eq!(w.name, "Celeste");
    assert_eq!(w.code, "Xy9");
    assert_eq!(w.url, "https://www.steamgifts.com/giveaway/Xy9/celeste");
    assert!(won_from_matches(&vec![m("", Some("entry_delete"))], &vec![m("C", Some("/giveaway/Xy9/c"))]).is_none());
    assert!(won_from_matches(&Vec::new(), &Vec::new()).is_none());
}

//! Profile statistics: the store region of a country, the counts over the owned games,
//! the most played games with their prices, money amounts, and when a stored profile is
//! used again. Averages and rates over hours are computed with floating point outside this
//! crate.
use vstd::prelude::*;

use std::collections::HashMap;

use crate::steam::{capsule_url_text, opt_text, steam_capsule_url};
use crate::text::{
    chars_eq, chars_of, contains, contains_seq, decimal, decimal_u64, owned, parse_u32,
    parse_u32_chars, push_all, string_from_chars, trim, trim_str,
};

verus! {

broadcast use vstd::std_specs::hash::group_hash_axioms;

/// One of the most played games.
pub struct TopGameStat {
    pub app_id: u32,
    pub name: String,
    pub img_url: String,
    pub playtime_minutes: u32,
    pub recent_playtime_minutes: u32,
    pub current_price_formatted: Option<String>,
}

/// What `str::to_lowercase` gives for `s` (Unicode lower case mapping).
pub uninterp spec fn lower_case(s: Seq<char>) -> Seq<char>;

/// Calls `str::to_lowercase`.
#[verifier::external_body]
fn to_lower(s: &str) -> (r: String)
    ensures
        r@ == lower_case(s@),
{
    s.to_lowercase()
}

/// The currency and store country of a country setting (any case).
pub open spec fn country_config_of(code: Seq<char>) -> (Seq<char>, Seq<char>) {
    let c = lower_case(code);
    if c == "uk"@ {
        ("GBP"@, "uk"@)
    } else if c == "ca"@ {
        ("CAD"@, "ca"@)
    } else if c == "au"@ {
        ("AUD"@, "au"@)
    } else if c == "nz"@ {
        ("NZD"@, "nz"@)
    } else if c == "eu"@ {
        ("EUR"@, "eu"@)
    } else {
        ("USD"@, "us"@)
    }
}

fn is_text(c: &Vec<char>, t: &str) -> (b: bool)
    ensures
        b == (c@ == t@),
{
    let x = chars_of(t);
    chars_eq(c.as_slice(), x.as_slice())
}

/// The currency and store country of a country setting.
pub fn country_config(code: &str) -> (r: (String, String))
    ensures
        (r.0@, r.1@) == country_config_of(code@),
{
    let lower = to_lower(code);
    let c = chars_of(lower.as_str());
    if is_text(&c, "uk") {
        (owned("GBP"), owned("uk"))
    } else if is_text(&c, "ca") {
        (owned("CAD"), owned("ca"))
    } else if is_text(&c, "au") {
        (owned("AUD"), owned("au"))
    } else if is_text(&c, "nz") {
        (owned("NZD"), owned("nz"))
    } else if is_text(&c, "eu") {
        (owned("EUR"), owned("eu"))
    } else {
        (owned("USD"), owned("us"))
    }
}

/// The currency of a country setting.
pub fn currency_code(code: &str) -> (r: String)
    ensures
        r@ == country_config_of(code@).0,
{
    country_config(code).0
}

/// The sign a currency's amounts are written with.
pub open spec fn currency_symbol(currency: Seq<char>) -> Seq<char> {
    if currency == "EUR"@ {
        "€"@
    } else if currency == "GBP"@ {
        "£"@
    } else if currency == "CAD"@ {
        "CA$"@
    } else if currency == "AUD"@ {
        "A$"@
    } else if currency == "NZD"@ {
        "NZ$"@
    } else {
        "$"@
    }
}

/// A number below one hundred in two digits.
pub open spec fn two_digits(n: nat) -> Seq<char> {
    if n < 10 {
        "0"@ + decimal(n)
    } else {
        decimal(n)
    }
}

/// An amount of cents as the currency's sign, the whole units, a point and two decimals.
pub open spec fn money_text(cents: nat, currency: Seq<char>) -> Seq<char> {
    currency_symbol(currency) + decimal(cents / 100) + "."@ + two_digits(cents % 100)
}

/// Formats an amount of cents in a currency (see [`money_text`]).
pub fn format_money(cents: u64, currency: &str) -> (r: String)
    ensures
        r@ == money_text(cents as nat, currency@),
{
    let c = chars_of(currency);
    let mut v = if is_text(&c, "EUR") {
        chars_of("€")
    } else if is_text(&c, "GBP") {
        chars_of("£")
    } else if is_text(&c, "CAD") {
        chars_of("CA$")
    } else if is_text(&c, "AUD") {
        chars_of("A$")
    } else if is_text(&c, "NZD") {
        chars_of("NZ$")
    } else {
        chars_of("$")
    };
    let units = decimal_u64(cents / 100);
    push_all(&mut v, units.as_slice());
    let point = chars_of(".");
    push_all(&mut v, point.as_slice());
    let rest = cents % 100;
    if rest < 10 {
        let zero = chars_of("0");
        push_all(&mut v, zero.as_slice());
    }
    let digits = decimal_u64(rest);
    push_all(&mut v, digits.as_slice());
    string_from_chars(v.as_slice())
}

/// A game of the Web API's owned games answer.
pub struct OwnedGameEntry {
    pub appid: u32,
    pub name: Option<String>,
    pub playtime_forever: Option<u32>,
    pub playtime_2weeks: Option<u32>,
}

impl OwnedGameEntry {
    /// A copy with the same contents.
    pub fn duplicate(&self) -> (r: OwnedGameEntry)
        ensures
            r == *self,
    {
        OwnedGameEntry {
            appid: self.appid,
            name: match &self.name {
                Some(n) => Some(n.clone()),
                None => None,
            },
            playtime_forever: self.playtime_forever,
            playtime_2weeks: self.playtime_2weeks,
        }
    }
}

pub open spec fn playtime_of(g: OwnedGameEntry) -> u32 {
    match g.playtime_forever {
        Some(p) => p,
        None => 0,
    }
}

/// How many games were played at all.
pub open spec fn played_count(gs: Seq<OwnedGameEntry>) -> nat
    decreases gs.len(),
{
    if gs.len() == 0 {
        0
    } else {
        played_count(gs.drop_last()) + if playtime_of(gs.last()) > 0 {
            1nat
        } else {
            0nat
        }
    }
}

/// The play time of all games, in minutes.
pub open spec fn total_playtime(gs: Seq<OwnedGameEntry>) -> nat
    decreases gs.len(),
{
    if gs.len() == 0 {
        0
    } else {
        (total_playtime(gs.drop_last()) + playtime_of(gs.last())) as nat
    }
}

proof fn lemma_played_count_bound(gs: Seq<OwnedGameEntry>)
    ensures
        played_count(gs) <= gs.len(),
    decreases gs.len(),
{
    if gs.len() > 0 {
        lemma_played_count_bound(gs.drop_last());
    }
}

proof fn lemma_total_playtime_prefix(gs: Seq<OwnedGameEntry>, i: int)
    requires
        0 <= i <= gs.len(),
    ensures
        total_playtime(gs.take(i)) <= total_playtime(gs),
    decreases gs.len() - i,
{
    if i < gs.len() {
        lemma_total_playtime_prefix(gs, i + 1);
        assert(gs.take(i + 1).drop_last() =~= gs.take(i));
    } else {
        assert(gs.take(i) =~= gs);
    }
}

/// The game counts of a library: all games, played ones, unplayed ones (counts as `u32`,
/// wrapping past `u32::MAX`), and the total play time in minutes.
pub fn game_counts(games: &Vec<OwnedGameEntry>) -> (r: (u32, u32, u32, u32))
    requires
        total_playtime(games@) <= u32::MAX,
    ensures
        r.0 == games@.len() as u32,
        r.1 == played_count(games@) as u32,
        r.2 == (if r.0 >= r.1 {
            r.0 - r.1
        } else {
            0
        }),
        r.3 == total_playtime(games@),
{
    let mut played: usize = 0;
    let mut minutes: u32 = 0;
    for i in 0..games.len()
        invariant
            total_playtime(games@) <= u32::MAX,
            played == played_count(games@.take(i as int)),
            played <= i,
            minutes == total_playtime(games@.take(i as int)),
    {
        assert(games@.take(i + 1).drop_last() =~= games@.take(i as int));
        let p = match games[i].playtime_forever {
            Some(p) => p,
            None => 0,
        };
        if p > 0 {
            played = played + 1;
        }
        proof {
            lemma_total_playtime_prefix(games@, i + 1);
        }
        minutes = minutes + p;
    }
    assert(games@.take(games.len() as int) =~= games@);
    #[verifier::truncate]
    let total = games.len() as u32;
    #[verifier::truncate]
    let played32 = played as u32;
    (total, played32, total.saturating_sub(played32), minutes)
}

/// A game's price in the store.
pub struct PriceCents {
    pub initial: u32,
    pub final_price: u32,
    pub formatted: String,
}

/// One entry of the store's price answer: the app id as written, whether the store found
/// it, and its price overview (initial, final, final formatted) when it has one.
pub struct StoreAppEntry {
    pub id: String,
    pub success: bool,
    pub overview: Option<(u32, u32, String)>,
}

/// The prices after merging a store answer: entries that succeeded, with a numeric id and
/// a price overview, in order.
pub open spec fn merged_prices(m: Map<u32, PriceCents>, body: Seq<StoreAppEntry>) -> Map<u32, PriceCents>
    decreases body.len(),
{
    if body.len() == 0 {
        m
    } else {
        let prev = merged_prices(m, body.drop_last());
        let e = body.last();
        if !e.success {
            prev
        } else {
            match (parse_u32(e.id@), e.overview) {
                (Some(id), Some((initial, final_price, formatted))) => prev.insert(
                    id,
                    PriceCents { initial, final_price, formatted },
                ),
                _ => prev,
            }
        }
    }
}

/// Adds the prices of a store answer.
pub fn merge_price_map(map: &mut HashMap<u32, PriceCents>, body: &Vec<StoreAppEntry>)
    ensures
        final(map)@ == merged_prices(old(map)@, body@),
{
    let ghost start = map@;
    for i in 0..body.len()
        invariant
            map@ == merged_prices(start, body@.take(i as int)),
    {
        assert(body@.take(i + 1).drop_last() =~= body@.take(i as int));
        let e = &body[i];
        if e.success {
            let idc = chars_of(e.id.as_str());
            match (parse_u32_chars(idc.as_slice()), &e.overview) {
                (Some(id), Some((initial, final_price, formatted))) => {
                    map.insert(id, PriceCents { initial: *initial, final_price: *final_price, formatted: formatted.clone() });
                },
                _ => {},
            }
        }
    }
    assert(body@.take(body.len() as int) =~= body@);
}

/// The sum of the initial and of the final prices.
pub open spec fn price_sums(ps: Seq<PriceCents>) -> (nat, nat)
    decreases ps.len(),
{
    if ps.len() == 0 {
        (0, 0)
    } else {
        let (a, b) = price_sums(ps.drop_last());
        ((a + ps.last().initial) as nat, (b + ps.last().final_price) as nat)
    }
}

proof fn lemma_price_sums_prefix(ps: Seq<PriceCents>, i: int)
    requires
        0 <= i <= ps.len(),
    ensures
        price_sums(ps.take(i)).0 <= price_sums(ps).0,
        price_sums(ps.take(i)).1 <= price_sums(ps).1,
    decreases ps.len() - i,
{
    if i < ps.len() {
        lemma_price_sums_prefix(ps, i + 1);
        assert(ps.take(i + 1).drop_last() =~= ps.take(i));
    } else {
        assert(ps.take(i) =~= ps);
    }
}

/// The total initial and final price of the priced games, in cents.
pub fn price_totals(prices: &Vec<PriceCents>) -> (r: (u64, u64))
    requires
        price_sums(prices@).0 <= u64::MAX,
        price_sums(prices@).1 <= u64::MAX,
    ensures
        r.0 == price_sums(prices@).0,
        r.1 == price_sums(prices@).1,
{
    let mut a: u64 = 0;
    let mut b: u64 = 0;
    for i in 0..prices.len()
        invariant
            price_sums(prices@).0 <= u64::MAX,
            price_sums(prices@).1 <= u64::MAX,
            a == price_sums(prices@.take(i as int)).0,
            b == price_sums(prices@.take(i as int)).1,
    {
        assert(prices@.take(i + 1).drop_last() =~= prices@.take(i as int));
        proof {
            lemma_price_sums_prefix(prices@, i + 1);
        }
        a = a + prices[i].initial as u64;
        b = b + prices[i].final_price as u64;
    }
    assert(prices@.take(prices.len() as int) =~= prices@);
    (a, b)
}

/// The average initial price of the priced games, in cents (zero with none).
pub fn average_price_cents(total_initial: u64, price_count: u64) -> (r: u64)
    ensures
        r == if price_count > 0 {
            total_initial / price_count
        } else {
            0
        },
{
    if price_count > 0 {
        total_initial / price_count
    } else {
        0
    }
}

/// Statistics are partial when some but under a quarter of the games have prices.
pub fn is_partial(price_count: u64, total_games: u32) -> (b: bool)
    ensures
        b == (price_count > 0 && price_count < total_games as u64 / 4),
{
    price_count > 0 && price_count < total_games as u64 / 4
}

/// How a top game's price is shown: `Free` at zero, else the store's text.
pub open spec fn top_price_text(p: Option<PriceCents>) -> Option<Seq<char>> {
    match p {
        Some(c) => Some(if c.final_price == 0 {
            "Free"@
        } else {
            c.formatted@
        }),
        None => None,
    }
}

pub open spec fn top_game_of(g: OwnedGameEntry, prices: Map<u32, PriceCents>) -> (u32, Seq<char>, Seq<char>, u32, u32, Option<Seq<char>>) {
    (
        g.appid,
        match g.name {
            Some(n) => n@,
            None => "App "@ + decimal(g.appid as nat),
        },
        capsule_url_text(g.appid),
        playtime_of(g),
        match g.playtime_2weeks {
            Some(p) => p,
            None => 0,
        },
        top_price_text(if prices.contains_key(g.appid) {
            Some(prices[g.appid])
        } else {
            None
        }),
    )
}

pub open spec fn top_view(t: TopGameStat) -> (u32, Seq<char>, Seq<char>, u32, u32, Option<Seq<char>>) {
    (t.app_id, t.name@, t.img_url@, t.playtime_minutes, t.recent_playtime_minutes, opt_text(t.current_price_formatted))
}

/// The entry of one top game.
pub fn top_game_stat(g: &OwnedGameEntry, prices: &HashMap<u32, PriceCents>) -> (r: TopGameStat)
    ensures
        top_view(r) == top_game_of(*g, prices@),
{
    let name = match &g.name {
        Some(n) => n.clone(),
        None => {
            let mut v = chars_of("App ");
            let d = decimal_u64(g.appid as u64);
            push_all(&mut v, d.as_slice());
            string_from_chars(v.as_slice())
        },
    };
    let price = match prices.get(&g.appid) {
        Some(p) => Some(if p.final_price == 0 {
            owned("Free")
        } else {
            p.formatted.clone()
        }),
        None => None,
    };
    TopGameStat {
        app_id: g.appid,
        name,
        img_url: steam_capsule_url(g.appid),
        playtime_minutes: match g.playtime_forever {
            Some(p) => p,
            None => 0,
        },
        recent_playtime_minutes: match g.playtime_2weeks {
            Some(p) => p,
            None => 0,
        },
        current_price_formatted: price,
    }
}

/// First position at which `g` goes before the game there (more play time first).
pub open spec fn playtime_position(s: Seq<OwnedGameEntry>, g: OwnedGameEntry) -> int
    decreases s.len(),
{
    if s.len() == 0 {
        0
    } else if playtime_of(g) > playtime_of(s[0]) {
        0
    } else {
        1 + playtime_position(s.drop_first(), g)
    }
}

/// Stable sort by play time, most first.
pub open spec fn sort_by_playtime(s: Seq<OwnedGameEntry>) -> Seq<OwnedGameEntry>
    decreases s.len(),
{
    if s.len() == 0 {
        Seq::empty()
    } else {
        let sorted = sort_by_playtime(s.drop_last());
        sorted.insert(playtime_position(sorted, s.last()), s.last())
    }
}

fn playtime_value(g: &OwnedGameEntry) -> (r: u32)
    ensures
        r == playtime_of(*g),
{
    match g.playtime_forever {
        Some(p) => p,
        None => 0,
    }
}

/// The (at most five) most played games, most first, with their prices.
pub fn top_games(games: &Vec<OwnedGameEntry>, prices: &HashMap<u32, PriceCents>) -> (r: Vec<TopGameStat>)
    ensures
        r@.len() == if sort_by_playtime(games@).len() < 5 {
            sort_by_playtime(games@).len() as int
        } else {
            5
        },
        forall|i: int| 0 <= i < r@.len() ==> top_view(#[trigger] r@[i]) == top_game_of(sort_by_playtime(games@)[i], prices@),
{
    let ghost input = games@;
    let mut sorted: Vec<OwnedGameEntry> = Vec::new();
    let mut k: usize = 0;
    assert(input.take(0) =~= Seq::<OwnedGameEntry>::empty());
    while k < games.len()
        invariant
            k <= games@.len(),
            input == games@,
            sorted@ == sort_by_playtime(input.take(k as int)),
        decreases games@.len() - k,
    {
        let a = games[k].duplicate();
        let pa = playtime_value(&a);
        let ghost sv = sorted@;
        let mut p: usize = 0;
        assert(sv.subrange(0, sv.len() as int) == sv);
        while p < sorted.len() && !(pa > playtime_value(&sorted[p]))
            invariant
                p <= sorted@.len(),
                sv == sorted@,
                pa == playtime_of(a),
                playtime_position(sv, a) == p + playtime_position(sv.subrange(p as int, sv.len() as int), a),
            decreases sorted@.len() - p,
        {
            proof {
                let rest = sv.subrange(p as int, sv.len() as int);
                assert(rest[0] == sv[p as int]);
                assert(rest.drop_first() == sv.subrange(p + 1, sv.len() as int));
            }
            p = p + 1;
        }
        proof {
            let rest = sv.subrange(p as int, sv.len() as int);
            if p < sorted@.len() {
                assert(rest[0] == sv[p as int]);
            }
            assert(input.take(k + 1).drop_last() == input.take(k as int));
            assert(input.take(k + 1).last() == a);
        }
        sorted.insert(p, a);
        k = k + 1;
    }
    assert(input.take(games@.len() as int) == input);
    let limit: usize = if sorted.len() < 5 {
        sorted.len()
    } else {
        5
    };
    let mut r: Vec<TopGameStat> = Vec::new();
    for i in 0..limit
        invariant
            limit <= sorted@.len(),
            sorted@ == sort_by_playtime(games@),
            r@.len() == i,
            forall|j: int| 0 <= j < i ==> top_view(#[trigger] r@[j]) == top_game_of(sort_by_playtime(games@)[j], prices@),
    {
        r.push(top_game_stat(&sorted[i], prices));
    }
    r
}

/// A stored profile with many games but only zero prices was read while the store was
/// blocked; it is not kept.
pub open spec fn usable_stats(total_games: u32, current: Seq<char>, initial: Seq<char>) -> bool {
    !(total_games > 100 && contains_seq(current, "0.00"@) && contains_seq(initial, "0.00"@))
}

/// Whether statistics are worth keeping.
pub fn cache_is_usable(total_games: u32, total_current_formatted: &str, total_initial_formatted: &str) -> (b: bool)
    ensures
        b == usable_stats(total_games, total_current_formatted@, total_initial_formatted@),
{
    if total_games > 100 {
        let z = chars_of("0.00");
        let c = chars_of(total_current_formatted);
        let i = chars_of(total_initial_formatted);
        if contains(c.as_slice(), z.as_slice()) && contains(i.as_slice(), z.as_slice()) {
            return false;
        }
    }
    true
}

/// Format version of the stored profile.
pub const PROFILE_CACHE_VERSION: u32 = 3;

/// How long a stored profile is used: a day.
pub const PROFILE_CACHE_TTL_SECS: u64 = 86400;

/// Whether the stored profile (of `version`, account, country, fetch time) is used for
/// `steam_id` and `country_code` at Unix second `now`; `usable` is [`cache_is_usable`] of
/// its statistics.
pub fn profile_cache_valid(
    version: u32,
    cached_steam_id: &str,
    cached_country: &str,
    fetched_at: u64,
    steam_id: &str,
    country_code: &str,
    now: u64,
    usable: bool,
) -> (b: bool)
    ensures
        b == (version == PROFILE_CACHE_VERSION && cached_steam_id@ == steam_id@ && cached_country@ == country_code@
            && (if now >= fetched_at {
            now - fetched_at
        } else {
            0
        }) < PROFILE_CACHE_TTL_SECS && usable),
{
    let a = chars_of(cached_steam_id);
    let b = chars_of(steam_id);
    let c = chars_of(cached_country);
    let d = chars_of(country_code);
    version == PROFILE_CACHE_VERSION && chars_eq(a.as_slice(), b.as_slice()) && chars_eq(c.as_slice(), d.as_slice())
        && now.saturating_sub(fetched_at) < PROFILE_CACHE_TTL_SECS && usable
}

/// Profile statistics need an account.
pub fn profile_precheck(steam_id: &str) -> (r: Result<(), String>)
    ensures
        r is Ok <==> trim(steam_id@).len() > 0,
        r matches Err(e) ==> e@ == "No Steam account detected."@,
{
    let t = trim_str(steam_id);
    if t.as_str().is_empty() {
        return Err(owned("No Steam account detected."));
    }
    Ok(())
}

/// When the online statistics failed: without a Web API key (trimmed) there is no
/// fallback, and the failure is reported.
pub fn online_failure(error: &str, api_key: &str) -> (r: Option<String>)
    ensures
        trim(api_key@).len() == 0 ==> (r matches Some(m) && m@ == "Could not load profile stats: "@ + error@
            + ". Add a Steam Web API key in Settings for fallback."@),
        trim(api_key@).len() > 0 ==> r is None,
{
    let k = trim_str(api_key);
    if k.as_str().is_empty() {
        let mut v = chars_of("Could not load profile stats: ");
        let e = chars_of(error);
        push_all(&mut v, e.as_slice());
        let t = chars_of(". Add a Steam Web API key in Settings for fallback.");
        push_all(&mut v, t.as_slice());
        return Some(string_from_chars(v.as_slice()));
    }
    None
}

/// The community profile URL of an account.
pub fn profile_url_for(steam_id: &str) -> (r: String)
    ensures
        r@ == "https://steamcommunity.com/profiles/"@ + steam_id@,
{
    let mut v = chars_of("https://steamcommunity.com/profiles/");
    let s = chars_of(steam_id);
    push_all(&mut v, s.as_slice());
    string_from_chars(v.as_slice())
}

/// The price shown for a top game of the online statistics, from the formatted final price
/// and the final price in cents of its price overview: the formatted price when it is not
/// blank, else the price in dollars when above zero, else `Free`.
pub open spec fn top_game_price_text(formatted: Option<Seq<char>>, final_cents: Option<u32>) -> Seq<char> {
    let fallback = match final_cents {
        Some(c) => if c > 0 {
            money_text(c as nat, "USD"@)
        } else {
            "Free"@
        },
        None => "Free"@,
    };
    match formatted {
        Some(t) => if trim(t).len() > 0 {
            t
        } else {
            fallback
        },
        None => fallback,
    }
}

/// The price shown for a top game (see [`top_game_price_text`]); a game without details or
/// without a price overview is given `None` for both.
pub fn top_game_price(formatted: Option<String>, final_cents: Option<u32>) -> (r: String)
    ensures
        r@ == top_game_price_text(opt_text(formatted), final_cents),
{
    if let Some(t) = formatted {
        let trimmed = trim_str(t.as_str());
        if !trimmed.as_str().is_empty() {
            return t;
        }
    }
    match final_cents {
        Some(c) => if c > 0 {
            format_money(c as u64, "USD")
        } else {
            owned("Free")
        },
        None => owned("Free"),
    }
}

/// A game's details in the online statistics.
pub struct GameDetails {
    pub id: Option<u32>,
    pub name: Option<String>,
}

/// Index of the first details with id `app_id`, else of the first with name `name`.
pub open spec fn detail_index(ds: Seq<GameDetails>, app_id: u32, name: Seq<char>) -> Option<int> {
    if exists|k: int| 0 <= k < ds.len() && ds[k].id == Some(app_id) {
        Some(choose|k: int| first_with_id(ds, app_id, k))
    } else if exists|k: int| 0 <= k < ds.len() && opt_text(ds[k].name) == Some(name) {
        Some(choose|k: int| first_with_name(ds, name, k))
    } else {
        None
    }
}

pub open spec fn first_with_id(ds: Seq<GameDetails>, app_id: u32, k: int) -> bool {
    0 <= k < ds.len() && ds[k].id == Some(app_id) && forall|m: int| 0 <= m < k ==> ds[m].id != Some(app_id)
}

pub open spec fn first_with_name(ds: Seq<GameDetails>, name: Seq<char>, k: int) -> bool {
    0 <= k < ds.len() && opt_text(ds[k].name) == Some(name) && forall|m: int| 0 <= m < k ==> opt_text(ds[m].name)
        != Some(name)
}

/// Finds a top game's details: by id, else by name.
pub fn find_game_detail(details: &Vec<GameDetails>, app_id: u32, name: &str) -> (r: Option<usize>)
    ensures
        match r {
            Some(k) => first_with_id(details@, app_id, k as int) || (first_with_name(details@, name@, k as int)
                && forall|m: int| 0 <= m < details@.len() ==> details@[m].id != Some(app_id)),
            None => forall|m: int| 0 <= m < details@.len() ==> details@[m].id != Some(app_id) && opt_text(
                details@[m].name,
            ) != Some(name@),
        },
{
    for k in 0..details.len()
        invariant
            forall|m: int| 0 <= m < k ==> details@[m].id != Some(app_id),
    {
        if details[k].id == Some(app_id) {
            return Some(k);
        }
    }
    let n = chars_of(name);
    for k in 0..details.len()
        invariant
            n@ == name@,
            forall|m: int| 0 <= m < details@.len() ==> details@[m].id != Some(app_id),
            forall|m: int| 0 <= m < k ==> opt_text(details@[m].name) != Some(name@),
    {
        let hit = match &details[k].name {
            Some(x) => {
                let xc = chars_of(x.as_str());
                chars_eq(xc.as_slice(), n.as_slice())
            },
            None => false,
        };
        if hit {
            return Some(k);
        }
    }
    None
}

/// What a failed part of the online statistics answer is reported as: its error, or the
/// default for that part.
pub fn online_answer_check(success: bool, error: Option<String>, default_error: &str) -> (r: Result<(), String>)
    ensures
        r is Ok <==> success,
        r matches Err(e) ==> e@ == match error {
            Some(x) => x@,
            None => default_error@,
        },
{
    if success {
        Ok(())
    } else {
        match error {
            Some(e) => Err(e),
            None => Err(owned(default_error)),
        }
    }
}

/// URL of the store's price request for `ids` in store country `cc`.
pub fn price_chunk_url(ids: &[u32], cc: &str) -> (r: String)
    ensures
        r@ == "https://store.steampowered.com/api/appdetails?appids="@ + crate::cards::joined_ids(ids@)
            + "&filters=price_overview&cc="@ + cc@,
{
    let mut v = chars_of("https://store.steampowered.com/api/appdetails?appids=");
    let j = crate::cards::join_ids(ids);
    push_all(&mut v, j.as_slice());
    let t = chars_of("&filters=price_overview&cc=");
    push_all(&mut v, t.as_slice());
    let c = chars_of(cc);
    push_all(&mut v, c.as_slice());
    string_from_chars(v.as_slice())
}

/// Games per price request.
pub const PRICE_CHUNK: usize = 50;

/// What to do with a price answer: stop asking (the store blocked), merge its body, or
/// skip it.
pub enum PriceStep {
    Stop,
    Merge,
    Skip,
}

/// Handles the status of a price answer at Unix second `now`: a blocking status pauses the
/// store and stops the price requests.
pub fn price_answer_step(limiter: &mut crate::rate_limit::RateLimiter, status: u16, now: u64) -> (r: PriceStep)
    requires
        now <= u64::MAX - crate::rate_limit::STORE_COOLDOWN_SECS,
    ensures
        crate::rate_limit::is_block_status(status) ==> r is Stop && crate::rate_limit::spec_blocked_until(
            crate::rate_limit::SteamEndpoint::Store,
            final(limiter).persisted,
        ) == now + crate::rate_limit::spec_cooldown_secs(crate::rate_limit::SteamEndpoint::Store),
        !crate::rate_limit::is_block_status(status) ==> *final(limiter) == *old(limiter) && (if 200 <= status
            <= 299 {
            r is Merge
        } else {
            r is Skip
        }),
{
    if crate::rate_limit::report_rate_limited(limiter, crate::rate_limit::SteamEndpoint::Store, status, now) {
        PriceStep::Stop
    } else if 200 <= status && status <= 299 {
        PriceStep::Merge
    } else {
        PriceStep::Skip
    }
}

/// Two counters of an optional answer, zero where missing.
pub fn counts_or_zero(answer: Option<(Option<u32>, Option<u32>)>) -> (r: (u32, u32))
    ensures
        r == match answer {
            Some((a, b)) => (
                match a {
                    Some(x) => x,
                    None => 0u32,
                },
                match b {
                    Some(x) => x,
                    None => 0u32,
                },
            ),
            None => (0u32, 0u32),
        },
{
    match answer {
        Some((a, b)) => (
            match a {
                Some(x) => x,
                None => 0,
            },
            match b {
                Some(x) => x,
                None => 0,
            },
        ),
        None => (0, 0),
    }
}

/// A text of the online statistics, or a dash when missing.
pub fn text_or_dash(o: Option<String>) -> (r: String)
    ensures
        r@ == match o {
            Some(t) => t@,
            None => "—"@,
        },
{
    match o {
        Some(t) => t,
        None => owned("—"),
    }
}

/// The fields read off the online user summary.
pub struct SummaryFields {
    pub nickname: Option<String>,
    pub persona_name: Option<String>,
    pub avatar_large: Option<String>,
    pub avatar_full: Option<String>,
    pub url: Option<String>,
    pub bans_vac: Option<u32>,
    pub vac: Option<u32>,
    pub bans_game: Option<u32>,
    pub game: Option<u32>,
}

/// The account's name, avatar, profile URL and ban counts from the user summary: the
/// nickname before the persona name (else `Steam User`), the large avatar before the full
/// one, the given URL (else the profile URL of `fallback_steam_id`), and the ban counts of
/// the bans object before the top-level ones (else zero).
pub fn steaminfo_summary(f: SummaryFields, fallback_steam_id: &str) -> (r: (String, String, String, u32, u32))
    ensures
        r.0@ == match (f.nickname, f.persona_name) {
            (Some(n), _) => n@,
            (None, Some(p)) => p@,
            (None, None) => "Steam User"@,
        },
        r.1@ == match (f.avatar_large, f.avatar_full) {
            (Some(a), _) => a@,
            (None, Some(b)) => b@,
            (None, None) => Seq::<char>::empty(),
        },
        r.2@ == match f.url {
            Some(u) => u@,
            None => "https://steamcommunity.com/profiles/"@ + fallback_steam_id@,
        },
        r.3 == match (f.bans_vac, f.vac) {
            (Some(a), _) => a,
            (None, Some(b)) => b,
            (None, None) => 0u32,
        },
        r.4 == match (f.bans_game, f.game) {
            (Some(a), _) => a,
            (None, Some(b)) => b,
            (None, None) => 0u32,
        },
{
    let persona = match f.nickname {
        Some(n) => n,
        None => match f.persona_name {
            Some(p) => p,
            None => owned("Steam User"),
        },
    };
    let avatar = match f.avatar_large {
        Some(a) => a,
        None => match f.avatar_full {
            Some(b) => b,
            None => String::new(),
        },
    };
    let url = match f.url {
        Some(u) => u,
        None => profile_url_for(fallback_steam_id),
    };
    let vac = match f.bans_vac {
        Some(a) => a,
        None => match f.vac {
            Some(b) => b,
            None => 0,
        },
    };
    let game = match f.bans_game {
        Some(a) => a,
        None => match f.game {
            Some(b) => b,
            None => 0,
        },
    };
    (persona, avatar, url, vac, game)
}

/// The price totals add up every price: nothing for no prices, a price's own initial and
/// final amounts for one, and the totals of two lists joined are the sums of their totals,
/// whatever the discounts.
pub proof fn law_price_sums_add(ps: Seq<PriceCents>, qs: Seq<PriceCents>, p: PriceCents)
    ensures
        price_sums(Seq::empty()) == (0nat, 0nat),
        price_sums(seq![p]) == (p.initial as nat, p.final_price as nat),
        price_sums(ps + qs) == ((price_sums(ps).0 + price_sums(qs).0) as nat, (price_sums(ps).1 + price_sums(qs).1) as nat),
    decreases qs.len(),
{
    assert(seq![p].drop_last() =~= Seq::<PriceCents>::empty());
    if qs.len() == 0 {
        assert(ps + qs =~= ps);
    } else {
        law_price_sums_add(ps, qs.drop_last(), p);
        assert((ps + qs).drop_last() =~= ps + qs.drop_last());
        assert((ps + qs).last() == qs.last());
    }
}

} // verus!

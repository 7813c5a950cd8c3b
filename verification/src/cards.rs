//! Trading card detection: the local cache of which games drop cards, which games a scan
//! asks the store about, and what a scan reports. The cache file and the store requests
//! are handled outside this crate.
use vstd::prelude::*;

use std::collections::HashMap;

use crate::rate_limit::{
    cooldown_message, cooldown_text, is_block_status, minutes_ceil, report_rate_limited,
    spec_cooldown_secs, RateLimiter, SteamEndpoint, STORE_COOLDOWN_SECS,
};
use crate::steam::{game_views, is_success_status, GameView, SteamGame};
use crate::text::{chars_of, decimal, decimal_u64, owned, push_all, string_from_chars};

verus! {

broadcast use vstd::std_specs::hash::group_hash_axioms;

/// The store's category id for "Steam Trading Cards".
pub const TRADING_CARD_CATEGORY_ID: u64 = 29;

/// Age after which a cached answer is asked again (thirty days).
pub const CACHE_MAX_AGE_SECS: u64 = 2592000;

/// Games per store request.
pub const BATCH_SIZE: usize = 20;

/// Most games one scan asks about.
pub const MAX_ENRICH_PER_SCAN: usize = 20;

/// A cached answer: whether the game has cards, and when that was learned (Unix seconds).
#[derive(Clone, Copy)]
pub struct CachedEntry {
    pub has_cards: bool,
    pub updated_at: u64,
}

/// What a scan reports.
pub struct CardEnrichResult {
    pub updated: u32,
    pub remaining_uncached: u32,
    pub message: String,
}

/// An entry older than [`CACHE_MAX_AGE_SECS`] at Unix second `now`.
pub open spec fn stale(e: CachedEntry, now: u64) -> bool {
    (if now >= e.updated_at {
        now - e.updated_at
    } else {
        0
    }) > CACHE_MAX_AGE_SECS
}

/// The store is asked about a game with no entry or a stale one.
pub open spec fn needs_fetch(cache: Map<u32, CachedEntry>, app_id: u32, now: u64) -> bool {
    !cache.contains_key(app_id) || stale(cache[app_id], now)
}

/// Whether the cache says a game has cards (no entry counts as no cards).
pub open spec fn cached_has_cards(cache: Map<u32, CachedEntry>, app_id: u32) -> bool {
    cache.contains_key(app_id) && cache[app_id].has_cards
}

/// A game's model with its card flag set to `has`.
pub open spec fn marked(g: GameView, has: bool) -> GameView {
    GameView { has_cards: has, ..g }
}

/// Whether an entry is stale at `now`.
pub fn is_stale(entry: &CachedEntry, now: u64) -> (b: bool)
    ensures
        b == stale(*entry, now),
{
    now.saturating_sub(entry.updated_at) > CACHE_MAX_AGE_SECS
}

fn entry_needs_fetch(cache: &HashMap<u32, CachedEntry>, app_id: u32, now: u64) -> (b: bool)
    ensures
        b == needs_fetch(cache@, app_id, now),
{
    match cache.get(&app_id) {
        Some(e) => is_stale(e, now),
        None => true,
    }
}

/// Marks every game with what the cache knows about its cards.
pub fn apply_cached_trading_cards(games: &mut Vec<SteamGame>, cache: &HashMap<u32, CachedEntry>)
    ensures
        final(games)@.len() == old(games)@.len(),
        forall|i: int|
            0 <= i < old(games)@.len() ==> (#[trigger] final(games)@[i])@ == marked(old(games)@[i]@, cached_has_cards(cache@, old(games)@[i].app_id)),
{
    let ghost start = games@;
    let n = games.len();
    for i in 0..n
        invariant
            n == start.len(),
            games@.len() == n,
            forall|j: int|
                0 <= j < i ==> (#[trigger] games@[j])@ == marked(start[j]@, cached_has_cards(cache@, start[j].app_id)),
            forall|j: int| i <= j < n ==> #[trigger] games@[j] == start[j],
    {
        let id = games[i].app_id;
        let has = match cache.get(&id) {
            Some(e) => e.has_cards,
            None => false,
        };
        games[i].has_cards = has;
    }
}

/// How many games of `games` the store would be asked about.
pub open spec fn uncached_count(games: Seq<GameView>, cache: Map<u32, CachedEntry>, now: u64) -> nat
    decreases games.len(),
{
    if games.len() == 0 {
        0
    } else {
        uncached_count(games.drop_last(), cache, now) + if needs_fetch(
            cache,
            games.last().app_id,
            now,
        ) {
            1nat
        } else {
            0nat
        }
    }
}

proof fn lemma_uncached_count_bound(games: Seq<GameView>, cache: Map<u32, CachedEntry>, now: u64)
    ensures
        uncached_count(games, cache, now) <= games.len(),
    decreases games.len(),
{
    if games.len() > 0 {
        lemma_uncached_count_bound(games.drop_last(), cache, now);
    }
}

/// How many games have no fresh cache entry, as a `u32` (the count wraps past `u32::MAX`).
pub fn count_uncached(games: &Vec<SteamGame>, cache: &HashMap<u32, CachedEntry>, now: u64) -> (r: u32)
    ensures
        r == uncached_count(game_views(games@), cache@, now) as u32,
{
    let ghost gs = game_views(games@);
    let mut n: usize = 0;
    for i in 0..games.len()
        invariant
            gs == game_views(games@),
            n == uncached_count(gs.take(i as int), cache@, now),
            n <= i,
    {
        assert(gs.take(i + 1).drop_last() =~= gs.take(i as int));
        if entry_needs_fetch(cache, games[i].app_id, now) {
            n = n + 1;
        }
    }
    assert(gs.take(games.len() as int) =~= gs);
    #[verifier::truncate]
    (n as u32)
}

/// The games the store has to be asked about: ids of games of `games` with no fresh entry.
pub open spec fn fetch_candidate(games: Seq<GameView>, cache: Map<u32, CachedEntry>, now: u64, id: u32) -> bool {
    exists|i: int| 0 <= i < games.len() && (#[trigger] games[i]).app_id == id && needs_fetch(cache, id, now)
}

pub open spec fn strictly_increasing(s: Seq<u32>) -> bool {
    forall|i: int, j: int| 0 <= i < j < s.len() ==> s[i] < s[j]
}

/// Index at which `id` goes into the increasing `v`: the first entry not below it.
fn insert_position(v: &Vec<u32>, id: u32) -> (p: usize)
    requires
        strictly_increasing(v@),
    ensures
        p <= v@.len(),
        forall|j: int| 0 <= j < p ==> v@[j] < id,
        p < v@.len() ==> v@[p as int] >= id,
{
    let mut p: usize = 0;
    while p < v.len() && v[p] < id
        invariant
            p <= v@.len(),
            forall|j: int| 0 <= j < p ==> v@[j] < id,
        decreases v@.len() - p,
    {
        p = p + 1;
    }
    p
}

/// The ids a scan asks the store about: the smallest candidates, each once, increasing,
/// at most `min(max_fetch, MAX_ENRICH_PER_SCAN)` of them.
pub fn cards_to_fetch(games: &Vec<SteamGame>, cache: &HashMap<u32, CachedEntry>, now: u64, max_fetch: usize) -> (r:
    Vec<u32>)
    ensures
        ({
            let limit = if max_fetch < MAX_ENRICH_PER_SCAN {
                max_fetch
            } else {
                MAX_ENRICH_PER_SCAN
            };
            let gs = game_views(games@);
            &&& strictly_increasing(r@)
            &&& r@.len() <= limit
            &&& forall|i: int| 0 <= i < r@.len() ==> fetch_candidate(gs, cache@, now, #[trigger] r@[i])
            &&& forall|id: u32|
                #[trigger] fetch_candidate(gs, cache@, now, id) ==> r@.contains(id) || (r@.len()
                    == limit && (limit == 0 || id > r@.last()))
        }),
{
    let limit = if max_fetch < MAX_ENRICH_PER_SCAN {
        max_fetch
    } else {
        MAX_ENRICH_PER_SCAN
    };
    let ghost gs = game_views(games@);
    let mut all: Vec<u32> = Vec::new();
    for i in 0..games.len()
        invariant
            gs == game_views(games@),
            strictly_increasing(all@),
            forall|k: int| 0 <= k < all@.len() ==> fetch_candidate(gs, cache@, now, #[trigger] all@[k]),
            forall|k: int|
                0 <= k < i && needs_fetch(cache@, gs[k].app_id, now) ==> all@.contains(
                    #[trigger] gs[k].app_id,
                ),
    {
        let id = games[i].app_id;
        let ghost prev = all@;
        assert(gs[i as int].app_id == id);
        if entry_needs_fetch(cache, id, now) {
            assert(fetch_candidate(gs, cache@, now, id)) by {
                assert(gs[i as int].app_id == id);
            }
            let p = insert_position(&all, id);
            if p < all.len() && all[p] == id {
            } else {
                let ghost before = all@;
                all.insert(p, id);
                assert forall|a: int, b: int| 0 <= a < b < all@.len() implies all@[a] < all@[b] by {
                    if b < p {
                        assert(all@[a] == before[a] && all@[b] == before[b]);
                    } else if b == p {
                        assert(all@[a] == before[a]);
                    } else if a < p {
                        assert(all@[a] == before[a] && all@[b] == before[b - 1]);
                    } else if a == p {
                        assert(all@[b] == before[b - 1]);
                        assert(before[p as int] >= id);
                        if b - 1 > p {
                            assert(before[p as int] < before[b - 1]);
                        }
                    } else {
                        assert(all@[a] == before[a - 1] && all@[b] == before[b - 1]);
                    }
                }
                assert forall|k: int| 0 <= k < all@.len() implies fetch_candidate(gs, cache@, now, #[trigger] all@[k]) by {
                    if k < p {
                        assert(all@[k] == before[k]);
                    } else if k > p {
                        assert(all@[k] == before[k - 1]);
                    }
                }
                assert forall|x: u32| before.contains(x) implies all@.contains(x) by {
                    let k = choose|k: int| 0 <= k < before.len() && before[k] == x;
                    if k < p {
                        assert(all@[k] == x);
                    } else {
                        assert(all@[k + 1] == x);
                    }
                }
                assert(all@[p as int] == id);
            }
            assert(all@.contains(id));
        }
        assert forall|x: u32| prev.contains(x) implies all@.contains(x) by {
            if prev.contains(x) {
            }
        }
        assert forall|k: int| 0 <= k < i + 1 && needs_fetch(cache@, gs[k].app_id, now) implies all@.contains(
            #[trigger] gs[k].app_id,
        ) by {
            if k < i {
                assert(prev.contains(gs[k].app_id));
            }
        }
    }
    assert(gs.take(games.len() as int) =~= gs);
    let ghost full = all@;
    all.truncate(limit);
    proof {
        if limit <= full.len() {
            assert(all@ == full.subrange(0, limit as int));
        } else {
            assert(all@ == full);
        }
        assert forall|id: u32| #[trigger] fetch_candidate(gs, cache@, now, id) implies all@.contains(id) || (all@.len()
            == limit && (limit == 0 || id > all@.last())) by {
            let m = choose|m: int| 0 <= m < gs.len() && (#[trigger] gs[m]).app_id == id && needs_fetch(cache@, id, now);
            assert(full.contains(gs[m].app_id));
            let k = choose|k: int| 0 <= k < full.len() && full[k] == id;
            if k < all@.len() {
                assert(all@[k] == id);
            } else if limit > 0 {
                assert(full[limit - 1] < full[k]);
                assert(all@.last() == full[limit - 1]);
            }
        }
    }
    all
}

/// The cache after storing the answers of one store request at Unix second `now`.
pub open spec fn with_batch(cache: Map<u32, CachedEntry>, batch: Seq<(u32, bool)>, now: u64) -> Map<
    u32,
    CachedEntry,
>
    decreases batch.len(),
{
    if batch.len() == 0 {
        cache
    } else {
        with_batch(cache, batch.drop_last(), now).insert(
            batch.last().0,
            CachedEntry { has_cards: batch.last().1, updated_at: now },
        )
    }
}

/// Stores the answers of one store request, each dated `now`.
pub fn apply_card_batch(cache: &mut HashMap<u32, CachedEntry>, batch: &Vec<(u32, bool)>, now: u64)
    ensures
        final(cache)@ == with_batch(old(cache)@, batch@, now),
{
    let ghost start = cache@;
    for i in 0..batch.len()
        invariant
            cache@ == with_batch(start, batch@.take(i as int), now),
    {
        let (id, has) = batch[i];
        cache.insert(id, CachedEntry { has_cards: has, updated_at: now });
        assert(batch@.take(i + 1).drop_last() =~= batch@.take(i as int));
    }
    assert(batch@.take(batch.len() as int) =~= batch@);
}

/// Whether a store answer lists the trading card category among a game's categories.
pub open spec fn lists_card_category(categories: Option<Seq<Option<u64>>>) -> bool {
    match categories {
        Some(c) => exists|i: int| 0 <= i < c.len() && c[i] == Some(TRADING_CARD_CATEGORY_ID),
        None => false,
    }
}

/// Reads a game's categories (each category's id, where it is a number) for the trading
/// card category.
pub fn has_card_category(categories: &Option<Vec<Option<u64>>>) -> (b: bool)
    ensures
        b == lists_card_category(match categories {
            Some(c) => Some(c@),
            None => None,
        }),
{
    match categories {
        Some(c) => {
            let mut found = false;
            for i in 0..c.len()
                invariant
                    found == exists|j: int| 0 <= j < i && c@[j] == Some(TRADING_CARD_CATEGORY_ID),
            {
                if c[i] == Some(TRADING_CARD_CATEGORY_ID) {
                    found = true;
                }
            }
            found
        },
        None => false,
    }
}

/// The ids joined by commas.
pub open spec fn joined_ids(ids: Seq<u32>) -> Seq<char>
    decreases ids.len(),
{
    if ids.len() == 0 {
        Seq::empty()
    } else if ids.len() == 1 {
        decimal(ids[0] as nat)
    } else {
        joined_ids(ids.drop_last()) + ","@ + decimal(ids.last() as nat)
    }
}

/// The ids written in decimal and joined by commas.
pub fn join_ids(ids: &[u32]) -> (r: Vec<char>)
    ensures
        r@ == joined_ids(ids@),
{
    let mut v: Vec<char> = Vec::new();
    for i in 0..ids.len()
        invariant
            v@ == joined_ids(ids@.take(i as int)),
    {
        assert(ids@.take(i + 1).drop_last() =~= ids@.take(i as int));
        let d = decimal_u64(ids[i] as u64);
        if i > 0 {
            let c = chars_of(",");
            push_all(&mut v, c.as_slice());
        } else {
            assert(v@ =~= Seq::<char>::empty());
        }
        push_all(&mut v, d.as_slice());
    }
    assert(ids@.take(ids.len() as int) =~= ids@);
    v
}

/// URL of the store request about the categories of `ids`.
pub fn appdetails_categories_url(ids: &[u32]) -> (r: String)
    ensures
        r@ == "https://store.steampowered.com/api/appdetails?appids="@ + joined_ids(ids@)
            + "&filters=categories"@,
{
    let mut v = chars_of("https://store.steampowered.com/api/appdetails?appids=");
    let j = join_ids(ids);
    push_all(&mut v, j.as_slice());
    let t = chars_of("&filters=categories");
    push_all(&mut v, t.as_slice());
    string_from_chars(v.as_slice())
}

/// What the status of a category request means: `Ok(true)` when its body is read,
/// `Ok(false)` when it counts as an empty answer, an error when the store is blocked.
pub open spec fn card_status_result(status: u16, cooldown: Seq<char>) -> Result<bool, Seq<char>> {
    if is_block_status(status) {
        Err(cooldown)
    } else {
        Ok(is_success_status(status))
    }
}

/// Handles the status of a category request at Unix second `now`: a blocking status
/// pauses the store and is refused with the pause's message.
pub fn card_batch_status(limiter: &mut RateLimiter, status: u16, now: u64) -> (r: Result<bool, String>)
    requires
        now <= u64::MAX - STORE_COOLDOWN_SECS,
    ensures
        !is_block_status(status) ==> *final(limiter) == *old(limiter),
        match (r, card_status_result(
            status,
            cooldown_text(SteamEndpoint::Store, minutes_ceil(spec_cooldown_secs(SteamEndpoint::Store))),
        )) {
            (Ok(a), Ok(b)) => a == b,
            (Err(a), Err(b)) => a@ == b,
            _ => false,
        },
{
    if report_rate_limited(limiter, SteamEndpoint::Store, status, now) {
        match cooldown_message(limiter, SteamEndpoint::Store, now) {
            Some(m) => Err(m),
            None => {
                let mut v = chars_of("Steam Store blocked requests (HTTP ");
                let d = decimal_u64(status as u64);
                push_all(&mut v, d.as_slice());
                let t = chars_of("). Try again later.");
                push_all(&mut v, t.as_slice());
                Err(string_from_chars(v.as_slice()))
            },
        }
    } else {
        Ok(200 <= status && status <= 299)
    }
}

/// The message of a finished scan.
pub open spec fn enrich_message_text(updated: u32, uncached_before: u32, remaining: u32) -> Seq<char> {
    if updated == 0 {
        if uncached_before == 0 {
            "All games already cached."@
        } else {
            "No new card data fetched. Use Scan again later (rate-limited)."@
        }
    } else if remaining > 0 {
        "Scanned "@ + decimal(updated as nat) + " game(s). "@ + decimal(remaining as nat)
            + " still uncached — run Scan again when ready (max 20 per scan)."@
    } else {
        "Scanned "@ + decimal(updated as nat) + " game(s). Card cache is up to date."@
    }
}

/// The message of a finished scan that stored `updated` answers, with `uncached_before`
/// games uncached before it and `remaining` after it.
pub fn enrich_message(updated: u32, uncached_before: u32, remaining: u32) -> (r: String)
    ensures
        r@ == enrich_message_text(updated, uncached_before, remaining),
{
    if updated == 0 {
        if uncached_before == 0 {
            owned("All games already cached.")
        } else {
            owned("No new card data fetched. Use Scan again later (rate-limited).")
        }
    } else {
        let mut v = chars_of("Scanned ");
        let u = decimal_u64(updated as u64);
        push_all(&mut v, u.as_slice());
        if remaining > 0 {
            let a = chars_of(" game(s). ");
            push_all(&mut v, a.as_slice());
            let r = decimal_u64(remaining as u64);
            push_all(&mut v, r.as_slice());
            let b = chars_of(" still uncached — run Scan again when ready (max 20 per scan).");
            push_all(&mut v, b.as_slice());
        } else {
            let a = chars_of(" game(s). Card cache is up to date.");
            push_all(&mut v, a.as_slice());
        }
        string_from_chars(v.as_slice())
    }
}

/// Where a scan stops before asking the store: with no games, or while the store is
/// paused (`cooldown` is then the pause's message); the games are then marked from the cache.
pub fn enrich_early_exit(
    games: &mut Vec<SteamGame>,
    cache: &HashMap<u32, CachedEntry>,
    now: u64,
    cooldown: Option<String>,
) -> (r: Option<CardEnrichResult>)
    ensures
        old(games)@.len() == 0 ==> (r matches Some(x) && x.updated == 0 && x.remaining_uncached == 0
            && x.message@ == "No games in library."@ && final(games)@ == old(games)@),
        old(games)@.len() > 0 && cooldown is None ==> r is None && final(games)@ == old(games)@,
        old(games)@.len() > 0 && cooldown is Some ==> ({
            &&& r matches Some(x) && x.updated == 0 && x.message@ == cooldown->0@ && x.remaining_uncached
                == uncached_count(game_views(final(games)@), cache@, now) as u32
            &&& final(games)@.len() == old(games)@.len()
            &&& forall|i: int|
                0 <= i < old(games)@.len() ==> (#[trigger] final(games)@[i])@ == marked(old(games)@[i]@, cached_has_cards(cache@, old(games)@[i].app_id))
        }),
{
    if games.len() == 0 {
        return Some(CardEnrichResult { updated: 0, remaining_uncached: 0, message: owned("No games in library.") });
    }
    match cooldown {
        Some(msg) => {
            apply_cached_trading_cards(games, cache);
            let remaining = count_uncached(games, cache, now);
            Some(CardEnrichResult { updated: 0, remaining_uncached: remaining, message: msg })
        },
        None => None,
    }
}

/// The end of a scan that stored `updated` answers: marks the games from the cache and
/// reports.
pub fn finish_enrich(
    games: &mut Vec<SteamGame>,
    cache: &HashMap<u32, CachedEntry>,
    now: u64,
    updated: u32,
    uncached_before: u32,
) -> (r: CardEnrichResult)
    ensures
        final(games)@.len() == old(games)@.len(),
        forall|i: int|
            0 <= i < old(games)@.len() ==> (#[trigger] final(games)@[i])@ == marked(old(games)@[i]@, cached_has_cards(cache@, old(games)@[i].app_id)),
        r.updated == updated,
        r.remaining_uncached == uncached_count(game_views(final(games)@), cache@, now) as u32,
        r.message@ == enrich_message_text(updated, uncached_before, r.remaining_uncached),
{
    apply_cached_trading_cards(games, cache);
    let remaining = count_uncached(games, cache, now);
    let message = enrich_message(updated, uncached_before, remaining);
    CardEnrichResult { updated, remaining_uncached: remaining, message }
}

/// After a batch of answers is stored at Unix second `now`, each game of the batch has a
/// fresh entry holding the answer of its last occurrence in the batch, so a scan at that
/// time does not ask about it again.
pub proof fn law_stored_answers_are_fresh(
    cache: Map<u32, CachedEntry>,
    batch: Seq<(u32, bool)>,
    now: u64,
    k: int,
)
    requires
        0 <= k < batch.len(),
        forall|j: int| k < j < batch.len() ==> batch[j].0 != batch[k].0,
    ensures
        with_batch(cache, batch, now).contains_key(batch[k].0),
        with_batch(cache, batch, now)[batch[k].0] == (CachedEntry { has_cards: batch[k].1, updated_at: now }),
        !needs_fetch(with_batch(cache, batch, now), batch[k].0, now),
    decreases batch.len(),
{
    if k < batch.len() - 1 {
        let prefix = batch.drop_last();
        assert forall|j: int| k < j < prefix.len() implies prefix[j].0 != prefix[k].0 by {
            assert(prefix[j] == batch[j]);
        }
        law_stored_answers_are_fresh(cache, prefix, now, k);
        assert(batch.last().0 != batch[k].0);
    }
}

} // verus!

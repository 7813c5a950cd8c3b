//! Starting and stopping idling and card farming: which games are taken, under which
//! names, and what the settings and the process table look like afterwards.
use vstd::prelude::*;

use crate::idling::{
    dropped_pids, info_view, kept, running_views, source_flags, stop_all_by_source, IdleView,
    ProcessInfo, RunningIdleProcess,
};
use crate::settings::{AppSettings, SettingsView};
use crate::text::{chars_of, decimal, decimal_u64, owned, push_all, string_from_chars};

verus! {

/// A game of the helper's ownership file.
pub struct OwnedGame {
    pub appid: u32,
    pub name: String,
}

/// The name of the first game of `gs` with id `id`.
pub open spec fn first_name(gs: Seq<OwnedGame>, id: u32) -> Option<Seq<char>>
    decreases gs.len(),
{
    if gs.len() == 0 {
        None
    } else if gs[0].appid == id {
        Some(gs[0].name@)
    } else {
        first_name(gs.drop_first(), id)
    }
}

/// The name shown for `id`: the first owned game with that id, else `App <id>`.
pub open spec fn game_name(owned: Option<Seq<OwnedGame>>, id: u32) -> Seq<char> {
    match owned {
        Some(gs) => match first_name(gs, id) {
            Some(n) => n,
            None => "App "@ + decimal(id as nat),
        },
        None => "App "@ + decimal(id as nat),
    }
}

pub open spec fn opt_games(o: Option<&Vec<OwnedGame>>) -> Option<Seq<OwnedGame>> {
    match o {
        Some(v) => Some(v@),
        None => None,
    }
}

fn fallback_name(id: u32) -> (r: String)
    ensures
        r@ == "App "@ + decimal(id as nat),
{
    let mut v = chars_of("App ");
    let d = decimal_u64(id as u64);
    push_all(&mut v, d.as_slice());
    string_from_chars(v.as_slice())
}

fn name_for(owned: Option<&Vec<OwnedGame>>, id: u32) -> (r: String)
    ensures
        r@ == game_name(opt_games(owned), id),
{
    match owned {
        Some(gs) => {
            assert(gs@.skip(0) =~= gs@);
            for k in 0..gs.len()
                invariant
                    opt_games(owned) == Some(gs@),
                    first_name(gs@, id) == first_name(gs@.skip(k as int), id),
            {
                assert(gs@.skip(k as int).drop_first() =~= gs@.skip(k + 1));
                if gs[k].appid == id {
                    return gs[k].name.clone();
                }
            }
            fallback_name(id)
        },
        None => fallback_name(id),
    }
}

/// Each id with the name it is shown under. `owned` is the helper's ownership file, when
/// it could be read.
pub fn game_names_for_ids(app_ids: &[u32], owned: Option<&Vec<OwnedGame>>) -> (r: Vec<(u32, String)>)
    ensures
        r@.len() == app_ids@.len(),
        forall|i: int| 0 <= i < app_ids@.len() ==> (#[trigger] r@[i]).0 == app_ids@[i] && r@[i].1@ == game_name(opt_games(owned), app_ids@[i]),
{
    let mut r: Vec<(u32, String)> = Vec::new();
    for i in 0..app_ids.len()
        invariant
            r@.len() == i,
            forall|j: int| 0 <= j < i ==> (#[trigger] r@[j]).0 == app_ids@[j] && r@[j].1@ == game_name(opt_games(owned), app_ids@[j]),
    {
        let id = app_ids[i];
        r.push((id, name_for(owned, id)));
    }
    r
}

/// How many games card farming runs at once: the setting, within 1..=32.
pub open spec fn farm_limit_of(max_idle_games: u32) -> int {
    if max_idle_games < 1 {
        1
    } else if max_idle_games > 32 {
        32
    } else {
        max_idle_games as int
    }
}

pub fn farm_limit(max_idle_games: u32) -> (r: usize)
    ensures
        r == farm_limit_of(max_idle_games),
{
    let m = if max_idle_games < 1 {
        1
    } else if max_idle_games > 32 {
        32
    } else {
        max_idle_games
    };
    m as usize
}

/// Card farming needs games and a running Steam client.
pub fn farm_precheck(app_ids: &[u32], steam_running: bool) -> (r: Result<(), String>)
    ensures
        app_ids@.len() == 0 ==> (r matches Err(e) && e@ == "No games selected for card farming."@),
        app_ids@.len() > 0 && !steam_running ==> (r matches Err(e) && e@ == "Steam client is not running."@),
        app_ids@.len() > 0 && steam_running ==> r is Ok,
{
    if app_ids.len() == 0 {
        return Err(owned("No games selected for card farming."));
    }
    if !steam_running {
        return Err(owned("Steam client is not running."));
    }
    Ok(())
}

/// The games card farming starts: the first [`farm_limit`] of `app_ids`, with their names.
pub fn farm_games(app_ids: &[u32], max_idle_games: u32, owned: Option<&Vec<OwnedGame>>) -> (r: Vec<(u32, String)>)
    ensures
        r@.len() == if app_ids@.len() < farm_limit_of(max_idle_games) {
            app_ids@.len() as int
        } else {
            farm_limit_of(max_idle_games)
        },
        forall|i: int| 0 <= i < r@.len() ==> (#[trigger] r@[i]).0 == app_ids@[i] && r@[i].1@ == game_name(opt_games(owned), app_ids@[i]),
{
    let mut games = game_names_for_ids(app_ids, owned);
    let limit = farm_limit(max_idle_games);
    games.truncate(limit);
    games
}

/// Idling needs a running Steam client; with no games there is nothing to start
/// (`Ok(false)`).
pub fn idle_precheck(app_ids: &[u32], steam_running: bool) -> (r: Result<bool, String>)
    ensures
        app_ids@.len() == 0 ==> r == Ok::<bool, String>(false),
        app_ids@.len() > 0 && !steam_running ==> (r matches Err(e) && e@ == "Steam client is not running."@),
        app_ids@.len() > 0 && steam_running ==> r == Ok::<bool, String>(true),
{
    if app_ids.len() == 0 {
        return Ok(false);
    }
    if !steam_running {
        return Err(owned("Steam client is not running."));
    }
    Ok(true)
}

/// The ids of a list of named games, in order.
pub fn game_ids(games: &Vec<(u32, String)>) -> (r: Vec<u32>)
    ensures
        r@ == games@.map_values(|g: (u32, String)| g.0),
{
    let mut r: Vec<u32> = Vec::new();
    for i in 0..games.len()
        invariant
            r@ == games@.take(i as int).map_values(|g: (u32, String)| g.0),
    {
        r.push(games[i].0);
        assert(games@.take(i + 1).map_values(|g: (u32, String)| g.0) =~= games@.take(i as int).map_values(
            |g: (u32, String)| g.0,
        ).push(games@[i as int].0));
    }
    assert(games@.take(games.len() as int) =~= games@);
    r
}

/// The settings after card farming started on `ids`.
pub open spec fn farm_started(s: SettingsView, ids: Seq<u32>) -> SettingsView {
    SettingsView { farm_game_ids: ids, card_farming_enabled: true, ..s }
}

/// Remembers the farmed games and that farming is on.
pub fn record_farm_started(settings: &mut AppSettings, ids: Vec<u32>)
    ensures
        final(settings)@ == farm_started(old(settings)@, ids@),
{
    settings.farm_game_ids = ids;
    settings.card_farming_enabled = true;
}

/// Stops card farming: removes the farming processes (their pids are returned, for
/// stopping) and turns farming off in the settings.
pub fn stop_farm<C>(processes: &mut Vec<ProcessInfo<C>>, settings: &mut AppSettings) -> (pids: Vec<u32>)
    ensures
        final(processes)@ == kept(old(processes)@, source_flags(old(processes)@, "farm"@)),
        pids@ == dropped_pids(old(processes)@, source_flags(old(processes)@, "farm"@)),
        final(settings)@ == (SettingsView { card_farming_enabled: false, ..old(settings)@ }),
{
    let pids = stop_all_by_source(processes, "farm");
    settings.card_farming_enabled = false;
    pids
}

/// Stops idling: removes the idling processes and returns their pids.
pub fn stop_all_idle<C>(processes: &mut Vec<ProcessInfo<C>>) -> (pids: Vec<u32>)
    ensures
        final(processes)@ == kept(old(processes)@, source_flags(old(processes)@, "idle"@)),
        pids@ == dropped_pids(old(processes)@, source_flags(old(processes)@, "idle"@)),
{
    stop_all_by_source(processes, "idle")
}

/// How many reported processes were started by `source`.
pub open spec fn count_source(v: Seq<IdleView>, source: Seq<char>) -> nat
    decreases v.len(),
{
    if v.len() == 0 {
        0
    } else {
        count_source(v.drop_last(), source) + if v.last().source == source {
            1nat
        } else {
            0nat
        }
    }
}

/// How many processes farm cards.
pub fn farm_process_count(running: &Vec<RunningIdleProcess>) -> (n: usize)
    ensures
        n == count_source(running_views(running@), "farm"@),
{
    let ghost vs = running_views(running@);
    let mut n: usize = 0;
    let farm = chars_of("farm");
    for i in 0..running.len()
        invariant
            vs == running_views(running@),
            farm@ == "farm"@,
            n == count_source(vs.take(i as int), "farm"@),
            n <= i,
    {
        assert(vs.take(i + 1).drop_last() =~= vs.take(i as int));
        let s = chars_of(running[i].source.as_str());
        if crate::text::chars_eq(s.as_slice(), farm.as_slice()) {
            n = n + 1;
        }
    }
    assert(vs.take(running.len() as int) =~= vs);
    n
}

proof fn lemma_kept_sources<C>(ps: Seq<ProcessInfo<C>>, drop: Seq<bool>, source: Seq<char>)
    requires
        drop.len() == ps.len(),
        forall|i: int| 0 <= i < ps.len() ==> drop[i] == (ps[i].source@ == source),
    ensures
        forall|i: int| 0 <= i < kept(ps, drop).len() ==> (#[trigger] kept(ps, drop)[i]).source@ != source,
        forall|i: int|
            0 <= i < ps.len() && ps[i].source@ != source ==> kept(ps, drop).contains(#[trigger] ps[i]),
    decreases ps.len(),
{
    if ps.len() > 0 {
        let rest = ps.drop_first();
        let drest = drop.drop_first();
        assert forall|i: int| 0 <= i < rest.len() implies drest[i] == (rest[i].source@ == source) by {
            assert(drest[i] == drop[i + 1]);
        }
        lemma_kept_sources(rest, drest, source);
        let k = kept(ps, drop);
        let kr = kept(rest, drest);
        if drop[0] {
            assert(k == kr);
            assert forall|i: int| 0 <= i < ps.len() && ps[i].source@ != source implies k.contains(#[trigger] ps[i]) by {
                assert(i > 0);
                assert(rest[i - 1] == ps[i]);
            }
        } else {
            assert(k == seq![ps[0]] + kr);
            assert forall|i: int| 0 <= i < k.len() implies (#[trigger] k[i]).source@ != source by {
                if i > 0 {
                    assert(k[i] == kr[i - 1]);
                }
            }
            assert forall|i: int| 0 <= i < ps.len() && ps[i].source@ != source implies k.contains(#[trigger] ps[i]) by {
                if i == 0 {
                    assert(k[0] == ps[0]);
                } else {
                    assert(rest[i - 1] == ps[i]);
                    assert(kr.contains(ps[i]));
                    let m = choose|m: int| 0 <= m < kr.len() && kr[m] == ps[i];
                    assert(k[m + 1] == ps[i]);
                }
            }
        }
    }
}

/// Stopping everything a source started leaves no process of that source, and keeps every
/// process of other sources.
pub proof fn law_stop_source_removes_only_it<C>(ps: Seq<ProcessInfo<C>>, source: Seq<char>)
    ensures
        forall|i: int|
            0 <= i < kept(ps, source_flags(ps, source)).len() ==> (#[trigger] kept(ps, source_flags(ps, source))[i]).source@ != source,
        forall|i: int|
            0 <= i < ps.len() && ps[i].source@ != source ==> kept(ps, source_flags(ps, source)).contains(#[trigger] ps[i]),
{
    lemma_kept_sources(ps, source_flags(ps, source), source);
}

} // verus!

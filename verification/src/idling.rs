//! The table of idling processes this application started. Each entry carries the handle
//! of its process (`C`), which only the code that starts and stops processes uses; the
//! table itself is kept here: what is removed when, and what is reported.
use vstd::prelude::*;

use crate::text::{chars_of, decimal, decimal_u64, eq_ignore_ascii_case, eq_ignore_case_chars, owned, push_all, string_from_chars};

verus! {

/// A started idling process: its handle, the game it idles, its pid, the game's name and
/// what started it (`"idle"` or `"farm"`).
pub struct ProcessInfo<C> {
    pub child: C,
    pub app_id: u32,
    pub pid: u32,
    pub name: String,
    pub source: String,
}

/// An idling process as reported.
pub struct RunningIdleProcess {
    pub app_id: u32,
    pub pid: u32,
    pub name: String,
    pub source: String,
}

/// Mathematical model of [`RunningIdleProcess`].
pub struct IdleView {
    pub app_id: u32,
    pub pid: u32,
    pub name: Seq<char>,
    pub source: Seq<char>,
}

impl View for RunningIdleProcess {
    type V = IdleView;

    open spec fn view(&self) -> IdleView {
        IdleView { app_id: self.app_id, pid: self.pid, name: self.name@, source: self.source@ }
    }
}

pub open spec fn info_view<C>(p: ProcessInfo<C>) -> IdleView {
    IdleView { app_id: p.app_id, pid: p.pid, name: p.name@, source: p.source@ }
}

pub open spec fn running_views(v: Seq<RunningIdleProcess>) -> Seq<IdleView> {
    v.map_values(|p: RunningIdleProcess| p@)
}

/// The entries of `ps` whose flag in `drop` is false, in order.
pub open spec fn kept<C>(ps: Seq<ProcessInfo<C>>, drop: Seq<bool>) -> Seq<ProcessInfo<C>>
    decreases ps.len(),
{
    if ps.len() == 0 {
        ps
    } else if drop.len() > 0 && drop[0] {
        kept(ps.drop_first(), drop.drop_first())
    } else {
        seq![ps[0]] + kept(ps.drop_first(), drop.drop_first())
    }
}

/// The pids of the entries of `ps` whose flag in `drop` is true, in order.
pub open spec fn dropped_pids<C>(ps: Seq<ProcessInfo<C>>, drop: Seq<bool>) -> Seq<u32>
    decreases ps.len(),
{
    if ps.len() == 0 {
        Seq::empty()
    } else if drop.len() > 0 && drop[0] {
        seq![ps[0].pid] + dropped_pids(ps.drop_first(), drop.drop_first())
    } else {
        dropped_pids(ps.drop_first(), drop.drop_first())
    }
}

/// Flags of the entries started by `source`.
pub open spec fn source_flags<C>(ps: Seq<ProcessInfo<C>>, source: Seq<char>) -> Seq<bool> {
    Seq::new(ps.len(), |i: int| ps[i].source@ == source)
}

/// Flags of the entries idling `app_id`.
pub open spec fn app_flags<C>(ps: Seq<ProcessInfo<C>>, app_id: u32) -> Seq<bool> {
    Seq::new(ps.len(), |i: int| ps[i].app_id == app_id)
}

proof fn lemma_kept_step<C>(ps: Seq<ProcessInfo<C>>, drop: Seq<bool>, j: int)
    requires
        0 <= j < ps.len(),
        ps.len() == drop.len(),
    ensures
        kept(ps.skip(j), drop.skip(j)) == if drop[j] {
            kept(ps.skip(j + 1), drop.skip(j + 1))
        } else {
            seq![ps[j]] + kept(ps.skip(j + 1), drop.skip(j + 1))
        },
        dropped_pids(ps.skip(j), drop.skip(j)) == if drop[j] {
            seq![ps[j].pid] + dropped_pids(ps.skip(j + 1), drop.skip(j + 1))
        } else {
            dropped_pids(ps.skip(j + 1), drop.skip(j + 1))
        },
{
    assert(ps.skip(j).drop_first() =~= ps.skip(j + 1));
    assert(drop.skip(j).drop_first() =~= drop.skip(j + 1));
}

/// Removes the entries flagged in `drop` and gives their pids, in order.
fn remove_flagged<C>(processes: &mut Vec<ProcessInfo<C>>, drop: &[bool]) -> (pids: Vec<u32>)
    requires
        old(processes)@.len() == drop@.len(),
    ensures
        final(processes)@ == kept(old(processes)@, drop@),
        pids@ == dropped_pids(old(processes)@, drop@),
{
    let ghost start = processes@;
    let mut pids: Vec<u32> = Vec::new();
    let mut i: usize = 0;
    let mut j: usize = 0;
    assert(start.skip(0) =~= start);
    assert(drop@.skip(0) =~= drop@);
    assert(processes@.subrange(0, 0) + kept(start.skip(0), drop@.skip(0)) =~= kept(start, drop@));
    assert(pids@ + dropped_pids(start.skip(0), drop@.skip(0)) =~= dropped_pids(start, drop@));
    while j < drop.len()
        invariant
            start.len() == drop@.len(),
            j <= drop@.len(),
            i <= j,
            processes@.len() == i + (start.len() - j),
            processes@.skip(i as int) == start.skip(j as int),
            processes@.subrange(0, i as int) + kept(start.skip(j as int), drop@.skip(j as int)) == kept(
                start,
                drop@,
            ),
            pids@ + dropped_pids(start.skip(j as int), drop@.skip(j as int)) == dropped_pids(start, drop@),
        decreases drop@.len() - j,
    {
        proof {
            lemma_kept_step(start, drop@, j as int);
        }
        assert(processes@[i as int] == start[j as int]) by {
            assert(processes@.skip(i as int)[0] == start.skip(j as int)[0]);
        }
        let ghost before = processes@;
        let ghost pb = pids@;
        if drop[j] {
            let p = processes.remove(i);
            pids.push(p.pid);
            assert(processes@.skip(i as int) =~= before.skip(i as int).drop_first());
            assert(before.skip(i as int).drop_first() =~= start.skip(j as int).drop_first());
            assert(start.skip(j as int).drop_first() =~= start.skip(j + 1));
            assert(processes@.subrange(0, i as int) =~= before.subrange(0, i as int));
            assert(pids@ =~= pb.push(start[j as int].pid));
            assert(pb + (seq![start[j as int].pid] + dropped_pids(start.skip(j + 1), drop@.skip(j + 1)))
                =~= pb.push(start[j as int].pid) + dropped_pids(start.skip(j + 1), drop@.skip(j + 1)));
        } else {
            assert(processes@.skip(i + 1) =~= start.skip(j + 1)) by {
                assert(before.skip(i + 1) =~= before.skip(i as int).drop_first());
                assert(start.skip(j + 1) =~= start.skip(j as int).drop_first());
            }
            assert(processes@.subrange(0, i + 1) =~= before.subrange(0, i as int).push(start[j as int]));
            assert(before.subrange(0, i as int) + (seq![start[j as int]] + kept(start.skip(j + 1), drop@.skip(j + 1)))
                =~= before.subrange(0, i as int).push(start[j as int]) + kept(start.skip(j + 1), drop@.skip(j + 1)));
            i = i + 1;
        }
        j = j + 1;
    }
    assert(start.skip(j as int) =~= Seq::<ProcessInfo<C>>::empty());
    assert(processes@.subrange(0, i as int) =~= processes@);
    assert(processes@ + Seq::<ProcessInfo<C>>::empty() =~= processes@);
    assert(pids@ + Seq::<u32>::empty() =~= pids@);
    pids
}

/// Drops the entries whose process has ended; `finished` says, entry by entry, whether
/// waiting on its process found it ended (or failed).
pub fn cleanup_dead_processes<C>(processes: &mut Vec<ProcessInfo<C>>, finished: &[bool])
    requires
        old(processes)@.len() == finished@.len(),
    ensures
        final(processes)@ == kept(old(processes)@, finished@),
{
    let _ = remove_flagged(processes, finished);
}

fn strings_equal(a: &String, b: &str) -> (r: bool)
    ensures
        r == (a@ == b@),
{
    let x = chars_of(a.as_str());
    let y = chars_of(b);
    crate::text::chars_eq(x.as_slice(), y.as_slice())
}

/// Removes every entry started by `source` and gives their pids, in order, for stopping.
pub fn stop_all_by_source<C>(processes: &mut Vec<ProcessInfo<C>>, source: &str) -> (pids: Vec<u32>)
    ensures
        final(processes)@ == kept(old(processes)@, source_flags(old(processes)@, source@)),
        pids@ == dropped_pids(old(processes)@, source_flags(old(processes)@, source@)),
{
    let mut flags: Vec<bool> = Vec::new();
    for i in 0..processes.len()
        invariant
            flags@.len() == i,
            forall|k: int| 0 <= k < i ==> flags@[k] == (processes@[k].source@ == source@),
    {
        flags.push(strings_equal(&processes[i].source, source));
    }
    assert(flags@ =~= source_flags(processes@, source@));
    remove_flagged(processes, flags.as_slice())
}

/// Removes the card farming processes and gives their pids.
pub fn stop_farm_idle<C>(processes: &mut Vec<ProcessInfo<C>>) -> (pids: Vec<u32>)
    ensures
        final(processes)@ == kept(old(processes)@, source_flags(old(processes)@, "farm"@)),
        pids@ == dropped_pids(old(processes)@, source_flags(old(processes)@, "farm"@)),
{
    stop_all_by_source(processes, "farm")
}

/// The pid of the first entry idling `app_id`.
pub fn idle_pid_for<C>(processes: &Vec<ProcessInfo<C>>, app_id: u32) -> (r: Result<u32, String>)
    ensures
        match r {
            Ok(pid) => exists|k: int|
                0 <= k < processes@.len() && processes@[k].app_id == app_id && processes@[k].pid == pid
                    && forall|m: int| 0 <= m < k ==> processes@[m].app_id != app_id,
            Err(e) => e@ == "No idle process for app "@ + decimal(app_id as nat) && forall|k: int|
                0 <= k < processes@.len() ==> processes@[k].app_id != app_id,
        },
{
    for i in 0..processes.len()
        invariant
            forall|m: int| 0 <= m < i ==> processes@[m].app_id != app_id,
    {
        if processes[i].app_id == app_id {
            return Ok(processes[i].pid);
        }
    }
    let mut v = chars_of("No idle process for app ");
    let d = decimal_u64(app_id as u64);
    push_all(&mut v, d.as_slice());
    Err(string_from_chars(v.as_slice()))
}

/// Stops idling `app_id`: without an entry idling it, the error `No idle process for app
/// <id>`; else, after its process was asked to stop (`killed` is the outcome), drops every
/// entry idling `app_id`. A failed stop leaves the table as it is.
pub fn stop_idle<C>(processes: &mut Vec<ProcessInfo<C>>, app_id: u32, killed: Result<(), String>) -> (r:
    Result<(), String>)
    ensures
        !(exists|k: int| 0 <= k < old(processes)@.len() && old(processes)@[k].app_id == app_id) ==> (r matches Err(
            x,
        ) && x@ == "No idle process for app "@ + decimal(app_id as nat) && final(processes)@ == old(processes)@),
        (exists|k: int| 0 <= k < old(processes)@.len() && old(processes)@[k].app_id == app_id) ==> match killed {
            Err(e) => r matches Err(x) && x@ == e@ && final(processes)@ == old(processes)@,
            Ok(()) => r is Ok && final(processes)@ == kept(old(processes)@, app_flags(old(processes)@, app_id)),
        },
{
    if let Err(e) = idle_pid_for(processes, app_id) {
        return Err(e);
    }
    match killed {
        Err(e) => Err(e),
        Ok(()) => {
            let mut flags: Vec<bool> = Vec::new();
            for i in 0..processes.len()
                invariant
                    flags@.len() == i,
                    forall|k: int| 0 <= k < i ==> flags@[k] == (processes@[k].app_id == app_id),
            {
                flags.push(processes[i].app_id == app_id);
            }
            assert(flags@ =~= app_flags(processes@, app_id));
            let _ = remove_flagged(processes, flags.as_slice());
            Ok(())
        },
    }
}

/// The idling processes still running: drops the entries whose process has ended
/// (`finished` says, entry by entry, whether waiting on its process found it ended or
/// failed), and reports the others, in order.
pub fn list_running<C>(processes: &mut Vec<ProcessInfo<C>>, finished: &[bool]) -> (r: Vec<RunningIdleProcess>)
    requires
        old(processes)@.len() == finished@.len(),
    ensures
        final(processes)@ == kept(old(processes)@, finished@),
        running_views(r@) == kept(old(processes)@, finished@).map_values(|p: ProcessInfo<C>| info_view(p)),
{
    cleanup_dead_processes(processes, finished);
    let mut r: Vec<RunningIdleProcess> = Vec::new();
    for i in 0..processes.len()
        invariant
            r@.len() == i,
            forall|k: int| 0 <= k < i ==> (#[trigger] r@[k])@ == info_view(processes@[k]),
    {
        let p = &processes[i];
        r.push(RunningIdleProcess { app_id: p.app_id, pid: p.pid, name: p.name.clone(), source: p.source.clone() });
    }
    assert(running_views(r@) =~= processes@.map_values(|p: ProcessInfo<C>| info_view(p)));
    r
}

/// A live entry idles `app_id`.
pub open spec fn has_live_entry<C>(ps: Seq<ProcessInfo<C>>, alive: Seq<bool>, app_id: u32) -> bool {
    exists|k: int| 0 <= k < ps.len() && ps[k].app_id == app_id && alive[k]
}

fn live_entry_exists<C>(processes: &Vec<ProcessInfo<C>>, alive: &[bool], app_id: u32) -> (b: bool)
    requires
        processes@.len() == alive@.len(),
    ensures
        b == has_live_entry(processes@, alive@, app_id),
{
    for k in 0..processes.len()
        invariant
            processes@.len() == alive@.len(),
            forall|q: int| 0 <= q < k ==> !(processes@[q].app_id == app_id && alive@[q]),
    {
        if processes[k].app_id == app_id && alive[k] {
            return true;
        }
    }
    false
}

/// Whether every game of `app_ids` has a live entry; `alive` says, entry by entry, whether
/// its process still runs. The first game without one is reported.
pub fn check_spawned<C>(processes: &Vec<ProcessInfo<C>>, alive: &[bool], app_ids: &[u32]) -> (r: Result<(), String>)
    requires
        processes@.len() == alive@.len(),
    ensures
        match r {
            Ok(()) => forall|j: int| 0 <= j < app_ids@.len() ==> has_live_entry(processes@, alive@, #[trigger] app_ids@[j]),
            Err(e) => exists|j: int|
                0 <= j < app_ids@.len() && e@ == "Failed to start idling for app "@ + decimal(app_ids@[j] as nat)
                    && !has_live_entry(processes@, alive@, app_ids@[j])
                    && forall|m: int| 0 <= m < j ==> has_live_entry(processes@, alive@, #[trigger] app_ids@[m]),
        },
{
    for j in 0..app_ids.len()
        invariant
            processes@.len() == alive@.len(),
            forall|m: int| 0 <= m < j ==> has_live_entry(processes@, alive@, #[trigger] app_ids@[m]),
    {
        let id = app_ids[j];
        if !live_entry_exists(processes, alive, id) {
            let mut v = chars_of("Failed to start idling for app ");
            let d = decimal_u64(id as u64);
            push_all(&mut v, d.as_slice());
            let e = string_from_chars(v.as_slice());
            assert(e@ == "Failed to start idling for app "@ + decimal(app_ids@[j as int] as nat));
            return Err(e);
        }
    }
    Ok(())
}

/// Whether a process name is the idling helper's (any ASCII case).
pub fn is_utility_process_name(name: &str) -> (b: bool)
    ensures
        b == (eq_ignore_ascii_case(name@, "steamsuiteutility.exe"@) || eq_ignore_ascii_case(
            name@,
            "steamsuiteutility"@,
        )),
{
    let n = chars_of(name);
    let a = chars_of("steamsuiteutility.exe");
    let b = chars_of("steamsuiteutility");
    eq_ignore_case_chars(n.as_slice(), a.as_slice()) || eq_ignore_case_chars(n.as_slice(), b.as_slice())
}

/// The helper's arguments to idle a game: `idle`, the app id, the game's name.
pub fn idle_command_args(app_id: u32, name: &str) -> (r: Vec<String>)
    ensures
        r@.len() == 3,
        r@[0]@ == "idle"@,
        r@[1]@ == decimal(app_id as nat),
        r@[2]@ == name@,
{
    let mut r: Vec<String> = Vec::new();
    r.push(owned("idle"));
    let d = decimal_u64(app_id as u64);
    r.push(string_from_chars(d.as_slice()));
    r.push(owned(name));
    r
}

} // verus!

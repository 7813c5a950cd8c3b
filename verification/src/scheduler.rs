//! The scheduler: a chain of automation tasks run one after another.
use vstd::prelude::*;

use crate::settings::{copy_strings, string_views};
use crate::text::{chars_of, concat, owned, string_from_chars};

verus! {

/// Progress of the scheduler chain.
pub struct SchedulerStatus {
    pub running: bool,
    pub current_task: Option<String>,
    pub completed_tasks: Vec<String>,
    pub last_error: Option<String>,
}

/// Mathematical model of [`SchedulerStatus`].
pub struct StatusView {
    pub running: bool,
    pub current_task: Option<Seq<char>>,
    pub completed_tasks: Seq<Seq<char>>,
    pub last_error: Option<Seq<char>>,
}

pub open spec fn opt_view(o: Option<String>) -> Option<Seq<char>> {
    match o {
        Some(s) => Some(s@),
        None => None,
    }
}

impl View for SchedulerStatus {
    type V = StatusView;

    open spec fn view(&self) -> StatusView {
        StatusView {
            running: self.running,
            current_task: opt_view(self.current_task),
            completed_tasks: string_views(self.completed_tasks@),
            last_error: opt_view(self.last_error),
        }
    }
}

/// The scheduler's state.
pub struct SchedulerState {
    pub status: SchedulerStatus,
}

/// The status of a scheduler that never ran.
pub open spec fn idle_status() -> StatusView {
    StatusView {
        running: false,
        current_task: None,
        completed_tasks: Seq::empty(),
        last_error: None,
    }
}

impl Default for SchedulerState {
    fn default() -> (r: SchedulerState)
        ensures
            r.status@ == idle_status(),
    {
        let r = SchedulerState {
            status: SchedulerStatus {
                running: false,
                current_task: None,
                completed_tasks: Vec::new(),
                last_error: None,
            },
        };
        assert(string_views(r.status.completed_tasks@) =~= Seq::<Seq<char>>::empty());
        r
    }
}

/// The task at index `i` of the chain, if there is one.
pub open spec fn task_at(tasks: Seq<Seq<char>>, i: int) -> Option<Seq<char>> {
    if 0 <= i < tasks.len() {
        Some(tasks[i])
    } else {
        None
    }
}

/// Status after starting the chain `tasks`.
pub open spec fn started(st: StatusView, tasks: Seq<Seq<char>>) -> StatusView {
    StatusView {
        running: true,
        completed_tasks: Seq::empty(),
        last_error: None,
        current_task: task_at(tasks, 0),
    }
}

/// Status after the current task finished.
pub open spec fn advanced(st: StatusView, tasks: Seq<Seq<char>>) -> StatusView {
    let done = match st.current_task {
        Some(t) => st.completed_tasks.push(t),
        None => st.completed_tasks,
    };
    let next = task_at(tasks, done.len() as int);
    StatusView {
        running: if next is None {
            false
        } else {
            st.running
        },
        current_task: next,
        completed_tasks: done,
        last_error: st.last_error,
    }
}

/// Status after stopping.
pub open spec fn stopped(st: StatusView) -> StatusView {
    StatusView { running: false, current_task: None, ..st }
}

/// Status after `k` tasks finished in a row.
pub open spec fn advanced_n(st: StatusView, tasks: Seq<Seq<char>>, k: nat) -> StatusView
    decreases k,
{
    if k == 0 {
        st
    } else {
        advanced(advanced_n(st, tasks, (k - 1) as nat), tasks)
    }
}

fn copy_string_opt(o: &Option<String>) -> (r: Option<String>)
    ensures
        opt_view(r) == opt_view(*o),
{
    match o {
        Some(s) => Some(s.clone()),
        None => None,
    }
}

impl SchedulerStatus {
    /// A copy with the same contents.
    pub fn duplicate(&self) -> (r: SchedulerStatus)
        ensures
            r@ == self@,
    {
        let done = copy_strings(&self.completed_tasks);
        SchedulerStatus {
            running: self.running,
            current_task: copy_string_opt(&self.current_task),
            completed_tasks: done,
            last_error: copy_string_opt(&self.last_error),
        }
    }
}

impl SchedulerState {
    /// Starts the chain: the first task becomes current, nothing is completed, no error.
    pub fn start(&mut self, tasks: &[String])
        ensures
            final(self).status@ == started(old(self).status@, string_views(tasks@)),
    {
        self.status.running = true;
        self.status.completed_tasks = Vec::new();
        self.status.last_error = None;
        self.status.current_task = if tasks.len() > 0 {
            Some(tasks[0].clone())
        } else {
            None
        };
        assert(string_views(self.status.completed_tasks@) =~= Seq::<Seq<char>>::empty());
    }

    /// Marks the current task completed and moves to the next one of `tasks`; the
    /// chain stops running when there is none.
    pub fn advance(&mut self, tasks: &[String])
        ensures
            final(self).status@ == advanced(old(self).status@, string_views(tasks@)),
    {
        let ghost before = self.status@;
        let current = self.status.current_task.take();
        if let Some(c) = current {
            let ghost cv = c@;
            self.status.completed_tasks.push(c);
            assert(string_views(self.status.completed_tasks@) =~= before.completed_tasks.push(cv));
        }
        let done = self.status.completed_tasks.len();
        self.status.current_task = if done < tasks.len() {
            Some(tasks[done].clone())
        } else {
            None
        };
        if self.status.current_task.is_none() {
            self.status.running = false;
        }
    }

    /// Stops the chain: not running, no current task.
    pub fn stop(&mut self)
        ensures
            final(self).status@ == stopped(old(self).status@),
    {
        self.status.running = false;
        self.status.current_task = None;
    }

    /// The task to run next: the current one while the chain is running.
    pub fn next_task(&self) -> (r: Option<String>)
        ensures
            opt_view(r) == (if self.status@.running {
                self.status@.current_task
            } else {
                None
            }),
    {
        if !self.status.running {
            return None;
        }
        copy_string_opt(&self.status.current_task)
    }

    /// Records how task `task_id` ended and moves on: a failure is kept as
    /// `"<task_id>: <error>"` in `last_error`, then the chain advances.
    pub fn finish_task(&mut self, task_id: &str, result: Result<(), String>, tasks: &[String])
        ensures
            final(self).status@ == advanced(
                match result {
                    Ok(_) => old(self).status@,
                    Err(e) => StatusView {
                        last_error: Some(task_id@ + ": "@ + e@),
                        ..old(self).status@
                    },
                },
                string_views(tasks@),
            ),
    {
        if let Err(error) = result {
            let id = chars_of(task_id);
            let sep = chars_of(": ");
            let e = chars_of(error.as_str());
            let a = concat(id.as_slice(), sep.as_slice());
            let m = concat(a.as_slice(), e.as_slice());
            self.status.last_error = Some(string_from_chars(m.as_slice()));
        }
        self.advance(tasks);
    }

    /// Records a failure of the whole chain and stops it.
    pub fn fail(&mut self, error: String)
        ensures
            final(self).status@ == stopped(
                StatusView { last_error: Some(error@), ..old(self).status@ },
            ),
    {
        self.status.last_error = Some(error);
        self.stop();
    }
}

/// The automation tasks that a chain can hold.
pub enum SchedulerTask {
    CardFarming,
    AutoIdler,
    Giveaways,
    Redeem,
}

pub open spec fn task_for_id(id: Seq<char>) -> Option<SchedulerTask> {
    if id == "card-farming"@ {
        Some(SchedulerTask::CardFarming)
    } else if id == "auto-idler"@ {
        Some(SchedulerTask::AutoIdler)
    } else if id == "giveaways"@ {
        Some(SchedulerTask::Giveaways)
    } else if id == "redeem"@ {
        Some(SchedulerTask::Redeem)
    } else {
        None
    }
}

/// The task a chain entry names, or the error for an unknown one.
pub fn scheduler_task(task_id: &str) -> (r: Result<SchedulerTask, String>)
    ensures
        match task_for_id(task_id@) {
            Some(t) => r == Ok::<SchedulerTask, String>(t),
            None => r matches Err(e) && e@ == "Unknown scheduler task: "@ + task_id@,
        },
{
    let id = chars_of(task_id);
    let cf = chars_of("card-farming");
    let ai = chars_of("auto-idler");
    let gw = chars_of("giveaways");
    let rd = chars_of("redeem");
    if crate::text::chars_eq(id.as_slice(), cf.as_slice()) {
        Ok(SchedulerTask::CardFarming)
    } else if crate::text::chars_eq(id.as_slice(), ai.as_slice()) {
        Ok(SchedulerTask::AutoIdler)
    } else if crate::text::chars_eq(id.as_slice(), gw.as_slice()) {
        Ok(SchedulerTask::Giveaways)
    } else if crate::text::chars_eq(id.as_slice(), rd.as_slice()) {
        Ok(SchedulerTask::Redeem)
    } else {
        let p = chars_of("Unknown scheduler task: ");
        let m = concat(p.as_slice(), id.as_slice());
        Err(string_from_chars(m.as_slice()))
    }
}

/// Starting a chain and finishing `k` of its tasks leaves the first `k` tasks completed (all
/// of them once `k` reaches their number), in order, the next one current, and the chain
/// running until the last task finished; advancing further changes nothing more.
pub proof fn law_chain_progress(st: StatusView, tasks: Seq<Seq<char>>, k: nat)
    ensures
        advanced_n(started(st, tasks), tasks, k) == (StatusView {
            running: k < tasks.len() || (k == 0),
            current_task: task_at(tasks, k as int),
            completed_tasks: tasks.take(if k <= tasks.len() {
                k as int
            } else {
                tasks.len() as int
            }),
            last_error: None,
        }),
    decreases k,
{
    if k > 0 {
        law_chain_progress(st, tasks, (k - 1) as nat);
        if k <= tasks.len() {
            assert(tasks.take(k - 1).push(tasks[k - 1]) == tasks.take(k as int));
        } else {
            assert(tasks.take(tasks.len() as int) =~= tasks);
        }
    } else {
        assert(tasks.take(0) == Seq::<Seq<char>>::empty());
    }
}

/// Once stopped, a chain stays stopped however often it advances.
pub proof fn law_stopped_stays_stopped(st: StatusView, tasks: Seq<Seq<char>>, k: nat)
    ensures
        !advanced_n(stopped(st), tasks, k).running,
    decreases k,
{
    if k > 0 {
        law_stopped_stays_stopped(st, tasks, (k - 1) as nat);
    }
}

} // verus!

//! The giveaway bot's loop as a state machine. The bot reads search pages one after the
//! other, enters what it can afford on each, waits between entries, checks for won gifts
//! after a full round of pages, counts down to the next round, and stops when asked. Each
//! step takes what came of the last action (an event), whether a stop was asked for and the
//! time, updates the bot's status, and gives the next action and the log lines to write.
//! Whoever drives the machine performs the actions: page requests, entries, waits.
use vstd::prelude::*;

use crate::bot::{
    bot_log_message, decide_entry, entry_decision_for, entry_delay, next_page, points_after_entry, refresh_delay_secs,
    status_counting, status_entered, status_failed, status_paged, status_started, status_stopped, BotLog,
    EntryDecision, GiveawayBotStatus, StatusView,
};
use crate::steamgifts::{ends_within, GiveawayItem, GiveawayView};

verus! {

/// What the bot runs with: pages per round, the end window of the giveaways it enters (in
/// hours, zero for no limit), the pause before each entry (at least two seconds are used)
/// and the pause between rounds (in minutes, at least one is used).
#[derive(Clone, Copy)]
pub struct BotSettings {
    pub max_pages: u32,
    pub max_end_hours: u32,
    pub entry_delay_secs: u32,
    pub refresh_delay_minutes: u32,
}

/// Where the bot is between two steps.
pub enum BotStage {
    /// Not started yet.
    Idle,
    /// Waiting for the search page it asked for.
    Reading,
    /// Pausing before entering giveaway `next` of the page read, with `points` left and the
    /// page's token.
    Delaying { points: u32, xsrf: String, giveaways: Vec<GiveawayItem>, next: usize },
    /// Waiting for the answer to the entry of giveaway `next`.
    Entering { points: u32, xsrf: String, giveaways: Vec<GiveawayItem>, next: usize },
    /// Waiting for the won gifts to be checked after a round.
    CheckingWins,
    /// Counting down before the next round; `remaining` seconds are left.
    Counting { remaining: u32 },
    /// Stopped.
    Done,
}

/// Mathematical model of [`BotStage`].
pub enum StageView {
    Idle,
    Reading,
    Delaying { points: u32, xsrf: Seq<char>, giveaways: Seq<GiveawayView>, next: int },
    Entering { points: u32, xsrf: Seq<char>, giveaways: Seq<GiveawayView>, next: int },
    CheckingWins,
    Counting { remaining: u32 },
    Done,
}

pub open spec fn giveaway_views(v: Seq<GiveawayItem>) -> Seq<GiveawayView> {
    v.map_values(|g: GiveawayItem| g@)
}

impl View for BotStage {
    type V = StageView;

    open spec fn view(&self) -> StageView {
        match self {
            BotStage::Idle => StageView::Idle,
            BotStage::Reading => StageView::Reading,
            BotStage::Delaying { points, xsrf, giveaways, next } => StageView::Delaying {
                points: *points,
                xsrf: xsrf@,
                giveaways: giveaway_views(giveaways@),
                next: *next as int,
            },
            BotStage::Entering { points, xsrf, giveaways, next } => StageView::Entering {
                points: *points,
                xsrf: xsrf@,
                giveaways: giveaway_views(giveaways@),
                next: *next as int,
            },
            BotStage::CheckingWins => StageView::CheckingWins,
            BotStage::Counting { remaining } => StageView::Counting { remaining: *remaining },
            BotStage::Done => StageView::Done,
        }
    }
}

/// The bot: its settings, the search page it is at, and its stage.
pub struct BotMachine {
    pub settings: BotSettings,
    pub page: u32,
    pub stage: BotStage,
}

/// Mathematical model of [`BotMachine`].
pub struct MachineView {
    pub settings: BotSettings,
    pub page: u32,
    pub stage: StageView,
}

impl View for BotMachine {
    type V = MachineView;

    open spec fn view(&self) -> MachineView {
        MachineView { settings: self.settings, page: self.page, stage: self.stage@ }
    }
}

/// What the bot asks its driver to do next.
pub enum BotAction {
    /// Read search page `page`.
    ReadPage { page: u32 },
    /// Wait `secs` seconds.
    Pause { secs: u32 },
    /// Enter the giveaway `code` with the page's token.
    Enter { code: String, xsrf: String },
    /// Check the won gifts.
    CheckWins,
    /// Wait one second of the countdown.
    Tick,
    /// Nothing more: the bot stopped.
    Finish,
}

/// Mathematical model of [`BotAction`].
pub enum ActionView {
    ReadPage { page: u32 },
    Pause { secs: u32 },
    Enter { code: Seq<char>, xsrf: Seq<char> },
    CheckWins,
    Tick,
    Finish,
}

impl View for BotAction {
    type V = ActionView;

    open spec fn view(&self) -> ActionView {
        match self {
            BotAction::ReadPage { page } => ActionView::ReadPage { page: *page },
            BotAction::Pause { secs } => ActionView::Pause { secs: *secs },
            BotAction::Enter { code, xsrf } => ActionView::Enter { code: code@, xsrf: xsrf@ },
            BotAction::CheckWins => ActionView::CheckWins,
            BotAction::Tick => ActionView::Tick,
            BotAction::Finish => ActionView::Finish,
        }
    }
}

/// What came of the last action.
pub enum BotEvent {
    /// The bot is to start.
    Begin,
    /// The search page was read: points, token and giveaways, or the error.
    PageRead(Result<(u32, String, Vec<GiveawayItem>), String>),
    /// The pause or the second of countdown passed.
    Paused,
    /// The entry was answered.
    EntryAnswered(Result<(), String>),
    /// The won gifts were checked.
    WinsChecked,
}

/// Mathematical model of [`BotEvent`].
pub enum EventView {
    Begin,
    PageRead(Result<(u32, Seq<char>, Seq<GiveawayView>), Seq<char>>),
    Paused,
    EntryAnswered(Result<(), Seq<char>>),
    WinsChecked,
}

impl View for BotEvent {
    type V = EventView;

    open spec fn view(&self) -> EventView {
        match self {
            BotEvent::Begin => EventView::Begin,
            BotEvent::PageRead(Ok((points, xsrf, giveaways))) => EventView::PageRead(
                Ok((*points, xsrf@, giveaway_views(giveaways@))),
            ),
            BotEvent::PageRead(Err(e)) => EventView::PageRead(Err(e@)),
            BotEvent::Paused => EventView::Paused,
            BotEvent::EntryAnswered(Ok(())) => EventView::EntryAnswered(Ok(())),
            BotEvent::EntryAnswered(Err(e)) => EventView::EntryAnswered(Err(e@)),
            BotEvent::WinsChecked => EventView::WinsChecked,
        }
    }
}

/// The event that answers the action of `stage`.
pub open spec fn answers(stage: StageView, e: EventView) -> bool {
    match stage {
        StageView::Idle => e is Begin,
        StageView::Reading => e is PageRead,
        StageView::Delaying { .. } => e is Paused,
        StageView::Entering { .. } => e is EntryAnswered,
        StageView::CheckingWins => e is WinsChecked,
        StageView::Counting { .. } => e is Paused,
        StageView::Done => false,
    }
}

/// A machine whose pauses fit in seconds and whose giveaway index is on its page.
pub open spec fn machine_ok(m: MachineView) -> bool {
    &&& m.settings.refresh_delay_minutes <= u32::MAX / 60
    &&& match m.stage {
        StageView::Delaying { giveaways, next, .. } => 0 <= next < giveaways.len(),
        StageView::Entering { giveaways, next, .. } => 0 <= next < giveaways.len(),
        _ => true,
    }
}

/// A step's result: the machine, the status, the next action and the log lines.
pub struct Outcome {
    pub machine: MachineView,
    pub status: StatusView,
    pub action: ActionView,
    pub logs: Seq<Seq<char>>,
}

pub open spec fn log_lines(v: Seq<BotLog>) -> Seq<Seq<char>> {
    v.map_values(|e: BotLog| bot_log_message(e))
}

pub open spec fn machine_at(c: BotSettings, page: u32, stage: StageView) -> MachineView {
    MachineView { settings: c, page: page, stage: stage }
}

/// The loop ends: the status shows it stopped and the log says so.
pub open spec fn finish(c: BotSettings, page: u32, s: StatusView, logs: Seq<Seq<char>>) -> Outcome {
    Outcome {
        machine: machine_at(c, page, StageView::Done),
        status: status_stopped(s),
        action: ActionView::Finish,
        logs: logs.push(bot_log_message(BotLog::Stopped)),
    }
}

/// The top of the loop: stop when asked, else read the current page.
pub open spec fn loop_top(c: BotSettings, page: u32, s: StatusView, logs: Seq<Seq<char>>, stop: bool) -> Outcome {
    if stop {
        finish(c, page, s, logs)
    } else {
        Outcome {
            machine: machine_at(c, page, StageView::Reading),
            status: s,
            action: ActionView::ReadPage { page: page },
            logs: logs,
        }
    }
}

/// After a page: stop when asked; else read the next page of the round, or, after the
/// last one, note the wait, go back to page 1 and check the won gifts.
pub open spec fn after_page(c: BotSettings, page: u32, s: StatusView, logs: Seq<Seq<char>>, stop: bool) -> Outcome {
    let limit = if c.max_pages >= 1 {
        c.max_pages
    } else {
        1
    };
    if stop {
        finish(c, page, s, logs)
    } else if page < limit {
        Outcome {
            machine: machine_at(c, (page + 1) as u32, StageView::Reading),
            status: s,
            action: ActionView::ReadPage { page: (page + 1) as u32 },
            logs: logs,
        }
    } else {
        Outcome {
            machine: machine_at(c, 1, StageView::CheckingWins),
            status: s,
            action: ActionView::CheckWins,
            logs: logs.push(
                bot_log_message(BotLog::Waiting { minutes: c.refresh_delay_minutes }),
            ),
        }
    }
}

pub open spec fn pause_secs(entry_delay_secs: u32) -> u32 {
    if entry_delay_secs >= 2 {
        entry_delay_secs
    } else {
        2
    }
}

/// Goes through the giveaways of a page from index `next`, with `points` left: skips
/// those not to enter, stops the page at one that costs too much, and pauses before the
/// first one to enter.
pub open spec fn scan(
    c: BotSettings,
    page: u32,
    s: StatusView,
    logs: Seq<Seq<char>>,
    points: u32,
    xsrf: Seq<char>,
    gs: Seq<GiveawayView>,
    next: int,
    stop: bool,
    now: i64,
) -> Outcome
    decreases gs.len() - next,
{
    if stop || next < 0 || next >= gs.len() {
        after_page(c, page, s, logs, stop)
    } else {
        let g = gs[next];
        match entry_decision_for(g.is_entered, g.cost, g.ends_at, points, c.max_end_hours, now) {
            EntryDecision::Skip => scan(c, page, s, logs, points, xsrf, gs, next + 1, stop, now),
            EntryDecision::OutOfPoints => after_page(
                c,
                page,
                s,
                logs.push("[SteamGifts] Not enough points for "@ + g.name),
                stop,
            ),
            EntryDecision::Enter => Outcome {
                machine: machine_at(c, page, StageView::Delaying { points, xsrf, giveaways: gs, next }),
                status: s,
                action: ActionView::Pause { secs: pause_secs(c.entry_delay_secs) },
                logs: logs,
            },
        }
    }
}

/// One second of the countdown with `k` seconds left: at zero, or when a stop was asked
/// for, back to the top of the loop.
pub open spec fn tick(c: BotSettings, page: u32, s: StatusView, logs: Seq<Seq<char>>, k: u32, stop: bool) -> Outcome {
    if k == 0 || stop {
        loop_top(c, page, s, logs, stop)
    } else {
        Outcome {
            machine: machine_at(c, page, StageView::Counting { remaining: (k - 1) as u32 }),
            status: status_counting(s, (k - 1) as u32),
            action: ActionView::Tick,
            logs: logs,
        }
    }
}

pub open spec fn round_pause_secs(minutes: u32) -> u32 {
    ((if minutes >= 1 {
        minutes
    } else {
        1
    }) * 60) as u32
}

/// One step of the bot on event `e`, with `stop` telling whether a stop was asked for and
/// `now` the Unix second.
pub open spec fn step_outcome(m: MachineView, s: StatusView, e: EventView, stop: bool, now: i64) -> Outcome {
    let c = m.settings;
    let page = m.page;
    match e {
        EventView::Begin => loop_top(c, page, status_started(s), Seq::empty(), stop),
        EventView::PageRead(Ok((points, xsrf, gs))) => scan(
            c,
            page,
            status_paged(s, points, page),
            seq![bot_log_message(BotLog::Page { page, points })],
            points,
            xsrf,
            gs,
            0,
            stop,
            now,
        ),
        EventView::PageRead(Err(error)) => after_page(
            c,
            page,
            status_failed(s, error),
            seq!["[SteamGifts] Error: "@ + error],
            stop,
        ),
        EventView::Paused => match m.stage {
            StageView::Delaying { points, xsrf, giveaways, next } => if stop {
                finish(c, page, s, Seq::empty())
            } else {
                Outcome {
                    machine: machine_at(c, page, StageView::Entering { points, xsrf, giveaways, next }),
                    status: s,
                    action: ActionView::Enter { code: giveaways[next].code, xsrf },
                    logs: Seq::empty(),
                }
            },
            StageView::Counting { remaining } => tick(c, page, s, Seq::empty(), remaining, stop),
            _ => Outcome { machine: m, status: s, action: ActionView::Finish, logs: Seq::empty() },
        },
        EventView::EntryAnswered(answer) => match m.stage {
            StageView::Entering { points, xsrf, giveaways, next } => {
                let g = giveaways[next];
                match answer {
                    Ok(()) => scan(
                        c,
                        page,
                        status_entered(s, g.name),
                        seq!["[SteamGifts] Entered: "@ + g.name],
                        (if points >= g.cost {
                            points - g.cost
                        } else {
                            0
                        }) as u32,
                        xsrf,
                        giveaways,
                        next + 1,
                        stop,
                        now,
                    ),
                    Err(error) => scan(
                        c,
                        page,
                        s,
                        seq!["[SteamGifts] Failed "@ + g.name + ": "@ + error],
                        points,
                        xsrf,
                        giveaways,
                        next + 1,
                        stop,
                        now,
                    ),
                }
            },
            _ => Outcome { machine: m, status: s, action: ActionView::Finish, logs: Seq::empty() },
        },
        EventView::WinsChecked => tick(
            c,
            page,
            s,
            Seq::empty(),
            round_pause_secs(c.refresh_delay_minutes),
            stop,
        ),
    }
}

pub open spec fn outcome_of(m: BotMachine, s: GiveawayBotStatus, a: BotAction, logs: Seq<BotLog>) -> Outcome {
    Outcome { machine: m@, status: s@, action: a@, logs: log_lines(logs) }
}

/// Whether the bot goes past giveaway `g` without entering it.
fn skips(g: &GiveawayItem, points: u32, max_end_hours: u32, now: i64) -> (b: bool)
    ensures
        b == (entry_decision_for(g.is_entered, g.cost, g.ends_at, points, max_end_hours, now) is Skip),
{
    match decide_entry(g, points, max_end_hours, now) {
        EntryDecision::Skip => true,
        _ => false,
    }
}

impl BotMachine {
    /// A bot that has not started, at page 1.
    pub fn new(settings: BotSettings) -> (r: BotMachine)
        requires
            settings.refresh_delay_minutes <= u32::MAX / 60,
        ensures
            r@ == (MachineView { settings: settings, page: 1, stage: StageView::Idle }),
            machine_ok(r@),
    {
        BotMachine { settings, page: 1, stage: BotStage::Idle }
    }

    fn finish(&mut self, status: &mut GiveawayBotStatus, logs: &mut Vec<BotLog>) -> (r: BotAction)
        requires
            machine_ok(old(self)@),
        ensures
            machine_ok(final(self)@),
            outcome_of(*final(self), *final(status), r, final(logs)@) == finish(
                old(self).settings,
                old(self).page,
                old(status)@,
                log_lines(old(logs)@),
            ),
    {
        self.stage = BotStage::Done;
        status.mark_stopped();
        let ghost before = logs@;
        logs.push(BotLog::Stopped);
        assert(log_lines(logs@) =~= log_lines(before).push(bot_log_message(BotLog::Stopped)));
        BotAction::Finish
    }

    fn loop_top(&mut self, status: &mut GiveawayBotStatus, logs: &mut Vec<BotLog>, stop: bool) -> (r: BotAction)
        requires
            machine_ok(old(self)@),
        ensures
            machine_ok(final(self)@),
            outcome_of(*final(self), *final(status), r, final(logs)@) == loop_top(
                old(self).settings,
                old(self).page,
                old(status)@,
                log_lines(old(logs)@),
                stop,
            ),
    {
        if stop {
            return self.finish(status, logs);
        }
        self.stage = BotStage::Reading;
        BotAction::ReadPage { page: self.page }
    }

    fn after_page(&mut self, status: &mut GiveawayBotStatus, logs: &mut Vec<BotLog>, stop: bool) -> (r: BotAction)
        requires
            machine_ok(old(self)@),
        ensures
            machine_ok(final(self)@),
            outcome_of(*final(self), *final(status), r, final(logs)@) == after_page(
                old(self).settings,
                old(self).page,
                old(status)@,
                log_lines(old(logs)@),
                stop,
            ),
    {
        if stop {
            return self.finish(status, logs);
        }
        let (next, round_done) = next_page(self.page, self.settings.max_pages);
        self.page = next;
        if !round_done {
            self.stage = BotStage::Reading;
            return BotAction::ReadPage { page: next };
        }
        self.stage = BotStage::CheckingWins;
        let ghost before = logs@;
        let line = BotLog::Waiting { minutes: self.settings.refresh_delay_minutes };
        proof {
            assert(bot_log_message(line) == bot_log_message(
                BotLog::Waiting { minutes: old(self).settings.refresh_delay_minutes },
            ));
        }
        logs.push(line);
        assert(log_lines(logs@) =~= log_lines(before).push(bot_log_message(line)));
        BotAction::CheckWins
    }

    fn scan(
        &mut self,
        status: &mut GiveawayBotStatus,
        logs: &mut Vec<BotLog>,
        points: u32,
        xsrf: String,
        giveaways: Vec<GiveawayItem>,
        next: usize,
        stop: bool,
        now: i64,
    ) -> (r: BotAction)
        requires
            machine_ok(old(self)@),
        ensures
            machine_ok(final(self)@),
            outcome_of(*final(self), *final(status), r, final(logs)@) == scan(
                old(self).settings,
                old(self).page,
                old(status)@,
                log_lines(old(logs)@),
                points,
                xsrf@,
                giveaway_views(giveaways@),
                next as int,
                stop,
                now,
            ),
    {
        let ghost gs = giveaway_views(giveaways@);
        let ghost target = scan(
            old(self).settings,
            old(self).page,
            old(status)@,
            log_lines(old(logs)@),
            points,
            xsrf@,
            gs,
            next as int,
            stop,
            now,
        );
        if stop {
            return self.after_page(status, logs, stop);
        }
        let ghost c = self.settings;
        let ghost pg = self.page;
        let ghost st = status@;
        let ghost lg = log_lines(logs@);
        let mut i = next;
        while i < giveaways.len() && skips(&giveaways[i], points, self.settings.max_end_hours, now)
            invariant
                gs == giveaway_views(giveaways@),
                self.settings == c,
                self.page == pg,
                !stop,
                next <= i,
                target == scan(c, pg, st, lg, points, xsrf@, gs, i as int, stop, now),
            decreases giveaways.len() - i,
        {
            assert(gs[i as int] == giveaways@[i as int]@);
            i = i + 1;
        }
        if i >= giveaways.len() {
            return self.after_page(status, logs, stop);
        }
        let decision = decide_entry(&giveaways[i], points, self.settings.max_end_hours, now);
        assert(gs[i as int] == giveaways@[i as int]@);
        match decision {
            EntryDecision::OutOfPoints => {
                proof {
                    let g = gs[i as int];
                    assert(target == after_page(
                        c,
                        pg,
                        st,
                        lg.push("[SteamGifts] Not enough points for "@ + g.name),
                        stop,
                    ));
                }
                let ghost before = logs@;
                let line = BotLog::NotEnoughPoints { name: giveaways[i].name.clone() };
                logs.push(line);
                assert(log_lines(logs@) =~= log_lines(before).push(
                    "[SteamGifts] Not enough points for "@ + gs[i as int].name,
                ));
                self.after_page(status, logs, stop)
            },
            _ => {
                let secs = entry_delay(self.settings.entry_delay_secs);
                self.stage = BotStage::Delaying { points, xsrf, giveaways, next: i };
                BotAction::Pause { secs }
            },
        }
    }

    fn tick(&mut self, status: &mut GiveawayBotStatus, logs: &mut Vec<BotLog>, k: u32, stop: bool) -> (r: BotAction)
        requires
            machine_ok(old(self)@),
        ensures
            machine_ok(final(self)@),
            outcome_of(*final(self), *final(status), r, final(logs)@) == tick(
                old(self).settings,
                old(self).page,
                old(status)@,
                log_lines(old(logs)@),
                k,
                stop,
            ),
    {
        if k == 0 || stop {
            return self.loop_top(status, logs, stop);
        }
        self.stage = BotStage::Counting { remaining: k - 1 };
        status.mark_countdown(k - 1);
        BotAction::Tick
    }

    /// Takes the bot one step on `event`, the answer to its last action (see
    /// [`step_outcome`]).
    pub fn step(
        &mut self,
        status: &mut GiveawayBotStatus,
        event: BotEvent,
        stop: bool,
        now: i64,
    ) -> (r: (BotAction, Vec<BotLog>))
        requires
            machine_ok(old(self)@),
            answers(old(self)@.stage, event@),
            event@ == EventView::EntryAnswered(Ok(())) ==> old(status).entries_today < u32::MAX,
        ensures
            machine_ok(final(self)@),
            outcome_of(*final(self), *final(status), r.0, r.1@) == step_outcome(
                old(self)@,
                old(status)@,
                event@,
                stop,
                now,
            ),
    {
        let mut logs: Vec<BotLog> = Vec::new();
        assert(log_lines(logs@) =~= Seq::<Seq<char>>::empty());
        let mut stage = BotStage::Done;
        std::mem::swap(&mut stage, &mut self.stage);
        proof {
            assert(stage@ == old(self)@.stage);
        }
        let action = match event {
            BotEvent::Begin => {
                self.stage = stage;
                status.mark_started();
                self.loop_top(status, &mut logs, stop)
            },
            BotEvent::PageRead(Ok((points, xsrf, giveaways))) => {
                self.stage = stage;
                status.mark_page(points, self.page);
                let line = BotLog::Page { page: self.page, points };
                logs.push(line);
                assert(log_lines(logs@) =~= seq![bot_log_message(line)]);
                self.scan(status, &mut logs, points, xsrf, giveaways, 0, stop, now)
            },
            BotEvent::PageRead(Err(error)) => {
                self.stage = stage;
                let ghost e = error@;
                let line = BotLog::PageError { error: error.clone() };
                status.mark_error(error);
                logs.push(line);
                assert(log_lines(logs@) =~= seq!["[SteamGifts] Error: "@ + e]);
                self.after_page(status, &mut logs, stop)
            },
            BotEvent::Paused => match stage {
                BotStage::Delaying { points, xsrf, giveaways, next } => {
                    if stop {
                        self.stage = BotStage::Delaying { points, xsrf, giveaways, next };
                        self.finish(status, &mut logs)
                    } else {
                        let code = giveaways[next].code.clone();
                        let token = xsrf.clone();
                        self.stage = BotStage::Entering { points, xsrf, giveaways, next };
                        BotAction::Enter { code, xsrf: token }
                    }
                },
                BotStage::Counting { remaining } => {
                    self.stage = BotStage::Counting { remaining };
                    self.tick(status, &mut logs, remaining, stop)
                },
                other => {
                    self.stage = other;
                    BotAction::Finish
                },
            },
            BotEvent::EntryAnswered(answer) => match stage {
                BotStage::Entering { points, xsrf, giveaways, next } => {
                    assert(giveaway_views(giveaways@).len() == giveaways@.len());
                    assert(next < giveaways.len());
                    let after = next + 1;
                    let ghost g = giveaways@[next as int]@;
                    let ghost before = logs@;
                    match answer {
                        Ok(()) => {
                            let name = giveaways[next].name.clone();
                            status.mark_entered(name.as_str());
                            let left = points_after_entry(points, giveaways[next].cost);
                            let line = BotLog::Entered { name };
                            logs.push(line);
                            assert(log_lines(logs@) =~= seq!["[SteamGifts] Entered: "@ + g.name]);
                            self.scan(status, &mut logs, left, xsrf, giveaways, after, stop, now)
                        },
                        Err(error) => {
                            let ghost e = error@;
                            let line = BotLog::EntryFailed { name: giveaways[next].name.clone(), error };
                            logs.push(line);
                            assert(log_lines(logs@) =~= seq!["[SteamGifts] Failed "@ + g.name + ": "@ + e]);
                            self.scan(status, &mut logs, points, xsrf, giveaways, after, stop, now)
                        },
                    }
                },
                other => {
                    self.stage = other;
                    BotAction::Finish
                },
            },
            BotEvent::WinsChecked => {
                self.stage = stage;
                let secs = refresh_delay_secs(self.settings.refresh_delay_minutes);
                self.tick(status, &mut logs, secs, stop)
            },
        };
        (action, logs)
    }
}

/// Giveaway `next` of `gs` may be entered with `points` left at Unix second `now`.
pub open spec fn affordable(gs: Seq<GiveawayView>, next: int, points: u32, max_end_hours: u32, now: i64) -> bool {
    &&& 0 <= next < gs.len()
    &&& !gs[next].is_entered
    &&& gs[next].cost <= points
    &&& ends_within(gs[next].ends_at, max_end_hours, now)
}

proof fn lemma_scan_delays(
    c: BotSettings,
    page: u32,
    s: StatusView,
    logs: Seq<Seq<char>>,
    points: u32,
    xsrf: Seq<char>,
    gs: Seq<GiveawayView>,
    next: int,
    stop: bool,
    now: i64,
)
    ensures
        match scan(c, page, s, logs, points, xsrf, gs, next, stop, now).machine.stage {
            StageView::Delaying { points: p, giveaways, next: k, .. } => p == points && giveaways == gs
                && affordable(gs, k, points, c.max_end_hours, now),
            _ => true,
        },
    decreases gs.len() - next,
{
    if !(stop || next < 0 || next >= gs.len()) {
        let g = gs[next];
        if entry_decision_for(g.is_entered, g.cost, g.ends_at, points, c.max_end_hours, now) is Skip {
            lemma_scan_delays(c, page, s, logs, points, xsrf, gs, next + 1, stop, now);
        }
    }
}

/// The bot only ever gets ready to enter a giveaway (pausing before the entry) that is not
/// entered yet, ends within the window at the step's time, and costs no more than the
/// points it has left.
pub proof fn law_only_affordable_entries(m: MachineView, s: StatusView, e: EventView, stop: bool, now: i64)
    requires
        machine_ok(m),
        answers(m.stage, e),
    ensures
        match step_outcome(m, s, e, stop, now).machine.stage {
            StageView::Delaying { points, giveaways, next, .. } => affordable(
                giveaways,
                next,
                points,
                m.settings.max_end_hours,
                now,
            ),
            _ => true,
        },
{
    let c = m.settings;
    let page = m.page;
    match e {
        EventView::PageRead(Ok((points, xsrf, gs))) => {
            lemma_scan_delays(
                c,
                page,
                status_paged(s, points, page),
                seq![bot_log_message(BotLog::Page { page, points })],
                points,
                xsrf,
                gs,
                0,
                stop,
                now,
            );
        },
        EventView::EntryAnswered(answer) => match m.stage {
            StageView::Entering { points, xsrf, giveaways, next } => {
                let g = giveaways[next];
                match answer {
                    Ok(()) => lemma_scan_delays(
                        c,
                        page,
                        status_entered(s, g.name),
                        seq!["[SteamGifts] Entered: "@ + g.name],
                        (if points >= g.cost {
                            points - g.cost
                        } else {
                            0
                        }) as u32,
                        xsrf,
                        giveaways,
                        next + 1,
                        stop,
                        now,
                    ),
                    Err(error) => lemma_scan_delays(
                        c,
                        page,
                        s,
                        seq!["[SteamGifts] Failed "@ + g.name + ": "@ + error],
                        points,
                        xsrf,
                        giveaways,
                        next + 1,
                        stop,
                        now,
                    ),
                }
            },
            _ => {},
        },
        _ => {},
    }
}

/// A stop request ends the bot at its next step, whatever it was waiting for: it gives no
/// further action, and its status shows it is not running.
pub proof fn law_stop_finishes(m: MachineView, s: StatusView, e: EventView, now: i64)
    requires
        machine_ok(m),
        answers(m.stage, e),
    ensures
        step_outcome(m, s, e, true, now).action == ActionView::Finish,
        step_outcome(m, s, e, true, now).machine.stage == StageView::Done,
        !step_outcome(m, s, e, true, now).status.running,
{
}

/// After the answer to an entry, the bot goes on through the page with the points it had,
/// less the entry's cost only when the entry went through (a failed entry costs nothing):
/// a pause before another giveaway carries exactly those points, and when the next
/// giveaway of the page is open, ends within the window and is affordable with them, the
/// bot pauses before entering it.
pub proof fn law_entry_answer_points(
    m: MachineView,
    s: StatusView,
    points: u32,
    xsrf: Seq<char>,
    gs: Seq<GiveawayView>,
    next: int,
    answer: Result<(), Seq<char>>,
    now: i64,
)
    requires
        machine_ok(m),
        m.stage == (StageView::Entering { points, xsrf, giveaways: gs, next }),
    ensures
        ({
            let left: int = match answer {
                Ok(()) => if points >= gs[next].cost {
                    points - gs[next].cost
                } else {
                    0
                },
                Err(_) => points as int,
            };
            let o = step_outcome(m, s, EventView::EntryAnswered(answer), false, now);
            &&& o.machine.stage matches StageView::Delaying { points: p, .. } ==> p == left
            &&& (next + 1 < gs.len() && !gs[next + 1].is_entered && gs[next + 1].cost <= left && ends_within(
                gs[next + 1].ends_at,
                m.settings.max_end_hours,
                now,
            )) ==> (o.machine.stage == StageView::Delaying { points: left as u32, xsrf, giveaways: gs, next: next + 1 }
                && o.action is Pause)
        }),
{
    let c = m.settings;
    let page = m.page;
    let g = gs[next];
    match answer {
        Ok(()) => lemma_scan_delays(
            c,
            page,
            status_entered(s, g.name),
            seq!["[SteamGifts] Entered: "@ + g.name],
            (if points >= g.cost {
                points - g.cost
            } else {
                0
            }) as u32,
            xsrf,
            gs,
            next + 1,
            false,
            now,
        ),
        Err(error) => lemma_scan_delays(
            c,
            page,
            s,
            seq!["[SteamGifts] Failed "@ + g.name + ": "@ + error],
            points,
            xsrf,
            gs,
            next + 1,
            false,
            now,
        ),
    }
}

} // verus!

//! The giveaway bot's decisions: which giveaways to enter, how it pages through the
//! search, what its status shows, and the bounded log it keeps. The bot's loop is the
//! state machine of [`crate::bot_run`], which makes these decisions at each step.
use vstd::prelude::*;

use crate::steamgifts::{ends_within, GiveawayItem};
use crate::text::{chars_of, decimal, decimal_u64, owned, push_all, string_from_chars};

verus! {

/// Most log entries the bot keeps.
pub const MAX_LOG_ENTRIES: usize = 200;

/// What the bot shows about itself.
pub struct GiveawayBotStatus {
    pub running: bool,
    pub points: u32,
    pub current_page: u32,
    pub source: String,
    pub countdown_label: String,
    pub countdown_seconds: u32,
    pub last_message: String,
    pub entries_today: u32,
}

impl Default for GiveawayBotStatus {
    fn default() -> (r: GiveawayBotStatus)
        ensures
            !r.running,
            r.points == 0,
            r.current_page == 0,
            r.source@.len() == 0,
            r.countdown_label@.len() == 0,
            r.countdown_seconds == 0,
            r.last_message@.len() == 0,
            r.entries_today == 0,
    {
        GiveawayBotStatus {
            running: false,
            points: 0,
            current_page: 0,
            source: String::new(),
            countdown_label: String::new(),
            countdown_seconds: 0,
            last_message: String::new(),
            entries_today: 0,
        }
    }
}

/// One line of the bot's log.
pub struct GiveawayLogEntry {
    pub timestamp: String,
    pub message: String,
}

pub open spec fn log_views(v: Seq<GiveawayLogEntry>) -> Seq<(Seq<char>, Seq<char>)> {
    v.map_values(|e: GiveawayLogEntry| (e.timestamp@, e.message@))
}

/// The log after appending `e`: the newest entries, at most [`MAX_LOG_ENTRIES`] of them.
pub open spec fn log_after(
    old_log: Seq<(Seq<char>, Seq<char>)>,
    e: (Seq<char>, Seq<char>),
) -> Seq<(Seq<char>, Seq<char>)> {
    let full = old_log.push(e);
    if full.len() > MAX_LOG_ENTRIES {
        full.subrange(full.len() - MAX_LOG_ENTRIES, full.len() as int)
    } else {
        full
    }
}

/// Appends a log entry and drops the oldest ones beyond [`MAX_LOG_ENTRIES`].
pub fn push_log(logs: &mut Vec<GiveawayLogEntry>, timestamp: String, message: String)
    ensures
        log_views(final(logs)@) == log_after(log_views(old(logs)@), (timestamp@, message@)),
{
    let ghost before = log_views(logs@);
    let ghost entry = (timestamp@, message@);
    logs.push(GiveawayLogEntry { timestamp, message });
    assert(log_views(logs@) =~= before.push(entry));
    if logs.len() > MAX_LOG_ENTRIES {
        let drain = logs.len() - MAX_LOG_ENTRIES;
        let ghost full = logs@;
        let kept = logs.split_off(drain);
        assert(log_views(kept@) =~= log_views(full).subrange(drain as int, full.len() as int));
        *logs = kept;
    }
}

/// What the bot does with a giveaway of the page it reads.
pub enum EntryDecision {
    /// Already entered, or not ending soon enough: go on with the next one.
    Skip,
    /// Costs more than the points left: stop entering on this page.
    OutOfPoints,
    /// Enter it.
    Enter,
}

pub open spec fn entry_decision_for(
    entered: bool,
    cost: u32,
    ends_at: Option<i64>,
    points: u32,
    max_end_hours: u32,
    now: i64,
) -> EntryDecision {
    if entered {
        EntryDecision::Skip
    } else if !ends_within(ends_at, max_end_hours, now) {
        EntryDecision::Skip
    } else if points < cost {
        EntryDecision::OutOfPoints
    } else {
        EntryDecision::Enter
    }
}

/// Decides about one giveaway, with `points` left, at Unix second `now`.
pub fn decide_entry(giveaway: &GiveawayItem, points: u32, max_end_hours: u32, now: i64) -> (r:
    EntryDecision)
    ensures
        r == entry_decision_for(
            giveaway.is_entered,
            giveaway.cost,
            giveaway.ends_at,
            points,
            max_end_hours,
            now,
        ),
{
    if giveaway.is_entered {
        return EntryDecision::Skip;
    }
    if !crate::steamgifts::within_end_window_at(giveaway, max_end_hours, now) {
        return EntryDecision::Skip;
    }
    if points < giveaway.cost {
        return EntryDecision::OutOfPoints;
    }
    EntryDecision::Enter
}

/// Points left after an entry that cost `cost` went through.
pub fn points_after_entry(points: u32, cost: u32) -> (r: u32)
    ensures
        r == (if points >= cost {
            points - cost
        } else {
            0
        }),
{
    points.saturating_sub(cost)
}

/// The page to read next, and whether a full round of `max_pages` pages (at least one)
/// ended, after which the bot waits and starts again at page 1.
pub fn next_page(current_page: u32, max_pages: u32) -> (r: (u32, bool))
    ensures
        ({
            let limit = if max_pages >= 1 {
                max_pages
            } else {
                1
            };
            if current_page < limit {
                r.0 == current_page + 1 && !r.1
            } else {
                r.0 == 1 && r.1
            }
        }),
{
    let limit = if max_pages >= 1 {
        max_pages
    } else {
        1
    };
    if current_page < limit {
        (current_page + 1, false)
    } else {
        (1, true)
    }
}

/// Seconds the bot waits between rounds: the refresh delay in minutes, at least one.
pub fn refresh_delay_secs(refresh_delay_minutes: u32) -> (r: u32)
    requires
        refresh_delay_minutes <= u32::MAX / 60,
    ensures
        r == (if refresh_delay_minutes >= 1 {
            refresh_delay_minutes
        } else {
            1
        }) * 60,
{
    let m = if refresh_delay_minutes >= 1 {
        refresh_delay_minutes
    } else {
        1
    };
    m * 60
}

/// Seconds to wait before each entry: the configured delay, at least two.
pub fn entry_delay(entry_delay_secs: u32) -> (r: u32)
    ensures
        r == (if entry_delay_secs >= 2 {
            entry_delay_secs
        } else {
            2
        }),
{
    if entry_delay_secs >= 2 {
        entry_delay_secs
    } else {
        2
    }
}

/// Whether the bot can start: a session cookie is needed.
pub fn start_precondition(cookie: &str) -> (r: Result<(), String>)
    ensures
        r is Err <==> crate::text::trim(cookie@).len() == 0,
        r matches Err(e) ==> e@ == "PHPSESSID cookie is required."@,
{
    let t = crate::text::trim_str(cookie);
    if t.as_str().is_empty() {
        return Err(owned("PHPSESSID cookie is required."));
    }
    Ok(())
}

/// The things the bot writes to its log.
pub enum BotLog {
    Page { page: u32, points: u32 },
    NotEnoughPoints { name: String },
    Entered { name: String },
    EntryFailed { name: String, error: String },
    PageError { error: String },
    Waiting { minutes: u32 },
    Stopped,
}

pub open spec fn bot_log_message(e: BotLog) -> Seq<char> {
    match e {
        BotLog::Page { page, points } => "[SteamGifts] Page "@ + decimal(page as nat) + " — "@
            + decimal(points as nat) + "P"@,
        BotLog::NotEnoughPoints { name } => "[SteamGifts] Not enough points for "@ + name@,
        BotLog::Entered { name } => "[SteamGifts] Entered: "@ + name@,
        BotLog::EntryFailed { name, error } => "[SteamGifts] Failed "@ + name@ + ": "@ + error@,
        BotLog::PageError { error } => "[SteamGifts] Error: "@ + error@,
        BotLog::Waiting { minutes } => "Waiting "@ + decimal(minutes as nat) + " min for refresh"@,
        BotLog::Stopped => "Bot stopped"@,
    }
}

/// The text of a log line.
pub fn bot_log_text(e: &BotLog) -> (r: String)
    ensures
        r@ == bot_log_message(*e),
{
    let mut v: Vec<char> = Vec::new();
    match e {
        BotLog::Page { page, points } => {
            let a = chars_of("[SteamGifts] Page ");
            push_all(&mut v, a.as_slice());
            let d = decimal_u64(*page as u64);
            push_all(&mut v, d.as_slice());
            let b = chars_of(" — ");
            push_all(&mut v, b.as_slice());
            let p = decimal_u64(*points as u64);
            push_all(&mut v, p.as_slice());
            let c = chars_of("P");
            push_all(&mut v, c.as_slice());
        },
        BotLog::NotEnoughPoints { name } => {
            let a = chars_of("[SteamGifts] Not enough points for ");
            push_all(&mut v, a.as_slice());
            let n = chars_of(name.as_str());
            push_all(&mut v, n.as_slice());
        },
        BotLog::Entered { name } => {
            let a = chars_of("[SteamGifts] Entered: ");
            push_all(&mut v, a.as_slice());
            let n = chars_of(name.as_str());
            push_all(&mut v, n.as_slice());
        },
        BotLog::EntryFailed { name, error } => {
            let a = chars_of("[SteamGifts] Failed ");
            push_all(&mut v, a.as_slice());
            let n = chars_of(name.as_str());
            push_all(&mut v, n.as_slice());
            let b = chars_of(": ");
            push_all(&mut v, b.as_slice());
            let x = chars_of(error.as_str());
            push_all(&mut v, x.as_slice());
        },
        BotLog::PageError { error } => {
            let a = chars_of("[SteamGifts] Error: ");
            push_all(&mut v, a.as_slice());
            let x = chars_of(error.as_str());
            push_all(&mut v, x.as_slice());
        },
        BotLog::Waiting { minutes } => {
            let a = chars_of("Waiting ");
            push_all(&mut v, a.as_slice());
            let d = decimal_u64(*minutes as u64);
            push_all(&mut v, d.as_slice());
            let b = chars_of(" min for refresh");
            push_all(&mut v, b.as_slice());
        },
        BotLog::Stopped => {
            let a = chars_of("Bot stopped");
            push_all(&mut v, a.as_slice());
        },
    }
    assert(Seq::<char>::empty() + v@ == v@);
    string_from_chars(v.as_slice())
}

/// Timestamp text of a log line: the Unix second, in decimal.
pub fn log_timestamp(unix_secs: u64) -> (r: String)
    ensures
        r@ == decimal(unix_secs as nat),
{
    crate::text::u64_to_string(unix_secs)
}

/// Mathematical model of [`GiveawayBotStatus`].
pub struct StatusView {
    pub running: bool,
    pub points: u32,
    pub current_page: u32,
    pub source: Seq<char>,
    pub countdown_label: Seq<char>,
    pub countdown_seconds: u32,
    pub last_message: Seq<char>,
    pub entries_today: u32,
}

impl View for GiveawayBotStatus {
    type V = StatusView;

    open spec fn view(&self) -> StatusView {
        StatusView {
            running: self.running,
            points: self.points,
            current_page: self.current_page,
            source: self.source@,
            countdown_label: self.countdown_label@,
            countdown_seconds: self.countdown_seconds,
            last_message: self.last_message@,
            entries_today: self.entries_today,
        }
    }
}

/// The status once the bot began running.
pub open spec fn status_started(s: StatusView) -> StatusView {
    StatusView { running: true, last_message: "Bot started"@, ..s }
}

/// The status once search page `page` was read with `points` points.
pub open spec fn status_paged(s: StatusView, points: u32, page: u32) -> StatusView {
    StatusView { points: points, current_page: page, source: "steamgifts"@, ..s }
}

/// The status once giveaway `name` was entered.
pub open spec fn status_entered(s: StatusView, name: Seq<char>) -> StatusView {
    StatusView { entries_today: (s.entries_today + 1) as u32, last_message: "Entered "@ + name, ..s }
}

/// The status once reading a page failed with `error`.
pub open spec fn status_failed(s: StatusView, error: Seq<char>) -> StatusView {
    StatusView { last_message: error, ..s }
}

/// The status with `remaining` seconds before the next round.
pub open spec fn status_counting(s: StatusView, remaining: u32) -> StatusView {
    StatusView { countdown_label: "refresh"@, countdown_seconds: remaining, ..s }
}

/// The status once the bot's loop ended.
pub open spec fn status_stopped(s: StatusView) -> StatusView {
    StatusView {
        running: false,
        countdown_label: Seq::empty(),
        countdown_seconds: 0,
        last_message: "Bot stopped"@,
        ..s
    }
}

/// The status once a stop was asked for.
pub open spec fn status_stopping(s: StatusView) -> StatusView {
    StatusView { running: false, last_message: "Stopping..."@, ..s }
}

impl GiveawayBotStatus {
    /// The bot began running.
    pub fn mark_started(&mut self)
        ensures
            final(self)@ == status_started(old(self)@),
    {
        self.running = true;
        self.last_message = owned("Bot started");
    }

    /// A search page was read.
    pub fn mark_page(&mut self, points: u32, page: u32)
        ensures
            final(self)@ == status_paged(old(self)@, points, page),
    {
        self.points = points;
        self.current_page = page;
        self.source = owned("steamgifts");
    }

    /// A giveaway was entered.
    pub fn mark_entered(&mut self, name: &str)
        requires
            old(self).entries_today < u32::MAX,
        ensures
            final(self)@ == status_entered(old(self)@, name@),
    {
        self.entries_today = self.entries_today + 1;
        let mut v = chars_of("Entered ");
        let n = chars_of(name);
        push_all(&mut v, n.as_slice());
        self.last_message = string_from_chars(v.as_slice());
    }

    /// Reading a page failed.
    pub fn mark_error(&mut self, error: String)
        ensures
            final(self)@ == status_failed(old(self)@, error@),
    {
        self.last_message = error;
    }

    /// Seconds left before the next round.
    pub fn mark_countdown(&mut self, remaining: u32)
        ensures
            final(self)@ == status_counting(old(self)@, remaining),
    {
        self.countdown_label = owned("refresh");
        self.countdown_seconds = remaining;
    }

    /// The bot's loop ended.
    pub fn mark_stopped(&mut self)
        ensures
            final(self)@ == status_stopped(old(self)@),
    {
        self.running = false;
        self.countdown_label = String::new();
        self.countdown_seconds = 0;
        self.last_message = owned("Bot stopped");
    }

    /// A stop was asked for.
    pub fn mark_stopping(&mut self)
        ensures
            final(self)@ == status_stopping(old(self)@),
    {
        self.running = false;
        self.last_message = owned("Stopping...");
    }
}

/// The bot enters a giveaway only when it is not entered yet, ends within the window, and
/// costs no more than the points left; the points then never go below zero.
pub proof fn law_entry_affordable(
    entered: bool,
    cost: u32,
    ends_at: Option<i64>,
    points: u32,
    max_end_hours: u32,
    now: i64,
)
    ensures
        entry_decision_for(entered, cost, ends_at, points, max_end_hours, now) is Enter ==> {
            &&& !entered
            &&& cost <= points
            &&& ends_within(ends_at, max_end_hours, now)
        },
{
}

/// The log never holds more than [`MAX_LOG_ENTRIES`] entries, and its last entry is the
/// one just appended.
pub proof fn law_log_bounded(old_log: Seq<(Seq<char>, Seq<char>)>, e: (Seq<char>, Seq<char>))
    requires
        old_log.len() <= MAX_LOG_ENTRIES,
    ensures
        log_after(old_log, e).len() <= MAX_LOG_ENTRIES,
        log_after(old_log, e).last() == e,
        log_after(old_log, e) == old_log.push(e).subrange(
            old_log.push(e).len() - log_after(old_log, e).len(),
            old_log.push(e).len() as int,
        ),
{
    let full = old_log.push(e);
    if full.len() <= MAX_LOG_ENTRIES {
        assert(full.subrange(0, full.len() as int) == full);
    }
}

} // verus!

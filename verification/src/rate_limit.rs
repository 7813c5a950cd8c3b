//! Client-side rate limiting of requests to Steam, with cooldowns that survive restarts.
//!
//! Time comes in as plain numbers: `now_unix` in seconds since the Unix epoch (for the
//! persisted cooldowns) and `now_nanos` from a monotonic clock (for request spacing).
use vstd::prelude::*;

use crate::text::{chars_of, decimal, decimal_u64, push_all, string_from_chars};

verus! {

pub const STORE_MIN_INTERVAL_SECS: u64 = 2;
pub const STORE_MAX_PER_MINUTE: u32 = 6;
pub const STORE_COOLDOWN_SECS: u64 = 3600;
pub const WEB_API_MIN_INTERVAL_SECS: u64 = 1;
pub const WEB_API_MAX_PER_MINUTE: u32 = 20;

pub const NANOS_PER_SEC: u64 = 1_000_000_000;

/// The Steam services whose requests are limited.
#[derive(Clone, Copy, Debug)]
pub enum SteamEndpoint {
    Store,
    WebApi,
}

/// Cooldowns that are saved to disk: Unix second until which each endpoint is paused.
pub struct PersistedCooldowns {
    pub store_blocked_until: u64,
    pub web_api_blocked_until: u64,
}

/// Request spacing of one endpoint (monotonic nanoseconds).
pub struct EndpointState {
    pub last_request: Option<u64>,
    pub minute_started: u64,
    pub requests_this_minute: u32,
}

/// The limiter's whole state.
pub struct RateLimiter {
    pub store: EndpointState,
    pub web_api: EndpointState,
    pub persisted: PersistedCooldowns,
}

impl EndpointState {
    /// A fresh endpoint whose minute window starts at `now_nanos`.
    pub fn new(now_nanos: u64) -> (r: EndpointState)
        ensures
            r.last_request is None,
            r.minute_started == now_nanos,
            r.requests_this_minute == 0,
    {
        EndpointState { last_request: None, minute_started: now_nanos, requests_this_minute: 0 }
    }
}

impl RateLimiter {
    /// A limiter with fresh request spacing and the given saved cooldowns.
    pub fn new(now_nanos: u64, persisted: PersistedCooldowns) -> (r: RateLimiter)
        ensures
            r.store.last_request is None,
            r.web_api.last_request is None,
            r.store.requests_this_minute == 0,
            r.web_api.requests_this_minute == 0,
            r.store.minute_started == now_nanos,
            r.web_api.minute_started == now_nanos,
            r.persisted == persisted,
    {
        RateLimiter {
            store: EndpointState::new(now_nanos),
            web_api: EndpointState::new(now_nanos),
            persisted,
        }
    }
}

impl PersistedCooldowns {
    /// No endpoint paused.
    pub fn none() -> (r: PersistedCooldowns)
        ensures
            r.store_blocked_until == 0,
            r.web_api_blocked_until == 0,
    {
        PersistedCooldowns { store_blocked_until: 0, web_api_blocked_until: 0 }
    }
}

pub open spec fn spec_blocked_until(endpoint: SteamEndpoint, p: PersistedCooldowns) -> u64 {
    match endpoint {
        SteamEndpoint::Store => p.store_blocked_until,
        SteamEndpoint::WebApi => p.web_api_blocked_until,
    }
}

pub open spec fn spec_min_interval_secs(endpoint: SteamEndpoint) -> u64 {
    match endpoint {
        SteamEndpoint::Store => STORE_MIN_INTERVAL_SECS,
        SteamEndpoint::WebApi => WEB_API_MIN_INTERVAL_SECS,
    }
}

pub open spec fn spec_max_per_minute(endpoint: SteamEndpoint) -> u32 {
    match endpoint {
        SteamEndpoint::Store => STORE_MAX_PER_MINUTE,
        SteamEndpoint::WebApi => WEB_API_MAX_PER_MINUTE,
    }
}

pub open spec fn spec_cooldown_secs(endpoint: SteamEndpoint) -> u64 {
    match endpoint {
        SteamEndpoint::Store => STORE_COOLDOWN_SECS,
        SteamEndpoint::WebApi => STORE_COOLDOWN_SECS / 2,
    }
}

pub open spec fn endpoint_label_text(endpoint: SteamEndpoint) -> Seq<char> {
    match endpoint {
        SteamEndpoint::Store => "Steam Store"@,
        SteamEndpoint::WebApi => "Steam Web API"@,
    }
}

pub open spec fn endpoint_state(l: RateLimiter, endpoint: SteamEndpoint) -> EndpointState {
    match endpoint {
        SteamEndpoint::Store => l.store,
        SteamEndpoint::WebApi => l.web_api,
    }
}

/// Whole minutes, rounded up, in a number of seconds.
pub open spec fn minutes_ceil(secs: u64) -> u64 {
    (secs / 60 + if secs % 60 != 0 {
        1u64
    } else {
        0u64
    }) as u64
}

fn blocked_until(endpoint: SteamEndpoint, persisted: &PersistedCooldowns) -> (r: u64)
    ensures
        r == spec_blocked_until(endpoint, *persisted),
{
    match endpoint {
        SteamEndpoint::Store => persisted.store_blocked_until,
        SteamEndpoint::WebApi => persisted.web_api_blocked_until,
    }
}

fn set_blocked_until(endpoint: SteamEndpoint, persisted: &mut PersistedCooldowns, until: u64)
    ensures
        spec_blocked_until(endpoint, *final(persisted)) == until,
        endpoint matches SteamEndpoint::Store ==> final(persisted).web_api_blocked_until == old(persisted).web_api_blocked_until,
        endpoint matches SteamEndpoint::WebApi ==> final(persisted).store_blocked_until == old(persisted).store_blocked_until,
{
    match endpoint {
        SteamEndpoint::Store => persisted.store_blocked_until = until,
        SteamEndpoint::WebApi => persisted.web_api_blocked_until = until,
    }
}

fn min_interval_nanos(endpoint: SteamEndpoint) -> (r: u64)
    ensures
        r == spec_min_interval_secs(endpoint) * NANOS_PER_SEC,
{
    match endpoint {
        SteamEndpoint::Store => STORE_MIN_INTERVAL_SECS * NANOS_PER_SEC,
        SteamEndpoint::WebApi => WEB_API_MIN_INTERVAL_SECS * NANOS_PER_SEC,
    }
}

fn max_per_minute(endpoint: SteamEndpoint) -> (r: u32)
    ensures
        r == spec_max_per_minute(endpoint),
{
    match endpoint {
        SteamEndpoint::Store => STORE_MAX_PER_MINUTE,
        SteamEndpoint::WebApi => WEB_API_MAX_PER_MINUTE,
    }
}

fn cooldown_secs(endpoint: SteamEndpoint) -> (r: u64)
    ensures
        r == spec_cooldown_secs(endpoint),
{
    match endpoint {
        SteamEndpoint::Store => STORE_COOLDOWN_SECS,
        SteamEndpoint::WebApi => STORE_COOLDOWN_SECS / 2,
    }
}

fn endpoint_label(endpoint: SteamEndpoint) -> (r: Vec<char>)
    ensures
        r@ == endpoint_label_text(endpoint),
{
    match endpoint {
        SteamEndpoint::Store => chars_of("Steam Store"),
        SteamEndpoint::WebApi => chars_of("Steam Web API"),
    }
}

fn div_ceil_60(secs: u64) -> (r: u64)
    ensures
        r == minutes_ceil(secs),
{
    secs / 60 + if secs % 60 != 0 {
        1
    } else {
        0
    }
}

pub open spec fn cooldown_text(endpoint: SteamEndpoint, mins: u64) -> Seq<char> {
    endpoint_label_text(endpoint) + " is temporarily paused to protect your IP ("@ + decimal(
        mins as nat,
    ) + " min remaining). Card detection uses cached data only."@
}

/// While `endpoint` is paused at Unix second `now_unix`, the notice shown instead of
/// fresh data; `None` when it is not paused.
pub fn cooldown_message(limiter: &RateLimiter, endpoint: SteamEndpoint, now_unix: u64) -> (r:
    Option<String>)
    ensures
        ({
            let until = spec_blocked_until(endpoint, limiter.persisted);
            if until > now_unix {
                r matches Some(m) && m@ == cooldown_text(
                    endpoint,
                    minutes_ceil((until - now_unix) as u64),
                )
            } else {
                r is None
            }
        }),
{
    let until = blocked_until(endpoint, &limiter.persisted);
    if until > now_unix {
        let mins = div_ceil_60(until - now_unix);
        let mut v = endpoint_label(endpoint);
        let a = chars_of(" is temporarily paused to protect your IP (");
        push_all(&mut v, a.as_slice());
        let d = decimal_u64(mins);
        push_all(&mut v, d.as_slice());
        let b = chars_of(" min remaining). Card detection uses cached data only.");
        push_all(&mut v, b.as_slice());
        Some(string_from_chars(v.as_slice()))
    } else {
        None
    }
}

/// Which endpoints are paused, and for how many whole minutes (rounded up).
pub struct SteamRateLimitStatus {
    pub store_paused: bool,
    pub store_minutes_remaining: u32,
    pub web_api_paused: bool,
    pub web_api_minutes_remaining: u32,
}

pub open spec fn remaining_secs(until: u64, now: u64) -> u64 {
    if until > now {
        (until - now) as u64
    } else {
        0
    }
}

/// The pause state of both endpoints at Unix second `now_unix`.
pub fn rate_limit_status(limiter: &RateLimiter, now_unix: u64) -> (r: SteamRateLimitStatus)
    ensures
        r.store_paused == (limiter.persisted.store_blocked_until > now_unix),
        r.web_api_paused == (limiter.persisted.web_api_blocked_until > now_unix),
        r.store_minutes_remaining == minutes_ceil(
            remaining_secs(limiter.persisted.store_blocked_until, now_unix),
        ) as u32,
        r.web_api_minutes_remaining == minutes_ceil(
            remaining_secs(limiter.persisted.web_api_blocked_until, now_unix),
        ) as u32,
{
    let store_remaining = limiter.persisted.store_blocked_until.saturating_sub(now_unix);
    let web_remaining = limiter.persisted.web_api_blocked_until.saturating_sub(now_unix);
    SteamRateLimitStatus {
        store_paused: store_remaining > 0,
        store_minutes_remaining: div_ceil_60(store_remaining) as u32,
        web_api_paused: web_remaining > 0,
        web_api_minutes_remaining: div_ceil_60(web_remaining) as u32,
    }
}

/// Lifts every cooldown.
pub fn reset_cooldowns(limiter: &mut RateLimiter)
    ensures
        final(limiter).persisted.store_blocked_until == 0,
        final(limiter).persisted.web_api_blocked_until == 0,
        final(limiter).store == old(limiter).store,
        final(limiter).web_api == old(limiter).web_api,
{
    limiter.persisted = PersistedCooldowns::none();
}

/// An HTTP status by which Steam says that requests are too many.
pub open spec fn is_block_status(status: u16) -> bool {
    status == 403 || status == 429 || status == 503
}

/// On a blocking status (403, 429, 503) pauses `endpoint` for its cooldown from
/// `now_unix`; other statuses change nothing. Returns whether the saved cooldowns changed.
pub fn report_rate_limited(
    limiter: &mut RateLimiter,
    endpoint: SteamEndpoint,
    status: u16,
    now_unix: u64,
) -> (changed: bool)
    requires
        now_unix <= u64::MAX - STORE_COOLDOWN_SECS,
    ensures
        changed == is_block_status(status),
        final(limiter).store == old(limiter).store,
        final(limiter).web_api == old(limiter).web_api,
        !changed ==> final(limiter).persisted == old(limiter).persisted,
        changed ==> spec_blocked_until(endpoint, final(limiter).persisted) == now_unix
            + spec_cooldown_secs(endpoint),
        (changed && endpoint is Store) ==> final(limiter).persisted.web_api_blocked_until == old(limiter).persisted.web_api_blocked_until,
        (changed && endpoint is WebApi) ==> final(limiter).persisted.store_blocked_until == old(limiter).persisted.store_blocked_until,
{
    if status != 403 && status != 429 && status != 503 {
        return false;
    }
    let until = now_unix + cooldown_secs(endpoint);
    set_blocked_until(endpoint, &mut limiter.persisted, until);
    true
}

/// What a request slot asks of its caller.
pub enum AcquireStep {
    /// The endpoint is paused; the request must not be made.
    Denied(String),
    /// Sleep this many nanoseconds, then ask again.
    Wait(u64),
    /// The request may go out now; it has been counted.
    Granted,
}

pub open spec fn denied_text(endpoint: SteamEndpoint, mins: u64) -> Seq<char> {
    endpoint_label_text(endpoint) + " requests paused for "@ + decimal(mins as nat)
        + " more minutes to avoid IP blocks."@
}

pub open spec fn elapsed(since: u64, now: u64) -> u64 {
    if now >= since {
        (now - since) as u64
    } else {
        0
    }
}

/// The spacing state after the minute window was renewed, where it had run out.
pub open spec fn window_renewed(e: EndpointState, now: u64) -> EndpointState {
    if elapsed(e.minute_started, now) >= 60 * NANOS_PER_SEC {
        EndpointState { minute_started: now, requests_this_minute: 0, ..e }
    } else {
        e
    }
}

/// How long to wait before the next request, given renewed spacing state.
pub open spec fn wait_nanos(e: EndpointState, endpoint: SteamEndpoint, now: u64) -> u64 {
    if e.requests_this_minute >= spec_max_per_minute(endpoint) {
        let el = elapsed(e.minute_started, now);
        if el < 60 * NANOS_PER_SEC {
            (60 * NANOS_PER_SEC - el) as u64
        } else {
            0
        }
    } else {
        match e.last_request {
            Some(last) => {
                let el = elapsed(last, now);
                let iv = spec_min_interval_secs(endpoint) * NANOS_PER_SEC;
                if el < iv {
                    (iv - el) as u64
                } else {
                    0
                }
            },
            None => 0,
        }
    }
}

/// The endpoint's spacing state after a request was granted at `now`.
pub open spec fn counted(e: EndpointState, now: u64) -> EndpointState {
    EndpointState {
        last_request: Some(now),
        requests_this_minute: (e.requests_this_minute + 1) as u32,
        ..e
    }
}

pub open spec fn with_endpoint_state(
    l: RateLimiter,
    endpoint: SteamEndpoint,
    e: EndpointState,
) -> RateLimiter {
    match endpoint {
        SteamEndpoint::Store => RateLimiter { store: e, ..l },
        SteamEndpoint::WebApi => RateLimiter { web_api: e, ..l },
    }
}

fn endpoint_state_mut(limiter: &mut RateLimiter, endpoint: SteamEndpoint) -> (r: &mut EndpointState)
    ensures
        *r == endpoint_state(*old(limiter), endpoint),
        *final(limiter) == with_endpoint_state(*old(limiter), endpoint, *final(r)),
{
    match endpoint {
        SteamEndpoint::Store => &mut limiter.store,
        SteamEndpoint::WebApi => &mut limiter.web_api,
    }
}

/// One round of asking for a request slot at Unix second `now_unix` and monotonic time
/// `now_nanos`: refuses while the endpoint is paused, asks to wait while the per-minute
/// budget is used up or the last request was too recent, and otherwise counts the request.
pub fn acquire_step(
    limiter: &mut RateLimiter,
    endpoint: SteamEndpoint,
    now_unix: u64,
    now_nanos: u64,
) -> (r: AcquireStep)
    ensures
        final(limiter).persisted == old(limiter).persisted,
        ({
            let until = spec_blocked_until(endpoint, old(limiter).persisted);
            let e = window_renewed(endpoint_state(*old(limiter), endpoint), now_nanos);
            if until > now_unix {
                &&& r matches AcquireStep::Denied(m)
                &&& m@ == denied_text(endpoint, minutes_ceil((until - now_unix) as u64))
                &&& *final(limiter) == *old(limiter)
            } else if wait_nanos(e, endpoint, now_nanos) > 0 {
                &&& r == AcquireStep::Wait(wait_nanos(e, endpoint, now_nanos))
                &&& *final(limiter) == with_endpoint_state(*old(limiter), endpoint, e)
            } else {
                &&& r is Granted
                &&& e.requests_this_minute < spec_max_per_minute(endpoint)
                &&& *final(limiter) == with_endpoint_state(
                    *old(limiter),
                    endpoint,
                    counted(e, now_nanos),
                )
            }
        }),
{
    let blocked = blocked_until(endpoint, &limiter.persisted);
    if blocked > now_unix {
        let mins = div_ceil_60(blocked - now_unix);
        let mut v = endpoint_label(endpoint);
        let a = chars_of(" requests paused for ");
        push_all(&mut v, a.as_slice());
        let d = decimal_u64(mins);
        push_all(&mut v, d.as_slice());
        let b = chars_of(" more minutes to avoid IP blocks.");
        push_all(&mut v, b.as_slice());
        return AcquireStep::Denied(string_from_chars(v.as_slice()));
    }
    let max = max_per_minute(endpoint);
    let interval = min_interval_nanos(endpoint);
    let state = endpoint_state_mut(limiter, endpoint);
    if now_nanos.saturating_sub(state.minute_started) >= 60 * NANOS_PER_SEC {
        state.minute_started = now_nanos;
        state.requests_this_minute = 0;
    }
    let wait = if state.requests_this_minute >= max {
        (60 * NANOS_PER_SEC).saturating_sub(now_nanos.saturating_sub(state.minute_started))
    } else {
        match state.last_request {
            Some(last) => interval.saturating_sub(now_nanos.saturating_sub(last)),
            None => 0,
        }
    };
    if wait > 0 {
        return AcquireStep::Wait(wait);
    }
    state.last_request = Some(now_nanos);
    state.requests_this_minute = state.requests_this_minute + 1;
    AcquireStep::Granted
}

/// A request slot is never granted while the endpoint is paused: after a blocking status
/// was reported at `t`, every request until the cooldown ends is refused.
pub proof fn law_reported_block_refuses(
    l: RateLimiter,
    endpoint: SteamEndpoint,
    t: u64,
    now_unix: u64,
)
    requires
        spec_blocked_until(endpoint, l.persisted) == t + spec_cooldown_secs(endpoint),
        t <= now_unix < t + spec_cooldown_secs(endpoint),
    ensures
        spec_blocked_until(endpoint, l.persisted) > now_unix,
        minutes_ceil((spec_blocked_until(endpoint, l.persisted) - now_unix) as u64) >= 1,
{
}

/// Every granted request keeps the per-minute count within the endpoint's budget, and
/// comes at least the minimum interval after the previous one in the same window.
pub proof fn law_grant_respects_budget(e: EndpointState, endpoint: SteamEndpoint, now: u64)
    requires
        wait_nanos(window_renewed(e, now), endpoint, now) == 0,
    ensures
        window_renewed(e, now).requests_this_minute < spec_max_per_minute(endpoint),
        counted(window_renewed(e, now), now).requests_this_minute <= spec_max_per_minute(endpoint),
        window_renewed(e, now).last_request matches Some(last) ==> elapsed(last, now)
            >= spec_min_interval_secs(endpoint) * NANOS_PER_SEC,
{
}

/// The spacing state of an endpoint that was never asked, whose minute window starts at
/// `w0`.
pub open spec fn fresh_spacing(w0: u64) -> EndpointState {
    EndpointState { last_request: None, minute_started: w0, requests_this_minute: 0 }
}

/// Asking for request slots of `endpoint` at each of `times` in turn, while the endpoint is
/// not paused: the spacing state afterwards, and the grants made, each as its time and the
/// start of the minute window that counted it. Each step is what [`acquire_step`] does to
/// the endpoint when it does not refuse; a refusal changes nothing, so refused asks need no
/// place here.
pub open spec fn spacing_run(e: EndpointState, endpoint: SteamEndpoint, times: Seq<u64>) -> (EndpointState, Seq<(u64, u64)>)
    decreases times.len(),
{
    if times.len() == 0 {
        (e, Seq::empty())
    } else {
        let (e1, gs) = spacing_run(e, endpoint, times.drop_last());
        let t = times.last();
        let r = window_renewed(e1, t);
        if wait_nanos(r, endpoint, t) == 0 {
            (counted(r, t), gs.push((t, r.minute_started)))
        } else {
            (r, gs)
        }
    }
}

pub open spec fn interval_nanos(endpoint: SteamEndpoint) -> int {
    spec_min_interval_secs(endpoint) * NANOS_PER_SEC
}

spec fn run_inv(e: EndpointState, endpoint: SteamEndpoint, gs: Seq<(u64, u64)>, w0: u64, tl: u64) -> bool {
    let c = e.requests_this_minute as int;
    let n = gs.len() as int;
    let max = spec_max_per_minute(endpoint) as int;
    &&& w0 <= e.minute_started <= tl
    &&& c <= max
    &&& c <= n
    &&& e.last_request == if n == 0 {
        None::<u64>
    } else {
        Some(gs[n - 1].0)
    }
    &&& forall|i: int| n - c <= i < n ==> #[trigger] gs[i].1 == e.minute_started
    &&& n > c ==> gs[n - c - 1].1 < e.minute_started
    &&& forall|i: int, j: int| 0 <= i <= j < n ==> #[trigger] gs[i].1 <= #[trigger] gs[j].1
    &&& forall|i: int| 0 <= i < n ==> #[trigger] gs[i].1 <= e.minute_started
    &&& forall|i: int| 0 <= i < n ==> #[trigger] gs[i].0 <= tl
    &&& forall|i: int| 0 <= i < n ==> #[trigger] gs[i].1 <= gs[i].0 && gs[i].0 < gs[i].1 + 60 * NANOS_PER_SEC
    &&& forall|i: int| 0 <= i < n - 1 ==> #[trigger] gs[i].0 + interval_nanos(endpoint) <= gs[i + 1].0
    &&& forall|i: int| 0 <= i && i + max < n ==> #[trigger] gs[i].1 < gs[i + max].1
}

proof fn lemma_run_step(e: EndpointState, endpoint: SteamEndpoint, gs: Seq<(u64, u64)>, w0: u64, tl: u64, t: u64)
    requires
        run_inv(e, endpoint, gs, w0, tl),
        tl <= t,
    ensures
        ({
            let r = window_renewed(e, t);
            if wait_nanos(r, endpoint, t) == 0 {
                run_inv(counted(r, t), endpoint, gs.push((t, r.minute_started)), w0, t)
            } else {
                run_inv(r, endpoint, gs, w0, t)
            }
        }),
{
    let r = window_renewed(e, t);
    let n = gs.len() as int;
    let max = spec_max_per_minute(endpoint) as int;
    if wait_nanos(r, endpoint, t) == 0 {
        let g2 = gs.push((t, r.minute_started));
        let e2 = counted(r, t);
        assert(r.requests_this_minute < max);
        if n > 0 {
            assert(elapsed(gs[n - 1].0, t) >= interval_nanos(endpoint));
        }
        assert forall|i: int| 0 <= i && i + max < n + 1 implies #[trigger] g2[i].1 < g2[i + max].1 by {
            if i + max < n {
                assert(gs[i].1 < gs[i + max].1);
            } else {
                let c = r.requests_this_minute as int;
                if elapsed(e.minute_started, t) < 60 * NANOS_PER_SEC {
                    assert(gs[i].1 <= gs[n - c - 1].1);
                }
            }
        }
        assert forall|i: int, j: int| 0 <= i <= j < n + 1 implies #[trigger] g2[i].1 <= #[trigger] g2[j].1 by {
            if j < n {
                assert(gs[i].1 <= gs[j].1);
            }
        }
        assert forall|i: int| 0 <= i < n + 1 - 1 implies #[trigger] g2[i].0 + interval_nanos(endpoint) <= g2[i + 1].0 by {
            if i < n - 1 {
                assert(gs[i].0 + interval_nanos(endpoint) <= gs[i + 1].0);
            }
        }
        assert(run_inv(e2, endpoint, g2, w0, t));
    } else {
        assert forall|i: int, j: int| 0 <= i <= j < n implies #[trigger] gs[i].1 <= #[trigger] gs[j].1 by {}
        assert(run_inv(r, endpoint, gs, w0, t));
    }
}

proof fn lemma_run(endpoint: SteamEndpoint, w0: u64, times: Seq<u64>)
    requires
        forall|i: int, j: int| 0 <= i <= j < times.len() ==> times[i] <= times[j],
        forall|i: int| 0 <= i < times.len() ==> w0 <= #[trigger] times[i],
    ensures
        run_inv(
            spacing_run(fresh_spacing(w0), endpoint, times).0,
            endpoint,
            spacing_run(fresh_spacing(w0), endpoint, times).1,
            w0,
            if times.len() == 0 {
                w0
            } else {
                times.last()
            },
        ),
    decreases times.len(),
{
    if times.len() > 0 {
        let prev = times.drop_last();
        lemma_run(endpoint, w0, prev);
        let tl = if prev.len() == 0 {
            w0
        } else {
            prev.last()
        };
        let (e1, gs) = spacing_run(fresh_spacing(w0), endpoint, prev);
        lemma_run_step(e1, endpoint, gs, w0, tl, times.last());
    }
}

/// Over any run of request slots of one endpoint, asked at times that never go back and
/// starting from a fresh endpoint: each grant falls within the minute window that counted
/// it; successive grants are at least the endpoint's minimum interval apart; and grants
/// counted by one window are fewer than `max_per_minute` apart, so no window counts more
/// than `max_per_minute` of them.
pub proof fn law_grants_spaced(endpoint: SteamEndpoint, w0: u64, times: Seq<u64>)
    requires
        forall|i: int, j: int| 0 <= i <= j < times.len() ==> times[i] <= times[j],
        forall|i: int| 0 <= i < times.len() ==> w0 <= #[trigger] times[i],
    ensures
        ({
            let gs = spacing_run(fresh_spacing(w0), endpoint, times).1;
            &&& forall|i: int| 0 <= i < gs.len() ==> #[trigger] gs[i].1 <= gs[i].0 && gs[i].0 < gs[i].1 + 60
                * NANOS_PER_SEC
            &&& forall|i: int| 0 <= i < gs.len() - 1 ==> #[trigger] gs[i].0 + interval_nanos(endpoint) <= gs[i + 1].0
            &&& forall|i: int, j: int|
                0 <= i < j < gs.len() && #[trigger] gs[i].1 == #[trigger] gs[j].1 ==> j - i < spec_max_per_minute(endpoint)
        }),
{
    lemma_run(endpoint, w0, times);
    let gs = spacing_run(fresh_spacing(w0), endpoint, times).1;
    let max = spec_max_per_minute(endpoint) as int;
    assert forall|i: int, j: int| 0 <= i < j < gs.len() && #[trigger] gs[i].1 == #[trigger] gs[j].1 implies j - i < max by {
        if j - i >= max {
            assert(gs[i].1 < gs[i + max].1);
            assert(gs[i + max].1 <= gs[j].1);
        }
    }
}

/// Asking for request slots of `endpoint` at each of `asks` (Unix second, monotonic
/// nanoseconds) in turn, starting from spacing state `e`, with the endpoint paused until
/// Unix second `until` (asking never changes that): an ask while paused is refused and
/// changes nothing; any other ask is a step of [`spacing_run`]. Each ask is what
/// [`acquire_step`] does. Gives the spacing state, the grants (time and window) and the
/// Unix second of each grant.
pub open spec fn acquire_run(e: EndpointState, endpoint: SteamEndpoint, until: u64, asks: Seq<(u64, u64)>) -> (
    EndpointState,
    Seq<(u64, u64)>,
    Seq<u64>,
)
    decreases asks.len(),
{
    if asks.len() == 0 {
        (e, Seq::empty(), Seq::empty())
    } else {
        let (e1, gs, us) = acquire_run(e, endpoint, until, asks.drop_last());
        let (u, t) = asks.last();
        if until > u {
            (e1, gs, us)
        } else {
            let r = window_renewed(e1, t);
            if wait_nanos(r, endpoint, t) == 0 {
                (counted(r, t), gs.push((t, r.minute_started)), us.push(u))
            } else {
                (r, gs, us)
            }
        }
    }
}

proof fn lemma_acquire_run(endpoint: SteamEndpoint, w0: u64, until: u64, asks: Seq<(u64, u64)>)
    requires
        forall|i: int, j: int| 0 <= i <= j < asks.len() ==> asks[i].1 <= asks[j].1,
        forall|i: int| 0 <= i < asks.len() ==> w0 <= #[trigger] asks[i].1,
    ensures
        ({
            let run = acquire_run(fresh_spacing(w0), endpoint, until, asks);
            &&& run_inv(run.0, endpoint, run.1, w0, if asks.len() == 0 {
                w0
            } else {
                asks.last().1
            })
            &&& run.1.len() == run.2.len()
            &&& forall|i: int| 0 <= i < run.2.len() ==> until <= #[trigger] run.2[i]
        }),
    decreases asks.len(),
{
    if asks.len() > 0 {
        let prev = asks.drop_last();
        lemma_acquire_run(endpoint, w0, until, prev);
        let tl = if prev.len() == 0 {
            w0
        } else {
            prev.last().1
        };
        let (e1, gs, us) = acquire_run(fresh_spacing(w0), endpoint, until, prev);
        let (u, t) = asks.last();
        if until <= u {
            lemma_run_step(e1, endpoint, gs, w0, tl, t);
            let run = acquire_run(fresh_spacing(w0), endpoint, until, asks);
            assert forall|i: int| 0 <= i < run.2.len() implies until <= #[trigger] run.2[i] by {
                if i < us.len() {
                    assert(run.2[i] == us[i]);
                }
            }
        } else {
            assert forall|i: int, j: int| 0 <= i <= j < gs.len() implies #[trigger] gs[i].1 <= #[trigger] gs[j].1 by {}
        }
    }
}

/// Over any run of asks for request slots of one endpoint, at monotonic times that never
/// go back, starting from a fresh endpoint: no slot is granted while the endpoint is
/// paused, and an ask while paused uses no slot (the run goes on as if it had not been
/// made); each grant falls within the minute window that counted it; successive grants
/// are at least the endpoint's minimum interval apart; and grants counted by one window
/// are fewer than `max_per_minute` apart, so no window counts more than `max_per_minute`
/// of them.
pub proof fn law_acquire_run(endpoint: SteamEndpoint, w0: u64, until: u64, asks: Seq<(u64, u64)>)
    requires
        forall|i: int, j: int| 0 <= i <= j < asks.len() ==> asks[i].1 <= asks[j].1,
        forall|i: int| 0 <= i < asks.len() ==> w0 <= #[trigger] asks[i].1,
    ensures
        ({
            let run = acquire_run(fresh_spacing(w0), endpoint, until, asks);
            let gs = run.1;
            &&& run.2.len() == gs.len()
            &&& forall|i: int| 0 <= i < run.2.len() ==> until <= #[trigger] run.2[i]
            &&& forall|k: int|
                0 <= k < asks.len() && #[trigger] asks[k].0 < until ==> acquire_run(
                    fresh_spacing(w0),
                    endpoint,
                    until,
                    asks.take(k + 1),
                ) == acquire_run(fresh_spacing(w0), endpoint, until, asks.take(k))
            &&& forall|i: int| 0 <= i < gs.len() ==> #[trigger] gs[i].1 <= gs[i].0 && gs[i].0 < gs[i].1 + 60
                * NANOS_PER_SEC
            &&& forall|i: int| 0 <= i < gs.len() - 1 ==> #[trigger] gs[i].0 + interval_nanos(endpoint) <= gs[i + 1].0
            &&& forall|i: int, j: int|
                0 <= i < j < gs.len() && #[trigger] gs[i].1 == #[trigger] gs[j].1 ==> j - i < spec_max_per_minute(endpoint)
        }),
{
    lemma_acquire_run(endpoint, w0, until, asks);
    let gs = acquire_run(fresh_spacing(w0), endpoint, until, asks).1;
    let max = spec_max_per_minute(endpoint) as int;
    assert forall|i: int, j: int| 0 <= i < j < gs.len() && #[trigger] gs[i].1 == #[trigger] gs[j].1 implies j - i < max by {
        if j - i >= max {
            assert(gs[i].1 < gs[i + max].1);
            assert(gs[i + max].1 <= gs[j].1);
        }
    }
    assert forall|k: int|
        0 <= k < asks.len() && #[trigger] asks[k].0 < until implies acquire_run(
            fresh_spacing(w0),
            endpoint,
            until,
            asks.take(k + 1),
        ) == acquire_run(fresh_spacing(w0), endpoint, until, asks.take(k)) by {
        assert(asks.take(k + 1).drop_last() =~= asks.take(k));
        assert(asks.take(k + 1).last() == asks[k]);
    }
}

} // verus!

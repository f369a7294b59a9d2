//! The refresh path: the state that lives from call to call, and the course of
//! one refresh as a sequence of requests to the driver and replies from it.
//!
//! An operation starts with `refresh` or `flash_full`, which say what to ask of
//! the driver first. The reply to a query goes to `resume`, the reply to an
//! update to `updated`, until the outcome is there.

use crate::eink::{to_coord, DriverError, UpdateArea, VarScreenInfo};
use crate::fx::{clamp_rect, Policy, KIND_FULL, MODE_FAST};
use vstd::prelude::*;

verus! {

/// The settings, the page turn counter, the known screen size (0 by 0 until it is
/// known) and the error number of the last failure.
#[derive(Debug, Clone, Copy, PartialEq, Eq, Structural)]
pub struct State {
    pub mode: u32,
    pub interval: u32,
    pub flips: u32,
    pub max_w: i32,
    pub max_h: i32,
    pub last_errno: i32,
}

impl State {
    /// What `new` establishes and every operation preserves.
    pub open spec fn wf(self) -> bool {
        &&& 1 <= self.interval
        &&& self.flips < u32::MAX
    }

    /// The policy that these settings and this counter stand for.
    pub open spec fn policy(self) -> Policy {
        Policy {
            mode: self.mode,
            page_interval: if self.interval == 0 {
                1
            } else {
                self.interval
            },
            flips_since_slow: self.flips,
        }
    }

    /// The screen size, once it is known.
    pub open spec fn known_size(self) -> Option<(i32, i32)> {
        if self.max_w > 0 && self.max_h > 0 {
            Some((self.max_w, self.max_h))
        } else {
            None
        }
    }

    /// The state after a request of this kind went through the policy.
    pub open spec fn decided(self, kind: u32) -> State {
        State { flips: self.policy().flips_after(kind), ..self }
    }

    /// The state after all these requests went through the policy, in this order.
    pub open spec fn decided_all(self, kinds: Seq<u32>) -> State
        decreases kinds.len(),
    {
        if kinds.len() == 0 {
            self
        } else {
            self.decided_all(kinds.drop_last()).decided(kinds.last())
        }
    }

    /// The state after the driver reported this resolution.
    pub open spec fn measured(self, info: VarScreenInfo) -> State {
        State {
            max_w: crate::eink::signed(info.xres),
            max_h: crate::eink::signed(info.yres),
            ..self
        }
    }

    /// Fast mode, a slow refresh every six page turns, nothing known of the screen.
    pub fn new() -> (state: Self)
        ensures
            state.wf(),
            state == (State {
                mode: MODE_FAST,
                interval: 6,
                flips: 0,
                max_w: 0,
                max_h: 0,
                last_errno: 0,
            }),
    {
        State { mode: MODE_FAST, interval: 6, flips: 0, max_w: 0, max_h: 0, last_errno: 0 }
    }
}

/// What is to be refreshed, and on what occasion.
#[derive(Debug, Clone, Copy, PartialEq, Eq, Structural)]
pub struct Request {
    pub kind: u32,
    pub x1: i32,
    pub y1: i32,
    pub x2: i32,
    pub y2: i32,
}

/// What waits for the screen size.
#[derive(Debug, Clone, Copy, PartialEq, Eq, Structural)]
pub enum Pending {
    /// A refresh whose effect is chosen.
    Refresh { request: Request, fx: i32 },
    /// A flash of the whole screen.
    Flash,
}

/// What comes next in an operation.
#[derive(Debug, Clone, Copy, PartialEq, Eq)]
pub enum Step {
    /// Ask the driver for the screen information, and hand the reply to `resume`.
    QueryScreen { pending: Pending },
    /// Refresh the whole screen, and hand the reply to `updated`.
    UpdateDisplay { which_fx: i32 },
    /// Refresh an area, and hand the reply to `updated`.
    UpdateArea { area: UpdateArea },
    /// Nothing: this is the outcome. `Ok(0)` says that there was nothing to refresh.
    Finished { outcome: Result<i32, DriverError> },
}

/// Runs a request through the policy; the counter advances accordingly.
pub fn decide_with_state(state: &mut State, kind: u32) -> (fx: i32)
    requires
        old(state).policy().counts(kind) ==> old(state).flips < u32::MAX,
    ensures
        fx == old(state).policy().fx_for(kind),
        *final(state) == old(state).decided(kind),
        old(state).wf() ==> final(state).wf(),
{
    let mut policy = Policy::new(state.mode, state.interval);
    policy.flips_since_slow = state.flips;
    let fx = policy.decide(kind);
    state.flips = policy.flips_since_slow;
    fx
}

/// The screen size, unless the driver has to be asked.
pub fn screen_size(state: &State) -> (size: Option<(i32, i32)>)
    ensures
        size == state.known_size(),
{
    if state.max_w > 0 && state.max_h > 0 {
        Some((state.max_w, state.max_h))
    } else {
        None
    }
}

/// Takes the driver's reply to a query for the screen information. A resolution
/// that it reports is kept and returned as it is.
pub fn screen_size_reply(state: &mut State, reply: Result<VarScreenInfo, DriverError>) -> (size:
    Result<(i32, i32), DriverError>)
    ensures
        match reply {
            Ok(info) => {
                &&& *final(state) == old(state).measured(info)
                &&& size == Ok::<(i32, i32), DriverError>(
                    (crate::eink::signed(info.xres), crate::eink::signed(info.yres)),
                )
            },
            Err(error) => {
                &&& *final(state) == *old(state)
                &&& size == Err::<(i32, i32), DriverError>(error)
            },
        },
{
    match reply {
        Ok(info) => {
            state.max_w = to_coord(info.xres);
            state.max_h = to_coord(info.yres);
            Ok((state.max_w, state.max_h))
        },
        Err(error) => Err(error),
    }
}

/// The update for a request, once the effect and the screen size are known: an
/// explicit full refresh that covers the screen goes out as a refresh of the whole
/// display, anything else as the visible part of its area, if there is one.
pub open spec fn update_step(request: Request, fx: i32, w: i32, h: i32) -> Step {
    if request.kind == KIND_FULL && request.x1 <= 0 && request.y1 <= 0 && request.x2 >= w
        && request.y2 >= h {
        Step::UpdateDisplay { which_fx: fx }
    } else {
        match crate::fx::visible_part(request.x1, request.y1, request.x2, request.y2, w, h) {
            Some(r) => Step::UpdateArea {
                area: UpdateArea { x1: r.0, y1: r.1, x2: r.2, y2: r.3, which_fx: fx },
            },
            None => Step::Finished { outcome: Ok(0) },
        }
    }
}

/// Chooses the update for a request.
pub fn choose_update(request: Request, fx: i32, w: i32, h: i32) -> (step: Step)
    ensures
        step == update_step(request, fx, w, h),
{
    if request.kind == KIND_FULL && request.x1 <= 0 && request.y1 <= 0 && request.x2 >= w
        && request.y2 >= h {
        return Step::UpdateDisplay { which_fx: fx };
    }
    match clamp_rect(request.x1, request.y1, request.x2, request.y2, w, h) {
        Some((x1, y1, x2, y2)) => Step::UpdateArea {
            area: UpdateArea::new(x1, y1, x2, y2, fx),
        },
        None => Step::Finished { outcome: Ok(0) },
    }
}

/// The first step of a refresh: the update, where the screen size is known.
pub open spec fn refresh_step(state: State, request: Request) -> Step {
    let fx = state.policy().fx_for(request.kind);
    match state.known_size() {
        Some((w, h)) => update_step(request, fx, w, h),
        None => Step::QueryScreen { pending: Pending::Refresh { request, fx } },
    }
}

/// Starts a refresh. The policy advances at once, whatever becomes of the refresh.
pub fn refresh(state: &mut State, kind: u32, x1: i32, y1: i32, x2: i32, y2: i32) -> (step: Step)
    requires
        old(state).policy().counts(kind) ==> old(state).flips < u32::MAX,
    ensures
        step == refresh_step(*old(state), Request { kind, x1, y1, x2, y2 }),
        *final(state) == old(state).decided(kind),
        old(state).wf() ==> final(state).wf(),
{
    let request = Request { kind, x1, y1, x2, y2 };
    let fx = decide_with_state(state, kind);
    match screen_size(state) {
        Some((w, h)) => choose_update(request, fx, w, h),
        None => Step::QueryScreen { pending: Pending::Refresh { request, fx } },
    }
}

/// An explicit full refresh of a screen of this size.
pub open spec fn whole_screen(w: i32, h: i32) -> Request {
    Request { kind: KIND_FULL, x1: 0, y1: 0, x2: w, y2: h }
}

/// Starts a slow refresh of the whole screen. The counter starts anew at once,
/// whatever becomes of the refresh.
pub fn flash_full(state: &mut State) -> (step: Step)
    ensures
        step == match old(state).known_size() {
            Some((w, h)) => refresh_step(*old(state), whole_screen(w, h)),
            None => Step::QueryScreen { pending: Pending::Flash },
        },
        *final(state) == (State { flips: 0, ..*old(state) }),
        old(state).wf() ==> final(state).wf(),
{
    state.flips = 0;
    match screen_size(state) {
        Some((w, h)) => refresh(state, KIND_FULL, 0, 0, w, h),
        None => Step::QueryScreen { pending: Pending::Flash },
    }
}

/// The step after the driver has reported this resolution to an operation that waited
/// for it.
pub open spec fn resume_step(state: State, pending: Pending, info: VarScreenInfo) -> Step {
    let w = crate::eink::signed(info.xres);
    let h = crate::eink::signed(info.yres);
    match pending {
        Pending::Refresh { request, fx } => update_step(request, fx, w, h),
        Pending::Flash => refresh_step(state.measured(info), whole_screen(w, h)),
    }
}

/// Goes on with an operation once the driver has answered the query for the
/// screen information.
pub fn resume(state: &mut State, pending: Pending, reply: Result<VarScreenInfo, DriverError>) -> (
step: Step)
    ensures
        match reply {
            Err(error) => {
                &&& step == (Step::Finished { outcome: Err(error) })
                &&& *final(state) == *old(state)
            },
            Ok(info) => {
                &&& step == resume_step(*old(state), pending, info)
                &&& *final(state) == match pending {
                    Pending::Refresh { .. } => old(state).measured(info),
                    Pending::Flash => State { flips: 0, ..old(state).measured(info) },
                }
            },
        },
        old(state).wf() ==> final(state).wf(),
{
    match screen_size_reply(state, reply) {
        Err(error) => Step::Finished { outcome: Err(error) },
        Ok((w, h)) => match pending {
            Pending::Refresh { request, fx } => choose_update(request, fx, w, h),
            Pending::Flash => refresh(state, KIND_FULL, 0, 0, w, h),
        },
    }
}

/// The outcome of an operation whose update went out with this effect and got
/// this reply.
pub fn updated(which_fx: i32, reply: Result<(), DriverError>) -> (outcome: Result<
    i32,
    DriverError,
>)
    ensures
        outcome == match reply {
            Ok(_) => Ok::<i32, DriverError>(which_fx),
            Err(error) => Err(error),
        },
{
    match reply {
        Ok(_) => Ok(which_fx),
        Err(error) => Err(error),
    }
}

/// Sets the mode and the number of page turns in a cycle. An interval of 0 is
/// taken as 1. The counter goes on from where it is.
pub fn set_mode(state: &mut State, mode: u32, interval: u32)
    ensures
        *final(state) == (State {
            mode,
            interval: if interval == 0 {
                1
            } else {
                interval
            },
            ..*old(state)
        }),
        old(state).wf() ==> final(state).wf(),
{
    state.mode = mode;
    state.interval = interval.max(1);
}

/// Keeps the error number of a failure, 0 where it has none.
pub fn record(state: &mut State, error: DriverError)
    ensures
        *final(state) == (State {
            last_errno: match error.raw_os_error {
                Some(n) => n,
                None => 0,
            },
            ..*old(state)
        }),
        old(state).wf() ==> final(state).wf(),
{
    state.last_errno = error.raw_os_error.unwrap_or(0);
}

/// The effect that a step sends to the driver, if it sends one.
pub open spec fn step_fx(step: Step) -> Option<i32> {
    match step {
        Step::UpdateDisplay { which_fx } => Some(which_fx),
        Step::UpdateArea { area } => Some(area.which_fx),
        _ => None,
    }
}

/// A refresh asks for the screen size exactly where it is not known. A resolution that
/// the driver reports is known from then on: no request, no change of the settings and no
/// failure makes it unknown again, so no later operation asks.
pub proof fn law_size_is_asked_once(
    state: State,
    info: VarScreenInfo,
    request: Request,
    mode: u32,
    interval: u32,
    errno: i32,
)
    ensures
        refresh_step(state, request) is QueryScreen <==> state.known_size() is None,
        0 < info.xres <= i32::MAX && 0 < info.yres <= i32::MAX ==> state.measured(
            info,
        ).known_size() == Some((info.xres as i32, info.yres as i32)),
        state.decided(request.kind).known_size() == state.known_size(),
        (State { flips: 0, ..state }).known_size() == state.known_size(),
        (State { mode, interval, ..state }).known_size() == state.known_size(),
        (State { last_errno: errno, ..state }).known_size() == state.known_size(),
{
}

/// An update never asks for the screen size, so a refresh asks at most once; it
/// carries the effect that the policy chose, and an area that goes out lies on the
/// screen and is at least two pixels wide and high.
pub proof fn law_update(request: Request, fx: i32, w: i32, h: i32)
    ensures
        !(update_step(request, fx, w, h) is QueryScreen),
        step_fx(update_step(request, fx, w, h)) matches Some(sent) ==> sent == fx,
        update_step(request, fx, w, h) matches Step::Finished { outcome } ==> outcome
            == Ok::<i32, DriverError>(0),
        update_step(request, fx, w, h) matches Step::UpdateArea { area } ==> {
            &&& 0 <= area.x1
            &&& area.x1 + 2 <= area.x2 <= w
            &&& 0 <= area.y1
            &&& area.y1 + 2 <= area.y2 <= h
        },
        update_step(request, fx, w, h) is UpdateDisplay <==> {
            &&& request.kind == KIND_FULL
            &&& request.x1 <= 0
            &&& request.y1 <= 0
            &&& request.x2 >= w
            &&& request.y2 >= h
        },
{
}

/// A flash with a known screen size is a slow refresh of the whole display. One
/// without is the same after the driver has reported a resolution, and also where
/// the driver keeps reporting a resolution that is none.
pub proof fn law_flash_is_slow_and_whole(state: State, w: i32, h: i32)
    ensures
        state.known_size() == Some((w, h)) ==> refresh_step(state, whole_screen(w, h)) == (
        Step::UpdateDisplay { which_fx: crate::fx::FX_SLOW }),
        state.known_size() is None ==> refresh_step(state, whole_screen(w, h)) == (
        Step::QueryScreen {
            pending: Pending::Refresh { request: whole_screen(w, h), fx: crate::fx::FX_SLOW },
        }),
        update_step(whole_screen(w, h), crate::fx::FX_SLOW, w, h) == (Step::UpdateDisplay {
            which_fx: crate::fx::FX_SLOW,
        }),
{
}

/// Each refresh moves the policy on by one request, and what the driver reports
/// leaves it alone: what holds of a sequence of policy decisions holds of a
/// sequence of refreshes.
pub proof fn law_refreshes_follow_policy(state: State, kind: u32, info: VarScreenInfo)
    ensures
        state.decided(kind).policy() == state.policy().after(kind),
        state.measured(info).policy() == state.policy(),
{
}

/// Refreshes in fast mode, counted from a flash or the start: with an interval of
/// `n`, every `n`-th page turn since the last explicit full refresh is handed on
/// slow and all others fast, however the requests are mixed.
pub proof fn law_every_nth_refresh_is_slow(state: State, kinds: Seq<u32>, request: Request)
    requires
        state.wf(),
        state.mode != crate::fx::MODE_CONSERVATIVE,
        state.flips == 0,
        request.kind != crate::fx::KIND_UI,
        request.kind != KIND_FULL,
    ensures
        state.decided_all(kinds).wf(),
        ({
            let fx = if (crate::fx::turns_since_full(kinds) + 1) as int % state.interval as int
                == 0 {
                crate::fx::FX_SLOW
            } else {
                crate::fx::FX_FAST
            };
            match refresh_step(state.decided_all(kinds), request) {
                Step::QueryScreen { pending } => pending == (Pending::Refresh { request, fx }),
                Step::UpdateArea { area } => area.which_fx == fx,
                Step::UpdateDisplay { which_fx } => false,
                Step::Finished { outcome } => outcome == Ok::<i32, DriverError>(0),
            }
        }),
{
    lemma_decided_all(state, kinds);
    crate::fx::law_every_nth_page_turn_is_slow(state.policy(), kinds, request.kind);
}

proof fn lemma_decided_all(state: State, kinds: Seq<u32>)
    ensures
        state.decided_all(kinds).policy() == state.policy().after_all(kinds),
        state.wf() ==> state.decided_all(kinds).wf(),
    decreases kinds.len(),
{
    if kinds.len() > 0 {
        lemma_decided_all(state, kinds.drop_last());
    }
}

/// The last step of a refresh, with this reply to the query for the screen
/// information, if it is made: the update that goes out, or the end without one.
pub open spec fn refresh_last_step(
    state: State,
    request: Request,
    size_reply: Result<VarScreenInfo, DriverError>,
) -> Step {
    match (refresh_step(state, request), size_reply) {
        (Step::QueryScreen { pending }, Ok(info)) => resume_step(
            state.decided(request.kind),
            pending,
            info,
        ),
        (Step::QueryScreen { pending }, Err(error)) => Step::Finished { outcome: Err(error) },
        (step, _) => step,
    }
}

/// How a refresh ends, with this reply to the query for the screen information, if
/// it is made, and this reply to the update, if one goes out.
pub open spec fn refresh_outcome(
    state: State,
    request: Request,
    size_reply: Result<VarScreenInfo, DriverError>,
    update_reply: Result<(), DriverError>,
) -> Result<i32, DriverError> {
    match (refresh_last_step(state, request, size_reply), update_reply) {
        (Step::UpdateDisplay { which_fx }, Ok(_)) => Ok(which_fx),
        (Step::UpdateArea { area }, Ok(_)) => Ok(area.which_fx),
        (Step::Finished { outcome }, _) => outcome,
        (_, Err(error)) => Err(error),
        (Step::QueryScreen { pending }, Ok(_)) => Ok(0),
    }
}

/// A refresh ends with the effect that the policy chose, with 0 where nothing was
/// to be refreshed, or with the error of the call that failed, and of no other. It ends
/// with 0 exactly where nothing was to be refreshed, or the effect was partial and the
/// driver accepted the update. An update that was accepted gives the effect that was sent
/// with it, one that was not gives the driver's error.
pub proof fn law_refresh_outcome(
    state: State,
    request: Request,
    size_reply: Result<VarScreenInfo, DriverError>,
    update_reply: Result<(), DriverError>,
)
    ensures
        match refresh_outcome(state, request, size_reply, update_reply) {
            Ok(fx) => {
                &&& state.known_size() is Some || size_reply is Ok
                &&& fx == 0 || (fx == state.policy().fx_for(request.kind) && update_reply is Ok)
            },
            Err(error) => if state.known_size() is None && size_reply is Err {
                size_reply == Err::<VarScreenInfo, DriverError>(error)
            } else {
                update_reply == Err::<(), DriverError>(error)
            },
        },
        !(refresh_last_step(state, request, size_reply) is QueryScreen),
        step_fx(refresh_last_step(state, request, size_reply)) matches Some(sent)
            ==> sent == state.policy().fx_for(request.kind),
        step_fx(refresh_last_step(state, request, size_reply)) matches Some(sent)
            ==> refresh_outcome(state, request, size_reply, update_reply) == match update_reply {
            Ok(_) => Ok::<i32, DriverError>(sent),
            Err(error) => Err(error),
        },
        refresh_outcome(state, request, size_reply, update_reply) == Ok::<i32, DriverError>(0)
            <==> {
            let last_step = refresh_last_step(state, request, size_reply);
            ||| last_step == (Step::Finished { outcome: Ok(0) })
            ||| {
                &&& step_fx(last_step) == Some(crate::fx::FX_PARTIAL)
                &&& update_reply is Ok
            }
        },
{
}

/// After the interval was set to `n`, at most `n` page turns pass until one is slow,
/// whatever the counter was.
pub proof fn law_new_interval_takes_effect(before: State, mode: u32, interval: u32)
    requires
        before.wf(),
        mode != crate::fx::MODE_CONSERVATIVE,
        1 <= interval,
    ensures
        1 <= crate::fx::turns_until_slow((State { mode, interval, ..before }).policy()) <= interval,
{
}

} // verus!

//! The refresh path: effects, areas, and what a refresh, a flash and a change of the
//! settings leave behind.

#![allow(unused_imports)]

use crate::eink::{to_coord, DriverError, VarScreenInfo};
use crate::fx::{
    clamp_rect, Policy, FX_FAST, FX_PARTIAL, FX_SLOW, KIND_FULL, KIND_UI, MODE_CONSERVATIVE,
};
use crate::session::{
    choose_update, decide_with_state, flash_full, record, refresh, resume, screen_size,
    screen_size_reply, set_mode, updated, Pending, Request, State, Step,
};
use vstd::prelude::*;

verus! {

/// A new policy keeps the mode and the interval, takes an interval of 0 as 1, and has
/// counted no page turn.
pub proof fn law_new_policy(mode: u32, interval: u32, policy: Policy)
    requires
        call_ensures(Policy::new, (mode, interval), policy),
    ensures
        policy.mode == mode,
        interval > 0 ==> policy.page_interval == interval,
        interval == 0 ==> policy.page_interval == 1,
        policy.flips_since_slow == 0,
{
}

/// A copy of a policy is the same policy.
pub proof fn law_copied_policy(policy: Policy, copy: Policy)
    requires
        call_ensures(<Policy as Clone>::clone, (&policy,), copy),
    ensures
        copy.mode == policy.mode,
        copy.page_interval == policy.page_interval,
        copy.flips_since_slow == policy.flips_since_slow,
{
}

/// A new state has the settings of a fast policy with six page turns in a cycle; no page
/// turn is counted, the screen size is not known and no error is recorded.
pub proof fn law_new_state(state: State, size: Option<(i32, i32)>)
    requires
        call_ensures(State::new, (), state),
        call_ensures(screen_size, (&state,), size),
    ensures
        state.mode == crate::fx::MODE_FAST,
        state.interval == 6,
        state.flips == 0,
        size is None,
        state.last_errno == 0,
{
}

/// A decision: an explicit full refresh is slow and starts the count anew; the user
/// interface and the conservative mode are partial and leave the count alone; any other
/// page turn is counted, and is fast, unless it completes the interval: then it is slow
/// and the count starts anew. The settings stay.
pub proof fn law_decision(policy: &mut Policy, kind: u32, fx: i32)
    requires
        old(policy).flips_since_slow < u32::MAX,
        call_ensures(Policy::decide, (policy, kind), fx),
    ensures
        final(policy).mode == old(policy).mode,
        final(policy).page_interval == old(policy).page_interval,
        kind == KIND_FULL ==> fx == FX_SLOW && final(policy).flips_since_slow == 0,
        kind != KIND_FULL && (kind == KIND_UI || old(policy).mode == MODE_CONSERVATIVE) ==> {
            &&& fx == FX_PARTIAL
            &&& final(policy).flips_since_slow == old(policy).flips_since_slow
        },
        kind != KIND_FULL && kind != KIND_UI && old(policy).mode != MODE_CONSERVATIVE ==> {
            &&& old(policy).flips_since_slow + 1 < old(policy).page_interval ==> {
                &&& fx == FX_FAST
                &&& final(policy).flips_since_slow == old(policy).flips_since_slow + 1
            }
            &&& old(policy).flips_since_slow + 1 >= old(policy).page_interval ==> {
                &&& fx == FX_SLOW
                &&& final(policy).flips_since_slow == 0
            }
        },
{
}

/// Clipping: what is left of a rectangle holds exactly the pixels that are both in the
/// rectangle and on the screen, and is at least two pixels wide and high. Where nothing is
/// left, any two such pixels share a column or a row.
pub proof fn law_clip(
    x1: i32,
    y1: i32,
    x2: i32,
    y2: i32,
    w: i32,
    h: i32,
    r: Option<(i32, i32, i32, i32)>,
    x: int,
    y: int,
    other_x: int,
    other_y: int,
)
    requires
        call_ensures(clamp_rect, (x1, y1, x2, y2, w, h), r),
    ensures
        r matches Some((left, top, right, bottom)) ==> {
            &&& left <= x < right && top <= y < bottom <==> {
                &&& x1 <= x < x2
                &&& y1 <= y < y2
                &&& 0 <= x < w
                &&& 0 <= y < h
            }
            &&& left + 2 <= right
            &&& top + 2 <= bottom
        },
        r is None && x1 <= x < x2 && y1 <= y < y2 && 0 <= x < w && 0 <= y < h && x1 <= other_x < x2
            && y1 <= other_y < y2 && 0 <= other_x < w && 0 <= other_y < h ==> x == other_x || y
            == other_y,
{
}

/// The update for a request sends the effect that it was given. An area that goes out
/// covers exactly the pixels that are both in the request and on the screen; nothing goes
/// out only where any two such pixels share a column or a row; and the whole display is
/// updated exactly for an explicit full refresh that covers the screen.
pub proof fn law_update_covers_what_is_visible(
    request: Request,
    fx: i32,
    w: i32,
    h: i32,
    step: Step,
    x: int,
    y: int,
    other_x: int,
    other_y: int,
)
    requires
        call_ensures(choose_update, (request, fx, w, h), step),
    ensures
        !(step is QueryScreen),
        step is UpdateDisplay <==> {
            &&& request.kind == KIND_FULL
            &&& request.x1 <= 0
            &&& request.y1 <= 0
            &&& w <= request.x2
            &&& h <= request.y2
        },
        step matches Step::UpdateDisplay { which_fx } ==> which_fx == fx,
        step matches Step::UpdateArea { area } ==> {
            &&& area.which_fx == fx
            &&& area.x1 <= x < area.x2 && area.y1 <= y < area.y2 <==> {
                &&& request.x1 <= x < request.x2
                &&& request.y1 <= y < request.y2
                &&& 0 <= x < w
                &&& 0 <= y < h
            }
            &&& area.x1 + 2 <= area.x2
            &&& area.y1 + 2 <= area.y2
        },
        step matches Step::Finished { outcome } ==> outcome == Ok::<i32, DriverError>(0),
        step is Finished && request.x1 <= x < request.x2 && request.y1 <= y < request.y2 && 0 <= x
            < w && 0 <= y < h && request.x1 <= other_x < request.x2 && request.y1 <= other_y
            < request.y2 && 0 <= other_x < w && 0 <= other_y < h ==> x == other_x || y == other_y,
{
}

/// A refresh asks for the screen size exactly where it is not known, and then keeps the
/// request as it is. Whatever it sends or keeps carries the effect of its kind: slow for
/// an explicit full refresh, partial for the user interface and in the conservative mode,
/// else fast or, where the page turn completes the interval, slow. The count moves on at
/// once and nothing else changes.
pub proof fn law_refresh_effect(
    state: &mut State,
    kind: u32,
    x1: i32,
    y1: i32,
    x2: i32,
    y2: i32,
    step: Step,
)
    requires
        old(state).flips < u32::MAX,
        call_ensures(refresh, (state, kind, x1, y1, x2, y2), step),
    ensures
        ({
            let turn = kind != KIND_FULL && kind != KIND_UI && old(state).mode
                != MODE_CONSERVATIVE;
            let last = old(state).flips + 1 >= old(state).interval;
            let fx = if kind == KIND_FULL || turn && last {
                FX_SLOW
            } else if turn {
                FX_FAST
            } else {
                FX_PARTIAL
            };
            &&& match step {
                Step::QueryScreen { pending } => pending == (Pending::Refresh {
                    request: Request { kind, x1, y1, x2, y2 },
                    fx,
                }),
                Step::UpdateDisplay { which_fx } => which_fx == fx,
                Step::UpdateArea { area } => area.which_fx == fx,
                Step::Finished { outcome } => outcome == Ok::<i32, DriverError>(0),
            }
            &&& final(state).flips == if kind == KIND_FULL || turn && last {
                0
            } else if turn {
                old(state).flips + 1
            } else {
                old(state).flips as int
            }
        }),
        step is QueryScreen <==> old(state).max_w <= 0 || old(state).max_h <= 0,
        final(state).mode == old(state).mode,
        final(state).interval == old(state).interval,
        final(state).max_w == old(state).max_w,
        final(state).max_h == old(state).max_h,
        final(state).last_errno == old(state).last_errno,
{
}

/// A refresh of a screen of known size updates exactly the pixels that are both in the
/// request and on the screen, or the whole display where it is an explicit full refresh
/// that covers the screen; it ends without an update only where any two such pixels share
/// a column or a row.
pub proof fn law_refresh_covers_what_is_visible(
    state: &mut State,
    kind: u32,
    x1: i32,
    y1: i32,
    x2: i32,
    y2: i32,
    step: Step,
    x: int,
    y: int,
    other_x: int,
    other_y: int,
)
    requires
        old(state).max_w > 0,
        old(state).max_h > 0,
        call_ensures(refresh, (state, kind, x1, y1, x2, y2), step),
    ensures
        ({
            let w = old(state).max_w;
            let h = old(state).max_h;
            &&& step is UpdateDisplay <==> {
                &&& kind == KIND_FULL
                &&& x1 <= 0
                &&& y1 <= 0
                &&& w <= x2
                &&& h <= y2
            }
            &&& step matches Step::UpdateArea { area } ==> (area.x1 <= x < area.x2 && area.y1 <= y
                < area.y2 <==> {
                &&& x1 <= x < x2
                &&& y1 <= y < y2
                &&& 0 <= x < w
                &&& 0 <= y < h
            })
            &&& step is Finished && x1 <= x < x2 && y1 <= y < y2 && 0 <= x < w && 0 <= y < h && x1
                <= other_x < x2 && y1 <= other_y < y2 && 0 <= other_x < w && 0 <= other_y < h ==> x
                == other_x || y == other_y
        }),
{
}

/// A refresh that has to ask for the screen size ends up where it would have been with the
/// size known from the start: the same update with the same effect, and the same state.
pub proof fn law_asking_changes_no_update(
    state: &mut State,
    asked: &mut State,
    knowing: &mut State,
    kind: u32,
    x1: i32,
    y1: i32,
    x2: i32,
    y2: i32,
    pending: Pending,
    info: VarScreenInfo,
    step: Step,
    known_step: Step,
)
    requires
        0 < info.xres <= i32::MAX,
        0 < info.yres <= i32::MAX,
        call_ensures(
            refresh,
            (state, kind, x1, y1, x2, y2),
            Step::QueryScreen { pending },
        ),
        *old(asked) == *final(state),
        call_ensures(resume, (asked, pending, Ok(info)), step),
        *old(knowing) == (State {
            max_w: info.xres as i32,
            max_h: info.yres as i32,
            ..*old(state)
        }),
        call_ensures(refresh, (knowing, kind, x1, y1, x2, y2), known_step),
    ensures
        step == known_step,
        *final(asked) == *final(knowing),
{
}

/// From the request to the outcome, where the screen size has to be asked for: the update
/// that goes out carries the effect of the request's kind, and where the driver accepts
/// it, that effect is the outcome. Otherwise the outcome is the driver's error.
pub proof fn law_refresh_to_its_outcome(
    state: &mut State,
    asked: &mut State,
    kind: u32,
    x1: i32,
    y1: i32,
    x2: i32,
    y2: i32,
    pending: Pending,
    info: VarScreenInfo,
    step: Step,
    sent: i32,
    reply: Result<(), DriverError>,
    outcome: Result<i32, DriverError>,
)
    requires
        old(state).flips < u32::MAX,
        call_ensures(
            refresh,
            (state, kind, x1, y1, x2, y2),
            Step::QueryScreen { pending },
        ),
        call_ensures(resume, (asked, pending, Ok(info)), step),
        step matches Step::UpdateDisplay { which_fx } ==> which_fx == sent,
        step matches Step::UpdateArea { area } ==> area.which_fx == sent,
        step is UpdateDisplay || step is UpdateArea,
        call_ensures(updated, (sent, reply), outcome),
    ensures
        ({
            let turn = kind != KIND_FULL && kind != KIND_UI && old(state).mode
                != MODE_CONSERVATIVE;
            let last = old(state).flips + 1 >= old(state).interval;
            &&& sent == if kind == KIND_FULL || turn && last {
                FX_SLOW
            } else if turn {
                FX_FAST
            } else {
                FX_PARTIAL
            }
            &&& reply is Ok ==> outcome == Ok::<i32, DriverError>(sent)
            &&& reply matches Err(error) ==> outcome == Err::<i32, DriverError>(error)
        }),
{
}

/// An update that was accepted ends with the effect that was sent, any other with the
/// driver's error.
pub proof fn law_updated(
    sent: i32,
    reply: Result<(), DriverError>,
    outcome: Result<i32, DriverError>,
)
    requires
        call_ensures(updated, (sent, reply), outcome),
    ensures
        reply is Ok ==> outcome == Ok::<i32, DriverError>(sent),
        reply matches Err(error) ==> outcome == Err::<i32, DriverError>(error),
{
}

/// A refresh that waited for the screen size goes on with the request and the effect that
/// were kept: the area covers exactly the pixels that are both in that request and on the
/// screen that was reported. The reported size is kept, and nothing else changes.
pub proof fn law_resumed_refresh(
    state: &mut State,
    request: Request,
    fx: i32,
    info: VarScreenInfo,
    step: Step,
    x: int,
    y: int,
    other_x: int,
    other_y: int,
)
    requires
        call_ensures(resume, (state, Pending::Refresh { request, fx }, Ok(info)), step),
    ensures
        ({
            let w = if info.xres <= i32::MAX {
                info.xres as int
            } else {
                info.xres - 0x1_0000_0000
            };
            let h = if info.yres <= i32::MAX {
                info.yres as int
            } else {
                info.yres - 0x1_0000_0000
            };
            &&& !(step is QueryScreen)
            &&& step is UpdateDisplay <==> {
                &&& request.kind == KIND_FULL
                &&& request.x1 <= 0
                &&& request.y1 <= 0
                &&& w <= request.x2
                &&& h <= request.y2
            }
            &&& step matches Step::UpdateDisplay { which_fx } ==> which_fx == fx
            &&& step matches Step::UpdateArea { area } ==> {
                &&& area.which_fx == fx
                &&& area.x1 <= x < area.x2 && area.y1 <= y < area.y2 <==> {
                    &&& request.x1 <= x < request.x2
                    &&& request.y1 <= y < request.y2
                    &&& 0 <= x < w
                    &&& 0 <= y < h
                }
            }
            &&& step matches Step::Finished { outcome } ==> outcome == Ok::<i32, DriverError>(0)
            &&& step is Finished && request.x1 <= x < request.x2 && request.y1 <= y < request.y2
                && 0 <= x < w && 0 <= y < h && request.x1 <= other_x < request.x2 && request.y1
                <= other_y < request.y2 && 0 <= other_x < w && 0 <= other_y < h ==> x == other_x
                || y == other_y
            &&& final(state).max_w == w
            &&& final(state).max_h == h
        }),
        final(state).mode == old(state).mode,
        final(state).interval == old(state).interval,
        final(state).flips == old(state).flips,
        final(state).last_errno == old(state).last_errno,
{
}

/// Where the driver does not report the screen size, whatever waited for it ends with the
/// driver's error, and nothing changes.
pub proof fn law_no_size_no_update(
    state: &mut State,
    pending: Pending,
    error: DriverError,
    step: Step,
)
    requires
        call_ensures(resume, (state, pending, Err(error)), step),
    ensures
        step == (Step::Finished { outcome: Err(error) }),
        *final(state) == *old(state),
{
}

/// A flash starts the count anew at once and leaves the rest of the state. With a known
/// screen size it is a slow update of the whole display.
pub proof fn law_flash(state: &mut State, step: Step)
    requires
        call_ensures(flash_full, (state,), step),
    ensures
        final(state).flips == 0,
        final(state).mode == old(state).mode,
        final(state).interval == old(state).interval,
        final(state).max_w == old(state).max_w,
        final(state).max_h == old(state).max_h,
        final(state).last_errno == old(state).last_errno,
        old(state).max_w > 0 && old(state).max_h > 0 ==> step == (Step::UpdateDisplay {
            which_fx: FX_SLOW,
        }),
        old(state).max_w <= 0 || old(state).max_h <= 0 ==> step is QueryScreen,
{
}

/// A flash that has to ask for the screen size is a slow update of the whole display too,
/// once the driver has reported the size, which is kept. Where the driver reports no
/// size, the flash asks again, as an explicit full refresh of that size.
pub proof fn law_flash_after_asking(
    state: &mut State,
    asked: &mut State,
    pending: Pending,
    info: VarScreenInfo,
    step: Step,
)
    requires
        call_ensures(flash_full, (state,), Step::QueryScreen { pending }),
        call_ensures(resume, (asked, pending, Ok(info)), step),
    ensures
        0 < info.xres <= i32::MAX && 0 < info.yres <= i32::MAX ==> step == (Step::UpdateDisplay {
            which_fx: FX_SLOW,
        }),
        info.xres == 0 || info.xres > i32::MAX || info.yres == 0 || info.yres > i32::MAX ==> {
            &&& step matches Step::QueryScreen { pending: again }
            &&& again matches Pending::Refresh { request, fx }
            &&& fx == FX_SLOW
            &&& request.kind == KIND_FULL
            &&& request.x1 == 0
            &&& request.y1 == 0
            &&& request.x2 == final(asked).max_w
            &&& request.y2 == final(asked).max_h
        },
        info.xres <= i32::MAX ==> final(asked).max_w == info.xres,
        info.yres <= i32::MAX ==> final(asked).max_h == info.yres,
        info.xres > i32::MAX ==> final(asked).max_w == info.xres - 0x1_0000_0000,
        info.yres > i32::MAX ==> final(asked).max_h == info.yres - 0x1_0000_0000,
        final(asked).flips == 0,
        final(asked).mode == old(asked).mode,
        final(asked).interval == old(asked).interval,
        final(asked).last_errno == old(asked).last_errno,
{
}

/// The state decides as a policy with its settings and its count does, and keeps the
/// count that comes of it.
pub proof fn law_state_decides_as_its_policy(
    state: &mut State,
    policy: &mut Policy,
    kind: u32,
    fx: i32,
    policy_fx: i32,
)
    requires
        old(state).interval >= 1,
        old(policy).mode == old(state).mode,
        old(policy).page_interval == old(state).interval,
        old(policy).flips_since_slow == old(state).flips,
        call_ensures(decide_with_state, (state, kind), fx),
        call_ensures(Policy::decide, (policy, kind), policy_fx),
    ensures
        fx == policy_fx,
        *final(state) == (State { flips: final(policy).flips_since_slow, ..*old(state) }),
{
}

/// What the driver reports of the screen is known from then on: every later state that
/// still holds it gives the same size. No state gives a size without a width or a height.
pub proof fn law_reported_size_stays_known(
    state: &mut State,
    info: VarScreenInfo,
    size: Result<(i32, i32), DriverError>,
    later: State,
    found: Option<(i32, i32)>,
)
    requires
        call_ensures(screen_size_reply, (state, Ok(info)), size),
        later.max_w == final(state).max_w,
        later.max_h == final(state).max_h,
        call_ensures(screen_size, (&later,), found),
    ensures
        size == Ok::<(i32, i32), DriverError>((final(state).max_w, final(state).max_h)),
        0 < info.xres <= i32::MAX && 0 < info.yres <= i32::MAX ==> found == Some(
            (info.xres as i32, info.yres as i32),
        ),
        found matches Some((w, h)) ==> 0 < w && 0 < h,
        info.xres <= i32::MAX ==> final(state).max_w == info.xres,
        info.yres <= i32::MAX ==> final(state).max_h == info.yres,
        info.xres > i32::MAX ==> final(state).max_w == info.xres - 0x1_0000_0000,
        info.yres > i32::MAX ==> final(state).max_h == info.yres - 0x1_0000_0000,
        final(state).mode == old(state).mode,
        final(state).interval == old(state).interval,
        final(state).flips == old(state).flips,
        final(state).last_errno == old(state).last_errno,
{
}

/// A failed query leaves the state alone and hands the error on.
pub proof fn law_failed_query(
    state: &mut State,
    error: DriverError,
    size: Result<(i32, i32), DriverError>,
)
    requires
        call_ensures(screen_size_reply, (state, Err(error)), size),
    ensures
        *final(state) == *old(state),
        size == Err::<(i32, i32), DriverError>(error),
{
}

/// A resolution is read as the coordinate with the same 32 bits: the two are the same
/// number, or differ by the range of a `u32`.
pub proof fn law_coordinate(v: u32, c: i32)
    requires
        call_ensures(to_coord, (v,), c),
    ensures
        c >= 0 ==> v == c,
        c < 0 ==> v == c + 0x1_0000_0000,
{
}

/// New settings are kept, an interval of 0 as 1; the count, the screen size and the last
/// error stay.
pub proof fn law_set_mode(state: &mut State, mode: u32, interval: u32)
    requires
        call_ensures(set_mode, (state, mode, interval), ()),
    ensures
        final(state).mode == mode,
        interval > 0 ==> final(state).interval == interval,
        interval == 0 ==> final(state).interval == 1,
        final(state).flips == old(state).flips,
        final(state).max_w == old(state).max_w,
        final(state).max_h == old(state).max_h,
        final(state).last_errno == old(state).last_errno,
{
}

/// A failure leaves its error number behind, or 0 where it has none, and nothing else.
pub proof fn law_record(state: &mut State, error: DriverError)
    requires
        call_ensures(record, (state, error), ()),
    ensures
        error.raw_os_error matches Some(n) ==> final(state).last_errno == n,
        error.raw_os_error is None ==> final(state).last_errno == 0,
        final(state).mode == old(state).mode,
        final(state).interval == old(state).interval,
        final(state).flips == old(state).flips,
        final(state).max_w == old(state).max_w,
        final(state).max_h == old(state).max_h,
{
}

} // verus!

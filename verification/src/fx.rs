//! The update effects of the driver, the refresh policy, and rectangle clipping.
//!
//! The legacy frame buffer driver knows no waveforms: the effect number handed
//! over with an update is its only way to choose a refresh mode.

use vstd::prelude::*;

verus! {

/// High speed, low fidelity, no flash.
pub const FX_PARTIAL: i32 = 0;

/// High fidelity, low speed. The policy never chooses it.
pub const FX_FULL: i32 = 1;

/// Gives up all fidelity for speed, no flash.
pub const FX_FAST: i32 = 2;

/// Gives up speed for fidelity, with a flash that clears ghosting.
pub const FX_SLOW: i32 = 3;

/// A page turn. Every kind that is neither `KIND_UI` nor `KIND_FULL` counts as one.
pub const KIND_PAGE_TURN: u32 = 0;

/// A menu, a highlight or another part of the user interface.
pub const KIND_UI: u32 = 1;

/// An explicit full refresh.
pub const KIND_FULL: u32 = 2;

/// Page turns use `FX_FAST`, and every `page_interval`-th one uses `FX_SLOW`.
pub const MODE_FAST: u32 = 0;

/// Page turns use `FX_PARTIAL`.
pub const MODE_CONSERVATIVE: u32 = 1;

/// Whether a request of this kind is treated as a page turn.
pub open spec fn is_page_turn(kind: u32) -> bool {
    kind != KIND_UI && kind != KIND_FULL
}

/// The refresh policy: a mode, the number of page turns in a cycle, and the
/// number of page turns since the last slow refresh.
#[derive(Debug)]
pub struct Policy {
    pub mode: u32,
    pub page_interval: u32,
    pub flips_since_slow: u32,
}

impl Clone for Policy {
    fn clone(&self) -> (copy: Self)
        ensures
            copy == *self,
    {
        Policy {
            mode: self.mode,
            page_interval: self.page_interval,
            flips_since_slow: self.flips_since_slow,
        }
    }
}

impl Policy {
    /// What the constructor establishes and `decide` preserves.
    pub open spec fn wf(self) -> bool {
        &&& 1 <= self.page_interval
        &&& self.flips_since_slow < u32::MAX
    }

    /// Whether a request of this kind advances the page turn counter.
    pub open spec fn counts(self, kind: u32) -> bool {
        is_page_turn(kind) && self.mode != MODE_CONSERVATIVE
    }

    /// Whether the next counted page turn completes the cycle.
    pub open spec fn cycle_ends(self) -> bool {
        self.flips_since_slow + 1 >= self.page_interval
    }

    /// The effect for the next request, if it is of this kind.
    pub open spec fn fx_for(self, kind: u32) -> i32 {
        if kind == KIND_FULL {
            FX_SLOW
        } else if !self.counts(kind) {
            FX_PARTIAL
        } else if self.cycle_ends() {
            FX_SLOW
        } else {
            FX_FAST
        }
    }

    /// The counter after a request of this kind.
    pub open spec fn flips_after(self, kind: u32) -> u32 {
        if kind == KIND_FULL {
            0
        } else if !self.counts(kind) {
            self.flips_since_slow
        } else if self.cycle_ends() {
            0
        } else {
            (self.flips_since_slow + 1) as u32
        }
    }

    /// The policy after a request of this kind.
    pub open spec fn after(self, kind: u32) -> Policy {
        Policy { flips_since_slow: self.flips_after(kind), ..self }
    }

    /// The policy after all these requests, in this order.
    pub open spec fn after_all(self, kinds: Seq<u32>) -> Policy
        decreases kinds.len(),
    {
        if kinds.len() == 0 {
            self
        } else {
            self.after_all(kinds.drop_last()).after(kinds.last())
        }
    }

    /// A policy at the start of a cycle. An interval of 0 is taken as 1.
    pub fn new(mode: u32, page_interval: u32) -> (policy: Self)
        ensures
            policy.wf(),
            policy.mode == mode,
            policy.page_interval == if page_interval == 0 { 1 } else { page_interval },
            policy.flips_since_slow == 0,
    {
        Policy { mode, page_interval: page_interval.max(1), flips_since_slow: 0 }
    }

    /// Chooses the effect for a request and advances the policy.
    pub fn decide(&mut self, kind: u32) -> (fx: i32)
        requires
            old(self).counts(kind) ==> old(self).flips_since_slow < u32::MAX,
        ensures
            fx == old(self).fx_for(kind),
            *final(self) == old(self).after(kind),
            old(self).wf() ==> final(self).wf(),
    {
        match kind {
            KIND_FULL => {
                self.flips_since_slow = 0;
                FX_SLOW
            },
            KIND_UI => FX_PARTIAL,
            _ => match self.mode {
                MODE_CONSERVATIVE => FX_PARTIAL,
                _ => {
                    self.flips_since_slow += 1;
                    if self.flips_since_slow >= self.page_interval {
                        self.flips_since_slow = 0;
                        FX_SLOW
                    } else {
                        FX_FAST
                    }
                },
            },
        }
    }
}

pub open spec fn min_i32(a: i32, b: i32) -> i32 {
    if a <= b {
        a
    } else {
        b
    }
}

pub open spec fn max_i32(a: i32, b: i32) -> i32 {
    if a >= b {
        a
    } else {
        b
    }
}

/// The part of the rectangle that lies on a screen of `w` by `h` pixels, unless
/// that part is at most one pixel wide or high. Right and bottom edges are
/// exclusive.
pub open spec fn visible_part(x1: i32, y1: i32, x2: i32, y2: i32, w: i32, h: i32) -> Option<
    (i32, i32, i32, i32),
> {
    let left = max_i32(x1, 0);
    let top = max_i32(y1, 0);
    let right = min_i32(x2, w);
    let bottom = min_i32(y2, h);
    if right - left >= 2 && bottom - top >= 2 {
        Some((left, top, right, bottom))
    } else {
        None
    }
}

/// Brings a coordinate into the range from 0 to `max`.
fn clamp_coord(v: i32, max: i32) -> (c: i32)
    requires
        0 <= max,
    ensures
        c == max_i32(min_i32(v, max), 0),
{
    if v < 0 {
        0
    } else if v > max {
        max
    } else {
        v
    }
}

/// Clips a rectangle to the screen. `None` says that at most one column or one
/// row of it is left, or that the screen is empty.
pub fn clamp_rect(x1: i32, y1: i32, x2: i32, y2: i32, max_w: i32, max_h: i32) -> (r: Option<
    (i32, i32, i32, i32),
>)
    ensures
        r == visible_part(x1, y1, x2, y2, max_w, max_h),
{
    if max_w <= 0 || max_h <= 0 {
        return None;
    }
    let x1 = clamp_coord(x1, max_w);
    let x2 = clamp_coord(x2, max_w);
    let y1 = clamp_coord(y1, max_h);
    let y2 = clamp_coord(y2, max_h);
    if x2 - x1 <= 1 || y2 - y1 <= 1 {
        return None;
    }
    Some((x1, y1, x2, y2))
}

/// The number of page turns after the last explicit full refresh in `kinds`, or
/// in all of `kinds` where it holds none.
pub open spec fn turns_since_full(kinds: Seq<u32>) -> nat
    decreases kinds.len(),
{
    if kinds.len() == 0 || kinds.last() == KIND_FULL {
        0
    } else if kinds.last() == KIND_UI {
        turns_since_full(kinds.drop_last())
    } else {
        turns_since_full(kinds.drop_last()) + 1
    }
}

/// So many page turns in a row.
pub open spec fn page_turns(count: nat) -> Seq<u32> {
    Seq::new(count, |i: int| KIND_PAGE_TURN)
}

/// The number of page turns, this one included, until the fast mode closes the
/// cycle with a slow refresh.
pub open spec fn turns_until_slow(policy: Policy) -> int {
    if policy.cycle_ends() {
        1
    } else {
        policy.page_interval - policy.flips_since_slow
    }
}

proof fn lemma_successor_mod(t: int, n: int)
    requires
        0 <= t,
        1 <= n,
    ensures
        0 <= t % n < n,
        t % n + 1 >= n ==> (t + 1) % n == 0,
        t % n + 1 < n ==> (t + 1) % n == t % n + 1,
{
    vstd::arithmetic::div_mod::lemma_fundamental_div_mod(t, n);
    vstd::arithmetic::div_mod::lemma_mod_bound(t, n);
    let q = t / n;
    if t % n + 1 >= n {
        assert(t + 1 == (q + 1) * n) by (nonlinear_arith)
            requires
                t == n * q + t % n,
                t % n == n - 1,
        ;
        vstd::arithmetic::div_mod::lemma_fundamental_div_mod_converse(t + 1, n, q + 1, 0);
    } else {
        assert(t + 1 == q * n + (t % n + 1)) by (nonlinear_arith)
            requires
                t == n * q + t % n,
        ;
        vstd::arithmetic::div_mod::lemma_fundamental_div_mod_converse(t + 1, n, q, t % n + 1);
    }
}

/// Every effect that the policy chooses is partial, fast or slow; a user
/// interface refresh is always partial, an explicit full refresh always slow.
pub proof fn law_effects(policy: Policy, kind: u32)
    ensures
        policy.fx_for(kind) == FX_PARTIAL || policy.fx_for(kind) == FX_FAST || policy.fx_for(kind)
            == FX_SLOW,
        policy.fx_for(KIND_UI) == FX_PARTIAL,
        policy.after(KIND_UI) == policy,
        policy.fx_for(KIND_FULL) == FX_SLOW,
        policy.after(KIND_FULL).flips_since_slow == 0,
{
}

/// No request changes the mode or the interval, and a well-formed policy stays so.
pub proof fn law_requests_keep_settings(policy: Policy, kinds: Seq<u32>)
    ensures
        policy.after_all(kinds).mode == policy.mode,
        policy.after_all(kinds).page_interval == policy.page_interval,
        policy.wf() ==> policy.after_all(kinds).wf(),
    decreases kinds.len(),
{
    if kinds.len() > 0 {
        law_requests_keep_settings(policy, kinds.drop_last());
    }
}

/// In fast mode the page turns are counted modulo the interval, beginning anew
/// at every explicit full refresh, and user interface refreshes do not count:
/// with an interval of `n`, the page turns that are slow are the `n`-th, the
/// `2n`-th and so on, and all others are fast.
pub proof fn law_every_nth_page_turn_is_slow(policy: Policy, kinds: Seq<u32>, turn: u32)
    requires
        policy.wf(),
        policy.mode != MODE_CONSERVATIVE,
        policy.flips_since_slow == 0,
        turn != KIND_UI,
        turn != KIND_FULL,
    ensures
        policy.after_all(kinds).flips_since_slow == turns_since_full(kinds) as int
            % policy.page_interval as int,
        policy.after_all(kinds).fx_for(turn) == if (turns_since_full(kinds) + 1) as int
            % policy.page_interval as int == 0 {
            FX_SLOW
        } else {
            FX_FAST
        },
    decreases kinds.len(),
{
    let n = policy.page_interval as int;
    law_requests_keep_settings(policy, kinds);
    lemma_successor_mod(turns_since_full(kinds) as int, n);
    vstd::arithmetic::div_mod::lemma_small_mod(0, n as nat);
    if kinds.len() > 0 {
        let before = kinds.drop_last();
        law_every_nth_page_turn_is_slow(policy, before, turn);
        law_requests_keep_settings(policy, before);
        lemma_successor_mod(turns_since_full(before) as int, n);
    }
}

/// Whatever the counter holds, also after the interval was made shorter, a fast
/// mode policy lets through less than an interval of fast page turns before it
/// makes one slow.
pub proof fn law_slow_within_an_interval(policy: Policy, count: nat)
    requires
        policy.wf(),
        policy.mode != MODE_CONSERVATIVE,
        count < turns_until_slow(policy),
    ensures
        turns_until_slow(policy) <= policy.page_interval,
        policy.after_all(page_turns(count)).flips_since_slow == policy.flips_since_slow + count,
        policy.after_all(page_turns(count)).fx_for(KIND_PAGE_TURN) == if count + 1
            == turns_until_slow(policy) {
            FX_SLOW
        } else {
            FX_FAST
        },
    decreases count,
{
    law_requests_keep_settings(policy, page_turns(count));
    if count > 0 {
        let fewer = (count - 1) as nat;
        assert(page_turns(count).drop_last() =~= page_turns(fewer));
        law_slow_within_an_interval(policy, fewer);
        law_requests_keep_settings(policy, page_turns(fewer));
    }
}

/// In conservative mode page turns are partial and leave the counter alone; only
/// an explicit full refresh is slow.
pub proof fn law_conservative(policy: Policy, kinds: Seq<u32>, kind: u32)
    requires
        policy.mode == MODE_CONSERVATIVE,
    ensures
        policy.after_all(kinds).fx_for(kind) == if kind == KIND_FULL {
            FX_SLOW
        } else {
            FX_PARTIAL
        },
        policy.after_all(kinds).flips_since_slow == if kinds.contains(KIND_FULL) {
            0
        } else {
            policy.flips_since_slow
        },
    decreases kinds.len(),
{
    law_requests_keep_settings(policy, kinds);
    if kinds.len() > 0 {
        let before = kinds.drop_last();
        law_conservative(policy, before, kind);
        law_requests_keep_settings(policy, before);
        assert(kinds =~= before.push(kinds.last()));
        assert(kinds[kinds.len() - 1] == kinds.last());
        if before.contains(KIND_FULL) {
            let i = choose|i: int| 0 <= i < before.len() && before[i] == KIND_FULL;
            assert(kinds[i] == KIND_FULL);
        }
        if kinds.contains(KIND_FULL) && kinds.last() != KIND_FULL {
            let i = choose|i: int| 0 <= i < kinds.len() && kinds[i] == KIND_FULL;
            assert(before[i] == KIND_FULL);
        }
    }
}

/// With an interval of one every page turn in fast mode is slow.
pub proof fn law_interval_one(policy: Policy, turn: u32)
    requires
        policy.mode != MODE_CONSERVATIVE,
        policy.page_interval == 1,
        turn != KIND_UI,
        turn != KIND_FULL,
    ensures
        policy.fx_for(turn) == FX_SLOW,
        policy.after(turn).flips_since_slow == 0,
{
}

/// Whether the pixel lies in the rectangle with exclusive right and bottom edges.
pub open spec fn in_rect(x: int, y: int, r: (i32, i32, i32, i32)) -> bool {
    r.0 <= x < r.2 && r.1 <= y < r.3
}

/// A clipped rectangle holds exactly the pixels that lie both in the request and
/// on the screen, at least two in each direction.
pub proof fn law_clip_is_intersection(req: (i32, i32, i32, i32), w: i32, h: i32, x: int, y: int)
    ensures
        visible_part(req.0, req.1, req.2, req.3, w, h) matches Some(r) ==> {
            &&& in_rect(x, y, r) <==> in_rect(x, y, req) && in_rect(x, y, (0, 0, w, h))
            &&& 0 <= r.0
            &&& r.0 + 2 <= r.2 <= w
            &&& 0 <= r.1
            &&& r.1 + 2 <= r.3 <= h
        },
{
}

/// A request is dropped only where the pixels that it shares with the screen lie
/// in one column or in one row.
pub proof fn law_dropped_is_thin(
    req: (i32, i32, i32, i32),
    w: i32,
    h: i32,
    a: (int, int),
    b: (int, int),
)
    requires
        visible_part(req.0, req.1, req.2, req.3, w, h) is None,
        in_rect(a.0, a.1, req),
        in_rect(a.0, a.1, (0, 0, w, h)),
        in_rect(b.0, b.1, req),
        in_rect(b.0, b.1, (0, 0, w, h)),
    ensures
        a.0 == b.0 || a.1 == b.1,
{
}

/// Clipping a clipped rectangle once more changes nothing.
pub proof fn law_clip_twice(req: (i32, i32, i32, i32), w: i32, h: i32)
    ensures
        visible_part(req.0, req.1, req.2, req.3, w, h) matches Some(r) ==> visible_part(
            r.0,
            r.1,
            r.2,
            r.3,
            w,
            h,
        ) == Some(r),
{
}

} // verus!

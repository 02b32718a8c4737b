//! Two-stage exponential smoothing of levels, and the floor of the
//! amplitude-to-level conversion.
use vstd::prelude::*;
use crate::constants::{AUDIO_SMOOTHING_PERCENT, DISPLAY_SMOOTHING_PERCENT, MIN_DB_LEVEL};

verus! {

/// The weighted mean of `previous` and `target` in which `target` has the
/// weight `percent` / 100, rounded down to a whole level unit.
pub open spec fn blended(previous: int, target: int, percent: int) -> int {
    (previous * (100 - percent) + target * percent) / 100
}

/// A weighted mean lies between the two values that it mixes.
pub proof fn lemma_blended_between(previous: int, target: int, percent: int)
    requires
        0 <= percent <= 100,
    ensures
        previous <= target ==> previous <= blended(previous, target, percent) <= target,
        target <= previous ==> target <= blended(previous, target, percent) <= previous,
{
    let w = previous * (100 - percent) + target * percent;
    assert(w - 100 * previous == percent * (target - previous)) by (nonlinear_arith)
        requires
            w == previous * (100 - percent) + target * percent,
    ;
    assert(100 * target - w == (100 - percent) * (target - previous)) by (nonlinear_arith)
        requires
            w == previous * (100 - percent) + target * percent,
    ;
    if previous <= target {
        assert(percent * (target - previous) >= 0) by (nonlinear_arith)
            requires
                percent >= 0,
                target - previous >= 0,
        ;
        assert((100 - percent) * (target - previous) >= 0) by (nonlinear_arith)
            requires
                100 - percent >= 0,
                target - previous >= 0,
        ;
    } else {
        assert(percent * (target - previous) <= 0) by (nonlinear_arith)
            requires
                percent >= 0,
                target - previous <= 0,
        ;
        assert((100 - percent) * (target - previous) <= 0) by (nonlinear_arith)
            requires
                100 - percent >= 0,
                target - previous <= 0,
        ;
    }
}

/// Computes the weighted mean of two levels without overflow.
pub fn blend(previous: i32, target: i32, percent: u8) -> (mixed: i32)
    requires
        percent <= 100,
    ensures
        mixed == blended(previous as int, target as int, percent as int),
{
    let keep: i64 = 100 - percent as i64;
    let take: i64 = percent as i64;
    assert(-214748364800 <= previous * keep + target * take <= 214748364700) by (nonlinear_arith)
        requires
            0 <= keep <= 100,
            take == 100 - keep,
            -2147483648 <= previous <= 2147483647,
            -2147483648 <= target <= 2147483647,
    ;
    assert(-214748364800 <= previous * keep <= 214748364700) by (nonlinear_arith)
        requires
            0 <= keep <= 100,
            -2147483648 <= previous <= 2147483647,
    ;
    assert(-214748364800 <= target * take <= 214748364700) by (nonlinear_arith)
        requires
            0 <= take <= 100,
            -2147483648 <= target <= 2147483647,
    ;
    let weighted: i64 = (previous as i64) * keep + (target as i64) * take;
    let lifted: u64 = (weighted + 214748364800) as u64;
    let quotient: u64 = lifted / 100;
    proof {
        lemma_blended_between(previous as int, target as int, percent as int);
        assert((weighted + 214748364800) / 100 == weighted / 100 + 2147483648);
    }
    (quotient as i64 - 2147483648) as i32
}

/// The two values that a smoother holds, as mathematical integers.
pub struct Smoothing {
    /// Value of the first, responsive stage.
    pub smoothed: int,
    /// Value of the second, slow stage, which is what a gauge shows.
    pub display: int,
}

impl Smoothing {
    /// Both stages at `level`.
    pub open spec fn at(level: int) -> Smoothing {
        Smoothing { smoothed: level, display: level }
    }

    /// The state after one raw level was fed.
    pub open spec fn step(self, raw: int) -> Smoothing {
        let smoothed = blended(self.smoothed, raw, AUDIO_SMOOTHING_PERCENT as int);
        Smoothing {
            smoothed,
            display: blended(self.display, smoothed, DISPLAY_SMOOTHING_PERCENT as int),
        }
    }

    /// The state after the same raw level was fed `times` times.
    pub open spec fn fed(self, raw: int, times: nat) -> Smoothing
        decreases times,
    {
        if times == 0 {
            self
        } else {
            self.fed(raw, (times - 1) as nat).step(raw)
        }
    }
}

/// Exponential smoother of one channel's level for a stable display.
pub struct AudioSmoother {
    smoothed_value: i32,
    display_value: i32,
}

impl View for AudioSmoother {
    type V = Smoothing;

    closed spec fn view(&self) -> Smoothing {
        Smoothing { smoothed: self.smoothed_value as int, display: self.display_value as int }
    }
}

impl AudioSmoother {
    /// Creates a smoother whose two stages start at `initial_value`.
    pub fn new(initial_value: i32) -> (smoother: Self)
        ensures
            smoother@ == Smoothing::at(initial_value as int),
    {
        Self { smoothed_value: initial_value, display_value: initial_value }
    }

    /// Feeds one raw level and returns the display value that results.
    pub fn update(&mut self, raw_value: i32) -> (shown: i32)
        ensures
            final(self)@ == old(self)@.step(raw_value as int),
            shown == final(self)@.display,
    {
        self.smoothed_value = blend(self.smoothed_value, raw_value, AUDIO_SMOOTHING_PERCENT);
        self.display_value =
            blend(self.display_value, self.smoothed_value, DISPLAY_SMOOTHING_PERCENT);
        self.display_value
    }

    /// The value of the first stage.
    pub fn smoothed(&self) -> (level: i32)
        ensures
            level == self@.smoothed,
    {
        self.smoothed_value
    }

    /// The value of the display stage.
    pub fn display(&self) -> (level: i32)
        ensures
            level == self@.display,
    {
        self.display_value
    }
}

/// Fixed point: a smoother whose two stages stand at a level and which is
/// fed that same level, any number of times, stays exactly there.
pub proof fn law_fixed_point(level: int, times: nat)
    ensures
        Smoothing::at(level).fed(level, times) == Smoothing::at(level),
    decreases times,
{
    if times > 0 {
        law_fixed_point(level, (times - 1) as nat);
    }
}

/// Step response: a smoother that stands at `start` and is fed `target`
/// again and again moves both stages towards `target` and never past it.
/// After any number of buffers the display stage lies between `start` and
/// the first stage, the first stage between the display stage and `target`,
/// and one more buffer moves neither stage back.
pub proof fn law_step_response(start: int, target: int, times: nat)
    ensures
        ({
            let now = Smoothing::at(start).fed(target, times);
            let next = Smoothing::at(start).fed(target, times + 1);
            &&& start <= target ==> {
                &&& start <= now.display <= now.smoothed <= target
                &&& now.smoothed <= next.smoothed <= target
                &&& now.display <= next.display <= next.smoothed
            }
            &&& target <= start ==> {
                &&& target <= now.smoothed <= now.display <= start
                &&& target <= next.smoothed <= now.smoothed
                &&& next.smoothed <= next.display <= now.display
            }
        }),
    decreases times,
{
    let now = Smoothing::at(start).fed(target, times);
    let next = Smoothing::at(start).fed(target, times + 1);
    assert(next == now.step(target));
    if times > 0 {
        law_step_response(start, target, (times - 1) as nat);
    }
    lemma_blended_between(now.smoothed, target, AUDIO_SMOOTHING_PERCENT as int);
    lemma_blended_between(now.display, next.smoothed, DISPLAY_SMOOTHING_PERCENT as int);
}

/// Progress of the first stage: while it is more than two level units away
/// from the level that it is fed, each buffer brings it strictly closer.
pub proof fn law_first_stage_closes_in(smoothed: int, raw: int)
    ensures
        ({
            let moved = blended(smoothed, raw, AUDIO_SMOOTHING_PERCENT as int);
            &&& smoothed + 2 < raw ==> smoothed < moved <= raw
            &&& raw < smoothed ==> raw <= moved < smoothed
        }),
{
    lemma_blended_between(smoothed, raw, AUDIO_SMOOTHING_PERCENT as int);
}

/// Progress of the display stage: while it is more than six level units
/// below the first stage, or anywhere above it, each buffer brings it
/// strictly closer.
pub proof fn law_display_stage_closes_in(display: int, smoothed: int)
    ensures
        ({
            let moved = blended(display, smoothed, DISPLAY_SMOOTHING_PERCENT as int);
            &&& display + 6 < smoothed ==> display < moved <= smoothed
            &&& smoothed < display ==> smoothed <= moved < display
        }),
{
    lemma_blended_between(display, smoothed, DISPLAY_SMOOTHING_PERCENT as int);
}

/// Feeding one level and then `times` more is feeding it `times + 1` times.
proof fn lemma_fed_from_front(state: Smoothing, raw: int, times: nat)
    ensures
        state.step(raw).fed(raw, times) == state.fed(raw, times + 1),
    decreases times,
{
    if times > 0 {
        lemma_fed_from_front(state, raw, (times - 1) as nat);
        assert(state.fed(raw, times + 1) == state.fed(raw, times).step(raw));
    } else {
        assert(state.fed(raw, 1) == state.fed(raw, 0).step(raw));
    }
}

/// Convergence of the first stage: from any state, feeding one level often
/// enough brings the first stage to within two level units of it.
pub proof fn law_first_stage_converges(state: Smoothing, raw: int) -> (times: nat)
    ensures
        raw - 2 <= state.fed(raw, times).smoothed <= raw,
    decreases
        if state.smoothed <= raw { raw - state.smoothed } else { state.smoothed - raw + 1 + 2 },
{
    if raw - 2 <= state.smoothed <= raw {
        0
    } else {
        law_first_stage_closes_in(state.smoothed, raw);
        let rest = law_first_stage_converges(state.step(raw), raw);
        lemma_fed_from_front(state, raw, rest);
        rest + 1
    }
}

/// Feeding one level `first` times and then `second` times more is
/// feeding it `first + second` times.
proof fn lemma_fed_in_two_parts(state: Smoothing, raw: int, first: nat, second: nat)
    ensures
        state.fed(raw, first).fed(raw, second) == state.fed(raw, first + second),
    decreases second,
{
    if second > 0 {
        lemma_fed_in_two_parts(state, raw, first, (second - 1) as nat);
        assert(state.fed(raw, first + second) == state.fed(
            raw,
            (first + second - 1) as nat,
        ).step(raw));
    }
}

impl Smoothing {
    /// The smoother has settled on `raw`: the first stage is at most two
    /// level units below it, and the display stage at most six level units
    /// below the first stage.
    pub open spec fn settled_on(self, raw: int) -> bool {
        &&& raw - 2 <= self.smoothed <= raw
        &&& self.smoothed - 6 <= self.display <= self.smoothed
    }
}

/// With the first stage settled, feeding the same level often enough
/// settles the display stage too.
proof fn lemma_display_stage_converges(state: Smoothing, raw: int) -> (times: nat)
    requires
        raw - 2 <= state.smoothed <= raw,
    ensures
        state.fed(raw, times).settled_on(raw),
    decreases
        if state.display <= state.smoothed {
            state.smoothed - state.display
        } else {
            state.display - state.smoothed + 7
        },
{
    if state.settled_on(raw) {
        0
    } else {
        law_display_stage_closes_in(state.display, state.smoothed);
        assert(state.step(raw).smoothed == state.smoothed);
        let rest = lemma_display_stage_converges(state.step(raw), raw);
        lemma_fed_from_front(state, raw, rest);
        rest + 1
    }
}

/// Convergence: from any state, feeding one level often enough settles the
/// smoother on it, both stages within a few thousandths of a decibel.
pub proof fn law_smoother_converges(state: Smoothing, raw: int) -> (times: nat)
    ensures
        state.fed(raw, times).settled_on(raw),
{
    let first = law_first_stage_converges(state, raw);
    let second = lemma_display_stage_converges(state.fed(raw, first), raw);
    lemma_fed_in_two_parts(state, raw, first, second);
    first + second
}

/// A smoother that has settled on a level stays exactly where it is for as
/// long as that level is fed.
pub proof fn law_settled_smoother_rests(state: Smoothing, raw: int, times: nat)
    requires
        state.settled_on(raw),
    ensures
        state.fed(raw, times) == state,
    decreases times,
{
    if times > 0 {
        law_settled_smoother_rests(state, raw, (times - 1) as nat);
        assert(state.step(raw) == state);
    }
}

/// The level of an amplitude: the measured level where the amplitude is
/// positive, and the floor where it is zero.
pub open spec fn level_of(amplitude: int, measured: int) -> int {
    if amplitude > 0 {
        measured
    } else {
        MIN_DB_LEVEL as int
    }
}

/// Converts an amplitude to its level. `measured` is twenty times the
/// decimal logarithm of the amplitude relative to full scale, in level
/// units, as the caller's arithmetic gives it; it is not read for silence,
/// whose level is the floor.
pub fn amplitude_to_db(amplitude: u32, measured: i32) -> (level: i32)
    ensures
        level == level_of(amplitude as int, measured as int),
{
    if amplitude > 0 {
        measured
    } else {
        MIN_DB_LEVEL
    }
}

} // verus!

//! The three monitoring modes as state machines of the polling side: each
//! tick hands a snapshot and the observed events to the session, which
//! decides whether monitoring goes on.
use vstd::prelude::*;
use vstd::arithmetic::div_mod::{
    lemma_div_is_ordered, lemma_div_multiples_vanish, lemma_hoist_over_denominator,
};
use crate::constants::MIN_DB_LEVEL;
use crate::error::AppError;

verus! {

/// How a session ended, as the process reports it.
#[derive(Debug, Clone, Copy, PartialEq, Eq)]
pub enum ExitCode {
    /// The session reached its goal.
    Success,
    /// The user ended the session.
    UserExit,
    /// The session failed.
    Error,
}

impl ExitCode {
    /// The number that the process exits with.
    pub fn code(self) -> (number: i32)
        ensures
            number == match self {
                ExitCode::Success => 0i32,
                ExitCode::UserExit => 1i32,
                ExitCode::Error => 2i32,
            },
    {
        match self {
            ExitCode::Success => 0,
            ExitCode::UserExit => 1,
            ExitCode::Error => 2,
        }
    }
}

/// The outcome of a session together with its exit code.
pub struct RunResult {
    pub result: Result<(), AppError>,
    pub exit_code: ExitCode,
}

impl RunResult {
    /// The outcome of a session that ended without a failure.
    pub fn completed(exit_code: ExitCode) -> (outcome: Self)
        ensures
            outcome.result is Ok,
            outcome.exit_code == exit_code,
    {
        RunResult { result: Ok(()), exit_code }
    }

    /// The outcome of a session that failed: a failure always exits with
    /// `ExitCode::Error`.
    pub fn failed(error: AppError) -> (outcome: Self)
        ensures
            outcome.result == Err::<(), AppError>(error),
            outcome.exit_code == ExitCode::Error,
    {
        RunResult { result: Err(error), exit_code: ExitCode::Error }
    }
}

/// A key of the keyboard, as far as the monitor tells keys apart.
#[derive(Debug, Clone, Copy, PartialEq, Eq)]
pub enum Key {
    Esc,
    Enter,
    Char(char),
    Other,
}

/// One key press.
#[derive(Debug, Clone, Copy, PartialEq, Eq)]
pub struct KeyPress {
    pub key: Key,
    /// Whether the control key was held.
    pub control: bool,
}

impl KeyPress {
    /// The key is `c` with the control key held.
    pub open spec fn is_control_c(self) -> bool {
        self.key == Key::Char('c') && self.control
    }

    /// The press cancels threshold detection: escape, or control and `c`.
    pub open spec fn cancels(self) -> bool {
        self.key == Key::Esc || self.is_control_c()
    }

    /// The press ends a measurement: enter, or control and `c`.
    pub open spec fn confirms(self) -> bool {
        self.key == Key::Enter || self.is_control_c()
    }

    /// Whether the press cancels threshold detection.
    pub fn is_cancel(&self) -> (yes: bool)
        ensures
            yes == self.cancels(),
    {
        match self.key {
            Key::Esc => true,
            Key::Char(c) => c == 'c' && self.control,
            _ => false,
        }
    }

    /// Whether the press ends a measurement.
    pub fn is_confirm(&self) -> (yes: bool)
        ensures
            yes == self.confirms(),
    {
        match self.key {
            Key::Enter => true,
            Key::Char(c) => c == 'c' && self.control,
            _ => false,
        }
    }
}

/// What one tick observed of the two cancellation sources.
#[derive(Debug, Clone, Copy, PartialEq, Eq)]
pub struct TickEvents {
    /// The interrupt signal arrived.
    pub interrupted: bool,
    /// A key was pressed.
    pub key: Option<KeyPress>,
}

impl TickEvents {
    /// The tick asks to cancel threshold detection.
    pub open spec fn cancel_requested(self) -> bool {
        self.interrupted || (self.key is Some && self.key->Some_0.cancels())
    }

    /// The tick asks to end a measurement.
    pub open spec fn finish_requested(self) -> bool {
        self.interrupted || (self.key is Some && self.key->Some_0.confirms())
    }

    /// Whether the tick asks to cancel threshold detection.
    pub fn wants_cancel(&self) -> (yes: bool)
        ensures
            yes == self.cancel_requested(),
    {
        if self.interrupted {
            return true;
        }
        match &self.key {
            Some(press) => press.is_cancel(),
            None => false,
        }
    }

    /// Whether the tick asks to end a measurement.
    pub fn wants_finish(&self) -> (yes: bool)
        ensures
            yes == self.finish_requested(),
    {
        if self.interrupted {
            return true;
        }
        match &self.key {
            Some(press) => press.is_confirm(),
            None => false,
        }
    }
}

/// Some channel's flag is set.
pub open spec fn any_reached(flags: Seq<bool>) -> bool {
    exists|c: int| 0 <= c < flags.len() && #[trigger] flags[c]
}

/// Whether some channel's flag is set.
pub fn any_threshold_reached(flags: &[bool]) -> (yes: bool)
    ensures
        yes == any_reached(flags@),
{
    let mut c: usize = 0;
    while c < flags.len()
        invariant
            c <= flags@.len(),
            forall|j: int| 0 <= j < c ==> !#[trigger] flags@[j],
        decreases flags@.len() - c,
    {
        if flags[c] {
            return true;
        }
        c = c + 1;
    }
    false
}

/// `found` lists, in rising order, exactly the channels whose flag is set.
pub open spec fn lists_reached(flags: Seq<bool>, found: Seq<usize>) -> bool {
    &&& forall|i: int|
        0 <= i < found.len() ==> #[trigger] found[i] < flags.len() && flags[found[i] as int]
    &&& forall|i: int, j: int|
        0 <= i < j < found.len() ==> #[trigger] found[i] < #[trigger] found[j]
    &&& forall|c: int| 0 <= c < flags.len() && #[trigger] flags[c] ==> found.contains(c as usize)
}

/// Lists the channels whose flag is set, in rising order.
pub fn tripped_channels(flags: &[bool]) -> (found: Vec<usize>)
    ensures
        lists_reached(flags@, found@),
{
    let mut found: Vec<usize> = Vec::new();
    let mut c: usize = 0;
    while c < flags.len()
        invariant
            c <= flags@.len(),
            forall|i: int|
                0 <= i < found@.len() ==> #[trigger] found@[i] < c && flags@[found@[i] as int],
            forall|i: int, j: int|
                0 <= i < j < found@.len() ==> #[trigger] found@[i] < #[trigger] found@[j],
            forall|k: int| 0 <= k < c && #[trigger] flags@[k] ==> found@.contains(k as usize),
        decreases flags@.len() - c,
    {
        if flags[c] {
            let ghost before = found@;
            found.push(c);
            proof {
                assert(found@[before.len() as int] == c);
                assert forall|k: int| 0 <= k < c + 1 && #[trigger] flags@[k] implies found@
                    .contains(k as usize) by {
                    if k < c {
                        let at = choose|at: int|
                            0 <= at < before.len() && before[at] == k as usize;
                        assert(found@[at] == k as usize);
                    }
                }
            }
        }
        c = c + 1;
    }
    found
}

/// The states of threshold detection.
#[derive(Debug, Clone, Copy, PartialEq, Eq)]
pub enum DetectState {
    /// No flag is set and nobody has cancelled.
    Running,
    /// A channel's flag was seen set: the session succeeded.
    Tripped,
    /// A cancellation source fired before any flag was seen set.
    Cancelled,
}

impl DetectState {
    /// The state after a tick that saw the flags `flags` and the events
    /// `events`. A set flag counts before a cancellation of the same tick,
    /// and the two end states are never left.
    pub open spec fn next(self, flags: Seq<bool>, events: TickEvents) -> DetectState {
        match self {
            DetectState::Running => {
                if any_reached(flags) {
                    DetectState::Tripped
                } else if events.cancel_requested() {
                    DetectState::Cancelled
                } else {
                    DetectState::Running
                }
            },
            ended => ended,
        }
    }

    /// The exit code of an end state, and none while detection runs.
    pub open spec fn outcome(self) -> Option<ExitCode> {
        match self {
            DetectState::Running => None,
            DetectState::Tripped => Some(ExitCode::Success),
            DetectState::Cancelled => Some(ExitCode::UserExit),
        }
    }

    /// The state in which detection starts.
    pub fn start() -> (state: Self)
        ensures
            state == DetectState::Running,
    {
        DetectState::Running
    }

    /// Advances detection by one tick.
    pub fn tick(self, flags: &[bool], events: &TickEvents) -> (after: Self)
        ensures
            after == self.next(flags@, *events),
    {
        match self {
            DetectState::Running => {
                if any_threshold_reached(flags) {
                    DetectState::Tripped
                } else if events.wants_cancel() {
                    DetectState::Cancelled
                } else {
                    DetectState::Running
                }
            },
            DetectState::Tripped => DetectState::Tripped,
            DetectState::Cancelled => DetectState::Cancelled,
        }
    }

    /// The exit code with which the session ends, once it has ended.
    pub fn exit_code(self) -> (code: Option<ExitCode>)
        ensures
            code == self.outcome(),
    {
        match self {
            DetectState::Running => None,
            DetectState::Tripped => Some(ExitCode::Success),
            DetectState::Cancelled => Some(ExitCode::UserExit),
        }
    }
}

/// What detection saw in one tick.
pub struct DetectTick {
    pub flags: Seq<bool>,
    pub events: TickEvents,
}

impl DetectState {
    /// The state after a series of ticks, the first one first.
    pub open spec fn after_all(self, ticks: Seq<DetectTick>) -> DetectState
        decreases ticks.len(),
    {
        if ticks.len() == 0 {
            self
        } else {
            self.after_all(ticks.drop_last()).next(ticks.last().flags, ticks.last().events)
        }
    }
}

/// The two end states of detection are final: once a flag was seen set, or
/// detection was cancelled, no series of later ticks changes the outcome.
pub proof fn law_end_states_are_final(state: DetectState, ticks: Seq<DetectTick>)
    requires
        state != DetectState::Running,
    ensures
        state.after_all(ticks) == state,
    decreases ticks.len(),
{
    if ticks.len() > 0 {
        law_end_states_are_final(state, ticks.drop_last());
    }
}

/// Detection that has not been cancelled succeeds in the first tick that
/// sees a set flag, whatever else that tick observes.
pub proof fn law_set_flag_ends_detection(flags: Seq<bool>, events: TickEvents, c: int)
    requires
        0 <= c < flags.len(),
        flags[c],
    ensures
        DetectState::Running.next(flags, events) == DetectState::Tripped,
        DetectState::Running.next(flags, events).outcome() == Some(ExitCode::Success),
{
}

/// A measurement ends in a tick when its duration, if it has one, has
/// elapsed, or when the tick's events ask for it.
pub open spec fn measurement_ends(
    duration_ms: Option<u64>,
    elapsed_ms: u64,
    events: TickEvents,
) -> bool {
    (duration_ms is Some && elapsed_ms >= duration_ms->Some_0) || events.finish_requested()
}

/// Whether a measurement ends in this tick.
pub fn ends_measurement(duration_ms: Option<u64>, elapsed_ms: u64, events: &TickEvents) -> (yes:
    bool)
    ensures
        yes == measurement_ends(duration_ms, elapsed_ms, *events),
{
    let timed_out = match duration_ms {
        Some(limit) => elapsed_ms >= limit,
        None => false,
    };
    timed_out || events.wants_finish()
}

/// The higher of two levels.
pub open spec fn higher(a: i32, b: i32) -> i32 {
    if b > a {
        b
    } else {
        a
    }
}

/// The running maxima after a tick that saw the levels `current`.
pub open spec fn raised(maxima: Seq<i32>, current: Seq<i32>) -> Seq<i32> {
    Seq::new(maxima.len(), |c: int| higher(maxima[c], current[c]))
}

/// The running maxima after a series of ticks, the first one first.
pub open spec fn raised_by_all(maxima: Seq<i32>, ticks: Seq<Seq<i32>>) -> Seq<i32>
    decreases ticks.len(),
{
    if ticks.len() == 0 {
        maxima
    } else {
        raised(raised_by_all(maxima, ticks.drop_last()), ticks.last())
    }
}

/// The maxima with which a measurement of `channels` channels starts:
/// the floor for every channel.
pub open spec fn floor_levels(channels: nat) -> Seq<i32> {
    Seq::new(channels, |c: int| MIN_DB_LEVEL)
}

/// The running maximum of a channel, from the floor on, is at least the
/// floor and at least every level that a tick saw on that channel, and it
/// is the floor or one of those levels.
pub proof fn law_running_maximum(ticks: Seq<Seq<i32>>, channels: nat, c: int)
    requires
        0 <= c < channels,
        forall|k: int| 0 <= k < ticks.len() ==> (#[trigger] ticks[k]).len() == channels,
    ensures
        raised_by_all(floor_levels(channels), ticks).len() == channels,
        raised_by_all(floor_levels(channels), ticks)[c] >= MIN_DB_LEVEL,
        forall|k: int|
            0 <= k < ticks.len() ==> raised_by_all(floor_levels(channels), ticks)[c]
                >= (#[trigger] ticks[k])[c],
        raised_by_all(floor_levels(channels), ticks)[c] == MIN_DB_LEVEL || exists|k: int|
            0 <= k < ticks.len() && raised_by_all(floor_levels(channels), ticks)[c]
                == (#[trigger] ticks[k])[c],
    decreases ticks.len(),
{
    if ticks.len() > 0 {
        let earlier = ticks.drop_last();
        let before = raised_by_all(floor_levels(channels), earlier);
        let now = raised_by_all(floor_levels(channels), ticks);
        law_running_maximum(earlier, channels, c);
        assert(now[c] == higher(before[c], ticks.last()[c]));
        assert forall|k: int| 0 <= k < ticks.len() implies now[c] >= (#[trigger] ticks[k])[c] by {
            if k < earlier.len() {
                assert(earlier[k] == ticks[k]);
            }
        }
        if now[c] != MIN_DB_LEVEL {
            if now[c] == ticks.last()[c] {
                assert(now[c] == ticks[ticks.len() - 1][c]);
            } else {
                let k = choose|k: int|
                    0 <= k < earlier.len() && before[c] == (#[trigger] earlier[k])[c];
                assert(earlier[k] == ticks[k]);
            }
        }
    }
}

/// A session that reports the highest level of each channel.
pub struct MaxSession {
    max_levels: Vec<i32>,
    duration_ms: Option<u64>,
    done: bool,
}

impl MaxSession {
    /// The highest level seen so far on each channel.
    pub closed spec fn levels(&self) -> Seq<i32> {
        self.max_levels@
    }

    /// The duration after which the session ends by itself, if any.
    pub closed spec fn duration(&self) -> Option<u64> {
        self.duration_ms
    }

    /// The session has ended.
    pub closed spec fn finished(&self) -> bool {
        self.done
    }

    /// Starts a session of `num_channels` channels. Before its first tick
    /// it reports the floor for every channel.
    pub fn new(num_channels: usize, duration_ms: Option<u64>) -> (session: Self)
        ensures
            session.levels() == floor_levels(num_channels as nat),
            session.duration() == duration_ms,
            !session.finished(),
    {
        let session = MaxSession {
            max_levels: vec![MIN_DB_LEVEL; num_channels],
            duration_ms,
            done: false,
        };
        proof {
            assert(session.max_levels@ =~= floor_levels(num_channels as nat));
        }
        session
    }

    /// One tick: raises each channel's maximum to the current level where
    /// that is higher, then decides whether the session ends. A session
    /// that has ended changes no more. Returns whether it goes on.
    pub fn tick(&mut self, current_db: &[i32], elapsed_ms: u64, events: &TickEvents) -> (running:
        bool)
        requires
            current_db@.len() == old(self).levels().len(),
        ensures
            final(self).duration() == old(self).duration(),
            running == !final(self).finished(),
            old(self).finished() ==> final(self).finished() && final(self).levels() == old(
                self,
            ).levels(),
            !old(self).finished() ==> final(self).levels() == raised(
                old(self).levels(),
                current_db@,
            ) && final(self).finished() == measurement_ends(
                old(self).duration(),
                elapsed_ms,
                *events,
            ),
    {
        if self.done {
            return false;
        }
        let count = self.max_levels.len();
        let mut c: usize = 0;
        while c < count
            invariant
                c <= count,
                count == old(self).max_levels@.len(),
                current_db@.len() == count,
                self.max_levels@.len() == count,
                self.duration_ms == old(self).duration_ms,
                self.done == old(self).done,
                forall|j: int|
                    0 <= j < c ==> #[trigger] self.max_levels@[j] == higher(
                        old(self).max_levels@[j],
                        current_db@[j],
                    ),
                forall|j: int|
                    c <= j < count ==> #[trigger] self.max_levels@[j] == old(self).max_levels@[j],
            decreases count - c,
        {
            let current = current_db[c];
            if current > self.max_levels[c] {
                self.max_levels[c] = current;
            }
            c = c + 1;
        }
        proof {
            assert(self.max_levels@ =~= raised(old(self).max_levels@, current_db@));
        }
        self.done = ends_measurement(self.duration_ms, elapsed_ms, events);
        !self.done
    }

    /// Whether the session has ended.
    pub fn is_done(&self) -> (done: bool)
        ensures
            done == self.finished(),
    {
        self.done
    }

    /// The highest level of each channel: what the session reports.
    pub fn max_levels(&self) -> (levels: Vec<i32>)
        ensures
            levels@ == self.levels(),
    {
        let levels = self.max_levels.clone();
        proof {
            assert(levels@ =~= self.max_levels@);
        }
        levels
    }
}

/// The mean of `count` levels whose sum is `sum`, rounded down to a whole
/// level unit, and zero where nothing was counted.
pub open spec fn mean(sum: int, count: int) -> int {
    if count > 0 {
        sum / count
    } else {
        0
    }
}

/// The mean of some levels lies between the lowest and the highest of
/// them: a sum of `count` levels that all lie between `low` and `high` has
/// its mean there too.
pub proof fn law_mean_within_levels(sum: int, count: int, low: int, high: int)
    requires
        count > 0,
        count * low <= sum <= count * high,
    ensures
        low <= mean(sum, count) <= high,
{
    lemma_div_is_ordered(count * low, sum, count);
    lemma_div_is_ordered(sum, count * high, count);
    lemma_div_multiples_vanish(low, count);
    lemma_div_multiples_vanish(high, count);
}

/// The mean of any number of equal levels is that level, exactly.
pub proof fn law_mean_of_equal_levels(level: int, count: int)
    requires
        count > 0,
    ensures
        mean(count * level, count) == level,
{
    lemma_div_multiples_vanish(level, count);
}

/// The sum and the number of the levels that were seen on one channel.
#[derive(Clone, Copy, Debug)]
pub struct ChannelTally {
    sum: i64,
    count: u32,
}

impl ChannelTally {
    /// The sum of the levels.
    pub closed spec fn total(&self) -> int {
        self.sum as int
    }

    /// The number of the levels.
    pub closed spec fn samples(&self) -> nat {
        self.count as nat
    }

    /// The sum of `count` levels lies between `count` times the lowest and
    /// `count` times the highest level that there is.
    #[verifier::type_invariant]
    closed spec fn well_formed(&self) -> bool {
        self.count * i32::MIN <= self.sum <= self.count * i32::MAX
    }

    /// The tally of no level.
    pub fn new() -> (tally: Self)
        ensures
            tally.total() == 0,
            tally.samples() == 0,
    {
        ChannelTally { sum: 0, count: 0 }
    }

    /// Whether one more level can be counted.
    pub fn has_room(&self) -> (yes: bool)
        ensures
            yes == (self.samples() < u32::MAX),
    {
        self.count < u32::MAX
    }

    /// The tally with one more level.
    pub fn with(self, level: i32) -> (tally: Self)
        requires
            self.samples() < u32::MAX,
        ensures
            tally.total() == self.total() + level,
            tally.samples() == self.samples() + 1,
    {
        proof {
            use_type_invariant(&self);
            assert(self.count * i32::MIN >= -9223372034707292160 && self.count * i32::MAX
                <= 9223372030412324865) by (nonlinear_arith)
                requires
                    0 <= self.count <= 4294967294,
            ;
            assert((self.count + 1) * i32::MIN == self.count * i32::MIN + i32::MIN
                && (self.count + 1) * i32::MAX == self.count * i32::MAX + i32::MAX)
                by (nonlinear_arith);
        }
        ChannelTally { sum: self.sum + level as i64, count: self.count + 1 }
    }

    /// The mean of the levels, and zero where there is none.
    pub fn mean(&self) -> (level: i32)
        ensures
            level == mean(self.total(), self.samples() as int),
    {
        proof {
            use_type_invariant(self);
        }
        if self.count == 0 {
            return 0;
        }
        let count = self.count as u64;
        let ghost sum = self.sum as int;
        let ghost n = self.count as int;
        proof {
            assert(0 <= n * 2147483648 <= 9223372034707292160) by (nonlinear_arith)
                requires
                    0 <= n <= 4294967295,
            ;
            assert(n * i32::MIN == -(n * 2147483648)) by (nonlinear_arith);
            assert(n * i32::MAX == n * 2147483648 - n) by (nonlinear_arith);
        }
        let lift: u64 = count * 2147483648;
        let lifted: u64 = if self.sum >= 0 {
            lift + self.sum as u64
        } else {
            lift - ((-self.sum) as u64)
        };
        let quotient = lifted / count;
        proof {
            assert(lifted == sum + 2147483648 * n);
            lemma_hoist_over_denominator(sum, 2147483648, n as nat);
            assert(quotient == sum / n + 2147483648);
            lemma_div_is_ordered(n * i32::MIN, sum, n);
            lemma_div_is_ordered(sum, n * i32::MAX, n);
            lemma_div_multiples_vanish(i32::MIN as int, n);
            lemma_div_multiples_vanish(i32::MAX as int, n);
        }
        (quotient as i64 - 2147483648) as i32
    }
}

/// `after` are the tallies after a tick that saw the levels `current`:
/// each channel's sum has grown by its level, and its count by one.
pub open spec fn tallied(
    tallies: Seq<ChannelTally>,
    current: Seq<i32>,
    after: Seq<ChannelTally>,
) -> bool {
    &&& after.len() == tallies.len()
    &&& forall|c: int|
        0 <= c < tallies.len() ==> (#[trigger] after[c]).total() == tallies[c].total() + current[c]
    &&& forall|c: int|
        0 <= c < tallies.len() ==> (#[trigger] after[c]).samples() == tallies[c].samples() + 1
}

/// A session that reports the mean level of each channel.
pub struct AverageSession {
    tallies: Vec<ChannelTally>,
    duration_ms: Option<u64>,
    done: bool,
}

impl AverageSession {
    /// The tally of each channel.
    pub closed spec fn tallies(&self) -> Seq<ChannelTally> {
        self.tallies@
    }

    /// The duration after which the session ends by itself, if any.
    pub closed spec fn duration(&self) -> Option<u64> {
        self.duration_ms
    }

    /// The session has ended.
    pub closed spec fn finished(&self) -> bool {
        self.done
    }

    /// The mean level of each channel, and zero for a channel on which
    /// nothing was counted.
    pub open spec fn means(&self) -> Seq<int> {
        Seq::new(
            self.tallies().len(),
            |c: int| mean(self.tallies()[c].total(), self.tallies()[c].samples() as int),
        )
    }

    /// Every channel's tally can count one more level.
    pub open spec fn has_room(&self) -> bool {
        forall|c: int|
            0 <= c < self.tallies().len() ==> (#[trigger] self.tallies()[c]).samples() < u32::MAX
    }

    /// Starts a session of `num_channels` channels, with nothing counted.
    /// Before its first tick it reports zero for every channel.
    pub fn new(num_channels: usize, duration_ms: Option<u64>) -> (session: Self)
        ensures
            session.tallies().len() == num_channels,
            session.means() == Seq::new(num_channels as nat, |c: int| 0int),
            forall|c: int|
                0 <= c < num_channels ==> (#[trigger] session.tallies()[c]).total() == 0,
            forall|c: int|
                0 <= c < num_channels ==> (#[trigger] session.tallies()[c]).samples() == 0,
            session.duration() == duration_ms,
            !session.finished(),
    {
        let mut tallies: Vec<ChannelTally> = Vec::new();
        let mut c: usize = 0;
        while c < num_channels
            invariant
                c <= num_channels,
                tallies@.len() == c,
                forall|j: int| 0 <= j < c ==> (#[trigger] tallies@[j]).total() == 0,
                forall|j: int| 0 <= j < c ==> (#[trigger] tallies@[j]).samples() == 0,
            decreases num_channels - c,
        {
            tallies.push(ChannelTally::new());
            c = c + 1;
        }
        let session = AverageSession { tallies, duration_ms, done: false };
        proof {
            assert(session.means() =~= Seq::new(num_channels as nat, |c: int| 0int));
        }
        session
    }

    /// Whether every channel's tally can count one more level, which a
    /// tick needs.
    pub fn can_tick(&self) -> (yes: bool)
        ensures
            yes == self.has_room(),
    {
        let mut c: usize = 0;
        while c < self.tallies.len()
            invariant
                c <= self.tallies@.len(),
                forall|j: int| 0 <= j < c ==> (#[trigger] self.tallies@[j]).samples() < u32::MAX,
            decreases self.tallies@.len() - c,
        {
            if !self.tallies[c].has_room() {
                assert(self.tallies()[c as int].samples() >= u32::MAX);
                return false;
            }
            c = c + 1;
        }
        true
    }

    /// One tick: adds each channel's current level to its tally, then
    /// decides whether the session ends. A session that has ended changes
    /// no more. Returns whether it goes on.
    pub fn tick(&mut self, current_db: &[i32], elapsed_ms: u64, events: &TickEvents) -> (running:
        bool)
        requires
            current_db@.len() == old(self).tallies().len(),
            old(self).has_room(),
        ensures
            final(self).duration() == old(self).duration(),
            running == !final(self).finished(),
            old(self).finished() ==> final(self).finished() && final(self).tallies() == old(
                self,
            ).tallies(),
            !old(self).finished() ==> tallied(
                old(self).tallies(),
                current_db@,
                final(self).tallies(),
            ) && final(self).finished() == measurement_ends(
                old(self).duration(),
                elapsed_ms,
                *events,
            ),
    {
        if self.done {
            return false;
        }
        let count = self.tallies.len();
        let mut c: usize = 0;
        while c < count
            invariant
                c <= count,
                count == old(self).tallies@.len(),
                current_db@.len() == count,
                self.tallies@.len() == count,
                self.duration_ms == old(self).duration_ms,
                self.done == old(self).done,
                old(self).has_room(),
                forall|j: int|
                    0 <= j < c ==> (#[trigger] self.tallies@[j]).total() == old(
                        self,
                    ).tallies@[j].total() + current_db@[j],
                forall|j: int|
                    0 <= j < c ==> (#[trigger] self.tallies@[j]).samples() == old(
                        self,
                    ).tallies@[j].samples() + 1,
                forall|j: int|
                    c <= j < count ==> #[trigger] self.tallies@[j] == old(self).tallies@[j],
            decreases count - c,
        {
            assert(old(self).tallies()[c as int].samples() < u32::MAX);
            let tally = self.tallies[c].with(current_db[c]);
            self.tallies[c] = tally;
            c = c + 1;
        }
        self.done = ends_measurement(self.duration_ms, elapsed_ms, events);
        !self.done
    }

    /// Whether the session has ended.
    pub fn is_done(&self) -> (done: bool)
        ensures
            done == self.finished(),
    {
        self.done
    }

    /// The mean level of each channel, and zero for a channel on which
    /// nothing was counted: what the session reports.
    pub fn averages(&self) -> (levels: Vec<i32>)
        ensures
            levels@.len() == self.means().len(),
            forall|c: int| 0 <= c < levels@.len() ==> #[trigger] levels@[c] == self.means()[c],
    {
        let mut levels: Vec<i32> = Vec::new();
        let mut c: usize = 0;
        while c < self.tallies.len()
            invariant
                c <= self.tallies@.len(),
                levels@.len() == c,
                forall|j: int|
                    0 <= j < c ==> #[trigger] levels@[j] == mean(
                        self.tallies@[j].total(),
                        self.tallies@[j].samples() as int,
                    ),
            decreases self.tallies@.len() - c,
        {
            levels.push(self.tallies[c].mean());
            c = c + 1;
        }
        levels
    }
}

} // verus!

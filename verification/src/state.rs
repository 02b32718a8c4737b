//! The levels that the audio side publishes and the polling side reads.
use vstd::prelude::*;
use crate::constants::{AUDIO_SMOOTHING_PERCENT, DISPLAY_SMOOTHING_PERCENT, MIN_DB_LEVEL};
use crate::smoothing::{amplitude_to_db, blend, blended, level_of, Smoothing};
use crate::text::push_text;
use crate::ui::UiState;

verus! {

/// The per-channel levels and flags as mathematical sequences, one element
/// for each monitored channel.
pub struct Levels {
    /// Level of the latest buffer's peak.
    pub current_db: Seq<i32>,
    /// First-stage smoothed level.
    pub smoothed_db: Seq<i32>,
    /// Second-stage smoothed level, which a gauge shows.
    pub display_db: Seq<i32>,
    /// Whether the channel's peak has ever exceeded the threshold.
    pub threshold_reached: Seq<bool>,
}

impl Levels {
    /// All four sequences have `channels` elements.
    pub open spec fn has_channels(self, channels: nat) -> bool {
        &&& self.current_db.len() == channels
        &&& self.smoothed_db.len() == channels
        &&& self.display_db.len() == channels
        &&& self.threshold_reached.len() == channels
    }

    /// The levels at the start of a session: every level at the floor and
    /// no flag set.
    pub open spec fn initial(channels: nat) -> Levels {
        Levels {
            current_db: Seq::new(channels, |c: int| MIN_DB_LEVEL),
            smoothed_db: Seq::new(channels, |c: int| MIN_DB_LEVEL),
            display_db: Seq::new(channels, |c: int| MIN_DB_LEVEL),
            threshold_reached: Seq::new(channels, |c: int| false),
        }
    }

    /// The level that channel `c` reports for a buffer in which its peak
    /// amplitude is `peaks[c]` and the measured level of that peak is
    /// `measured[c]`.
    pub open spec fn current_after(peaks: Seq<u32>, measured: Seq<i32>, c: int) -> int {
        level_of(peaks[c] as int, measured[c] as int)
    }

    /// The first-stage value of channel `c` after such a buffer.
    pub open spec fn smoothed_after(self, peaks: Seq<u32>, measured: Seq<i32>, c: int) -> int {
        blended(
            self.smoothed_db[c] as int,
            Self::current_after(peaks, measured, c),
            AUDIO_SMOOTHING_PERCENT as int,
        )
    }

    /// The display value of channel `c` after such a buffer.
    pub open spec fn display_after(self, peaks: Seq<u32>, measured: Seq<i32>, c: int) -> int {
        blended(
            self.display_db[c] as int,
            self.smoothed_after(peaks, measured, c),
            DISPLAY_SMOOTHING_PERCENT as int,
        )
    }

    /// The flag of channel `c` after such a buffer: it stays set, and it
    /// becomes set when the peak amplitude exceeds the threshold.
    pub open spec fn reached_after(self, peaks: Seq<u32>, threshold: u32, c: int) -> bool {
        self.threshold_reached[c] || peaks[c] > threshold
    }

    /// The levels after one buffer in which the peak amplitudes of the
    /// channels are `peaks` and the measured levels of those peaks are
    /// `measured`.
    pub open spec fn after(self, peaks: Seq<u32>, measured: Seq<i32>, threshold: u32) -> Levels {
        let channels = self.current_db.len();
        Levels {
            current_db: Seq::new(
                channels,
                |c: int| Self::current_after(peaks, measured, c) as i32,
            ),
            smoothed_db: Seq::new(
                channels,
                |c: int| self.smoothed_after(peaks, measured, c) as i32,
            ),
            display_db: Seq::new(channels, |c: int| self.display_after(peaks, measured, c) as i32),
            threshold_reached: Seq::new(
                channels,
                |c: int| self.reached_after(peaks, threshold, c),
            ),
        }
    }

    /// The levels after a series of buffers, the first one first.
    pub open spec fn after_all(self, buffers: Seq<Analysis>, threshold: u32) -> Levels
        decreases buffers.len(),
    {
        if buffers.len() == 0 {
            self
        } else {
            let last = buffers.last();
            self.after_all(buffers.drop_last(), threshold).after(
                last.peaks,
                last.measured,
                threshold,
            )
        }
    }
}

/// What the analysis of one buffer hands to the shared state: for each
/// monitored channel its peak amplitude and the measured level of that
/// peak.
pub struct Analysis {
    pub peaks: Seq<u32>,
    pub measured: Seq<i32>,
}

/// The shape of the state is fixed for a session: whatever buffers arrive,
/// every sequence keeps one element for each monitored channel.
pub proof fn law_channel_count_is_kept(
    levels: Levels,
    buffers: Seq<Analysis>,
    threshold: u32,
    channels: nat,
)
    requires
        levels.has_channels(channels),
    ensures
        levels.after_all(buffers, threshold).has_channels(channels),
    decreases buffers.len(),
{
    if buffers.len() > 0 {
        law_channel_count_is_kept(levels, buffers.drop_last(), threshold, channels);
    }
}

/// The threshold flag is sticky: once the flag of a channel is set, no
/// series of later buffers clears it, however quiet they are.
pub proof fn law_threshold_flag_is_sticky(
    levels: Levels,
    buffers: Seq<Analysis>,
    threshold: u32,
    channels: nat,
    c: int,
)
    requires
        levels.has_channels(channels),
        0 <= c < channels,
        levels.threshold_reached[c],
    ensures
        levels.after_all(buffers, threshold).threshold_reached[c],
    decreases buffers.len(),
{
    if buffers.len() > 0 {
        law_channel_count_is_kept(levels, buffers.drop_last(), threshold, channels);
        law_threshold_flag_is_sticky(levels, buffers.drop_last(), threshold, channels, c);
    }
}

/// A buffer in which the peak amplitude of a channel exceeds the threshold
/// sets that channel's flag, and the flag is still set after any series of
/// later buffers.
pub proof fn law_loud_buffer_trips(
    levels: Levels,
    loud: Analysis,
    later: Seq<Analysis>,
    threshold: u32,
    channels: nat,
    c: int,
)
    requires
        levels.has_channels(channels),
        0 <= c < channels,
        loud.peaks[c] > threshold,
    ensures
        levels.after(loud.peaks, loud.measured, threshold).after_all(
            later,
            threshold,
        ).threshold_reached[c],
{
    law_threshold_flag_is_sticky(
        levels.after(loud.peaks, loud.measured, threshold),
        later,
        threshold,
        channels,
        c,
    );
}

/// Each channel is smoothed like a smoother of its own: the two smoothed
/// levels after a buffer are what a smoother at the earlier two levels
/// gives when it is fed the channel's current level.
pub proof fn law_channels_are_smoothed_alike(
    levels: Levels,
    peaks: Seq<u32>,
    measured: Seq<i32>,
    c: int,
)
    ensures
        (Smoothing {
            smoothed: levels.smoothed_db[c] as int,
            display: levels.display_db[c] as int,
        }).step(Levels::current_after(peaks, measured, c)) == (Smoothing {
            smoothed: levels.smoothed_after(peaks, measured, c),
            display: levels.display_after(peaks, measured, c),
        }),
{
}

/// Smoothing never reaches what is measured: the current level and the
/// threshold flag after a buffer depend on that buffer's peaks and on the
/// earlier flags alone, not on any smoothed or displayed level.
pub proof fn law_measurement_ignores_smoothing(
    first: Levels,
    second: Levels,
    peaks: Seq<u32>,
    measured: Seq<i32>,
    threshold: u32,
)
    requires
        first.current_db.len() == second.current_db.len(),
        first.threshold_reached == second.threshold_reached,
    ensures
        first.after(peaks, measured, threshold).current_db == second.after(
            peaks,
            measured,
            threshold,
        ).current_db,
        first.after(peaks, measured, threshold).threshold_reached == second.after(
            peaks,
            measured,
            threshold,
        ).threshold_reached,
{
    assert(first.after(peaks, measured, threshold).current_db =~= second.after(
        peaks,
        measured,
        threshold,
    ).current_db);
    assert(first.after(peaks, measured, threshold).threshold_reached =~= second.after(
        peaks,
        measured,
        threshold,
    ).threshold_reached);
}

/// The levels that are shared between the audio side, which alone writes
/// them, and the polling side, which reads them. Held behind one lock, a
/// whole update becomes visible at once.
pub struct SharedState {
    pub current_db: Vec<i32>,
    pub smoothed_db: Vec<i32>,
    pub display_db: Vec<i32>,
    pub threshold_reached: Vec<bool>,
}

impl View for SharedState {
    type V = Levels;

    open spec fn view(&self) -> Levels {
        Levels {
            current_db: self.current_db@,
            smoothed_db: self.smoothed_db@,
            display_db: self.display_db@,
            threshold_reached: self.threshold_reached@,
        }
    }
}

impl SharedState {
    /// The number of monitored channels.
    pub open spec fn channels(&self) -> nat {
        self.current_db@.len()
    }

    /// Every vector has one element for each monitored channel.
    pub open spec fn well_formed(&self) -> bool {
        self@.has_channels(self.channels())
    }

    /// Creates the state of a session of `num_channels` channels.
    pub fn new(num_channels: usize) -> (state: Self)
        ensures
            state.well_formed(),
            state@ == Levels::initial(num_channels as nat),
    {
        let default_db = MIN_DB_LEVEL;
        let state = Self {
            current_db: vec![default_db; num_channels],
            smoothed_db: vec![default_db; num_channels],
            display_db: vec![default_db; num_channels],
            threshold_reached: vec![false; num_channels],
        };
        proof {
            let initial = Levels::initial(num_channels as nat);
            assert(state.current_db@ =~= initial.current_db);
            assert(state.smoothed_db@ =~= initial.smoothed_db);
            assert(state.display_db@ =~= initial.display_db);
            assert(state.threshold_reached@ =~= initial.threshold_reached);
        }
        state
    }

    /// Publishes the results of one buffer: for each channel the level of
    /// its peak, the two smoothed levels, and the threshold flag, which is
    /// set where the peak amplitude exceeds `threshold` and never cleared.
    pub fn publish(&mut self, peaks: &[u32], measured: &[i32], threshold: u32)
        requires
            old(self).well_formed(),
            peaks@.len() == old(self).channels(),
            measured@.len() == old(self).channels(),
        ensures
            final(self).well_formed(),
            final(self)@ == old(self)@.after(peaks@, measured@, threshold),
            forall|c: int|
                0 <= c < old(self).channels() ==> #[trigger] final(self).smoothed_db@[c] == old(
                    self,
                )@.smoothed_after(peaks@, measured@, c),
            forall|c: int|
                0 <= c < old(self).channels() ==> #[trigger] final(self).display_db@[c] == old(
                    self,
                )@.display_after(peaks@, measured@, c),
    {
        let count = self.current_db.len();
        let mut c: usize = 0;
        while c < count
            invariant
                c <= count,
                count == old(self).channels(),
                peaks@.len() == count,
                measured@.len() == count,
                self@.has_channels(count as nat),
                old(self).well_formed(),
                forall|j: int|
                    0 <= j < c ==> #[trigger] self.current_db@[j] == Levels::current_after(
                        peaks@,
                        measured@,
                        j,
                    ),
                forall|j: int|
                    0 <= j < c ==> #[trigger] self.smoothed_db@[j] == old(self)@.smoothed_after(
                        peaks@,
                        measured@,
                        j,
                    ),
                forall|j: int|
                    0 <= j < c ==> #[trigger] self.display_db@[j] == old(self)@.display_after(
                        peaks@,
                        measured@,
                        j,
                    ),
                forall|j: int|
                    0 <= j < c ==> #[trigger] self.threshold_reached@[j] == old(
                        self,
                    )@.reached_after(peaks@, threshold, j),
                forall|j: int|
                    c <= j < count ==> #[trigger] self.smoothed_db@[j] == old(self).smoothed_db@[j],
                forall|j: int|
                    c <= j < count ==> #[trigger] self.display_db@[j] == old(self).display_db@[j],
                forall|j: int|
                    c <= j < count ==> #[trigger] self.threshold_reached@[j] == old(
                        self,
                    ).threshold_reached@[j],
            decreases count - c,
        {
            let current = amplitude_to_db(peaks[c], measured[c]);
            let smoothed = blend(self.smoothed_db[c], current, AUDIO_SMOOTHING_PERCENT);
            let display = blend(self.display_db[c], smoothed, DISPLAY_SMOOTHING_PERCENT);
            self.current_db[c] = current;
            self.smoothed_db[c] = smoothed;
            self.display_db[c] = display;
            if peaks[c] > threshold {
                self.threshold_reached[c] = true;
            }
            c = c + 1;
        }
        proof {
            let next = old(self)@.after(peaks@, measured@, threshold);
            assert(self.current_db@ =~= next.current_db);
            assert(self.smoothed_db@ =~= next.smoothed_db);
            assert(self.display_db@ =~= next.display_db);
            assert(self.threshold_reached@ =~= next.threshold_reached);
        }
    }
}

/// The status line of a session that monitors the device `device_name`.
pub open spec fn monitoring_status(device_name: Seq<char>) -> Seq<char> {
    "Monitoring "@ + device_name + "... Press Ctrl+C or Escape to quit."@
}

/// What the polling side knows in one tick: the device, the configured
/// threshold, a status line, and a snapshot of the shared levels.
pub struct AppState {
    pub device_name: String,
    pub current_db: Vec<i32>,
    pub smoothed_db: Vec<i32>,
    pub display_db: Vec<i32>,
    pub threshold_db: i32,
    pub status: String,
    pub threshold_reached: Vec<bool>,
}

impl AppState {
    /// The levels of the snapshot.
    pub open spec fn levels(&self) -> Levels {
        Levels {
            current_db: self.current_db@,
            smoothed_db: self.smoothed_db@,
            display_db: self.display_db@,
            threshold_reached: self.threshold_reached@,
        }
    }

    /// Creates the state of a session that has not read any audio yet.
    pub fn new(device_name: String, threshold_db: i32, num_channels: usize) -> (state: Self)
        ensures
            state.device_name@ == device_name@,
            state.threshold_db == threshold_db,
            state.status@ == monitoring_status(device_name@),
            state.levels() == Levels::initial(num_channels as nat),
    {
        let default_db = MIN_DB_LEVEL;
        let mut status = "Monitoring ".to_owned();
        push_text(&mut status, device_name.as_str());
        push_text(&mut status, "... Press Ctrl+C or Escape to quit.");
        let state = Self {
            device_name,
            current_db: vec![default_db; num_channels],
            smoothed_db: vec![default_db; num_channels],
            display_db: vec![default_db; num_channels],
            threshold_db,
            status,
            threshold_reached: vec![false; num_channels],
        };
        proof {
            let initial = Levels::initial(num_channels as nat);
            assert(state.current_db@ =~= initial.current_db);
            assert(state.smoothed_db@ =~= initial.smoothed_db);
            assert(state.display_db@ =~= initial.display_db);
            assert(state.threshold_reached@ =~= initial.threshold_reached);
        }
        state
    }

    /// What the renderer is shown of this tick: copies of the device
    /// name, the current and the displayed levels, the threshold and the
    /// status line. The renderer gets no access to the state itself.
    pub fn ui_state(&self) -> (shown: UiState)
        ensures
            shown.device_name == self.device_name,
            shown.current_db@ == self.current_db@,
            shown.display_db@ == self.display_db@,
            shown.threshold_db == self.threshold_db,
            shown.status == self.status,
    {
        let shown = UiState {
            device_name: self.device_name.clone(),
            current_db: self.current_db.clone(),
            display_db: self.display_db.clone(),
            threshold_db: self.threshold_db,
            status: self.status.clone(),
        };
        proof {
            assert(shown.current_db@ =~= self.current_db@);
            assert(shown.display_db@ =~= self.display_db@);
        }
        shown
    }

    /// Takes a snapshot of the shared levels: all four vectors are copied
    /// in one go, and nothing else changes.
    pub fn update_from_audio(&mut self, shared: &SharedState)
        ensures
            final(self).levels() == shared@,
            final(self).device_name == old(self).device_name,
            final(self).threshold_db == old(self).threshold_db,
            final(self).status == old(self).status,
    {
        self.current_db = shared.current_db.clone();
        self.smoothed_db = shared.smoothed_db.clone();
        self.display_db = shared.display_db.clone();
        self.threshold_reached = shared.threshold_reached.clone();
        proof {
            assert(self.current_db@ =~= shared.current_db@);
            assert(self.smoothed_db@ =~= shared.smoothed_db@);
            assert(self.display_db@ =~= shared.display_db@);
            assert(self.threshold_reached@ =~= shared.threshold_reached@);
        }
    }
}

} // verus!

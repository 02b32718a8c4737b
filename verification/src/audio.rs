//! Per-channel peak extraction from interleaved buffers, the analysis that
//! runs once for each buffer, and the choice of a device configuration.
use vstd::prelude::*;
use vstd::arithmetic::div_mod::lemma_fundamental_div_mod_converse;
use vstd::slice::slice_to_vec;
use crate::constants::{MIN_DB_LEVEL, PREFERRED_SAMPLE_RATE};
use crate::error::ConfigError;
use crate::state::SharedState;

verus! {

/// The absolute value of a sample.
pub open spec fn magnitude(sample: int) -> int {
    if sample < 0 {
        -sample
    } else {
        sample
    }
}

/// The number of frames of a buffer of `len` samples that hold a sample of
/// `channel`, where every frame has `stride` samples.
pub open spec fn frames_of(len: int, channel: int, stride: int) -> int {
    if channel < len {
        (len - channel - 1) / stride + 1
    } else {
        0
    }
}

/// The greatest magnitude among the samples of `channel` in the first
/// `frames` frames, and zero where there is none.
pub open spec fn peak_of_frames(data: Seq<i32>, channel: int, stride: int, frames: nat) -> int
    decreases frames,
{
    if frames == 0 {
        0
    } else {
        let earlier = peak_of_frames(data, channel, stride, (frames - 1) as nat);
        let here = magnitude(data[channel + (frames - 1) * stride] as int);
        if here > earlier {
            here
        } else {
            earlier
        }
    }
}

/// The peak amplitude of `channel` in an interleaved buffer: the greatest
/// magnitude among the samples at `channel`, `channel + stride`,
/// `channel + 2 * stride` and so on, and zero for a buffer without any.
pub open spec fn channel_peak(data: Seq<i32>, channel: int, stride: int) -> int {
    peak_of_frames(data, channel, stride, frames_of(data.len() as int, channel, stride) as nat)
}

/// The positions `channel + k * stride` below `len` are those with
/// `k < frames_of(len, channel, stride)`.
pub proof fn lemma_frames_of(len: int, channel: int, stride: int, k: int)
    requires
        0 <= channel,
        0 < stride,
        0 <= k,
    ensures
        frames_of(len, channel, stride) >= 0,
        channel + k * stride < len <==> k < frames_of(len, channel, stride),
{
    if channel < len {
        let a = len - channel - 1;
        let q = a / stride;
        let r = a % stride;
        assert(a == stride * q + r && 0 <= r < stride) by {
            vstd::arithmetic::div_mod::lemma_fundamental_div_mod(a, stride);
            vstd::arithmetic::div_mod::lemma_mod_bound(a, stride);
        }
        assert(q >= 0) by (nonlinear_arith)
            requires
                a == stride * q + r,
                0 <= r < stride,
                a >= 0,
        ;
        if k <= q {
            assert(k * stride <= q * stride) by (nonlinear_arith)
                requires
                    k <= q,
                    stride > 0,
            ;
            assert(q * stride == stride * q) by (nonlinear_arith);
        } else {
            assert(k * stride >= (q + 1) * stride) by (nonlinear_arith)
                requires
                    k >= q + 1,
                    stride > 0,
            ;
            assert((q + 1) * stride == stride * q + stride) by (nonlinear_arith);
        }
    } else {
        assert(k * stride >= 0) by (nonlinear_arith)
            requires
                k >= 0,
                stride > 0,
        ;
    }
}

/// The peak over some frames bounds the magnitudes of the channel's samples
/// in them, and is the magnitude of one of them unless it is zero.
proof fn lemma_peak_of_frames(data: Seq<i32>, channel: int, stride: int, frames: nat)
    ensures
        0 <= peak_of_frames(data, channel, stride, frames),
        forall|k: int|
            0 <= k < frames ==> magnitude(#[trigger] data[channel + k * stride] as int)
                <= peak_of_frames(data, channel, stride, frames),
        peak_of_frames(data, channel, stride, frames) == 0 || exists|k: int|
            0 <= k < frames && magnitude(#[trigger] data[channel + k * stride] as int)
                == peak_of_frames(data, channel, stride, frames),
    decreases frames,
{
    if frames > 0 {
        lemma_peak_of_frames(data, channel, stride, (frames - 1) as nat);
        let earlier = peak_of_frames(data, channel, stride, (frames - 1) as nat);
        let here = magnitude(data[channel + (frames - 1) * stride] as int);
        if here > earlier {
            assert(magnitude(data[channel + (frames - 1) * stride] as int) == here);
        } else if earlier != 0 {
            let k = choose|k: int|
                0 <= k < frames - 1 && magnitude(#[trigger] data[channel + k * stride] as int)
                    == earlier;
            assert(0 <= k < frames && magnitude(data[channel + k * stride] as int) == earlier);
        }
    }
}

/// Two buffers that agree on a channel's samples in some frames have the
/// same peak over them.
proof fn lemma_peak_of_equal_frames(
    first: Seq<i32>,
    second: Seq<i32>,
    channel: int,
    stride: int,
    frames: nat,
)
    requires
        forall|k: int|
            0 <= k < frames ==> #[trigger] first[channel + k * stride] == second[channel + k
                * stride],
    ensures
        peak_of_frames(first, channel, stride, frames) == peak_of_frames(
            second,
            channel,
            stride,
            frames,
        ),
    decreases frames,
{
    if frames > 0 {
        lemma_peak_of_equal_frames(first, second, channel, stride, (frames - 1) as nat);
        assert(first[channel + (frames - 1) * stride] == second[channel + (frames - 1) * stride]);
    }
}

/// The peak of a channel is an upper bound of the magnitudes of that
/// channel's samples, and it is the magnitude of one of them unless it is
/// zero.
pub proof fn law_peak_is_greatest(data: Seq<i32>, channel: int, stride: int)
    requires
        0 <= channel,
        0 < stride,
    ensures
        0 <= channel_peak(data, channel, stride),
        forall|k: int|
            0 <= k && channel + k * stride < data.len() ==> magnitude(
                #[trigger] data[channel + k * stride] as int,
            ) <= channel_peak(data, channel, stride),
        channel_peak(data, channel, stride) == 0 || exists|k: int|
            0 <= k && channel + k * stride < data.len() && magnitude(
                #[trigger] data[channel + k * stride] as int,
            ) == channel_peak(data, channel, stride),
{
    let len = data.len() as int;
    let frames = frames_of(len, channel, stride);
    lemma_frames_of(len, channel, stride, 0);
    lemma_peak_of_frames(data, channel, stride, frames as nat);
    assert forall|k: int| 0 <= k && channel + k * stride < data.len() implies magnitude(
        #[trigger] data[channel + k * stride] as int,
    ) <= channel_peak(data, channel, stride) by {
        lemma_frames_of(len, channel, stride, k);
    }
    if channel_peak(data, channel, stride) != 0 {
        let k = choose|k: int|
            0 <= k < frames && magnitude(#[trigger] data[channel + k * stride] as int)
                == channel_peak(data, channel, stride);
        lemma_frames_of(len, channel, stride, k);
    }
}

/// The peak of a channel depends on that channel's samples alone: two
/// buffers of one length that agree at `channel`, `channel + stride`,
/// `channel + 2 * stride` and so on have the same peak there, whatever
/// their other channels hold.
pub proof fn law_peak_reads_own_channel(
    first: Seq<i32>,
    second: Seq<i32>,
    channel: int,
    stride: int,
)
    requires
        0 <= channel,
        0 < stride,
        first.len() == second.len(),
        forall|k: int|
            0 <= k && channel + k * stride < first.len() ==> #[trigger] first[channel + k
                * stride] == second[channel + k * stride],
    ensures
        channel_peak(first, channel, stride) == channel_peak(second, channel, stride),
{
    let len = first.len() as int;
    let frames = frames_of(len, channel, stride);
    lemma_frames_of(len, channel, stride, 0);
    assert forall|k: int| 0 <= k < frames implies #[trigger] first[channel + k * stride]
        == second[channel + k * stride] by {
        lemma_frames_of(len, channel, stride, k);
    }
    lemma_peak_of_equal_frames(first, second, channel, stride, frames as nat);
}

/// The samples that are read for a channel of a frame are that channel's
/// alone: the position `channel + k * stride` is the sample of `channel`
/// in frame `k`, and of no other channel.
pub proof fn law_positions_belong_to_channel(channel: int, stride: int, k: int)
    requires
        0 <= channel < stride,
        0 <= k,
    ensures
        (channel + k * stride) % stride == channel,
        (channel + k * stride) / stride == k,
{
    assert(channel + k * stride == k * stride + channel);
    lemma_fundamental_div_mod_converse(channel + k * stride, stride, k, channel);
}

/// The magnitude of one sample.
pub fn sample_magnitude(sample: i32) -> (m: u32)
    ensures
        m == magnitude(sample as int),
{
    if sample < 0 {
        (-(sample as i64)) as u32
    } else {
        sample as u32
    }
}

/// Extracts the peak amplitude of one channel from an interleaved buffer
/// whose frames have `total_channels` samples each.
pub fn extract_peak(data: &[i32], channel: usize, total_channels: usize) -> (peak: u32)
    requires
        total_channels > 0,
    ensures
        peak == channel_peak(data@, channel as int, total_channels as int),
{
    let len = data.len();
    if channel >= len {
        return 0;
    }
    let mut peak: u32 = 0;
    let mut index: usize = channel;
    let ghost mut frame: nat = 0;
    proof {
        assert(0 * total_channels == 0) by (nonlinear_arith);
    }
    loop
        invariant_except_break
            index == channel + frame * total_channels,
        invariant
            total_channels > 0,
            len == data@.len(),
            channel < len,
            index < len,
            peak == peak_of_frames(data@, channel as int, total_channels as int, frame),
        ensures
            frame == frames_of(len as int, channel as int, total_channels as int),
            peak == peak_of_frames(data@, channel as int, total_channels as int, frame),
        decreases len - index,
    {
        let here = sample_magnitude(data[index]);
        if here > peak {
            peak = here;
        }
        proof {
            frame = frame + 1;
            assert((frame - 1) * total_channels + total_channels == frame * total_channels)
                by (nonlinear_arith);
        }
        if len - index <= total_channels {
            proof {
                lemma_frames_of(len as int, channel as int, total_channels as int, frame as int);
                lemma_frames_of(
                    len as int,
                    channel as int,
                    total_channels as int,
                    frame as int - 1,
                );
            }
            break ;
        }
        index = index + total_channels;
    }
    peak
}

/// Extracts the peak amplitude of each selected channel, in the order of
/// the selection.
pub fn extract_peaks(data: &[i32], selected_channels: &[usize], total_channels: usize) -> (peaks:
    Vec<u32>)
    requires
        total_channels > 0,
    ensures
        peaks@.len() == selected_channels@.len(),
        forall|i: int|
            0 <= i < peaks@.len() ==> #[trigger] peaks@[i] == channel_peak(
                data@,
                selected_channels@[i] as int,
                total_channels as int,
            ),
{
    let mut peaks: Vec<u32> = Vec::new();
    let mut i: usize = 0;
    while i < selected_channels.len()
        invariant
            total_channels > 0,
            i <= selected_channels@.len(),
            peaks@.len() == i,
            forall|j: int|
                0 <= j < i ==> #[trigger] peaks@[j] == channel_peak(
                    data@,
                    selected_channels@[j] as int,
                    total_channels as int,
                ),
        decreases selected_channels@.len() - i,
    {
        let peak = extract_peak(data, selected_channels[i], total_channels);
        peaks.push(peak);
        i = i + 1;
    }
    peaks
}

/// The configuration with which a device is opened.
pub struct AudioConfig {
    pub device_name: String,
    pub sample_rate: u32,
    pub channels: u16,
    pub selected_channels: Vec<usize>,
}

/// The sample rate that is used with a device that supports the rates from
/// `min_rate` to `max_rate`: 44.1 kHz where it is among them, else the
/// lowest.
pub open spec fn preferred_rate(min_rate: u32, max_rate: u32) -> u32 {
    if min_rate <= PREFERRED_SAMPLE_RATE && PREFERRED_SAMPLE_RATE <= max_rate {
        PREFERRED_SAMPLE_RATE
    } else {
        min_rate
    }
}

/// Chooses the sample rate for a device that supports the rates from
/// `min_rate` to `max_rate`.
pub fn choose_sample_rate(min_rate: u32, max_rate: u32) -> (rate: u32)
    ensures
        rate == preferred_rate(min_rate, max_rate),
{
    if min_rate <= PREFERRED_SAMPLE_RATE && max_rate >= PREFERRED_SAMPLE_RATE {
        PREFERRED_SAMPLE_RATE
    } else {
        min_rate
    }
}

/// Every selected channel exists on a device of `device_channels` channels.
pub open spec fn channels_supported(channels: Seq<usize>, device_channels: int) -> bool {
    forall|i: int| 0 <= i < channels.len() ==> #[trigger] channels[i] < device_channels
}

/// `at` is the place of the first selected channel that the device lacks.
pub open spec fn first_unsupported(channels: Seq<usize>, device_channels: int, at: int) -> bool {
    &&& 0 <= at < channels.len()
    &&& channels[at] >= device_channels
    &&& channels_supported(channels.take(at), device_channels)
}

/// Settles the configuration of a device from what it reports: its name,
/// the sample rates and the number of channels of its input configuration.
/// The selection is checked against the device's channels in its own order,
/// and the first channel that the device lacks is refused.
pub fn setup_audio_device(
    device_name: String,
    min_sample_rate: u32,
    max_sample_rate: u32,
    device_channels: u16,
    channels: &[usize],
) -> (result: Result<AudioConfig, ConfigError>)
    requires
        device_channels > 0,
    ensures
        result is Ok <==> channels_supported(channels@, device_channels as int),
        match result {
            Ok(config) => {
                &&& config.device_name@ == device_name@
                &&& config.sample_rate == preferred_rate(min_sample_rate, max_sample_rate)
                &&& config.channels == device_channels
                &&& config.selected_channels@ == channels@
            },
            Err(error) => exists|at: int|
                first_unsupported(channels@, device_channels as int, at) && error == (
                ConfigError::UnsupportedChannel {
                    channel: #[trigger] channels@[at],
                    highest: (device_channels - 1) as usize,
                }),
        },
{
    let sample_rate = choose_sample_rate(min_sample_rate, max_sample_rate);
    let max_supported_channels = device_channels as usize;
    let mut i: usize = 0;
    while i < channels.len()
        invariant
            i <= channels@.len(),
            max_supported_channels == device_channels,
            device_channels > 0,
            channels_supported(channels@.take(i as int), device_channels as int),
        decreases channels@.len() - i,
    {
        let ch = channels[i];
        if ch >= max_supported_channels {
            proof {
                assert(first_unsupported(channels@, device_channels as int, i as int));
            }
            let highest = max_supported_channels - 1;
            return Err(ConfigError::UnsupportedChannel { channel: ch, highest });
        }
        proof {
            assert forall|j: int| 0 <= j < i + 1 implies #[trigger] channels@.take(i + 1)[j]
                < device_channels by {
                if j < i {
                    assert(channels@.take(i as int)[j] < device_channels);
                }
            }
        }
        i = i + 1;
    }
    proof {
        assert(channels@.take(i as int) =~= channels@);
    }
    Ok(
        AudioConfig {
            device_name,
            sample_rate,
            channels: device_channels,
            selected_channels: slice_to_vec(channels),
        },
    )
}

/// The analysis that runs once for each buffer of a session. It is made
/// once, with the threshold as a linear amplitude, the monitored channels
/// and the number of channels in a frame.
pub struct AudioCallback {
    linear_threshold: u32,
    selected_channels: Vec<usize>,
    total_channels: usize,
}

impl AudioCallback {
    /// The amplitude above which a channel's flag is set.
    pub closed spec fn threshold(&self) -> u32 {
        self.linear_threshold
    }

    /// The monitored channels, in the order of the results.
    pub closed spec fn selected(&self) -> Seq<usize> {
        self.selected_channels@
    }

    /// The number of samples in one frame.
    pub closed spec fn stride(&self) -> int {
        self.total_channels as int
    }

    /// A frame holds at least one sample.
    #[verifier::type_invariant]
    closed spec fn well_formed(&self) -> bool {
        self.total_channels > 0
    }

    /// The number of monitored channels.
    pub fn channel_count(&self) -> (count: usize)
        ensures
            count == self.selected().len(),
    {
        self.selected_channels.len()
    }

    /// The peak amplitude of each monitored channel in a buffer.
    pub open spec fn peaks_of(&self, data: Seq<i32>) -> Seq<u32> {
        Seq::new(
            self.selected().len(),
            |c: int| channel_peak(data, self.selected()[c] as int, self.stride()) as u32,
        )
    }

    /// Extracts from one interleaved buffer the peak amplitude of each
    /// monitored channel. No other channel's samples bear on the result.
    pub fn peaks(&self, data: &[i32]) -> (peaks: Vec<u32>)
        ensures
            peaks@ == self.peaks_of(data@),
            forall|c: int|
                0 <= c < peaks@.len() ==> #[trigger] peaks@[c] == channel_peak(
                    data@,
                    self.selected()[c] as int,
                    self.stride(),
                ),
    {
        proof {
            use_type_invariant(self);
        }
        let peaks = extract_peaks(data, self.selected_channels.as_slice(), self.total_channels);
        proof {
            assert(peaks@ =~= self.peaks_of(data@));
        }
        peaks
    }

    /// Analyses one buffer and publishes the result: extracts the peak of
    /// each monitored channel, has `measure` give the level of each peak
    /// that is not silence, and publishes peaks and levels into the shared
    /// state against this session's threshold. `measure` is not asked for
    /// the level of silence, which is the floor. The state after the call
    /// is the state before it after this buffer, with the current levels
    /// as `measure` gave them.
    pub fn process<F: Fn(u32) -> i32>(&self, state: &mut SharedState, data: &[i32], measure: F)
        requires
            old(state).well_formed(),
            old(state).channels() == self.selected().len(),
            forall|peak: u32| peak > 0 ==> call_requires(measure, (peak,)),
        ensures
            final(state).well_formed(),
            forall|c: int|
                0 <= c < self.selected().len() && self.peaks_of(data@)[c] > 0 ==> call_ensures(
                    measure,
                    (self.peaks_of(data@)[c],),
                    #[trigger] final(state).current_db@[c],
                ),
            final(state)@ == old(state)@.after(
                self.peaks_of(data@),
                final(state).current_db@,
                self.threshold(),
            ),
    {
        let peaks = self.peaks(data);
        let mut measured: Vec<i32> = Vec::new();
        let mut c: usize = 0;
        while c < peaks.len()
            invariant
                c <= peaks@.len(),
                measured@.len() == c,
                forall|peak: u32| peak > 0 ==> call_requires(measure, (peak,)),
                forall|j: int|
                    0 <= j < c && peaks@[j] > 0 ==> call_ensures(
                        measure,
                        (peaks@[j],),
                        #[trigger] measured@[j],
                    ),
            decreases peaks@.len() - c,
        {
            let peak = peaks[c];
            let level = if peak > 0 {
                measure(peak)
            } else {
                MIN_DB_LEVEL
            };
            measured.push(level);
            c = c + 1;
        }
        state.publish(peaks.as_slice(), measured.as_slice(), self.linear_threshold);
        proof {
            let told = old(state)@.after(peaks@, measured@, self.linear_threshold);
            let read = old(state)@.after(peaks@, state.current_db@, self.linear_threshold);
            assert(told.current_db =~= read.current_db);
            assert(told.smoothed_db =~= read.smoothed_db);
            assert(told.display_db =~= read.display_db);
            assert(told.threshold_reached =~= read.threshold_reached);
        }
    }
}

/// Makes the analysis of a session.
pub fn create_audio_callback(
    linear_threshold: u32,
    selected_channels: &[usize],
    total_channels: usize,
) -> (callback: AudioCallback)
    requires
        total_channels > 0,
    ensures
        callback.threshold() == linear_threshold,
        callback.selected() == selected_channels@,
        callback.stride() == total_channels,
{
    AudioCallback {
        linear_threshold,
        selected_channels: slice_to_vec(selected_channels),
        total_channels,
    }
}

} // verus!

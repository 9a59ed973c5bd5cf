//! The bookkeeping of the spectral analysis: one sliding window per channel,
//! the decision when a spectrum is due, and the shape of what is emitted.
//!
//! The transform itself works on floating-point numbers and is done by the
//! caller; this module hands out the windows to transform, picks for every
//! frequency of the band the bin of the transform that stands for it, and
//! turns the magnitudes that come back into tagged spectral frames.

use crate::data_types::{
    samples_view, spectra_view, EegSample, FreqData, FreqView, SampleView, StreamInfo,
};
use crate::float_bits::{
    f64_bits_from_u32, f64_bits_of_nat, f64_rounded, lemma_floor_log2_between, round_f64_to_u64,
    F64_FRACTION_SPAN, F64_INFINITY,
};
use crate::float_ratio::{divide_f64, f64_quotient, f64_significand, quotient_log2, ratio_log2};
use std::collections::VecDeque;
use vstd::arithmetic::power2::{lemma2_to64, lemma2_to64_rest, pow2};
use vstd::prelude::*;

verus! {

/// The number of samples in a sliding window, and the size of the transform.
pub const FFT_WINDOW_SIZE: usize = 256;

/// The number of frequency bins in an emitted spectrum.
pub const OUTPUT_FREQ_BINS: usize = 50;

/// The lowest frequency of the band, in Hz.
pub const TARGET_FREQ_MIN: u32 = 1;

/// The highest frequency of the band, in Hz.
pub const TARGET_FREQ_MAX: u32 = 50;

/// The labels of the band: the whole frequencies from 1 Hz to 50 Hz as
/// binary64 bits.
pub open spec fn band_labels() -> Seq<u64> {
    Seq::new(OUTPUT_FREQ_BINS as nat, |i: int| f64_bits_of_nat((i + 1) as nat) as u64)
}

/// A spectrum without any magnitude: fifty times `+0.0`.
pub open spec fn silent_spectrum() -> Seq<u64> {
    Seq::new(OUTPUT_FREQ_BINS as nat, |i: int| 0u64)
}

/// The placeholder spectrum of one channel.
pub open spec fn empty_freq_view(channel: u32) -> FreqView {
    FreqView {
        channel_index: channel,
        spectrum: silent_spectrum(),
        frequency_bins: band_labels(),
        batch_id: None,
    }
}

/// The placeholder spectra of `channels_count` channels, in channel order.
pub open spec fn empty_spectra(channels_count: u32) -> Seq<FreqView> {
    Seq::new(channels_count as nat, |i: int| empty_freq_view(i as u32))
}

/// The width of a bin of the transform in Hz, as binary64 bits: the sample
/// rate divided by the window size.
pub open spec fn bin_width(sample_rate: u64) -> int
    recommends
        0 < sample_rate < F64_INFINITY,
{
    f64_quotient(sample_rate, f64_bits_of_nat(FFT_WINDOW_SIZE as nat) as u64)
}

/// The bin of the transform that stands for a whole frequency: the
/// frequency divided by the width of a bin, rounded to the nearest whole
/// number.  No interpolation takes place.
///
/// Both quotients are binary64 quotients, and the result is what a
/// conversion of the rounded quotient to `usize` gives.  So a rate of zero,
/// or one so small that the width of a bin vanishes, puts every frequency
/// but zero beyond all bins; and a rate that is negative, infinite or no
/// number at all puts every frequency into bin 0.
pub open spec fn nearest_bin_of(target_hz: u32, sample_rate: u64) -> int {
    if target_hz == 0 || sample_rate >= F64_INFINITY {
        0
    } else if sample_rate == 0 || bin_width(sample_rate) == 0 {
        usize::MAX as int
    } else {
        let position = f64_quotient(
            f64_bits_of_nat(target_hz as nat) as u64,
            bin_width(sample_rate) as u64,
        );
        if f64_rounded(position as u64) > usize::MAX {
            usize::MAX as int
        } else {
            f64_rounded(position as u64)
        }
    }
}

/// The bins that stand for the frequencies of the band, from 1 Hz to 50 Hz.
pub open spec fn band_bins_of(sample_rate: u64) -> Seq<usize> {
    Seq::new(
        OUTPUT_FREQ_BINS as nat,
        |i: int| nearest_bin_of((i + 1) as u32, sample_rate) as usize,
    )
}

/// Whether a bin lies within the half of a transform that stands for the
/// frequencies up to half the sample rate: it does not exceed half the
/// transform's length, and the transform has such a bin.
pub open spec fn within_half(bin: usize, len: nat) -> bool {
    bin <= len / 2 && bin < len
}

/// The magnitudes of the band, picked from the magnitudes of all transform
/// bins: frequency `i + 1` Hz takes the magnitude of the bin assigned to it,
/// or `+0.0` where no bin is assigned to it or that bin exceeds half the
/// transform's length.
pub open spec fn band_of(bin_magnitudes: Seq<u64>, bin_of_frequency: Seq<usize>) -> Seq<u64> {
    Seq::new(
        OUTPUT_FREQ_BINS as nat,
        |i: int|
            if i < bin_of_frequency.len() && within_half(
                bin_of_frequency[i],
                bin_magnitudes.len(),
            ) {
                bin_magnitudes[bin_of_frequency[i] as int]
            } else {
                0u64
            },
    )
}

/// The spectral frame of one channel: the band's magnitudes under the
/// band's labels, tagged with the batch that triggered the analysis.
pub open spec fn tagged_freq_view(
    channel: u32,
    bin_magnitudes: Seq<u64>,
    bin_of_frequency: Seq<usize>,
    batch_id: u64,
) -> FreqView {
    FreqView {
        channel_index: channel,
        spectrum: band_of(bin_magnitudes, bin_of_frequency),
        frequency_bins: band_labels(),
        batch_id: Some(batch_id),
    }
}

/// A window after one more value: the value is appended and, if the window
/// then exceeds its capacity, the oldest value is dropped.
pub open spec fn slide(window: Seq<u64>, value: u64) -> Seq<u64> {
    let grown = window.push(value);
    if grown.len() > FFT_WINDOW_SIZE {
        grown.skip(1)
    } else {
        grown
    }
}

/// The windows after one sample: channel `c` of the sample goes to window
/// `c`; values without a window are ignored and windows without a value are
/// left as they are.
pub open spec fn windows_after_sample(windows: Seq<Seq<u64>>, sample: SampleView) -> Seq<Seq<u64>> {
    Seq::new(
        windows.len(),
        |c: int|
            if c < sample.channels.len() {
                slide(windows[c], sample.channels[c])
            } else {
                windows[c]
            },
    )
}

/// The windows after a run of samples, taken in order.
pub open spec fn windows_after(windows: Seq<Seq<u64>>, samples: Seq<SampleView>) -> Seq<Seq<u64>>
    decreases samples.len(),
{
    if samples.len() == 0 {
        windows
    } else {
        windows_after_sample(windows_after(windows, samples.drop_last()), samples.last())
    }
}

/// The most recent values of a run: all of them, or the last
/// `FFT_WINDOW_SIZE` if there are more.
pub open spec fn recent(values: Seq<u64>) -> Seq<u64> {
    if values.len() > FFT_WINDOW_SIZE {
        values.skip(values.len() - FFT_WINDOW_SIZE)
    } else {
        values
    }
}

/// The values that a run of samples holds for channel `c`, in order.
pub open spec fn channel_inputs(samples: Seq<SampleView>, c: int) -> Seq<u64>
    decreases samples.len(),
{
    if samples.len() == 0 {
        Seq::<u64>::empty()
    } else if c < samples.last().channels.len() {
        channel_inputs(samples.drop_last(), c).push(samples.last().channels[c])
    } else {
        channel_inputs(samples.drop_last(), c)
    }
}

/// The windows of channels with the given histories.
pub open spec fn windows_of(histories: Seq<Seq<u64>>) -> Seq<Seq<u64>> {
    Seq::new(histories.len(), |c: int| recent(histories[c]))
}

/// Sliding a value into the most recent values of a run gives the most
/// recent values of the run with that value at its end.
pub proof fn lemma_slide_keeps_recent(values: Seq<u64>, value: u64)
    ensures
        slide(recent(values), value) == recent(values.push(value)),
{
    assert(slide(recent(values), value) =~= recent(values.push(value)));
}

/// A window holds the most recent values of its channel: whatever the
/// channels have seen before, after a run of samples every window holds the
/// most recent values of what its channel has seen then.
pub proof fn lemma_windows_hold_recent(histories: Seq<Seq<u64>>, samples: Seq<SampleView>, c: int)
    requires
        0 <= c < histories.len(),
    ensures
        windows_after(windows_of(histories), samples).len() == histories.len(),
        windows_after(windows_of(histories), samples)[c] == recent(
            histories[c] + channel_inputs(samples, c),
        ),
    decreases samples.len(),
{
    if samples.len() == 0 {
        assert(histories[c] + Seq::<u64>::empty() =~= histories[c]);
    } else {
        let front = samples.drop_last();
        lemma_windows_hold_recent(histories, front, c);
        let seen = histories[c] + channel_inputs(front, c);
        if c < samples.last().channels.len() {
            let value = samples.last().channels[c];
            lemma_slide_keeps_recent(seen, value);
            assert(seen.push(value) =~= histories[c] + channel_inputs(samples, c));
        }
    }
}

/// A transform without any magnitude gives a band without any magnitude,
/// whichever bins stand for the band's frequencies.
pub proof fn lemma_silent_transform_gives_silent_band(
    bin_magnitudes: Seq<u64>,
    bin_of_frequency: Seq<usize>,
)
    requires
        forall|k: int| 0 <= k < bin_magnitudes.len() ==> bin_magnitudes[k] == 0,
    ensures
        band_of(bin_magnitudes, bin_of_frequency) == silent_spectrum(),
{
    assert(band_of(bin_magnitudes, bin_of_frequency) =~= silent_spectrum());
}

/// A spectrum is due when there is a channel and the windows of all
/// channels are full.
pub open spec fn spectrum_due(windows: Seq<Seq<u64>>) -> bool {
    &&& windows.len() > 0
    &&& forall|c: int| 0 <= c < windows.len() ==> (#[trigger] windows[c]).len() >= FFT_WINDOW_SIZE
}

/// The channels whose windows are full, in channel order.
pub open spec fn full_channels(windows: Seq<Seq<u64>>) -> Seq<int> {
    Seq::new(windows.len(), |c: int| c).filter(|c: int| windows[c].len() >= FFT_WINDOW_SIZE)
}

/// Filtering a run by what holds of all its members leaves it as it is.
proof fn lemma_filter_keeps_all(run: Seq<int>, keep: spec_fn(int) -> bool)
    requires
        forall|i: int| 0 <= i < run.len() ==> keep(#[trigger] run[i]),
    ensures
        run.filter(keep) == run,
    decreases run.len(),
{
    reveal(Seq::filter);
    if run.len() > 0 {
        let front = run.drop_last();
        assert forall|i: int| 0 <= i < front.len() implies keep(#[trigger] front[i]) by {
            assert(front[i] == run[i]);
        }
        lemma_filter_keeps_all(front, keep);
        assert(front.push(run.last()) =~= run);
    }
}

/// When a spectrum is due, every channel's window is full: the transform
/// gets one window per channel, in channel order.
pub proof fn lemma_due_takes_every_channel(windows: Seq<Seq<u64>>)
    requires
        spectrum_due(windows),
    ensures
        full_channels(windows) == Seq::new(windows.len(), |c: int| c),
{
    let all = Seq::new(windows.len(), |c: int| c);
    let full = |c: int| windows[c].len() >= FFT_WINDOW_SIZE;
    assert forall|i: int| 0 <= i < all.len() implies full(#[trigger] all[i]) by {
        assert(windows[i].len() >= FFT_WINDOW_SIZE);
    }
    lemma_filter_keeps_all(all, full);
}

/// A run of values that belongs to one channel: a full window on its way
/// to the transform, or the magnitudes of the transform's bins on their way
/// back.
#[derive(Clone, Debug, PartialEq, Eq)]
pub struct ChannelSeries {
    pub channel_index: u32,
    /// Each value as binary64 bits.
    pub values: Vec<u64>,
}

/// The labels of the band as a vector.
pub fn frequency_labels() -> (labels: Vec<u64>)
    ensures
        labels@ == band_labels(),
{
    let mut labels: Vec<u64> = Vec::new();
    let mut f: u32 = TARGET_FREQ_MIN;
    while f <= TARGET_FREQ_MAX
        invariant
            1 <= f <= 51,
            labels.len() == f - 1,
            forall|i: int| 0 <= i < labels.len() ==> labels[i] == f64_bits_of_nat((i + 1) as nat),
        decreases 51 - f,
    {
        labels.push(f64_bits_from_u32(f));
        f += 1;
    }
    assert(labels@ =~= band_labels());
    labels
}

/// The placeholder spectrum of one channel: zero magnitude under the
/// band's labels, tied to no batch.
pub fn empty_freq_data(channel_index: u32) -> (out: FreqData)
    ensures
        out@ == empty_freq_view(channel_index),
{
    let mut spectrum: Vec<u64> = Vec::new();
    let mut i: usize = 0;
    while i < OUTPUT_FREQ_BINS
        invariant
            i <= OUTPUT_FREQ_BINS,
            spectrum.len() == i,
            forall|k: int| 0 <= k < i ==> spectrum[k] == 0,
        decreases OUTPUT_FREQ_BINS - i,
    {
        spectrum.push(0);
        i += 1;
    }
    assert(spectrum@ =~= silent_spectrum());
    FreqData { channel_index, spectrum, frequency_bins: frequency_labels(), batch_id: None }
}

/// The placeholder spectra of `channels_count` channels.
pub fn create_empty_freq_data(channels_count: u32) -> (out: Vec<FreqData>)
    ensures
        spectra_view(out@) == empty_spectra(channels_count),
{
    let mut out: Vec<FreqData> = Vec::new();
    let mut c: u32 = 0;
    while c < channels_count
        invariant
            c <= channels_count,
            out.len() == c,
            forall|k: int| 0 <= k < c ==> out[k]@ == empty_freq_view(k as u32),
        decreases channels_count - c,
    {
        out.push(empty_freq_data(c));
        c += 1;
    }
    assert(spectra_view(out@) =~= empty_spectra(channels_count));
    out
}

/// The band's magnitudes, picked from the magnitudes of all transform bins
/// by the bin assigned to each frequency.
pub fn band_spectrum(bin_magnitudes: &Vec<u64>, bin_of_frequency: &Vec<usize>) -> (out: Vec<u64>)
    ensures
        out@ == band_of(bin_magnitudes@, bin_of_frequency@),
{
    let half = bin_magnitudes.len() / 2;
    let mut out: Vec<u64> = Vec::new();
    let mut i: usize = 0;
    while i < OUTPUT_FREQ_BINS
        invariant
            i <= OUTPUT_FREQ_BINS,
            half == bin_magnitudes.len() / 2,
            out.len() == i,
            forall|k: int|
                0 <= k < i ==> out[k] == band_of(bin_magnitudes@, bin_of_frequency@)[k],
        decreases OUTPUT_FREQ_BINS - i,
    {
        if i < bin_of_frequency.len() && bin_of_frequency[i] <= half && bin_of_frequency[i]
            < bin_magnitudes.len() {
            out.push(bin_magnitudes[bin_of_frequency[i]]);
        } else {
            out.push(0);
        }
        i += 1;
    }
    assert(out@ =~= band_of(bin_magnitudes@, bin_of_frequency@));
    out
}

/// The bin of the transform that stands for a whole frequency.
pub fn nearest_bin(target_hz: u32, sample_rate: u64) -> (bin: usize)
    ensures
        bin == nearest_bin_of(target_hz, sample_rate),
{
    if target_hz == 0 || sample_rate >= F64_INFINITY {
        return 0;
    }
    if sample_rate == 0 {
        return usize::MAX;
    }
    let size = f64_bits_from_u32(FFT_WINDOW_SIZE as u32);
    proof {
        lemma2_to64();
        lemma2_to64_rest();
        lemma_floor_log2_between(256, 8);
        assert(size == 0x4070_0000_0000_0000);
        assert(size / F64_FRACTION_SPAN == 1031);
        assert(size % F64_FRACTION_SPAN == 0);
        let m = f64_significand(sample_rate);
        assert(m < 2 * pow2(52));
        if m >= pow2(52) {
            assert(m / pow2(52) == 1);
        }
        assert(ratio_log2(m, pow2(52)) <= 0);
        assert(quotient_log2(sample_rate, size) <= 1022);
    }
    let width = divide_f64(sample_rate, size);
    if width == 0 {
        return usize::MAX;
    }
    let position = divide_f64(f64_bits_from_u32(target_hz), width);
    let rounded = round_f64_to_u64(position);
    if rounded > usize::MAX as u64 {
        usize::MAX
    } else {
        rounded as usize
    }
}

/// The bins that stand for the frequencies of the band.
pub fn band_bins(sample_rate: u64) -> (bins: Vec<usize>)
    ensures
        bins@ == band_bins_of(sample_rate),
{
    let mut bins: Vec<usize> = Vec::new();
    let mut f: u32 = TARGET_FREQ_MIN;
    while f <= TARGET_FREQ_MAX
        invariant
            1 <= f <= 51,
            bins.len() == f - 1,
            forall|i: int|
                0 <= i < bins.len() ==> bins[i] == nearest_bin_of((i + 1) as u32, sample_rate),
        decreases 51 - f,
    {
        bins.push(nearest_bin(f, sample_rate));
        f += 1;
    }
    assert(bins@ =~= band_bins_of(sample_rate));
    bins
}

/// The spectral frames of one analysis: for each transformed channel the
/// magnitudes of the bins that stand for the band's frequencies at the
/// given sample rate, all tagged with the batch that triggered the
/// analysis.
pub fn spectral_group(batch_id: u64, transformed: &Vec<ChannelSeries>, sample_rate: u64) -> (out:
    Vec<FreqData>)
    ensures
        out.len() == transformed.len(),
        forall|i: int|
            0 <= i < out.len() ==> (#[trigger] out[i])@ == tagged_freq_view(
                transformed[i].channel_index,
                transformed[i].values@,
                band_bins_of(sample_rate),
                batch_id,
            ),
{
    let bins = band_bins(sample_rate);
    let bin_of_frequency = &bins;
    let mut out: Vec<FreqData> = Vec::new();
    let mut i: usize = 0;
    while i < transformed.len()
        invariant
            i <= transformed.len(),
            out.len() == i,
            bin_of_frequency@ == band_bins_of(sample_rate),
            forall|k: int|
                0 <= k < i ==> (#[trigger] out[k])@ == tagged_freq_view(
                    transformed[k].channel_index,
                    transformed[k].values@,
                    band_bins_of(sample_rate),
                    batch_id,
                ),
        decreases transformed.len() - i,
    {
        out.push(
            FreqData {
                channel_index: transformed[i].channel_index,
                spectrum: band_spectrum(&transformed[i].values, bin_of_frequency),
                frequency_bins: frequency_labels(),
                batch_id: Some(batch_id),
            },
        );
        i += 1;
    }
    out
}

/// The sliding windows of a stream's channels.
pub struct FftProcessor {
    stream_info: StreamInfo,
    channel_windows: Vec<VecDeque<u64>>,
}

impl FftProcessor {
    /// The windows' contents, in channel order, each oldest value first.
    pub closed spec fn windows(&self) -> Seq<Seq<u64>> {
        Seq::new(self.channel_windows.len() as nat, |c: int| self.channel_windows[c]@)
    }

    /// The stream that the windows belong to.
    pub closed spec fn stream(&self) -> StreamInfo {
        self.stream_info
    }

    /// There is one window for each channel of the stream, and no window
    /// holds more than its capacity.
    pub open spec fn wf(&self) -> bool {
        &&& self.windows().len() == self.stream().channels_count
        &&& forall|c: int|
            0 <= c < self.windows().len() ==> (#[trigger] self.windows()[c]).len()
                <= FFT_WINDOW_SIZE
    }

    /// One empty window for each channel of the stream.
    pub fn new(stream_info: StreamInfo) -> (out: FftProcessor)
        ensures
            out.wf(),
            out.stream() == stream_info,
            out.windows() == Seq::new(
                stream_info.channels_count as nat,
                |c: int| Seq::<u64>::empty(),
            ),
    {
        let mut channel_windows: Vec<VecDeque<u64>> = Vec::new();
        let mut c: u32 = 0;
        while c < stream_info.channels_count
            invariant
                c <= stream_info.channels_count,
                channel_windows.len() == c,
                forall|k: int| 0 <= k < c ==> channel_windows[k]@ == Seq::<u64>::empty(),
            decreases stream_info.channels_count - c,
        {
            channel_windows.push(VecDeque::new());
            c += 1;
        }
        let out = FftProcessor { stream_info, channel_windows };
        assert(out.windows() =~= Seq::new(
            stream_info.channels_count as nat,
            |c: int| Seq::<u64>::empty(),
        ));
        out
    }

    /// The number of windows.
    pub fn channel_count(&self) -> (n: usize)
        ensures
            n == self.windows().len(),
    {
        self.channel_windows.len()
    }

    /// The number of values in window `c`.
    pub fn window_len(&self, c: usize) -> (n: usize)
        requires
            c < self.windows().len(),
        ensures
            n == self.windows()[c as int].len(),
    {
        self.channel_windows[c].len()
    }

    /// Slides one sample into the windows.
    pub fn push_sample(&mut self, sample: &EegSample)
        requires
            old(self).wf(),
        ensures
            final(self).wf(),
            final(self).stream() == old(self).stream(),
            final(self).windows() == windows_after_sample(old(self).windows(), sample@),
    {
        let ghost before = self.windows();
        let n = self.channel_windows.len();
        let mut c: usize = 0;
        while c < n && c < sample.channels.len()
            invariant
                n == self.channel_windows.len(),
                n == before.len(),
                c <= n,
                c <= sample.channels.len(),
                self.stream_info == old(self).stream_info,
                forall|k: int|
                    0 <= k < before.len() ==> (#[trigger] before[k]).len() <= FFT_WINDOW_SIZE,
                forall|k: int|
                    0 <= k < c ==> (#[trigger] self.channel_windows[k])@ == slide(
                        before[k],
                        sample.channels[k],
                    ),
                forall|k: int| c <= k < n ==> (#[trigger] self.channel_windows[k])@ == before[k],
            decreases n - c,
        {
            let value = sample.channels[c];
            self.channel_windows[c].push_back(value);
            if self.channel_windows[c].len() > FFT_WINDOW_SIZE {
                let _ = self.channel_windows[c].pop_front();
            }
            assert(self.channel_windows[c as int]@ =~= slide(before[c as int], value));
            c += 1;
        }
        assert(self.windows() =~= windows_after_sample(before, sample@));
    }

    /// Slides a run of samples into the windows and says whether a spectrum
    /// is due.
    pub fn push_batch(&mut self, samples: &Vec<EegSample>) -> (due: bool)
        requires
            old(self).wf(),
        ensures
            final(self).wf(),
            final(self).stream() == old(self).stream(),
            final(self).windows() == windows_after(old(self).windows(), samples_view(samples@)),
            due == spectrum_due(final(self).windows()),
    {
        let ghost before = self.windows();
        let ghost all = samples_view(samples@);
        let mut i: usize = 0;
        while i < samples.len()
            invariant
                i <= samples.len(),
                self.wf(),
                self.stream_info == old(self).stream_info,
                all == samples_view(samples@),
                self.windows() == windows_after(before, all.take(i as int)),
            decreases samples.len() - i,
        {
            self.push_sample(&samples[i]);
            proof {
                let upto = all.take(i + 1);
                assert(upto.drop_last() =~= all.take(i as int));
                assert(upto.last() == samples[i as int]@);
            }
            i += 1;
        }
        assert(all.take(samples.len() as int) =~= all);
        self.is_due()
    }

    /// Whether a spectrum is due.
    pub fn is_due(&self) -> (due: bool)
        ensures
            due == spectrum_due(self.windows()),
    {
        let n = self.channel_windows.len();
        let mut c: usize = 0;
        while c < n
            invariant
                n == self.channel_windows.len(),
                c <= n,
                forall|k: int|
                    0 <= k < c ==> (#[trigger] self.windows()[k]).len() >= FFT_WINDOW_SIZE,
            decreases n - c,
        {
            if self.channel_windows[c].len() < FFT_WINDOW_SIZE {
                assert(self.windows()[c as int].len() < FFT_WINDOW_SIZE);
                return false;
            }
            assert(self.windows()[c as int].len() >= FFT_WINDOW_SIZE);
            c += 1;
        }
        n > 0
    }

    /// Copies of the full windows, in channel order: the input of the
    /// transform.  When a spectrum is due, these are the windows of all
    /// channels.
    pub fn full_windows(&self) -> (out: Vec<ChannelSeries>)
        requires
            self.wf(),
        ensures
            spectrum_due(self.windows()) ==> {
                &&& out.len() == self.windows().len()
                &&& forall|c: int|
                    0 <= c < out.len() ==> {
                        &&& (#[trigger] out[c]).channel_index == c
                        &&& out[c].values@ == self.windows()[c]
                    }
            },
            out.len() == full_channels(self.windows()).len(),
            forall|i: int|
                0 <= i < out.len() ==> {
                    &&& (#[trigger] out[i]).channel_index == full_channels(self.windows())[i]
                    &&& out[i].values@ == self.windows()[full_channels(self.windows())[i]]
                },
    {
        let ghost windows = self.windows();
        let ghost all = Seq::new(windows.len(), |c: int| c);
        let ghost full = |c: int| windows[c].len() >= FFT_WINDOW_SIZE;
        let mut out: Vec<ChannelSeries> = Vec::new();
        let n = self.channel_windows.len();
        let mut c: usize = 0;
        proof {
            assert(all.take(0) =~= Seq::<int>::empty());
        }
        while c < n
            invariant
                n == self.channel_windows.len(),
                n <= u32::MAX,
                c <= n,
                windows == self.windows(),
                all == Seq::new(windows.len(), |c: int| c),
                full == |c: int| windows[c].len() >= FFT_WINDOW_SIZE,
                out.len() == all.take(c as int).filter(full).len(),
                forall|i: int|
                    0 <= i < out.len() ==> {
                        &&& (#[trigger] out[i]).channel_index == all.take(c as int).filter(full)[i]
                        &&& out[i].values@ == windows[all.take(c as int).filter(full)[i]]
                    },
            decreases n - c,
        {
            proof {
                let upto = all.take(c + 1);
                assert(upto.drop_last() =~= all.take(c as int));
                assert(upto.last() == c);
                reveal(Seq::filter);
            }
            if self.channel_windows[c].len() >= FFT_WINDOW_SIZE {
                let mut values: Vec<u64> = Vec::new();
                let window = &self.channel_windows[c];
                let mut j: usize = 0;
                while j < window.len()
                    invariant
                        j <= window.len(),
                        values@ == window@.take(j as int),
                    decreases window.len() - j,
                {
                    values.push(window[j]);
                    j += 1;
                    assert(values@ =~= window@.take(j as int));
                }
                assert(window@.take(window.len() as int) =~= window@);
                out.push(ChannelSeries { channel_index: c as u32, values });
            }
            c += 1;
        }
        assert(all.take(n as int) =~= all);
        proof {
            if spectrum_due(windows) {
                lemma_due_takes_every_channel(windows);
            }
        }
        out
    }
}

} // verus!

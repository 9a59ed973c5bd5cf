//! Plain data carried through the pipeline.
//!
//! Floating-point quantities (timestamps, sample values, rates, magnitudes)
//! are held as their IEEE-754 bit patterns: a `u64` stands for a binary64
//! value and a `u32` for a binary32 value.  The pipeline mostly moves,
//! groups and frames these values, for which the bit pattern is all it
//! needs, and every contract is exact to the bit.

use vstd::prelude::*;

verus! {

/// A stream as the discovery protocol describes it.
#[derive(Clone, Debug, PartialEq, Eq)]
pub struct LslStreamInfo {
    pub name: String,
    pub stream_type: String,
    pub channels_count: u32,
    /// Nominal rate in Hz, as binary64 bits.
    pub sample_rate: u64,
    pub source_id: String,
    pub hostname: String,
}

/// Static metadata of the stream a pipeline is attached to.
#[derive(Clone, Debug, PartialEq, Eq)]
pub struct StreamInfo {
    pub name: String,
    pub stream_type: String,
    pub channels_count: u32,
    /// Nominal rate in Hz, as binary64 bits.
    pub sample_rate: u64,
    pub is_connected: bool,
    pub source_id: String,
}

/// One timestamped multi-channel sample.
#[derive(Clone, Debug, PartialEq, Eq)]
pub struct EegSample {
    /// Seconds, as binary64 bits.
    pub timestamp: u64,
    /// One value per channel, each as binary64 bits.
    pub channels: Vec<u64>,
    pub sample_id: u64,
}

/// The samples gathered during one display tick.
#[derive(Clone, Debug, PartialEq, Eq)]
pub struct EegBatch {
    pub samples: Vec<EegSample>,
    pub batch_id: u64,
    pub channels_count: u32,
    /// Nominal rate in Hz, as binary64 bits.
    pub sample_rate: u64,
}

/// The magnitude spectrum of one channel.
#[derive(Clone, Debug, PartialEq, Eq)]
pub struct FreqData {
    pub channel_index: u32,
    /// One magnitude per frequency bin, each as binary64 bits.
    pub spectrum: Vec<u64>,
    /// The frequency in Hz of each bin, each as binary64 bits.
    pub frequency_bins: Vec<u64>,
    pub batch_id: Option<u64>,
}

/// One display frame: a batch with the spectra that belong to it.
#[derive(Clone, Debug, PartialEq, Eq)]
pub struct FramePayload {
    pub time_domain: EegBatch,
    pub frequency_domain: Vec<FreqData>,
}

/// What the controller reports about its connection.
#[derive(Clone, Debug, PartialEq, Eq)]
pub struct ConnectionStatus {
    pub is_lsl_connected: bool,
    pub is_processor_running: bool,
    pub current_stream: Option<StreamInfo>,
}

/// A coarse health report.
#[derive(Clone, Debug, PartialEq, Eq)]
pub struct SystemHealth {
    pub lsl_manager_status: String,
    pub processor_status: String,
    pub memory_usage_mb: u64,
    pub uptime_seconds: u64,
}

/// A batch regrouped by channel for the compact wire layout.
#[derive(Clone, Debug, PartialEq, Eq)]
pub struct OptimizedEegBatch {
    pub batch_id: u64,
    /// Seconds, as binary64 bits.
    pub timestamp: u64,
    pub channels_count: u32,
    pub samples_per_channel: u32,
    /// Nominal rate in Hz, as binary64 bits.
    pub sample_rate: u64,
    pub channel_data: Vec<ChannelSamples>,
}

/// The consecutive samples of one channel.
#[derive(Clone, Debug, PartialEq, Eq)]
pub struct ChannelSamples {
    pub channel_index: u32,
    /// Each value as binary32 bits.
    pub samples: Vec<u32>,
}

/// Mathematical content of an [`EegSample`].
pub struct SampleView {
    pub timestamp: u64,
    pub channels: Seq<u64>,
    pub sample_id: u64,
}

/// Mathematical content of an [`EegBatch`].
pub struct BatchView {
    pub samples: Seq<SampleView>,
    pub batch_id: u64,
    pub channels_count: u32,
    pub sample_rate: u64,
}

/// Mathematical content of a [`FreqData`].
pub struct FreqView {
    pub channel_index: u32,
    pub spectrum: Seq<u64>,
    pub frequency_bins: Seq<u64>,
    pub batch_id: Option<u64>,
}

/// Mathematical content of a [`FramePayload`].
pub struct FrameView {
    pub time_domain: BatchView,
    pub frequency_domain: Seq<FreqView>,
}

/// Mathematical content of a [`StreamInfo`].
pub struct StreamView {
    pub name: Seq<char>,
    pub stream_type: Seq<char>,
    pub channels_count: u32,
    pub sample_rate: u64,
    pub is_connected: bool,
    pub source_id: Seq<char>,
}

/// Mathematical content of an [`LslStreamInfo`].
pub struct LslStreamView {
    pub name: Seq<char>,
    pub stream_type: Seq<char>,
    pub channels_count: u32,
    pub sample_rate: u64,
    pub source_id: Seq<char>,
    pub hostname: Seq<char>,
}

/// Mathematical content of a [`ChannelSamples`].
pub struct ChannelView {
    pub channel_index: u32,
    pub samples: Seq<u32>,
}

/// Mathematical content of an [`OptimizedEegBatch`].
pub struct OptimizedView {
    pub batch_id: u64,
    pub timestamp: u64,
    pub channels_count: u32,
    pub samples_per_channel: u32,
    pub sample_rate: u64,
    pub channel_data: Seq<ChannelView>,
}

impl View for EegSample {
    type V = SampleView;

    open spec fn view(&self) -> SampleView {
        SampleView {
            timestamp: self.timestamp,
            channels: self.channels@,
            sample_id: self.sample_id,
        }
    }
}

/// The contents of a run of samples, in order.
pub open spec fn samples_view(samples: Seq<EegSample>) -> Seq<SampleView> {
    Seq::new(samples.len(), |i: int| samples[i]@)
}

impl View for EegBatch {
    type V = BatchView;

    open spec fn view(&self) -> BatchView {
        BatchView {
            samples: samples_view(self.samples@),
            batch_id: self.batch_id,
            channels_count: self.channels_count,
            sample_rate: self.sample_rate,
        }
    }
}

impl View for FreqData {
    type V = FreqView;

    open spec fn view(&self) -> FreqView {
        FreqView {
            channel_index: self.channel_index,
            spectrum: self.spectrum@,
            frequency_bins: self.frequency_bins@,
            batch_id: self.batch_id,
        }
    }
}

/// The contents of a group of spectra, in order.
pub open spec fn spectra_view(spectra: Seq<FreqData>) -> Seq<FreqView> {
    Seq::new(spectra.len(), |i: int| spectra[i]@)
}

impl View for FramePayload {
    type V = FrameView;

    open spec fn view(&self) -> FrameView {
        FrameView {
            time_domain: self.time_domain@,
            frequency_domain: spectra_view(self.frequency_domain@),
        }
    }
}

impl View for StreamInfo {
    type V = StreamView;

    open spec fn view(&self) -> StreamView {
        StreamView {
            name: self.name@,
            stream_type: self.stream_type@,
            channels_count: self.channels_count,
            sample_rate: self.sample_rate,
            is_connected: self.is_connected,
            source_id: self.source_id@,
        }
    }
}

impl View for LslStreamInfo {
    type V = LslStreamView;

    open spec fn view(&self) -> LslStreamView {
        LslStreamView {
            name: self.name@,
            stream_type: self.stream_type@,
            channels_count: self.channels_count,
            sample_rate: self.sample_rate,
            source_id: self.source_id@,
            hostname: self.hostname@,
        }
    }
}

impl View for ChannelSamples {
    type V = ChannelView;

    open spec fn view(&self) -> ChannelView {
        ChannelView { channel_index: self.channel_index, samples: self.samples@ }
    }
}

/// The contents of a run of channel blocks, in order.
pub open spec fn channels_view(blocks: Seq<ChannelSamples>) -> Seq<ChannelView> {
    Seq::new(blocks.len(), |i: int| blocks[i]@)
}

impl View for OptimizedEegBatch {
    type V = OptimizedView;

    open spec fn view(&self) -> OptimizedView {
        OptimizedView {
            batch_id: self.batch_id,
            timestamp: self.timestamp,
            channels_count: self.channels_count,
            samples_per_channel: self.samples_per_channel,
            sample_rate: self.sample_rate,
            channel_data: channels_view(self.channel_data@),
        }
    }
}

/// A fresh vector with the same values.
pub fn copy_values(values: &Vec<u64>) -> (out: Vec<u64>)
    ensures
        out@ == values@,
{
    let mut out: Vec<u64> = Vec::new();
    let mut i: usize = 0;
    while i < values.len()
        invariant
            i <= values.len(),
            out@ == values@.subrange(0, i as int),
        decreases values.len() - i,
    {
        out.push(values[i]);
        i += 1;
        assert(out@ == values@.subrange(0, i as int));
    }
    assert(values@.subrange(0, values.len() as int) == values@);
    out
}

impl StreamInfo {
    /// A fresh record with the same contents.
    pub fn duplicate(&self) -> (out: StreamInfo)
        ensures
            out@ == self@,
    {
        StreamInfo {
            name: self.name.clone(),
            stream_type: self.stream_type.clone(),
            channels_count: self.channels_count,
            sample_rate: self.sample_rate,
            is_connected: self.is_connected,
            source_id: self.source_id.clone(),
        }
    }
}

impl EegSample {
    /// A fresh sample with the same contents.
    pub fn duplicate(&self) -> (out: EegSample)
        ensures
            out@ == self@,
    {
        EegSample {
            timestamp: self.timestamp,
            channels: copy_values(&self.channels),
            sample_id: self.sample_id,
        }
    }
}

/// A fresh run of samples with the same contents, in the same order.
pub fn copy_samples(samples: &Vec<EegSample>) -> (out: Vec<EegSample>)
    ensures
        samples_view(out@) == samples_view(samples@),
{
    let mut out: Vec<EegSample> = Vec::new();
    let mut i: usize = 0;
    while i < samples.len()
        invariant
            i <= samples.len(),
            out.len() == i,
            forall|k: int| 0 <= k < i ==> out[k]@ == samples[k]@,
        decreases samples.len() - i,
    {
        out.push(samples[i].duplicate());
        i += 1;
    }
    assert(samples_view(out@) =~= samples_view(samples@));
    out
}

} // verus!

//! The decisions of the stream source's worker: what becomes of a pulled
//! sample, of a discovery and of a connection attempt.
//!
//! The network protocol itself is the caller's business.  The caller pulls,
//! resolves and connects, and asks this module what follows from the
//! outcome.

use crate::data_types::{
    EegSample, LslStreamInfo, LslStreamView, SampleView, StreamInfo, StreamView,
};
use crate::error::{joined, AppError, ErrorView};
use crate::float_bits::{f64_is_positive, is_positive_f64};
use vstd::prelude::*;
use vstd::string::*;

verus! {

/// How long the worker rests after a pull without data, in milliseconds.
pub const EMPTY_PULL_DELAY_MS: u64 = 1;

/// How long the worker rests after a failed pull, in milliseconds.
pub const FAILED_PULL_DELAY_MS: u64 = 100;

/// How long the worker rests while no stream is connected, in milliseconds.
pub const UNCONNECTED_DELAY_MS: u64 = 10;

/// What a pull from the stream gave.
#[derive(Clone, Debug, PartialEq, Eq)]
pub enum PullOutcome {
    /// No stream is connected.
    Unconnected,
    /// The pull returned a timestamp and filled the buffer; the stream's
    /// channel count is given where it could be asked for.
    Pulled { timestamp: u64, values: Vec<u64>, channel_count: Option<usize> },
    /// The pull failed.
    Failed,
}

/// What the worker does next.
#[derive(Clone, Debug, PartialEq, Eq)]
pub enum WorkerAction {
    /// Hand the sample to the pipeline.
    Send(EegSample),
    /// Rest for so many milliseconds.
    Sleep(u64),
}

/// What the worker has counted.
#[derive(Clone, Copy, Debug, PartialEq, Eq)]
pub struct WorkerStats {
    pub samples_processed: u64,
    pub streams_discovered: u32,
}

/// What the manager reports when it stops.
#[derive(Clone, Debug, PartialEq, Eq)]
pub struct LslManagerStats {
    pub streams_discovered: u32,
    pub samples_received: u64,
    /// Seconds, as binary64 bits.
    pub connection_duration_seconds: u64,
    pub final_stream: Option<StreamInfo>,
}

/// How an attempt to connect ended.
#[derive(Clone, Debug, PartialEq, Eq)]
pub enum ConnectAttempt {
    /// The stream was found and an inlet was opened on it.
    Connected(LslStreamInfo),
    /// The stream was found but no inlet could be opened.
    InletFailed(String),
    /// No stream of that name answered.
    NotFound,
    /// The resolver itself failed or gave up, for the reason given.
    ResolveFailed(String),
}

/// The first `len` values, or all of them if there are fewer.
pub open spec fn truncated(values: Seq<u64>, len: nat) -> Seq<u64> {
    if len < values.len() {
        values.take(len as int)
    } else {
        values
    }
}

/// The stream that a description stands for, once connected.
pub open spec fn connected_stream(description: LslStreamView) -> StreamView {
    StreamView {
        name: description.name,
        stream_type: description.stream_type,
        channels_count: description.channels_count,
        sample_rate: description.sample_rate,
        is_connected: true,
        source_id: description.source_id,
    }
}

/// The predicate that selects the streams to discover.
pub fn discovery_predicate() -> (out: String)
    ensures
        out@ == "type='EEG'"@,
{
    String::from_str("type='EEG'")
}

/// The predicate that selects the stream called `name`.
pub fn stream_predicate(name: &str) -> (out: String)
    ensures
        out@ == "name='"@ + name@ + "'"@,
{
    let mut out = joined("name='", name);
    out.append("'");
    out
}

/// What a discovery reports: the streams that were resolved, none of which
/// is no failure, or an error of the stream source where the resolver
/// failed, with the resolver's reason.
pub fn discovery_outcome(resolved: Result<Vec<LslStreamInfo>, String>) -> (out: Result<
    Vec<LslStreamInfo>,
    AppError,
>)
    ensures
        match resolved {
            Ok(streams) => out is Ok && out->Ok_0 == streams,
            Err(detail) => out is Err && out->Err_0@ == ErrorView::Lsl(
                "Stream discovery failed: "@ + detail@,
            ),
        },
{
    match resolved {
        Ok(streams) => Ok(streams),
        Err(detail) => Err(AppError::Lsl(joined("Stream discovery failed: ", detail.as_str()))),
    }
}

/// What an attempt to connect to the stream called `name` leads to.
///
/// A stream that was found and opened is connected.  Anything else is an
/// error of the stream source that ends the attempt: a stream that was not
/// found, one that no inlet could be opened on, and a resolver that failed
/// or gave up.
pub fn connection_outcome(name: &str, attempt: ConnectAttempt) -> (out: Result<
    StreamInfo,
    AppError,
>)
    ensures
        match attempt {
            ConnectAttempt::Connected(description) => out is Ok && out->Ok_0@ == connected_stream(
                description@,
            ),
            ConnectAttempt::InletFailed(detail) => out is Err && out->Err_0@ == ErrorView::Lsl(
                "Failed to create inlet: "@ + detail@,
            ),
            ConnectAttempt::NotFound => out is Err && out->Err_0@ == ErrorView::Lsl(
                "Stream '"@ + name@ + "' not found"@,
            ),
            ConnectAttempt::ResolveFailed(detail) => out is Err && out->Err_0@ == ErrorView::Lsl(
                "Failed to resolve stream '"@ + name@ + "': "@ + detail@,
            ),
        },
{
    match attempt {
        ConnectAttempt::Connected(description) => Ok(
            StreamInfo {
                name: description.name,
                stream_type: description.stream_type,
                channels_count: description.channels_count,
                sample_rate: description.sample_rate,
                is_connected: true,
                source_id: description.source_id,
            },
        ),
        ConnectAttempt::InletFailed(detail) => Err(
            AppError::Lsl(joined("Failed to create inlet: ", detail.as_str())),
        ),
        ConnectAttempt::NotFound => {
            let mut text = joined("Stream '", name);
            text.append("' not found");
            Err(AppError::Lsl(text))
        },
        ConnectAttempt::ResolveFailed(detail) => {
            let mut text = joined("Failed to resolve stream '", name);
            text.append("': ");
            text.append(detail.as_str());
            Err(AppError::Lsl(text))
        },
    }
}

/// The counters of the stream source's worker.
pub struct StreamWorker {
    sample_count: u64,
    discovery_count: u32,
}

impl StreamWorker {
    /// The number of samples handed on so far, which is also the id of the
    /// next sample.
    pub closed spec fn samples(&self) -> u64 {
        self.sample_count
    }

    /// The number of discoveries so far.
    pub closed spec fn discoveries(&self) -> u32 {
        self.discovery_count
    }

    /// A worker that has counted nothing.
    pub fn new() -> (out: StreamWorker)
        ensures
            out.samples() == 0,
            out.discoveries() == 0,
    {
        StreamWorker { sample_count: 0, discovery_count: 0 }
    }

    /// Counts one discovery.
    pub fn record_discovery(&mut self)
        requires
            old(self).discoveries() < u32::MAX,
        ensures
            final(self).discoveries() == old(self).discoveries() + 1,
            final(self).samples() == old(self).samples(),
    {
        self.discovery_count = self.discovery_count + 1;
    }

    /// What the worker has counted.
    pub fn stats(&self) -> (out: WorkerStats)
        ensures
            out.samples_processed == self.samples(),
            out.streams_discovered == self.discoveries(),
    {
        WorkerStats {
            samples_processed: self.sample_count,
            streams_discovered: self.discovery_count,
        }
    }

    /// What follows from a pull.
    ///
    /// A pull with a timestamp greater than zero gives a sample: its values
    /// are cut down to the stream's channel count, and it takes the count of
    /// samples so far as its id.  Any other pull gives a rest, whose length
    /// depends on why there was no sample.
    pub fn on_pull(&mut self, outcome: PullOutcome) -> (action: WorkerAction)
        requires
            old(self).samples() < u64::MAX,
        ensures
            final(self).discoveries() == old(self).discoveries(),
            match outcome {
                PullOutcome::Unconnected => {
                    &&& action is Sleep
                    &&& action->Sleep_0 == UNCONNECTED_DELAY_MS
                    &&& final(self).samples() == old(self).samples()
                },
                PullOutcome::Failed => {
                    &&& action is Sleep
                    &&& action->Sleep_0 == FAILED_PULL_DELAY_MS
                    &&& final(self).samples() == old(self).samples()
                },
                PullOutcome::Pulled { timestamp, values, channel_count } => if f64_is_positive(
                    timestamp,
                ) {
                    &&& action is Send
                    &&& action->Send_0@ == (SampleView {
                        timestamp,
                        channels: match channel_count {
                            Some(count) => truncated(values@, count as nat),
                            None => values@,
                        },
                        sample_id: old(self).samples(),
                    })
                    &&& final(self).samples() == old(self).samples() + 1
                } else {
                    &&& action is Sleep
                    &&& action->Sleep_0 == EMPTY_PULL_DELAY_MS
                    &&& final(self).samples() == old(self).samples()
                },
            },
    {
        match outcome {
            PullOutcome::Unconnected => WorkerAction::Sleep(UNCONNECTED_DELAY_MS),
            PullOutcome::Failed => WorkerAction::Sleep(FAILED_PULL_DELAY_MS),
            PullOutcome::Pulled { timestamp, values, channel_count } => {
                if is_positive_f64(timestamp) {
                    let mut channels = values;
                    match channel_count {
                        Some(count) => {
                            channels.truncate(count);
                            assert(channels@ =~= truncated(values@, count as nat));
                        },
                        None => {},
                    }
                    let sample = EegSample { timestamp, channels, sample_id: self.sample_count };
                    self.sample_count = self.sample_count + 1;
                    WorkerAction::Send(sample)
                } else {
                    WorkerAction::Sleep(EMPTY_PULL_DELAY_MS)
                }
            },
        }
    }
}

impl LslManagerStats {
    /// The report of a manager that stops: the worker's counts and the time
    /// it has run, or zeros where the worker gave no answer.
    pub fn assemble(
        worker: Option<WorkerStats>,
        elapsed_seconds: u64,
        final_stream: Option<StreamInfo>,
    ) -> (out: LslManagerStats)
        ensures
            out.final_stream == final_stream,
            match worker {
                Some(counts) => {
                    &&& out.streams_discovered == counts.streams_discovered
                    &&& out.samples_received == counts.samples_processed
                    &&& out.connection_duration_seconds == elapsed_seconds
                },
                None => {
                    &&& out.streams_discovered == 0
                    &&& out.samples_received == 0
                    &&& out.connection_duration_seconds == 0
                },
            },
    {
        match worker {
            Some(counts) => LslManagerStats {
                streams_discovered: counts.streams_discovered,
                samples_received: counts.samples_processed,
                connection_duration_seconds: elapsed_seconds,
                final_stream,
            },
            None => LslManagerStats {
                streams_discovered: 0,
                samples_received: 0,
                connection_duration_seconds: 0,
                final_stream,
            },
        }
    }
}

} // verus!

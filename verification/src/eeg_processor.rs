//! The lifecycle of the processing pipeline: whether it may start, and what
//! it reports when it stops.

use crate::data_types::StreamInfo;
use crate::error::{AppError, ErrorView};
use crate::recorder::RecordingStats;
use vstd::prelude::*;
use vstd::string::*;

verus! {

/// The number of workers of a running pipeline: recording, time-domain
/// batching, spectral analysis and frame synchronisation.
pub const PIPELINE_WORKERS: u32 = 4;

/// What the pipeline reports when it stops.
#[derive(Clone, Debug, PartialEq, Eq)]
pub struct EegProcessorStats {
    pub stream_info: StreamInfo,
    pub recording_stats: Option<RecordingStats>,
    pub threads_spawned: u32,
}

impl EegProcessorStats {
    /// The report of a pipeline on `stream_info` whose recording, if any,
    /// ended with `recording_stats`.
    pub fn assemble(stream_info: StreamInfo, recording_stats: Option<RecordingStats>) -> (out:
        EegProcessorStats)
        ensures
            out.stream_info == stream_info,
            out.recording_stats == recording_stats,
            out.threads_spawned == PIPELINE_WORKERS,
    {
        EegProcessorStats { stream_info, recording_stats, threads_spawned: PIPELINE_WORKERS }
    }
}

/// The running flag of the pipeline and whether it has a sample source.
pub struct ControlState {
    is_running: bool,
    has_data_source: bool,
}

impl ControlState {
    /// Whether the pipeline runs.
    pub closed spec fn running(&self) -> bool {
        self.is_running
    }

    /// Whether a sample source was set.
    pub closed spec fn has_source(&self) -> bool {
        self.has_data_source
    }

    /// Why the pipeline cannot start, if so: it runs already, or it has no
    /// sample source.
    pub open spec fn start_error(&self) -> Option<ErrorView> {
        if self.running() {
            Some(ErrorView::Config("Processor already running"@))
        } else if !self.has_source() {
            Some(ErrorView::NotConnected)
        } else {
            None
        }
    }

    /// A pipeline that does not run and has no source.
    pub fn new() -> (out: ControlState)
        ensures
            !out.running(),
            !out.has_source(),
    {
        ControlState { is_running: false, has_data_source: false }
    }

    /// Whether the pipeline runs.
    pub fn is_running(&self) -> (out: bool)
        ensures
            out == self.running(),
    {
        self.is_running
    }

    /// Notes that a sample source was set.
    pub fn set_data_source(&mut self)
        ensures
            final(self).has_source(),
            final(self).running() == old(self).running(),
    {
        self.has_data_source = true;
    }

    /// Starts the pipeline, unless it runs already or has no source.  A
    /// request that is rejected changes nothing.
    pub fn start(&mut self) -> (out: Result<(), AppError>)
        ensures
            final(self).has_source() == old(self).has_source(),
            match out {
                Ok(_) => old(self).start_error() is None && final(self).running(),
                Err(error) => old(self).start_error() == Some(error@) && final(self).running()
                    == old(self).running(),
            },
    {
        if self.is_running {
            return Err(AppError::Config(String::from_str("Processor already running")));
        }
        if !self.has_data_source {
            return Err(AppError::NotConnected);
        }
        self.is_running = true;
        Ok(())
    }

    /// Requests the shutdown of the pipeline.
    pub fn stop(&mut self)
        ensures
            !final(self).running(),
            final(self).has_source() == old(self).has_source(),
    {
        self.is_running = false;
    }
}

} // verus!

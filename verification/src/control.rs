//! What the controller tells its host: the state of the stream manager, the
//! connection status, a health report and the summary of a disconnect.

use crate::data_types::{ConnectionStatus, StreamInfo, SystemHealth};
use crate::error::{joined, AppError, ErrorView};
use crate::text::{decimal_digits, decimal_text};
use vstd::prelude::*;
use vstd::string::*;

verus! {

/// The text of a component's status.
pub open spec fn status_text(present: bool) -> Seq<char> {
    if present {
        "Running"@
    } else {
        "Stopped"@
    }
}

/// The summary of a disconnect that stopped `components` components.
pub open spec fn disconnect_text(components: u32) -> Seq<char> {
    if components > 0 {
        "Successfully disconnected "@ + decimal_digits(components as nat) + " components"@
    } else {
        "No active connections to disconnect"@
    }
}

/// The text of a component's status.
fn status_of(present: bool) -> (out: String)
    ensures
        out@ == status_text(present),
{
    if present {
        String::from_str("Running")
    } else {
        String::from_str("Stopped")
    }
}

/// The health report: each component runs if it is present.  Memory and
/// uptime are not measured and reported as zero.
pub fn system_health(manager_present: bool, processor_present: bool) -> (out: SystemHealth)
    ensures
        out.lsl_manager_status@ == status_text(manager_present),
        out.processor_status@ == status_text(processor_present),
        out.memory_usage_mb == 0,
        out.uptime_seconds == 0,
{
    SystemHealth {
        lsl_manager_status: status_of(manager_present),
        processor_status: status_of(processor_present),
        memory_usage_mb: 0,
        uptime_seconds: 0,
    }
}

/// The connection status: which components are present, and the stream the
/// manager is connected to.
pub fn connection_status(
    manager_present: bool,
    processor_present: bool,
    current_stream: Option<StreamInfo>,
) -> (out: ConnectionStatus)
    ensures
        out.is_lsl_connected == manager_present,
        out.is_processor_running == processor_present,
        out.current_stream == if manager_present {
            current_stream
        } else {
            None
        },
{
    ConnectionStatus {
        is_lsl_connected: manager_present,
        is_processor_running: processor_present,
        current_stream: if manager_present {
            current_stream
        } else {
            None
        },
    }
}

/// The summary of a disconnect that stopped `components` components.
pub fn disconnect_summary(components: u32) -> (out: String)
    ensures
        out@ == disconnect_text(components),
{
    if components > 0 {
        let count = decimal_text(components);
        let mut out = joined("Successfully disconnected ", count.as_str());
        out.append(" components");
        out
    } else {
        String::from_str("No active connections to disconnect")
    }
}

/// Whether the stream manager runs, and the stream it is connected to.
pub struct ManagerState {
    is_running: bool,
    current_stream: Option<StreamInfo>,
}

impl ManagerState {
    /// Whether the manager runs.
    pub closed spec fn running(&self) -> bool {
        self.is_running
    }

    /// The stream the manager is connected to.
    pub closed spec fn stream(&self) -> Option<StreamInfo> {
        self.current_stream
    }

    /// A manager that does not run and is connected to nothing.
    pub fn new() -> (out: ManagerState)
        ensures
            !out.running(),
            out.stream() is None,
    {
        ManagerState { is_running: false, current_stream: None }
    }

    /// Whether the manager runs.
    pub fn is_running(&self) -> (out: bool)
        ensures
            out == self.running(),
    {
        self.is_running
    }

    /// Starts the manager, unless it runs already.
    pub fn start(&mut self) -> (out: Result<(), AppError>)
        ensures
            final(self).running(),
            final(self).stream() == old(self).stream(),
            match out {
                Ok(_) => !old(self).running(),
                Err(error) => old(self).running() && error@ == ErrorView::Config(
                    "Manager already running"@,
                ),
            },
    {
        if self.is_running {
            return Err(AppError::Config(String::from_str("Manager already running")));
        }
        self.is_running = true;
        Ok(())
    }

    /// Whether requests can be served: only a running manager serves any.
    pub fn require_running(&self) -> (out: Result<(), AppError>)
        ensures
            match out {
                Ok(_) => self.running(),
                Err(error) => !self.running() && error@ == ErrorView::NotConnected,
            },
    {
        if self.is_running {
            Ok(())
        } else {
            Err(AppError::NotConnected)
        }
    }

    /// Notes the stream that a connection was made to.
    pub fn record_connection(&mut self, stream: StreamInfo)
        ensures
            final(self).stream() == Some(stream),
            final(self).running() == old(self).running(),
    {
        self.current_stream = Some(stream);
    }

    /// The stream the manager is connected to.
    pub fn current_stream(&self) -> (out: Option<StreamInfo>)
        ensures
            match (out, self.stream()) {
                (Some(copy), Some(stream)) => copy@ == stream@,
                (None, None) => true,
                _ => false,
            },
    {
        match &self.current_stream {
            Some(stream) => Some(stream.duplicate()),
            None => None,
        }
    }

    /// Gives up the stream, as the last step of stopping.
    pub fn into_stream(self) -> (out: Option<StreamInfo>)
        ensures
            out == self.stream(),
    {
        self.current_stream
    }
}

} // verus!

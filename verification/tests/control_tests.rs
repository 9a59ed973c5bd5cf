use eeg_pipeline::control::{connection_status, disconnect_summary, system_health, ManagerState};
use eeg_pipeline::data_types::StreamInfo;
use eeg_pipeline::eeg_processor::{ControlState, EegProcessorStats, PIPELINE_WORKERS};
use eeg_pipeline::error::{joined, AppError};
use eeg_pipeline::recorder::RecordingStats;
use eeg_pipeline::text::{decimal_text, two_digit_text};

fn stream() -> StreamInfo {
    StreamInfo {
        name: "Cap".to_string(),
        stream_type: "EEG".to_string(),
        channels_count: 8,
        sample_rate: 250.0f64.to_bits(),
        is_connected: true,
        source_id: "amp".to_string(),
    }
}

#[test]
fn a_pipeline_needs_a_source_to_start() {
    let mut control = ControlState::new();
    assert!(!control.is_running());
    assert_eq!(control.start(), Err(AppError::NotConnected));
    assert!(!control.is_running());
    control.set_data_source();
    assert_eq!(control.start(), Ok(()));
    assert!(control.is_running());
}

#[test]
fn a_running_pipeline_cannot_be_started_again() {
    let mut control = ControlState::new();
    control.set_data_source();
    assert_eq!(control.start(), Ok(()));
    assert_eq!(control.start(), Err(AppError::Config("Processor already running".to_string())));
    assert!(control.is_running());
    control.stop();
    assert!(!control.is_running());
    assert_eq!(control.start(), Ok(()));
}

#[test]
fn the_stop_report_counts_four_workers() {
    let recording = RecordingStats {
        filename: "a.edf".to_string(),
        duration_seconds: 2.0f64.to_bits(),
        samples_written: 500,
        channels_count: 8,
        sample_rate: 250.0f64.to_bits(),
        start_time: 1_700_000_000,
        file_size_bytes: 0,
    };
    let report = EegProcessorStats::assemble(stream(), Some(recording.clone()));
    assert_eq!(PIPELINE_WORKERS, 4);
    assert_eq!(report.threads_spawned, 4);
    assert_eq!(report.stream_info, stream());
    assert_eq!(report.recording_stats, Some(recording));
    assert_eq!(EegProcessorStats::assemble(stream(), None).recording_stats, None);
}

#[test]
fn a_manager_starts_once() {
    let mut manager = ManagerState::new();
    assert!(!manager.is_running());
    assert_eq!(manager.require_running(), Err(AppError::NotConnected));
    assert_eq!(manager.start(), Ok(()));
    assert!(manager.is_running());
    assert_eq!(manager.require_running(), Ok(()));
    assert_eq!(manager.start(), Err(AppError::Config("Manager already running".to_string())));
    assert!(manager.is_running());
}

#[test]
fn a_manager_remembers_its_stream() {
    let mut manager = ManagerState::new();
    let _ = manager.start();
    assert_eq!(manager.current_stream(), None);
    manager.record_connection(stream());
    assert_eq!(manager.current_stream(), Some(stream()));
    assert_eq!(stream().duplicate(), stream());
    assert_eq!(manager.into_stream(), Some(stream()));
    assert_eq!(ManagerState::new().into_stream(), None);
}

#[test]
fn health_follows_the_presence_of_the_components() {
    let health = system_health(true, false);
    assert_eq!(health.lsl_manager_status, "Running");
    assert_eq!(health.processor_status, "Stopped");
    assert_eq!(health.memory_usage_mb, 0);
    assert_eq!(health.uptime_seconds, 0);
    let health = system_health(false, true);
    assert_eq!(health.lsl_manager_status, "Stopped");
    assert_eq!(health.processor_status, "Running");
}

#[test]
fn status_shows_the_stream_of_a_present_manager() {
    let status = connection_status(true, true, Some(stream()));
    assert!(status.is_lsl_connected);
    assert!(status.is_processor_running);
    assert_eq!(status.current_stream, Some(stream()));
    let status = connection_status(false, true, Some(stream()));
    assert!(!status.is_lsl_connected);
    assert_eq!(status.current_stream, None);
    assert_eq!(connection_status(true, false, None).current_stream, None);
}

#[test]
fn a_disconnect_is_summed_up() {
    assert_eq!(disconnect_summary(0), "No active connections to disconnect");
    assert_eq!(disconnect_summary(1), "Successfully disconnected 1 components");
    assert_eq!(disconnect_summary(2), "Successfully disconnected 2 components");
    assert_eq!(disconnect_summary(12), "Successfully disconnected 12 components");
}

#[test]
fn errors_describe_themselves() {
    assert_eq!(AppError::Lsl("gone".to_string()).message(), "LSL error: gone");
    assert_eq!(AppError::Io("denied".to_string()).message(), "IO error: denied");
    assert_eq!(
        AppError::Channel("closed".to_string()).message(),
        "Channel communication error: closed"
    );
    assert_eq!(AppError::Fft("size".to_string()).message(), "FFT calculation error: size");
    assert_eq!(AppError::Recording("full".to_string()).message(), "Recording error: full");
    assert_eq!(AppError::NotConnected.message(), "Stream not connected");
    assert_eq!(AppError::Config("twice".to_string()).message(), "Invalid configuration: twice");
    assert_eq!(AppError::Config(String::new()).message(), "Invalid configuration: ");
}

#[test]
fn channel_errors_are_built_from_their_detail() {
    assert_eq!(
        AppError::channel_closed("sending on a closed channel"),
        AppError::Channel("sending on a closed channel".to_string())
    );
    assert_eq!(
        AppError::reply_lost("channel closed"),
        AppError::Channel("OneShot receive error: channel closed".to_string())
    );
    assert_eq!(joined("a", "b"), "ab");
    assert_eq!(joined("", ""), "");
}

#[test]
fn numbers_are_written_in_decimal() {
    assert_eq!(decimal_text(0), "0");
    assert_eq!(decimal_text(7), "7");
    assert_eq!(decimal_text(10), "10");
    assert_eq!(decimal_text(4_294_967_295), "4294967295");
    assert_eq!(two_digit_text(0), "00");
    assert_eq!(two_digit_text(9), "09");
    assert_eq!(two_digit_text(10), "10");
    assert_eq!(two_digit_text(123), "123");
    for n in 0u32..1200 {
        assert_eq!(decimal_text(n), format!("{}", n));
        assert_eq!(two_digit_text(n), format!("{:02}", n));
    }
}

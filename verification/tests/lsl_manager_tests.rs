use eeg_pipeline::data_types::{EegSample, LslStreamInfo, StreamInfo};
use eeg_pipeline::error::AppError;
use eeg_pipeline::lsl_manager::{
    connection_outcome, discovery_outcome, discovery_predicate, stream_predicate, ConnectAttempt, LslManagerStats, PullOutcome, StreamWorker, WorkerAction,
    WorkerStats,
};

fn description(name: &str) -> LslStreamInfo {
    LslStreamInfo {
        name: name.to_string(),
        stream_type: "EEG".to_string(),
        channels_count: 16,
        sample_rate: 500.0f64.to_bits(),
        source_id: "amp-7".to_string(),
        hostname: "lab".to_string(),
    }
}

fn pulled(timestamp: f64, values: &[f64], channel_count: Option<usize>) -> PullOutcome {
    PullOutcome::Pulled {
        timestamp: timestamp.to_bits(),
        values: values.iter().map(|v| v.to_bits()).collect(),
        channel_count,
    }
}

#[test]
fn predicates_select_by_type_and_by_name() {
    assert_eq!(discovery_predicate(), "type='EEG'");
    assert_eq!(stream_predicate("Cap 64"), "name='Cap 64'");
    assert_eq!(stream_predicate(""), "name=''");
}

#[test]
fn discovery_reports_what_was_resolved() {
    let found = vec![description("A"), description("B")];
    assert_eq!(discovery_outcome(Ok(found.clone())), Ok(found));
    assert_eq!(discovery_outcome(Ok(Vec::new())), Ok(Vec::new()));
}

#[test]
fn a_failed_discovery_is_an_error_of_the_stream_source() {
    assert_eq!(
        discovery_outcome(Err("Timeout".to_string())),
        Err(AppError::Lsl("Stream discovery failed: Timeout".to_string()))
    );
}

#[test]
fn a_stream_that_was_opened_is_connected() {
    let out = connection_outcome("Cap", ConnectAttempt::Connected(description("Cap")));
    assert_eq!(
        out,
        Ok(StreamInfo {
            name: "Cap".to_string(),
            stream_type: "EEG".to_string(),
            channels_count: 16,
            sample_rate: 500.0f64.to_bits(),
            is_connected: true,
            source_id: "amp-7".to_string(),
        })
    );
}

#[test]
fn a_stream_that_is_not_there_is_an_error() {
    assert_eq!(
        connection_outcome("Cap", ConnectAttempt::NotFound),
        Err(AppError::Lsl("Stream 'Cap' not found".to_string()))
    );
    assert_eq!(
        connection_outcome("Cap", ConnectAttempt::InletFailed("Timeout".to_string())),
        Err(AppError::Lsl("Failed to create inlet: Timeout".to_string()))
    );
}

#[test]
fn a_failed_resolver_ends_the_attempt_with_an_error() {
    assert_eq!(
        connection_outcome("Cap", ConnectAttempt::ResolveFailed("Timeout".to_string())),
        Err(AppError::Lsl("Failed to resolve stream 'Cap': Timeout".to_string()))
    );
    assert_eq!(
        connection_outcome("", ConnectAttempt::ResolveFailed(String::new())),
        Err(AppError::Lsl("Failed to resolve stream '': ".to_string()))
    );
}

#[test]
fn a_pull_with_a_timestamp_gives_a_numbered_sample() {
    let mut worker = StreamWorker::new();
    let values = [1.0, 2.0, 3.0, 0.0, 0.0];
    for id in 0..3u64 {
        let action = worker.on_pull(pulled(10.0 + id as f64, &values, Some(3)));
        assert_eq!(
            action,
            WorkerAction::Send(EegSample {
                timestamp: (10.0 + id as f64).to_bits(),
                channels: vec![1.0f64.to_bits(), 2.0f64.to_bits(), 3.0f64.to_bits()],
                sample_id: id,
            })
        );
    }
    assert_eq!(worker.stats(), WorkerStats { samples_processed: 3, streams_discovered: 0 });
}

#[test]
fn values_are_cut_to_the_channel_count_if_it_is_known() {
    let mut worker = StreamWorker::new();
    let values = [1.0, 2.0];
    match worker.on_pull(pulled(1.0, &values, None)) {
        WorkerAction::Send(sample) => assert_eq!(sample.channels.len(), 2),
        other => panic!("{:?}", other),
    }
    match worker.on_pull(pulled(1.0, &values, Some(8))) {
        WorkerAction::Send(sample) => assert_eq!(sample.channels.len(), 2),
        other => panic!("{:?}", other),
    }
    match worker.on_pull(pulled(1.0, &values, Some(0))) {
        WorkerAction::Send(sample) => assert!(sample.channels.is_empty()),
        other => panic!("{:?}", other),
    }
}

#[test]
fn a_pull_without_a_timestamp_gives_a_short_rest() {
    let mut worker = StreamWorker::new();
    for timestamp in [0.0, -0.0, -1.0, f64::NAN] {
        assert_eq!(worker.on_pull(pulled(timestamp, &[1.0], Some(1))), WorkerAction::Sleep(1));
    }
    assert_eq!(worker.stats().samples_processed, 0);
}

#[test]
fn a_failed_pull_and_a_missing_stream_give_longer_rests() {
    let mut worker = StreamWorker::new();
    assert_eq!(worker.on_pull(PullOutcome::Failed), WorkerAction::Sleep(100));
    assert_eq!(worker.on_pull(PullOutcome::Unconnected), WorkerAction::Sleep(10));
    assert_eq!(worker.stats().samples_processed, 0);
}

#[test]
fn discoveries_are_counted() {
    let mut worker = StreamWorker::new();
    worker.record_discovery();
    worker.record_discovery();
    assert_eq!(worker.stats(), WorkerStats { samples_processed: 0, streams_discovered: 2 });
}

#[test]
fn the_stop_report_takes_the_workers_counts() {
    let stream = connection_outcome("Cap", ConnectAttempt::Connected(description("Cap"))).unwrap();
    let counts = WorkerStats { samples_processed: 5000, streams_discovered: 2 };
    let report = LslManagerStats::assemble(Some(counts), 20.5f64.to_bits(), Some(stream.clone()));
    assert_eq!(report.streams_discovered, 2);
    assert_eq!(report.samples_received, 5000);
    assert_eq!(f64::from_bits(report.connection_duration_seconds), 20.5);
    assert_eq!(report.final_stream, Some(stream.clone()));
    let silent = LslManagerStats::assemble(None, 20.5f64.to_bits(), Some(stream.clone()));
    assert_eq!(silent.streams_discovered, 0);
    assert_eq!(silent.samples_received, 0);
    assert_eq!(f64::from_bits(silent.connection_duration_seconds), 0.0);
    assert_eq!(silent.final_stream, Some(stream));
}

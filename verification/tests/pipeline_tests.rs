use crossbeam_channel::{unbounded, Receiver};
use eeg_pipeline::batcher::{TimeDomainBatcher, FRAME_INTERVAL_MS};
use eeg_pipeline::data_types::{EegSample, FreqData, StreamInfo};
use eeg_pipeline::distributor::{Distributor, Progress};
use eeg_pipeline::fft_processor::{
    band_spectrum, spectral_group, ChannelSeries, FftProcessor, FFT_WINDOW_SIZE,
};
use eeg_pipeline::recorder::EdfRecorder;
use eeg_pipeline::synchronizer::{FrameKind, FrameSynchronizer};
use rustfft::num_complex::Complex;
use rustfft::FftPlanner;

fn stream(channels_count: u32, sample_rate: f64) -> StreamInfo {
    StreamInfo {
        name: "Cap".to_string(),
        stream_type: "EEG".to_string(),
        channels_count,
        sample_rate: sample_rate.to_bits(),
        is_connected: true,
        source_id: "amp".to_string(),
    }
}

fn sample(id: u64, channels: usize) -> EegSample {
    EegSample {
        timestamp: (1000.0 + id as f64 / 250.0).to_bits(),
        channels: (0..channels).map(|c| ((id % 50) as f64 - c as f64).to_bits()).collect(),
        sample_id: id,
    }
}

/// The bin that the analysis assigns to each whole frequency of the band.
fn bins(sample_rate: f64) -> Vec<usize> {
    let resolution = sample_rate / FFT_WINDOW_SIZE as f64;
    (1..=50).map(|f| (f as f64 / resolution).round() as usize).collect()
}

/// The magnitudes of all bins of the tapered window, each divided by the
/// window's length.
fn transform(window: &ChannelSeries) -> ChannelSeries {
    let n = window.values.len();
    let mut data: Vec<Complex<f64>> = window
        .values
        .iter()
        .enumerate()
        .map(|(i, bits)| {
            let taper =
                0.5 * (1.0 - (2.0 * std::f64::consts::PI * i as f64 / (n - 1) as f64).cos());
            Complex::new(f64::from_bits(*bits) * taper, 0.0)
        })
        .collect();
    FftPlanner::new().plan_fft_forward(n).process(&mut data);
    ChannelSeries {
        channel_index: window.channel_index,
        values: data.iter().map(|x| (x.norm() / n as f64).to_bits()).collect(),
    }
}

fn analyse(processor: &FftProcessor, batch_id: u64, sample_rate: f64) -> Vec<FreqData> {
    let transformed: Vec<ChannelSeries> = processor.full_windows().iter().map(transform).collect();
    spectral_group(batch_id, &transformed, sample_rate.to_bits())
}

fn drain(receiver: &Receiver<EegSample>) -> Vec<EegSample> {
    receiver.try_iter().collect()
}

#[test]
fn two_seconds_of_signal_give_two_records_and_sixty_frames() {
    let (source_tx, source_rx) = unbounded::<EegSample>();
    let (record_tx, record_rx) = unbounded::<EegSample>();
    let (display_tx, display_rx) = unbounded::<EegSample>();
    let mut distributor = Distributor::new(source_rx, vec![record_tx, display_tx]);
    let mut recorder =
        EdfRecorder::new("run.edf".to_string(), stream(8, 250.0), None, None, 1_700_000_000)
            .unwrap();
    let mut batcher = TimeDomainBatcher::new(8, 250.0f64.to_bits());
    let mut analyzer = FftProcessor::new(stream(8, 250.0));
    let mut synchronizer = FrameSynchronizer::new(8, 250.0f64.to_bits());

    let mut records = Vec::new();
    let mut frames = Vec::new();
    let mut sent = 0u64;
    for now_ms in 1..=2000u64 {
        // One sample every four milliseconds: 250 Hz.
        if now_ms % 4 == 0 {
            source_tx.send(sample(sent, 8)).unwrap();
            sent += 1;
            assert_eq!(distributor.step(1000), Progress::Delivered);
        }
        for s in drain(&record_rx) {
            if let Some(record) = recorder.write_sample(&s) {
                records.push(record);
            }
        }
        if now_ms % FRAME_INTERVAL_MS == 0 {
            for s in drain(&display_rx) {
                batcher.push(s);
            }
            let out = batcher.tick(true);
            synchronizer.buffer_time_domain(out.batch.unwrap());
            if let Some((batch_id, samples)) = out.trigger {
                if analyzer.push_batch(&samples) {
                    synchronizer.buffer_frequency(batch_id, analyse(&analyzer, batch_id, 250.0));
                }
            }
            frames.push(synchronizer.tick());
            synchronizer.record_published();
        }
    }
    assert_eq!(sent, 500);

    // Exactly two complete one-second records, and nothing left over.
    assert_eq!(records.len(), 2);
    for record in &records {
        assert_eq!(record.len(), 8);
        for row in record {
            assert_eq!(row.len(), 250);
        }
    }
    assert_eq!(f64::from_bits(records[0][0][0]), 0.0);
    assert_eq!(f64::from_bits(records[1][3][249]), 49.0 - 3.0);
    let closed = recorder.close();
    assert_eq!(closed.final_record, None);
    assert_eq!(closed.stats.samples_written, 500);
    assert_eq!(f64::from_bits(closed.stats.duration_seconds), 2.0);

    // Sixty ticks in two seconds, each with the next batch id.
    assert_eq!(frames.len(), 60);
    let mut displayed = 0;
    for (tick, frame) in frames.iter().enumerate() {
        assert_ne!(frame.kind, FrameKind::Placeholder);
        assert_eq!(frame.payload.time_domain.batch_id, tick as u64);
        assert_eq!(frame.payload.frequency_domain.len(), 8);
        displayed += frame.payload.time_domain.samples.len();
        // The windows fill with the 256th sample, which the 32nd batch carries.
        if tick < 31 {
            assert_eq!(frame.kind, FrameKind::TimeOnly);
        } else {
            assert_eq!(frame.kind, FrameKind::Matched);
            for spectrum in &frame.payload.frequency_domain {
                assert_eq!(spectrum.batch_id, Some(tick as u64));
            }
        }
    }
    assert_eq!(displayed, 495);
    // Frame after frame, the samples are the source's, in its order.
    let shown: Vec<EegSample> =
        frames.iter().flat_map(|frame| frame.payload.time_domain.samples.clone()).collect();
    assert_eq!(shown, (0..495).map(|id| sample(id, 8)).collect::<Vec<_>>());
    for s in drain(&display_rx) {
        batcher.push(s);
    }
    let last = batcher.tick(false);
    assert!(last.finished);
    assert_eq!(last.batch.unwrap().samples.len(), 5);
}

#[test]
fn a_constant_signal_shows_at_the_lowest_frequency_alone() {
    let mut analyzer = FftProcessor::new(stream(1, 250.0));
    let samples: Vec<EegSample> = (0..256)
        .map(|id| EegSample { timestamp: 1.0f64.to_bits(), channels: vec![8.0f64.to_bits()], sample_id: id })
        .collect();
    assert!(analyzer.push_batch(&samples));
    let group = analyse(&analyzer, 3, 250.0);
    assert_eq!(group.len(), 1);
    assert_eq!(group[0].batch_id, Some(3));
    let spectrum: Vec<f64> = group[0].spectrum.iter().map(|b| f64::from_bits(*b)).collect();
    assert_eq!(spectrum.len(), 50);
    // A quarter of the constant sits in the bin of 1 Hz; what the taper
    // leaks beyond it stays below a thousandth of the constant.
    assert!((spectrum[0] - 2.0).abs() < 0.02, "{}", spectrum[0]);
    for magnitude in &spectrum[1..] {
        assert!(magnitude.abs() < 0.008, "{}", magnitude);
    }
}

#[test]
fn a_silent_signal_has_a_silent_spectrum() {
    let mut analyzer = FftProcessor::new(stream(2, 250.0));
    let samples: Vec<EegSample> = (0..300)
        .map(|id| EegSample {
            timestamp: 1.0f64.to_bits(),
            channels: vec![0.0f64.to_bits(); 2],
            sample_id: id,
        })
        .collect();
    assert!(analyzer.push_batch(&samples));
    let group = analyse(&analyzer, 0, 250.0);
    assert_eq!(group.len(), 2);
    for spectrum in &group {
        for bits in &spectrum.spectrum {
            assert_eq!(f64::from_bits(*bits), 0.0);
        }
    }
}

#[test]
fn a_slow_stream_leaves_the_upper_band_silent() {
    let magnitudes: Vec<u64> = vec![1.0f64.to_bits(); 256];
    let band = band_spectrum(&magnitudes, &bins(60.0));
    let audible = band.iter().filter(|b| f64::from_bits(**b) != 0.0).count();
    // At 60 Hz the bin of 30 Hz lies at half the transform and those above
    // lie beyond it.
    assert_eq!(audible, 30);
}

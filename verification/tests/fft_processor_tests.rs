use eeg_pipeline::data_types::{EegSample, StreamInfo};
use eeg_pipeline::fft_processor::{
    band_bins, band_spectrum, create_empty_freq_data, empty_freq_data, frequency_labels,
    nearest_bin, spectral_group, ChannelSeries, FftProcessor, FFT_WINDOW_SIZE, OUTPUT_FREQ_BINS,
    TARGET_FREQ_MAX, TARGET_FREQ_MIN,
};

fn stream(channels_count: u32) -> StreamInfo {
    StreamInfo {
        name: "EEG".to_string(),
        stream_type: "EEG".to_string(),
        channels_count,
        sample_rate: 250.0f64.to_bits(),
        is_connected: true,
        source_id: "device".to_string(),
    }
}

fn sample(id: u64, channels: usize) -> EegSample {
    EegSample {
        timestamp: 1.0f64.to_bits(),
        channels: (0..channels).map(|c| (id as f64 + c as f64 * 1000.0).to_bits()).collect(),
        sample_id: id,
    }
}

fn samples(from: u64, to: u64, channels: usize) -> Vec<EegSample> {
    (from..to).map(|id| sample(id, channels)).collect()
}

fn floats(bits: &[u64]) -> Vec<f64> {
    bits.iter().map(|b| f64::from_bits(*b)).collect()
}

#[test]
fn the_band_runs_from_one_to_fifty_hertz() {
    assert_eq!(FFT_WINDOW_SIZE, 256);
    assert_eq!(OUTPUT_FREQ_BINS, 50);
    assert_eq!(TARGET_FREQ_MIN, 1);
    assert_eq!(TARGET_FREQ_MAX, 50);
    let labels = floats(&frequency_labels());
    assert_eq!(labels, (1..=50).map(|f| f as f64).collect::<Vec<_>>());
}

#[test]
fn placeholder_spectra_are_silent() {
    let spectra = create_empty_freq_data(8);
    assert_eq!(spectra.len(), 8);
    for (i, spectrum) in spectra.iter().enumerate() {
        assert_eq!(spectrum.channel_index, i as u32);
        assert_eq!(spectrum.spectrum, vec![0u64; 50]);
        assert_eq!(floats(&spectrum.spectrum), vec![0.0; 50]);
        assert_eq!(floats(&spectrum.frequency_bins), (1..=50).map(|f| f as f64).collect::<Vec<_>>());
        assert_eq!(spectrum.batch_id, None);
        assert_eq!(*spectrum, empty_freq_data(i as u32));
    }
    assert!(create_empty_freq_data(0).is_empty());
}

#[test]
fn windows_start_empty() {
    let processor = FftProcessor::new(stream(3));
    assert_eq!(processor.channel_count(), 3);
    for c in 0..3 {
        assert_eq!(processor.window_len(c), 0);
    }
    assert!(processor.full_windows().is_empty());
}

#[test]
fn no_spectrum_is_due_before_the_window_is_full() {
    let mut processor = FftProcessor::new(stream(2));
    assert!(!processor.push_batch(&samples(0, 255, 2)));
    assert_eq!(processor.window_len(0), 255);
    assert!(processor.full_windows().is_empty());
    assert!(processor.push_batch(&samples(255, 256, 2)));
    assert_eq!(processor.window_len(0), 256);
    let windows = processor.full_windows();
    assert_eq!(windows.len(), 2);
    assert_eq!(windows[0].channel_index, 0);
    assert_eq!(windows[1].channel_index, 1);
    assert_eq!(floats(&windows[0].values), (0..256).map(|i| i as f64).collect::<Vec<_>>());
    assert_eq!(floats(&windows[1].values), (0..256).map(|i| i as f64 + 1000.0).collect::<Vec<_>>());
}

#[test]
fn a_full_window_drops_its_oldest_value() {
    let mut processor = FftProcessor::new(stream(1));
    assert!(processor.push_batch(&samples(0, 300, 1)));
    assert_eq!(processor.window_len(0), 256);
    let windows = processor.full_windows();
    assert_eq!(floats(&windows[0].values), (44..300).map(|i| i as f64).collect::<Vec<_>>());
    processor.push_sample(&sample(300, 1));
    let windows = processor.full_windows();
    assert_eq!(floats(&windows[0].values), (45..301).map(|i| i as f64).collect::<Vec<_>>());
}

#[test]
fn an_empty_batch_changes_nothing() {
    let mut processor = FftProcessor::new(stream(1));
    assert!(!processor.push_batch(&Vec::new()));
    assert!(processor.push_batch(&samples(0, 256, 1)));
    assert!(processor.push_batch(&Vec::new()));
    assert_eq!(processor.window_len(0), 256);
}

#[test]
fn values_without_a_window_are_ignored() {
    let mut narrow = FftProcessor::new(stream(1));
    assert!(narrow.push_batch(&samples(0, 256, 4)));
    assert_eq!(narrow.channel_count(), 1);
    assert_eq!(floats(&narrow.full_windows()[0].values)[255], 255.0);
}

#[test]
fn no_spectrum_is_due_until_every_window_is_full() {
    let mut processor = FftProcessor::new(stream(2));
    // Samples with one value leave the second window behind.
    assert!(!processor.push_batch(&samples(0, 256, 1)));
    assert!(!processor.is_due());
    assert_eq!(processor.window_len(0), 256);
    assert_eq!(processor.window_len(1), 0);
    let windows = processor.full_windows();
    assert_eq!(windows.len(), 1);
    assert_eq!(windows[0].channel_index, 0);
    assert!(!processor.push_batch(&samples(256, 511, 2)));
    assert_eq!(processor.window_len(1), 255);
    assert!(processor.push_batch(&samples(511, 512, 2)));
    assert!(processor.is_due());
    let windows = processor.full_windows();
    assert_eq!(windows.len(), 2);
    assert_eq!(windows[0].channel_index, 0);
    assert_eq!(windows[1].channel_index, 1);
    assert_eq!(floats(&windows[0].values), (256..512).map(|i| i as f64).collect::<Vec<_>>());
    assert_eq!(floats(&windows[1].values), (256..512).map(|i| i as f64 + 1000.0).collect::<Vec<_>>());
}

#[test]
fn a_stream_without_channels_never_has_a_spectrum_due() {
    let mut processor = FftProcessor::new(stream(0));
    assert!(!processor.push_batch(&samples(0, 300, 2)));
    assert!(processor.full_windows().is_empty());
}

#[test]
fn the_band_takes_the_magnitude_of_the_assigned_bin() {
    let magnitudes: Vec<u64> = (0..256).map(|k| (k as f64 * 0.5).to_bits()).collect();
    let bins: Vec<usize> = (1..=50).map(|f| (f as f64 / (250.0 / 256.0)).round() as usize).collect();
    let band = floats(&band_spectrum(&magnitudes, &bins));
    assert_eq!(band.len(), 50);
    assert_eq!(bins[0], 1);
    assert_eq!(band[0], 0.5);
    assert_eq!(bins[9], 10);
    assert_eq!(band[9], 5.0);
    assert_eq!(bins[49], 51);
    assert_eq!(band[49], 25.5);
}

#[test]
fn bins_beyond_half_the_transform_are_silent() {
    let magnitudes: Vec<u64> = (0..256).map(|k| (k as f64 + 1.0).to_bits()).collect();
    let bins: Vec<usize> = (1..=50).map(|f| (f as f64 / (60.0 / 256.0)).round() as usize).collect();
    let band = floats(&band_spectrum(&magnitudes, &bins));
    assert_eq!(bins[28], 124);
    assert_eq!(band[28], 125.0);
    assert_eq!(bins[29], 128);
    assert_eq!(band[29], 129.0);
    assert_eq!(bins[30], 132);
    assert_eq!(band[30], 0.0);
    assert_eq!(band[49], 0.0);
}

#[test]
fn the_bin_at_half_the_transform_is_the_last_that_counts() {
    let magnitudes: Vec<u64> = (0..256).map(|k| (k as f64 + 1.0).to_bits()).collect();
    let edge = floats(&band_spectrum(&magnitudes, &vec![127, 128, 129, 255, 256, usize::MAX]));
    assert_eq!(edge.len(), 50);
    assert_eq!(edge[0], 128.0);
    assert_eq!(edge[1], 129.0);
    assert_eq!(edge[2], 0.0);
    assert_eq!(edge[3], 0.0);
    assert_eq!(edge[4], 0.0);
    assert_eq!(edge[5], 0.0);
    assert_eq!(edge[6], 0.0);
}

#[test]
fn a_bin_that_the_transform_does_not_have_is_silent() {
    let one = vec![7.0f64.to_bits()];
    let band = floats(&band_spectrum(&one, &vec![0, 1]));
    assert_eq!(band[0], 7.0);
    assert_eq!(band[1], 0.0);
    let two = vec![7.0f64.to_bits(), 8.0f64.to_bits()];
    let band = floats(&band_spectrum(&two, &vec![0, 1, 2]));
    assert_eq!(band[0], 7.0);
    assert_eq!(band[1], 8.0);
    assert_eq!(band[2], 0.0);
    let band = floats(&band_spectrum(&Vec::new(), &vec![0, 1]));
    assert_eq!(band, vec![0.0; 50]);
}

#[test]
fn a_group_is_tagged_with_the_triggering_batch() {
    let transformed = vec![
        ChannelSeries { channel_index: 0, values: (0..256).map(|k| (k as f64).to_bits()).collect() },
        ChannelSeries { channel_index: 2, values: (0..256).map(|k| (k as f64 * 2.0).to_bits()).collect() },
    ];
    // At 256 Hz a bin is one hertz wide.
    let group = spectral_group(17, &transformed, 256.0f64.to_bits());
    assert_eq!(group.len(), 2);
    assert_eq!(group[0].channel_index, 0);
    assert_eq!(group[1].channel_index, 2);
    for spectrum in &group {
        assert_eq!(spectrum.batch_id, Some(17));
        assert_eq!(spectrum.spectrum.len(), 50);
        assert_eq!(floats(&spectrum.frequency_bins), (1..=50).map(|f| f as f64).collect::<Vec<_>>());
    }
    assert_eq!(floats(&group[0].spectrum)[4], 5.0);
    assert_eq!(floats(&group[1].spectrum)[4], 10.0);
}

/// The bin as floating-point arithmetic gives it.
fn machine_bin(target_hz: u32, sample_rate: f64) -> usize {
    (target_hz as f64 / (sample_rate / 256.0)).round() as usize
}

#[test]
fn the_nearest_bin_is_the_rounded_quotient() {
    assert_eq!(nearest_bin(1, 250.0f64.to_bits()), 1);
    assert_eq!(nearest_bin(10, 250.0f64.to_bits()), 10);
    assert_eq!(nearest_bin(21, 250.0f64.to_bits()), 22);
    assert_eq!(nearest_bin(50, 250.0f64.to_bits()), 51);
    assert_eq!(nearest_bin(50, 256.0f64.to_bits()), 50);
    assert_eq!(nearest_bin(50, 512.0f64.to_bits()), 25);
    assert_eq!(nearest_bin(1, 512.0f64.to_bits()), 1);
    assert_eq!(nearest_bin(1, 1024.0f64.to_bits()), 0);
    assert_eq!(nearest_bin(30, 60.0f64.to_bits()), 128);
    assert_eq!(nearest_bin(0, 250.0f64.to_bits()), 0);
}

#[test]
fn the_band_bins_cover_one_to_fifty_hertz() {
    let bins = band_bins(250.0f64.to_bits());
    assert_eq!(bins.len(), 50);
    for (i, bin) in bins.iter().enumerate() {
        assert_eq!(*bin, machine_bin(i as u32 + 1, 250.0));
    }
    assert_eq!(band_bins(256.0f64.to_bits()), (1..=50).collect::<Vec<usize>>());
}

#[test]
fn the_nearest_bin_agrees_with_the_machine() {
    let mut rates: Vec<f64> = vec![
        0.5, 1.0, 59.94, 100.0, 128.0, 199.99, 200.0, 249.999, 250.0, 250.001, 256.0, 300.0,
        500.0, 511.9999, 512.0, 1000.0, 1024.0, 2048.0, 4096.0, 5000.5, 10000.0, 44100.0,
        1e9, 1e-3, 1e-300, 5e-324, 1e300, f64::MAX, f64::MIN_POSITIVE,
    ];
    let mut state: u64 = 0x9E37_79B9_7F4A_7C15;
    for _ in 0..3000 {
        state ^= state << 13;
        state ^= state >> 7;
        state ^= state << 17;
        // Rates between a quarter of a hertz and some kilohertz.
        rates.push(f64::from_bits(0x3FD0_0000_0000_0000 + state % 0x00F0_0000_0000_0000));
        rates.push(f64::from_bits(state & 0x7FFF_FFFF_FFFF_FFFF));
    }
    // Rates at which a frequency falls halfway between two bins.
    for f in 1..=50u32 {
        for bin in 0..130u32 {
            let rate = 256.0 * f as f64 / (bin as f64 + 0.5);
            rates.push(rate);
            rates.push(f64::from_bits(rate.to_bits() + 1));
            rates.push(f64::from_bits(rate.to_bits() - 1));
        }
    }
    for rate in rates {
        for f in [0u32, 1, 2, 3, 7, 10, 25, 49, 50, 51, 1000, u32::MAX] {
            assert_eq!(nearest_bin(f, rate.to_bits()), machine_bin(f, rate), "{} Hz at {}", f, rate);
        }
    }
}

#[test]
fn a_rate_that_is_no_rate_puts_every_frequency_into_bin_zero() {
    for rate in [-250.0f64, -0.0, f64::NEG_INFINITY, f64::INFINITY, f64::NAN] {
        for f in [1u32, 25, 50] {
            assert_eq!(nearest_bin(f, rate.to_bits()), 0);
            assert_eq!(nearest_bin(f, rate.to_bits()), machine_bin(f, rate));
        }
    }
}

#[test]
fn a_rate_of_zero_puts_every_frequency_beyond_all_bins() {
    for f in [1u32, 25, 50] {
        assert_eq!(nearest_bin(f, 0.0f64.to_bits()), usize::MAX);
        assert_eq!(nearest_bin(f, 0.0f64.to_bits()), machine_bin(f, 0.0));
        assert_eq!(nearest_bin(f, 5e-324f64.to_bits()), usize::MAX);
    }
    assert_eq!(nearest_bin(0, 0.0f64.to_bits()), 0);
}

use eeg_pipeline::binary_frame::{decode_channel_major_frame, BinaryFrameBuilder, HEADER_LEN};
use eeg_pipeline::data_types::{ChannelSamples, OptimizedEegBatch};

fn batch(samples_per_channel: u32, channel_data: Vec<ChannelSamples>) -> OptimizedEegBatch {
    OptimizedEegBatch {
        batch_id: 0x0102_0304_0506_0708,
        timestamp: 1234.5f64.to_bits(),
        channels_count: channel_data.len() as u32,
        samples_per_channel,
        sample_rate: 250.0f64.to_bits(),
        channel_data,
    }
}

fn channel(channel_index: u32, samples: &[f32]) -> ChannelSamples {
    ChannelSamples { channel_index, samples: samples.iter().map(|v| v.to_bits()).collect() }
}

#[test]
fn header_is_thirty_two_bytes_in_field_order() {
    let mut builder = BinaryFrameBuilder::new();
    let frame = builder.build_channel_major_frame(&batch(0, Vec::new()));
    assert_eq!(HEADER_LEN, 32);
    assert_eq!(frame.len(), 32);
    assert_eq!(&frame[0..8], &0x0102_0304_0506_0708u64.to_le_bytes());
    assert_eq!(&frame[0..8], &[8u8, 7, 6, 5, 4, 3, 2, 1]);
    assert_eq!(&frame[8..16], &1234.5f64.to_le_bytes());
    assert_eq!(&frame[16..20], &0u32.to_le_bytes());
    assert_eq!(&frame[20..24], &0u32.to_le_bytes());
    assert_eq!(&frame[24..32], &250.0f64.to_le_bytes());
}

#[test]
fn blocks_follow_the_header_channel_by_channel() {
    let mut builder = BinaryFrameBuilder::new();
    let data = vec![channel(0, &[1.0, -2.0, 3.5]), channel(1, &[0.25, 0.5, 0.75])];
    let frame = builder.build_channel_major_frame(&batch(3, data));
    assert_eq!(frame.len(), 32 + 2 * (4 + 3 * 4));
    assert_eq!(&frame[16..20], &2u32.to_le_bytes());
    assert_eq!(&frame[20..24], &3u32.to_le_bytes());
    assert_eq!(&frame[32..36], &0u32.to_le_bytes());
    assert_eq!(&frame[36..40], &1.0f32.to_le_bytes());
    assert_eq!(&frame[40..44], &(-2.0f32).to_le_bytes());
    assert_eq!(&frame[44..48], &3.5f32.to_le_bytes());
    assert_eq!(&frame[48..52], &1u32.to_le_bytes());
    assert_eq!(&frame[52..56], &0.25f32.to_le_bytes());
    assert_eq!(&frame[56..60], &0.5f32.to_le_bytes());
    assert_eq!(&frame[60..64], &0.75f32.to_le_bytes());
}

#[test]
fn builder_starts_over_with_every_frame() {
    let mut builder = BinaryFrameBuilder::new();
    let long = builder.build_channel_major_frame(&batch(2, vec![channel(0, &[1.0, 2.0])]));
    let short = builder.build_channel_major_frame(&batch(0, Vec::new()));
    assert_eq!(long.len(), 44);
    assert_eq!(short.len(), 32);
    let again = builder.build_channel_major_frame(&batch(2, vec![channel(0, &[1.0, 2.0])]));
    assert_eq!(again, long);
}

#[test]
fn decoding_reproduces_the_batch_bit_for_bit() {
    let mut builder = BinaryFrameBuilder::new();
    let built = OptimizedEegBatch {
        batch_id: 42,
        timestamp: 1_700_000_000.123_456f64.to_bits(),
        channels_count: 3,
        samples_per_channel: 4,
        sample_rate: 250.0f64.to_bits(),
        channel_data: vec![
            channel(0, &[0.0, -0.0, f32::MIN_POSITIVE, f32::MAX]),
            channel(1, &[1.5, -1.5, f32::INFINITY, f32::NEG_INFINITY]),
            ChannelSamples { channel_index: 7, samples: vec![0x7FC0_0001, 0xFFFF_FFFF, 1, 0x8000_0001] },
        ],
    };
    let frame = builder.build_channel_major_frame(&built);
    let decoded = decode_channel_major_frame(&frame).expect("a frame");
    assert_eq!(decoded, built);
    assert_eq!(decoded.batch_id, 42);
    assert_eq!(f64::from_bits(decoded.timestamp), 1_700_000_000.123_456);
    assert_eq!(f64::from_bits(decoded.sample_rate), 250.0);
    assert_eq!(decoded.channel_data[2].samples[0], 0x7FC0_0001);
}

#[test]
fn decoding_an_empty_batch_gives_no_blocks() {
    let mut builder = BinaryFrameBuilder::new();
    let mut built = batch(0, Vec::new());
    built.channels_count = 8;
    let frame = builder.build_channel_major_frame(&built);
    let decoded = decode_channel_major_frame(&frame).expect("a frame");
    assert_eq!(decoded, built);
    assert_eq!(decoded.channels_count, 8);
    assert!(decoded.channel_data.is_empty());
}

#[test]
fn decoding_channels_without_samples_keeps_their_indices() {
    let mut builder = BinaryFrameBuilder::new();
    let built = batch(0, vec![channel(3, &[]), channel(9, &[])]);
    let frame = builder.build_channel_major_frame(&built);
    assert_eq!(frame.len(), 40);
    assert_eq!(decode_channel_major_frame(&frame), Some(built));
}

#[test]
fn decoding_rejects_what_is_no_frame() {
    assert_eq!(decode_channel_major_frame(&Vec::new()), None);
    assert_eq!(decode_channel_major_frame(&vec![0u8; 31]), None);
    let mut builder = BinaryFrameBuilder::new();
    let frame = builder.build_channel_major_frame(&batch(2, vec![channel(0, &[1.0, 2.0])]));
    let mut cut = frame.clone();
    cut.pop();
    assert_eq!(decode_channel_major_frame(&cut), None);
    let mut grown = frame.clone();
    grown.push(0);
    assert_eq!(decode_channel_major_frame(&grown), None);
    assert!(decode_channel_major_frame(&frame).is_some());
}

#[test]
fn a_header_alone_is_a_frame_without_blocks() {
    let decoded = decode_channel_major_frame(&vec![0u8; 32]).expect("a frame");
    assert_eq!(decoded.batch_id, 0);
    assert_eq!(decoded.samples_per_channel, 0);
    assert!(decoded.channel_data.is_empty());
}

#[test]
fn uneven_channels_do_not_survive_the_wire() {
    let mut builder = BinaryFrameBuilder::new();
    let built = batch(2, vec![channel(0, &[1.0, 2.0]), channel(1, &[3.0])]);
    let frame = builder.build_channel_major_frame(&built);
    assert_eq!(frame.len(), 32 + 12 + 8);
    assert_ne!(decode_channel_major_frame(&frame), Some(built));
}

#[test]
fn the_header_survives_the_wire_whatever_the_channels_hold() {
    let mut builder = BinaryFrameBuilder::new();
    // Two samples per channel are announced; the channels hold five and two.
    let built = batch(2, vec![channel(0, &[1.0, 2.0, 3.0, 4.0, 5.0]), channel(1, &[6.0, 7.0])]);
    let frame = builder.build_channel_major_frame(&built);
    assert_eq!(frame.len(), 32 + 24 + 12);
    assert_eq!((frame.len() - 32) % 12, 0);
    let read = decode_channel_major_frame(&frame).expect("a frame");
    assert_eq!(read.batch_id, built.batch_id);
    assert_eq!(read.timestamp, built.timestamp);
    assert_eq!(read.channels_count, built.channels_count);
    assert_eq!(read.samples_per_channel, built.samples_per_channel);
    assert_eq!(read.sample_rate, built.sample_rate);
    assert_ne!(read.channel_data, built.channel_data);
}

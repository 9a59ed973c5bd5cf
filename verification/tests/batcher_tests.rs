use eeg_pipeline::batcher::{TimeDomainBatcher, FRAME_INTERVAL_MS};
use eeg_pipeline::data_types::EegSample;

fn sample(id: u64) -> EegSample {
    EegSample {
        timestamp: (id as f64 * 0.004).to_bits(),
        channels: vec![(id as f64).to_bits(), (-(id as f64)).to_bits()],
        sample_id: id,
    }
}

#[test]
fn the_cadence_is_thirty_three_milliseconds() {
    assert_eq!(FRAME_INTERVAL_MS, 33);
}

#[test]
fn a_tick_packages_what_was_gathered() {
    let mut batcher = TimeDomainBatcher::new(2, 250.0f64.to_bits());
    for id in 0..3 {
        batcher.push(sample(id));
    }
    assert_eq!(batcher.pending_len(), 3);
    let out = batcher.tick(true);
    assert!(!out.finished);
    let batch = out.batch.expect("a batch");
    assert_eq!(batch.batch_id, 0);
    assert_eq!(batch.channels_count, 2);
    assert_eq!(f64::from_bits(batch.sample_rate), 250.0);
    assert_eq!(batch.samples, vec![sample(0), sample(1), sample(2)]);
    let (trigger_id, trigger_samples) = out.trigger.expect("a trigger");
    assert_eq!(trigger_id, 0);
    assert_eq!(trigger_samples, vec![sample(0), sample(1), sample(2)]);
    assert_eq!(batcher.pending_len(), 0);
    assert_eq!(batcher.next_batch_id(), 1);
}

#[test]
fn an_empty_tick_gives_an_empty_batch_and_no_trigger() {
    let mut batcher = TimeDomainBatcher::new(8, 250.0f64.to_bits());
    let out = batcher.tick(true);
    let batch = out.batch.expect("a batch");
    assert_eq!(batch.batch_id, 0);
    assert!(batch.samples.is_empty());
    assert_eq!(batch.channels_count, 8);
    assert_eq!(out.trigger, None);
    assert!(!out.finished);
    assert_eq!(batcher.next_batch_id(), 1);
}

#[test]
fn batch_ids_count_up_without_gaps() {
    let mut batcher = TimeDomainBatcher::new(2, 250.0f64.to_bits());
    let mut next_sample = 0;
    for tick in 0..20u64 {
        for _ in 0..(tick % 3) {
            batcher.push(sample(next_sample));
            next_sample += 1;
        }
        let out = batcher.tick(true);
        let batch = out.batch.expect("a batch");
        assert_eq!(batch.batch_id, tick);
        assert_eq!(batch.samples.len() as u64, tick % 3);
        match out.trigger {
            Some((id, samples)) => {
                assert_eq!(id, tick);
                assert_eq!(samples, batch.samples);
            }
            None => assert!(batch.samples.is_empty()),
        }
    }
    assert_eq!(batcher.next_batch_id(), 20);
}

#[test]
fn no_sample_is_lost_or_repeated_across_ticks() {
    let mut batcher = TimeDomainBatcher::new(2, 250.0f64.to_bits());
    let mut seen = Vec::new();
    for id in 0..100 {
        batcher.push(sample(id));
        if id % 7 == 6 {
            seen.extend(batcher.tick(true).batch.unwrap().samples);
        }
    }
    let last = batcher.tick(false);
    assert!(last.finished);
    seen.extend(last.batch.unwrap().samples);
    assert_eq!(seen, (0..100).map(sample).collect::<Vec<_>>());
}

#[test]
fn shutdown_flushes_what_is_left() {
    let mut batcher = TimeDomainBatcher::new(2, 250.0f64.to_bits());
    let _ = batcher.tick(true);
    batcher.push(sample(0));
    batcher.push(sample(1));
    let out = batcher.tick(false);
    assert!(out.finished);
    let batch = out.batch.expect("a last batch");
    assert_eq!(batch.batch_id, 1);
    assert_eq!(batch.samples, vec![sample(0), sample(1)]);
    assert_eq!(out.trigger, Some((1, vec![sample(0), sample(1)])));
    assert_eq!(batcher.pending_len(), 0);
}

#[test]
fn shutdown_with_nothing_left_emits_nothing() {
    let mut batcher = TimeDomainBatcher::new(2, 250.0f64.to_bits());
    let _ = batcher.tick(true);
    let out = batcher.tick(false);
    assert!(out.finished);
    assert_eq!(out.batch, None);
    assert_eq!(out.trigger, None);
    assert_eq!(batcher.next_batch_id(), 1);
}

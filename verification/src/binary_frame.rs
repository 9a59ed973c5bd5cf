//! The compact wire layout of a display batch.
//!
//! A frame is a header of 32 bytes followed by one block per channel.  The
//! header holds the batch id (8 bytes), the timestamp (8), the channel count
//! (4), the number of samples per channel (4) and the sample rate (8).  A
//! block holds the channel's index (4 bytes) and then its samples, 4 bytes
//! each.  Every field is little-endian; floating-point fields are written as
//! their IEEE-754 bits.

use crate::data_types::{
    channels_view, ChannelSamples, ChannelView, OptimizedEegBatch, OptimizedView,
};
use vstd::bytes::{
    lemma_auto_spec_u32_to_from_le_bytes, lemma_auto_spec_u64_to_from_le_bytes,
    spec_u32_from_le_bytes, spec_u32_to_le_bytes, spec_u64_from_le_bytes, spec_u64_to_le_bytes,
    u32_from_le_bytes, u32_to_le_bytes, u64_from_le_bytes, u64_to_le_bytes,
};
use vstd::prelude::*;
use vstd::slice::slice_subrange;

verus! {

/// The length of a frame's header in bytes.
pub const HEADER_LEN: usize = 32;

/// The bytes of a frame's header.
pub open spec fn header_bytes(batch: OptimizedView) -> Seq<u8> {
    spec_u64_to_le_bytes(batch.batch_id) + spec_u64_to_le_bytes(batch.timestamp)
        + spec_u32_to_le_bytes(batch.channels_count) + spec_u32_to_le_bytes(
        batch.samples_per_channel,
    ) + spec_u64_to_le_bytes(batch.sample_rate)
}

/// The bytes of a run of samples.
pub open spec fn samples_bytes(samples: Seq<u32>) -> Seq<u8>
    decreases samples.len(),
{
    if samples.len() == 0 {
        Seq::<u8>::empty()
    } else {
        samples_bytes(samples.drop_last()) + spec_u32_to_le_bytes(samples.last())
    }
}

/// The bytes of one channel's block.
pub open spec fn block_bytes(block: ChannelView) -> Seq<u8> {
    spec_u32_to_le_bytes(block.channel_index) + samples_bytes(block.samples)
}

/// The bytes of a run of blocks.
#[verifier::opaque]
pub open spec fn blocks_bytes(blocks: Seq<ChannelView>) -> Seq<u8>
    decreases blocks.len(),
{
    if blocks.len() == 0 {
        Seq::<u8>::empty()
    } else {
        blocks_bytes(blocks.drop_last()) + block_bytes(blocks.last())
    }
}

/// The bytes of a frame.
pub open spec fn frame_bytes(batch: OptimizedView) -> Seq<u8> {
    header_bytes(batch) + blocks_bytes(batch.channel_data)
}

/// The 32-bit field at `pos`.
pub open spec fn u32_at(bytes: Seq<u8>, pos: int) -> u32 {
    spec_u32_from_le_bytes(bytes.subrange(pos, pos + 4))
}

/// The 64-bit field at `pos`.
pub open spec fn u64_at(bytes: Seq<u8>, pos: int) -> u64 {
    spec_u64_from_le_bytes(bytes.subrange(pos, pos + 8))
}

/// The length in bytes of a block of `samples_per_channel` samples.
pub open spec fn block_len(samples_per_channel: u32) -> int {
    4 + 4 * samples_per_channel
}

/// The block of `samples_per_channel` samples that starts at `start`.
pub open spec fn block_at(bytes: Seq<u8>, start: int, samples_per_channel: u32) -> ChannelView {
    ChannelView {
        channel_index: u32_at(bytes, start),
        samples: Seq::new(samples_per_channel as nat, |i: int| u32_at(bytes, start + 4 + 4 * i)),
    }
}

/// What a frame holds.  The bytes are a frame if they hold a header and
/// after it a whole number of blocks of the length that the header's
/// number of samples per channel gives.
pub open spec fn decode_frame(bytes: Seq<u8>) -> Option<OptimizedView> {
    if bytes.len() < HEADER_LEN {
        None
    } else {
        let samples_per_channel = u32_at(bytes, 20);
        let body = bytes.len() - HEADER_LEN;
        if body % block_len(samples_per_channel) != 0 {
            None
        } else {
            Some(
                OptimizedView {
                    batch_id: u64_at(bytes, 0),
                    timestamp: u64_at(bytes, 8),
                    channels_count: u32_at(bytes, 16),
                    samples_per_channel,
                    sample_rate: u64_at(bytes, 24),
                    channel_data: Seq::new(
                        (body / block_len(samples_per_channel)) as nat,
                        |c: int|
                            block_at(
                                bytes,
                                HEADER_LEN + c * block_len(samples_per_channel),
                                samples_per_channel,
                            ),
                    ),
                },
            )
        }
    }
}

/// A batch can be read back from its frame if every channel holds as many
/// samples as the batch says: the blocks are told apart by that number.
pub open spec fn frame_readable(batch: OptimizedView) -> bool {
    forall|c: int|
        0 <= c < batch.channel_data.len() ==> (#[trigger] batch.channel_data[c]).samples.len()
            == batch.samples_per_channel
}

/// A run of samples takes four bytes per sample.
pub proof fn lemma_samples_bytes_len(samples: Seq<u32>)
    ensures
        samples_bytes(samples).len() == 4 * samples.len(),
    decreases samples.len(),
{
    lemma_auto_spec_u32_to_from_le_bytes();
    if samples.len() > 0 {
        lemma_samples_bytes_len(samples.drop_last());
    }
}

/// Sample `i` of a run lies at byte `4 * i`.
pub proof fn lemma_samples_bytes_at(samples: Seq<u32>, i: int)
    requires
        0 <= i < samples.len(),
    ensures
        samples_bytes(samples).subrange(4 * i, 4 * i + 4) == spec_u32_to_le_bytes(samples[i]),
    decreases samples.len(),
{
    lemma_auto_spec_u32_to_from_le_bytes();
    let front = samples.drop_last();
    lemma_samples_bytes_len(front);
    if i == samples.len() - 1 {
        assert(samples_bytes(samples).subrange(4 * i, 4 * i + 4) =~= spec_u32_to_le_bytes(
            samples[i],
        ));
    } else {
        lemma_samples_bytes_at(front, i);
        assert(samples_bytes(samples).subrange(4 * i, 4 * i + 4) =~= samples_bytes(
            front,
        ).subrange(4 * i, 4 * i + 4));
    }
}

/// A run of blocks of equal length takes that length for every block.
pub proof fn lemma_blocks_bytes_len(blocks: Seq<ChannelView>, samples_per_channel: u32)
    requires
        forall|c: int|
            0 <= c < blocks.len() ==> (#[trigger] blocks[c]).samples.len() == samples_per_channel,
    ensures
        blocks_bytes(blocks).len() == blocks.len() * block_len(samples_per_channel),
    decreases blocks.len(),
{
    reveal(blocks_bytes);
    lemma_auto_spec_u32_to_from_le_bytes();
    if blocks.len() > 0 {
        let front = blocks.drop_last();
        lemma_blocks_bytes_len(front, samples_per_channel);
        lemma_samples_bytes_len(blocks.last().samples);
        assert(front.len() * block_len(samples_per_channel) + block_len(samples_per_channel)
            == blocks.len() * block_len(samples_per_channel)) by (nonlinear_arith)
            requires
                front.len() + 1 == blocks.len(),
        ;
    } else {
        assert(blocks.len() * block_len(samples_per_channel) == 0) by (nonlinear_arith)
            requires
                blocks.len() == 0,
        ;
    }
}

/// Block `c` of a run of blocks of equal length lies at `c` times that
/// length.
pub proof fn lemma_blocks_bytes_at(blocks: Seq<ChannelView>, samples_per_channel: u32, c: int)
    requires
        forall|k: int|
            0 <= k < blocks.len() ==> (#[trigger] blocks[k]).samples.len() == samples_per_channel,
        0 <= c < blocks.len(),
    ensures
        c * block_len(samples_per_channel) + block_len(samples_per_channel) <= blocks_bytes(
            blocks,
        ).len(),
        blocks_bytes(blocks).subrange(
            c * block_len(samples_per_channel),
            c * block_len(samples_per_channel) + block_len(samples_per_channel),
        ) == block_bytes(blocks[c]),
    decreases blocks.len(),
{
    reveal(blocks_bytes);
    lemma_auto_spec_u32_to_from_le_bytes();
    let len = block_len(samples_per_channel);
    let front = blocks.drop_last();
    lemma_blocks_bytes_len(front, samples_per_channel);
    lemma_blocks_bytes_len(blocks, samples_per_channel);
    lemma_samples_bytes_len(blocks.last().samples);
    assert(front.len() * len + len == blocks.len() * len) by (nonlinear_arith)
        requires
            front.len() + 1 == blocks.len(),
    ;
    if c == blocks.len() - 1 {
        assert(blocks_bytes(blocks).subrange(c * len, c * len + len) =~= block_bytes(blocks[c]));
    } else {
        lemma_blocks_bytes_at(front, samples_per_channel, c);
        assert(blocks_bytes(blocks).subrange(c * len, c * len + len) =~= blocks_bytes(
            front,
        ).subrange(c * len, c * len + len));
    }
}

/// A part of a part: where `whole` holds `part` at `start`, it holds every
/// stretch of `part` at the same offset from `start`.
proof fn lemma_stretch(whole: Seq<u8>, start: int, part: Seq<u8>, from: int, to: int)
    requires
        0 <= start,
        start + part.len() <= whole.len(),
        whole.subrange(start, start + part.len()) == part,
        0 <= from <= to <= part.len(),
    ensures
        whole.subrange(start + from, start + to) == part.subrange(from, to),
{
    assert forall|i: int| 0 <= i < to - from implies whole.subrange(start + from, start + to)[i]
        == part.subrange(from, to)[i] by {
        assert(whole.subrange(start, start + part.len())[from + i] == part[from + i]);
    }
    assert(whole.subrange(start + from, start + to) =~= part.subrange(from, to));
}

/// The fields of a header are read back from the bytes that begin with it.
proof fn lemma_header_fields(batch: OptimizedView, rest: Seq<u8>)
    ensures
        (header_bytes(batch) + rest).len() == HEADER_LEN + rest.len(),
        u64_at(header_bytes(batch) + rest, 0) == batch.batch_id,
        u64_at(header_bytes(batch) + rest, 8) == batch.timestamp,
        u32_at(header_bytes(batch) + rest, 16) == batch.channels_count,
        u32_at(header_bytes(batch) + rest, 20) == batch.samples_per_channel,
        u64_at(header_bytes(batch) + rest, 24) == batch.sample_rate,
{
    let id = spec_u64_to_le_bytes(batch.batch_id);
    let time = spec_u64_to_le_bytes(batch.timestamp);
    let channels = spec_u32_to_le_bytes(batch.channels_count);
    let samples = spec_u32_to_le_bytes(batch.samples_per_channel);
    let rate = spec_u64_to_le_bytes(batch.sample_rate);
    let bytes = header_bytes(batch) + rest;
    assert(id.len() == 8 && time.len() == 8 && channels.len() == 4 && samples.len() == 4
        && rate.len() == 8 && spec_u64_from_le_bytes(id) == batch.batch_id
        && spec_u64_from_le_bytes(time) == batch.timestamp && spec_u32_from_le_bytes(channels)
        == batch.channels_count && spec_u32_from_le_bytes(samples) == batch.samples_per_channel
        && spec_u64_from_le_bytes(rate) == batch.sample_rate) by {
        lemma_auto_spec_u32_to_from_le_bytes();
        lemma_auto_spec_u64_to_from_le_bytes();
    }
    assert(bytes =~= id + time + channels + samples + rate + rest);
    assert(bytes.subrange(0, 8) =~= id);
    assert(bytes.subrange(8, 16) =~= time);
    assert(bytes.subrange(16, 20) =~= channels);
    assert(bytes.subrange(20, 24) =~= samples);
    assert(bytes.subrange(24, 32) =~= rate);
}

/// Whatever a batch holds, the header fields of its frame are the batch's:
/// its id, timestamp, channel count, number of samples per channel and
/// sample rate.  They are what reading the frame gives for these fields.
pub proof fn lemma_frame_header_round_trip(batch: OptimizedView)
    ensures
        frame_bytes(batch).len() >= HEADER_LEN,
        u64_at(frame_bytes(batch), 0) == batch.batch_id,
        u64_at(frame_bytes(batch), 8) == batch.timestamp,
        u32_at(frame_bytes(batch), 16) == batch.channels_count,
        u32_at(frame_bytes(batch), 20) == batch.samples_per_channel,
        u64_at(frame_bytes(batch), 24) == batch.sample_rate,
{
    lemma_header_fields(batch, blocks_bytes(batch.channel_data));
}

/// Reading a frame gives back the batch it was built from, field by field
/// and sample by sample, provided every channel holds as many samples as
/// the batch says.
pub proof fn lemma_frame_round_trip(batch: OptimizedView)
    requires
        frame_readable(batch),
    ensures
        decode_frame(frame_bytes(batch)) == Some(batch),
{
    lemma_auto_spec_u32_to_from_le_bytes();
    lemma_auto_spec_u64_to_from_le_bytes();
    let bytes = frame_bytes(batch);
    let header = header_bytes(batch);
    let blocks = batch.channel_data;
    let body = blocks_bytes(blocks);
    let spc = batch.samples_per_channel;
    let len = block_len(spc);
    lemma_blocks_bytes_len(blocks, spc);
    assert(header.len() == 32);
    assert(bytes.subrange(0, 8) =~= spec_u64_to_le_bytes(batch.batch_id));
    assert(bytes.subrange(8, 16) =~= spec_u64_to_le_bytes(batch.timestamp));
    assert(bytes.subrange(16, 20) =~= spec_u32_to_le_bytes(batch.channels_count));
    assert(bytes.subrange(20, 24) =~= spec_u32_to_le_bytes(spc));
    assert(bytes.subrange(24, 32) =~= spec_u64_to_le_bytes(batch.sample_rate));
    assert(bytes.len() - 32 == blocks.len() * len);
    let count = blocks.len();
    assert((count * len) % len == 0 && (count * len) / len == count) by (nonlinear_arith)
        requires
            len > 0,
    ;
    let decoded = decode_frame(bytes)->0;
    assert(decoded.channel_data.len() == blocks.len());
    assert forall|c: int| 0 <= c < blocks.len() implies decoded.channel_data[c] == blocks[c] by {
        let start = 32 + c * len;
        let block = block_bytes(blocks[c]);
        lemma_blocks_bytes_at(blocks, spc, c);
        lemma_samples_bytes_len(blocks[c].samples);
        assert(bytes.subrange(start, start + len) =~= body.subrange(c * len, c * len + len));
        lemma_stretch(bytes, start, block, 0, 4);
        assert(block.subrange(0, 4) =~= spec_u32_to_le_bytes(blocks[c].channel_index));
        assert forall|i: int| 0 <= i < spc implies u32_at(bytes, start + 4 + 4 * i)
            == blocks[c].samples[i] by {
            lemma_stretch(bytes, start, block, 4 + 4 * i, 8 + 4 * i);
            lemma_samples_bytes_at(blocks[c].samples, i);
            assert(block.subrange(4 + 4 * i, 8 + 4 * i) =~= samples_bytes(
                blocks[c].samples,
            ).subrange(4 * i, 4 * i + 4));
        }
        assert(block_at(bytes, start, spc).samples =~= blocks[c].samples);
    }
    assert(decoded.channel_data =~= blocks);
}

/// Appends `bytes` to `buffer`.
fn append_bytes(buffer: &mut Vec<u8>, bytes: &Vec<u8>)
    ensures
        final(buffer)@ == old(buffer)@ + bytes@,
{
    let mut i: usize = 0;
    while i < bytes.len()
        invariant
            i <= bytes.len(),
            buffer@ == old(buffer)@ + bytes@.take(i as int),
        decreases bytes.len() - i,
    {
        buffer.push(bytes[i]);
        i += 1;
        assert(buffer@ =~= old(buffer)@ + bytes@.take(i as int));
    }
    assert(bytes@.take(bytes.len() as int) =~= bytes@);
}

/// Builds frames in a buffer that is kept between calls.
pub struct BinaryFrameBuilder {
    buffer: Vec<u8>,
}

impl BinaryFrameBuilder {
    /// The bytes of the frame built last.
    pub closed spec fn contents(&self) -> Seq<u8> {
        self.buffer@
    }

    /// A builder that has built nothing yet.
    pub fn new() -> (out: BinaryFrameBuilder)
        ensures
            out.contents() == Seq::<u8>::empty(),
    {
        BinaryFrameBuilder { buffer: Vec::with_capacity(65536) }
    }

    /// Appends the bytes of a run of samples.
    fn write_samples(&mut self, samples: &Vec<u32>)
        ensures
            final(self).contents() == old(self).contents() + samples_bytes(samples@),
    {
        let mut i: usize = 0;
        assert(samples@.take(0) =~= Seq::<u32>::empty());
        while i < samples.len()
            invariant
                i <= samples.len(),
                self.buffer@ == old(self).buffer@ + samples_bytes(samples@.take(i as int)),
            decreases samples.len() - i,
        {
            let bytes = u32_to_le_bytes(samples[i]);
            append_bytes(&mut self.buffer, &bytes);
            proof {
                let upto = samples@.take(i + 1);
                assert(upto.drop_last() =~= samples@.take(i as int));
                assert(upto.last() == samples[i as int]);
                assert(self.buffer@ =~= old(self).buffer@ + samples_bytes(upto));
            }
            i += 1;
        }
        assert(samples@.take(samples.len() as int) =~= samples@);
    }

    /// Builds the frame of a batch and returns its bytes.
    pub fn build_channel_major_frame(&mut self, batch: &OptimizedEegBatch) -> (out: Vec<u8>)
        ensures
            out@ == frame_bytes(batch@),
            final(self).contents() == frame_bytes(batch@),
    {
        self.buffer.clear();
        append_bytes(&mut self.buffer, &u64_to_le_bytes(batch.batch_id));
        append_bytes(&mut self.buffer, &u64_to_le_bytes(batch.timestamp));
        append_bytes(&mut self.buffer, &u32_to_le_bytes(batch.channels_count));
        append_bytes(&mut self.buffer, &u32_to_le_bytes(batch.samples_per_channel));
        append_bytes(&mut self.buffer, &u64_to_le_bytes(batch.sample_rate));
        assert(self.buffer@ =~= header_bytes(batch@));
        let ghost blocks = channels_view(batch.channel_data@);
        proof {
            reveal(blocks_bytes);
            assert(blocks.take(0) =~= Seq::<ChannelView>::empty());
        }
        let mut c: usize = 0;
        while c < batch.channel_data.len()
            invariant
                c <= batch.channel_data.len(),
                blocks == channels_view(batch.channel_data@),
                self.buffer@ == header_bytes(batch@) + blocks_bytes(blocks.take(c as int)),
            decreases batch.channel_data.len() - c,
        {
            let channel = &batch.channel_data[c];
            let ghost start = self.buffer@;
            append_bytes(&mut self.buffer, &u32_to_le_bytes(channel.channel_index));
            self.write_samples(&channel.samples);
            proof {
                reveal(blocks_bytes);
                let upto = blocks.take(c + 1);
                assert(upto.drop_last() =~= blocks.take(c as int));
                assert(upto.last() == channel@);
                assert(self.buffer@ =~= start + block_bytes(channel@));
                assert(self.buffer@ =~= header_bytes(batch@) + blocks_bytes(upto));
            }
            c += 1;
        }
        assert(blocks.take(batch.channel_data.len() as int) =~= blocks);
        let mut out: Vec<u8> = Vec::new();
        append_bytes(&mut out, &self.buffer);
        assert(out@ =~= self.buffer@);
        out
    }
}

/// The 32-bit field at `pos`.
fn read_u32(bytes: &Vec<u8>, pos: usize) -> (out: u32)
    requires
        pos + 4 <= bytes.len(),
    ensures
        out == u32_at(bytes@, pos as int),
{
    u32_from_le_bytes(slice_subrange(bytes.as_slice(), pos, pos + 4))
}

/// The 64-bit field at `pos`.
fn read_u64(bytes: &Vec<u8>, pos: usize) -> (out: u64)
    requires
        pos + 8 <= bytes.len(),
    ensures
        out == u64_at(bytes@, pos as int),
{
    u64_from_le_bytes(slice_subrange(bytes.as_slice(), pos, pos + 8))
}

/// Reads a frame.  The result is `None` where the bytes are no frame: where
/// they are too short for a header, or what follows the header is not a
/// whole number of blocks.
pub fn decode_channel_major_frame(bytes: &Vec<u8>) -> (out: Option<OptimizedEegBatch>)
    ensures
        match out {
            Some(batch) => decode_frame(bytes@) == Some(batch@),
            None => decode_frame(bytes@) is None,
        },
{
    if bytes.len() < HEADER_LEN {
        return None;
    }
    let batch_id = read_u64(bytes, 0);
    let timestamp = read_u64(bytes, 8);
    let channels_count = read_u32(bytes, 16);
    let samples_per_channel = read_u32(bytes, 20);
    let sample_rate = read_u64(bytes, 24);
    let len: u64 = 4 + 4 * (samples_per_channel as u64);
    let body: u64 = (bytes.len() - HEADER_LEN) as u64;
    if body % len != 0 {
        return None;
    }
    let count: u64 = body / len;
    let ghost expected = decode_frame(bytes@)->0;
    assert(count * len == body) by (nonlinear_arith)
        requires
            body % len == 0,
            count == body / len,
            len > 0,
    ;
    let mut channel_data: Vec<ChannelSamples> = Vec::new();
    let mut c: u64 = 0;
    while c < count
        invariant
            c <= count,
            bytes.len() >= HEADER_LEN,
            len == block_len(samples_per_channel),
            body == bytes.len() - HEADER_LEN,
            count * len == body,
            channel_data.len() == c,
            forall|k: int|
                0 <= k < c ==> (#[trigger] channel_data[k])@ == block_at(
                    bytes@,
                    HEADER_LEN + k * len,
                    samples_per_channel,
                ),
        decreases count - c,
    {
        assert(c * len + len <= count * len) by (nonlinear_arith)
            requires
                c < count,
                len > 0,
        ;
        let start: usize = HEADER_LEN + (c * len) as usize;
        let channel_index = read_u32(bytes, start);
        let mut samples: Vec<u32> = Vec::new();
        let mut i: u32 = 0;
        while i < samples_per_channel
            invariant
                i <= samples_per_channel,
                start + 4 + 4 * samples_per_channel <= bytes.len(),
                samples.len() == i,
                forall|k: int|
                    0 <= k < i ==> samples[k] == u32_at(bytes@, start + 4 + 4 * k),
            decreases samples_per_channel - i,
        {
            samples.push(read_u32(bytes, start + 4 + 4 * (i as usize)));
            i += 1;
        }
        let block = ChannelSamples { channel_index, samples };
        assert(block@.samples =~= block_at(bytes@, start as int, samples_per_channel).samples);
        channel_data.push(block);
        c += 1;
    }
    let out = OptimizedEegBatch {
        batch_id,
        timestamp,
        channels_count,
        samples_per_channel,
        sample_rate,
        channel_data,
    };
    assert(count == body as int / block_len(samples_per_channel));
    assert(out@.channel_data =~= expected.channel_data);
    Some(out)
}

} // verus!

//! The recording session.
//!
//! A session buffers the incoming samples per channel and hands out a data
//! record as soon as every channel holds a record's worth of values.  The
//! file itself is written by the caller, record by record, in the order in
//! which the session hands them out; closing the session hands out the last,
//! zero-padded record.

use crate::data_types::{EegSample, SampleView, StreamInfo};
use crate::error::{joined, AppError, ErrorView};
use crate::float_bits::{
    f64_bits_from_u32, f64_bits_of_nat, f64_negated, f64_rounded, negate_f64, round_f64_to_u64,
    F64_FRACTION_SPAN, F64_INFINITY, F64_ONE,
};
use crate::float_ratio::{divide_f64, f64_bits_from_u64, f64_bits_of_count, f64_quotient};
use vstd::arithmetic::power2::{lemma2_to64, lemma2_to64_rest, lemma_pow2_strictly_increases, pow2};
use crate::text::{decimal_digits, decimal_text, two_digit_text, two_digits};
use chrono::DateTime;
use std::collections::VecDeque;
use vstd::arithmetic::div_mod::lemma_fundamental_div_mod_converse;
use vstd::prelude::*;
use vstd::string::*;

verus! {

/// The largest physical value of a signal, in microvolts.
pub const PHYSICAL_RANGE_UV: u32 = 100;

/// The largest digital value of a signal.
pub const DIGITAL_MAX: i32 = 32767;

/// The smallest digital value of a signal.
pub const DIGITAL_MIN: i32 = -32768;

/// How one channel is described in the file's header.
#[derive(Clone, Debug, PartialEq, Eq)]
pub struct SignalParam {
    pub label: String,
    pub samples_in_file: i64,
    /// As binary64 bits.
    pub physical_max: u64,
    /// As binary64 bits.
    pub physical_min: u64,
    pub digital_max: i32,
    pub digital_min: i32,
    pub samples_per_record: i32,
    pub physical_dimension: String,
    pub prefilter: String,
    pub transducer: String,
}

/// Mathematical content of a [`SignalParam`].
pub struct SignalView {
    pub label: Seq<char>,
    pub samples_in_file: i64,
    pub physical_max: u64,
    pub physical_min: u64,
    pub digital_max: i32,
    pub digital_min: i32,
    pub samples_per_record: i32,
    pub physical_dimension: Seq<char>,
    pub prefilter: Seq<char>,
    pub transducer: Seq<char>,
}

impl View for SignalParam {
    type V = SignalView;

    open spec fn view(&self) -> SignalView {
        SignalView {
            label: self.label@,
            samples_in_file: self.samples_in_file,
            physical_max: self.physical_max,
            physical_min: self.physical_min,
            digital_max: self.digital_max,
            digital_min: self.digital_min,
            samples_per_record: self.samples_per_record,
            physical_dimension: self.physical_dimension@,
            prefilter: self.prefilter@,
            transducer: self.transducer@,
        }
    }
}

/// What a session reports about itself.
#[derive(Clone, Debug, PartialEq, Eq)]
pub struct RecordingStats {
    pub filename: String,
    /// Seconds, as binary64 bits.
    pub duration_seconds: u64,
    pub samples_written: u64,
    pub channels_count: u32,
    /// Nominal rate in Hz, as binary64 bits.
    pub sample_rate: u64,
    /// Seconds since the Unix epoch.
    pub start_time: i64,
    pub file_size_bytes: u64,
}

/// Mathematical content of a [`RecordingStats`].
pub struct StatsView {
    pub filename: Seq<char>,
    pub duration_seconds: u64,
    pub samples_written: u64,
    pub channels_count: u32,
    pub sample_rate: u64,
    pub start_time: i64,
    pub file_size_bytes: u64,
}

impl View for RecordingStats {
    type V = StatsView;

    open spec fn view(&self) -> StatsView {
        StatsView {
            filename: self.filename@,
            duration_seconds: self.duration_seconds,
            samples_written: self.samples_written,
            channels_count: self.channels_count,
            sample_rate: self.sample_rate,
            start_time: self.start_time,
            file_size_bytes: self.file_size_bytes,
        }
    }
}

/// What closing a session leaves to be done and reported.
#[derive(Clone, Debug, PartialEq, Eq)]
pub struct RecordingClose {
    /// The last record, if values were still buffered.
    pub final_record: Option<Vec<Vec<u64>>>,
    pub stats: RecordingStats,
}

/// The rows of a record, in channel order.
pub open spec fn rows_view(rows: Seq<Vec<u64>>) -> Seq<Seq<u64>> {
    Seq::new(rows.len(), |c: int| rows[c]@)
}

/// The value of channel `c` in a sample, and `+0.0` where the sample has no
/// such channel.
pub open spec fn value_or_zero(channels: Seq<u64>, c: int) -> u64 {
    if 0 <= c < channels.len() {
        channels[c]
    } else {
        0
    }
}

/// The buffers after one sample: every buffer grows by its channel's value.
pub open spec fn buffers_after(buffers: Seq<Seq<u64>>, sample: SampleView) -> Seq<Seq<u64>> {
    Seq::new(buffers.len(), |c: int| buffers[c].push(value_or_zero(sample.channels, c)))
}

/// A buffer filled up with `+0.0` to `len` values.
pub open spec fn padded(buffer: Seq<u64>, len: nat) -> Seq<u64> {
    Seq::new(
        len,
        |i: int|
            if i < buffer.len() {
                buffer[i]
            } else {
                0u64
            },
    )
}

/// Every buffer filled up with `+0.0` to `len` values.
pub open spec fn padded_rows(buffers: Seq<Seq<u64>>, len: nat) -> Seq<Seq<u64>> {
    Seq::new(buffers.len(), |c: int| padded(buffers[c], len))
}

/// `count` empty buffers.
pub open spec fn empty_buffers(count: nat) -> Seq<Seq<u64>> {
    Seq::new(count, |c: int| Seq::<u64>::empty())
}

/// The number of values per channel in one record of a stream: its rate
/// times the record's duration of one second, rounded.
pub open spec fn record_length(sample_rate: u64) -> int {
    f64_rounded(sample_rate)
}

/// The time that `samples` samples take at the given rate, in seconds and
/// as binary64 bits: the number of samples divided by the rate.  Both the
/// number of samples and the quotient are taken to the nearest binary64
/// value.
pub open spec fn duration_of(samples: u64, sample_rate: u64) -> int
    recommends
        0 < sample_rate < F64_INFINITY,
{
    if samples == 0 {
        0
    } else {
        f64_quotient(f64_bits_of_count(samples) as u64, sample_rate)
    }
}

/// A rate that gives a record of at least one value, and not more than the
/// file format can name, is positive and finite.
pub proof fn lemma_rate_in_range(sample_rate: u64)
    requires
        1 <= record_length(sample_rate) <= i32::MAX,
    ensures
        0 < sample_rate < F64_INFINITY,
{
    lemma2_to64();
    lemma2_to64_rest();
    if sample_rate == F64_INFINITY {
        lemma_pow2_strictly_increases(12, 972);
        assert(sample_rate / F64_FRACTION_SPAN == 2047);
        assert(sample_rate % F64_FRACTION_SPAN == 0);
        assert(pow2(52) * pow2(972) > u64::MAX) by (nonlinear_arith)
            requires
                pow2(52) == 0x10_0000_0000_0000,
                pow2(972) > 0x1000,
        ;
    }
}

/// The time that `samples` samples take at the given rate.
pub fn duration_seconds(samples: u64, sample_rate: u64) -> (out: u64)
    requires
        0 < sample_rate < F64_INFINITY,
    ensures
        out == duration_of(samples, sample_rate),
{
    if samples == 0 {
        0
    } else {
        divide_f64(f64_bits_from_u64(samples), sample_rate)
    }
}

/// Why no session can be opened on a stream, if so.
pub open spec fn session_error(channels_count: u32, sample_rate: u64) -> Option<ErrorView> {
    if channels_count == 0 {
        Some(ErrorView::Config("Channel count must be positive"@))
    } else if record_length(sample_rate) < 1 || record_length(sample_rate) > i32::MAX {
        Some(ErrorView::Config("Sample rate out of range"@))
    } else {
        None
    }
}

/// The label of the channel with index `c`: channels are numbered from 1.
pub open spec fn channel_label(c: nat) -> Seq<char> {
    "EEG Ch"@ + two_digits(c + 1)
}

/// The header entry of the channel with index `c`.
pub open spec fn signal_of(c: nat, samples_per_record: i32) -> SignalView {
    SignalView {
        label: channel_label(c),
        samples_in_file: 0,
        physical_max: f64_bits_of_nat(PHYSICAL_RANGE_UV as nat) as u64,
        physical_min: f64_negated(f64_bits_of_nat(PHYSICAL_RANGE_UV as nat) as u64),
        digital_max: DIGITAL_MAX,
        digital_min: DIGITAL_MIN,
        samples_per_record,
        physical_dimension: "uV"@,
        prefilter: "HP:0.1Hz LP:70Hz"@,
        transducer: "AgAgCl electrodes"@,
    }
}

/// The recording information of a session that was given none.
pub open spec fn default_info(source_id: Seq<char>, start_text: Seq<char>) -> Seq<char> {
    "EEG Recording from "@ + source_id + " at "@ + start_text
}

/// The text of a point in time, given in seconds since the Unix epoch, as
/// year, month, day, hour, minute and second in UTC; `None` for a point
/// outside the calendar's range.
pub uninterp spec fn utc_text(secs: i64) -> Option<Seq<char>>;

/// `chrono::DateTime::format` of the UTC time `secs` seconds after the Unix
/// epoch, with the pattern `%Y-%m-%d %H:%M:%S`.  The text depends on `secs`
/// alone; there is none where `DateTime::from_timestamp` has no such time.
#[verifier::external_body]
fn format_utc(secs: i64) -> (out: Option<String>)
    ensures
        match out {
            Some(text) => utc_text(secs) == Some(text@),
            None => utc_text(secs) is None,
        },
{
    match DateTime::from_timestamp(secs, 0) {
        Some(time) => Some(time.format("%Y-%m-%d %H:%M:%S").to_string()),
        None => None,
    }
}

/// The error of a recording file that could not be created.
pub fn creation_failure(detail: &str) -> (out: AppError)
    ensures
        out@ == ErrorView::Io("Failed to create EDF file: "@ + detail@),
{
    AppError::Io(joined("Failed to create EDF file: ", detail))
}

/// The error of a channel that the file's header did not take.
pub fn signal_failure(channel: u32, detail: &str) -> (out: AppError)
    ensures
        out@ == ErrorView::Recording(
            "Failed to add signal "@ + decimal_digits(channel as nat) + ": "@ + detail@,
        ),
{
    let number = decimal_text(channel);
    let mut text = joined("Failed to add signal ", number.as_str());
    text.append(": ");
    text.append(detail);
    AppError::Recording(text)
}

/// The error of a record that could not be written.
pub fn write_failure(detail: &str) -> (out: AppError)
    ensures
        out@ == ErrorView::Recording("Failed to write data record: "@ + detail@),
{
    AppError::Recording(joined("Failed to write data record: ", detail))
}

/// The error of a file that could not be completed.
pub fn finalize_failure(detail: &str) -> (out: AppError)
    ensures
        out@ == ErrorView::Recording("Failed to finalize EDF file: "@ + detail@),
{
    AppError::Recording(joined("Failed to finalize EDF file: ", detail))
}

/// The text of a reason, if there is one.
pub open spec fn reason_view(reason: Option<String>) -> Option<Seq<char>> {
    match reason {
        Some(detail) => Some(detail@),
        None => None,
    }
}

/// Why closing a session failed, if so.  A file that could not be completed
/// is the failure that counts; a last record that could not be written
/// counts where the file was completed all the same.
pub open spec fn closing_error(
    last_write: Option<Seq<char>>,
    finalize: Option<Seq<char>>,
) -> Option<ErrorView> {
    match (finalize, last_write) {
        (Some(detail), _) => Some(
            ErrorView::Recording("Failed to finalize EDF file: "@ + detail),
        ),
        (None, Some(detail)) => Some(
            ErrorView::Recording("Failed to write data record: "@ + detail),
        ),
        (None, None) => None,
    }
}

/// What closing a session comes to, given what went wrong when the last
/// record was written and when the file was completed.  The file is to be
/// completed whether or not the last record could be written.
pub fn closing_outcome(last_write: Option<String>, finalize: Option<String>) -> (out: Result<
    (),
    AppError,
>)
    ensures
        match out {
            Ok(_) => closing_error(reason_view(last_write), reason_view(finalize)) is None,
            Err(error) => closing_error(reason_view(last_write), reason_view(finalize)) == Some(
                error@,
            ),
        },
{
    match finalize {
        Some(detail) => Err(finalize_failure(detail.as_str())),
        None => match last_write {
            Some(detail) => Err(write_failure(detail.as_str())),
            None => Ok(()),
        },
    }
}

/// Takes a record out of the buffers: from every buffer its values, filled
/// up with `+0.0` to the record's length.
fn drain_padded(buffers: &mut Vec<VecDeque<u64>>, samples_per_record: usize) -> (record: Vec<
    Vec<u64>,
>)
    requires
        forall|c: int|
            0 <= c < old(buffers).len() ==> (#[trigger] old(buffers)[c])@.len()
                <= samples_per_record,
    ensures
        final(buffers).len() == old(buffers).len(),
        forall|c: int|
            0 <= c < final(buffers).len() ==> (#[trigger] final(buffers)[c])@
                == Seq::<u64>::empty(),
        record.len() == old(buffers).len(),
        forall|c: int|
            0 <= c < record.len() ==> (#[trigger] record[c])@ == padded(
                old(buffers)[c]@,
                samples_per_record as nat,
            ),
{
    let ghost before = buffers@;
    let n = buffers.len();
    let mut record: Vec<Vec<u64>> = Vec::new();
    let mut c: usize = 0;
    while c < n
        invariant
            n == buffers.len(),
            n == before.len(),
            c <= n,
            record.len() == c,
            forall|k: int| 0 <= k < n ==> (#[trigger] before[k])@.len() <= samples_per_record,
            forall|k: int| 0 <= k < c ==> (#[trigger] buffers[k])@ == Seq::<u64>::empty(),
            forall|k: int| c <= k < n ==> (#[trigger] buffers[k]) == before[k],
            forall|k: int|
                0 <= k < c ==> (#[trigger] record[k])@ == padded(
                    before[k]@,
                    samples_per_record as nat,
                ),
        decreases n - c,
    {
        let ghost full = before[c as int]@;
        let mut row: Vec<u64> = Vec::new();
        let mut i: usize = 0;
        while i < samples_per_record
            invariant
                n == buffers.len(),
                c < n,
                i <= samples_per_record,
                full.len() <= samples_per_record,
                row.len() == i,
                forall|k: int| 0 <= k < i ==> row[k] == padded(full, samples_per_record as nat)[k],
                buffers[c as int]@ == if i < full.len() {
                    full.skip(i as int)
                } else {
                    Seq::<u64>::empty()
                },
                forall|k: int| 0 <= k < c ==> (#[trigger] buffers[k])@ == Seq::<u64>::empty(),
                forall|k: int| c < k < n ==> (#[trigger] buffers[k]) == before[k],
            decreases samples_per_record - i,
        {
            let front = buffers[c].pop_front();
            match front {
                Some(value) => {
                    row.push(value);
                    assert(full.skip(i as int).subrange(1, full.skip(i as int).len() as int)
                        =~= full.skip(i + 1));
                },
                None => {
                    row.push(0);
                },
            }
            i += 1;
        }
        assert(row@ =~= padded(full, samples_per_record as nat));
        record.push(row);
        c += 1;
    }
    record
}

/// A recording session.
pub struct EdfRecorder {
    filename: String,
    stream_info: StreamInfo,
    samples_written: u64,
    channel_buffers: Vec<VecDeque<u64>>,
    samples_per_record: usize,
    record_duration_sec: u64,
    records_flushed: u64,
    flush_errors: u64,
    start_time: i64,
    patient_id: String,
    recording_info: String,
}

impl EdfRecorder {
    /// The buffered values, in channel order, each oldest value first.
    pub closed spec fn buffers(&self) -> Seq<Seq<u64>> {
        Seq::new(self.channel_buffers.len() as nat, |c: int| self.channel_buffers[c]@)
    }

    /// The number of values per channel in one record.
    pub closed spec fn samples_per_record(&self) -> nat {
        self.samples_per_record as nat
    }

    /// The number of samples taken in so far.
    pub closed spec fn samples(&self) -> nat {
        self.samples_written as nat
    }

    /// The number of records handed out so far.
    pub closed spec fn records(&self) -> nat {
        self.records_flushed as nat
    }

    /// The number of records that could not be written.
    pub closed spec fn errors(&self) -> nat {
        self.flush_errors as nat
    }

    /// The stream that is recorded.
    pub closed spec fn stream(&self) -> StreamInfo {
        self.stream_info
    }

    /// The name of the file.
    pub closed spec fn file(&self) -> Seq<char> {
        self.filename@
    }

    /// The start of the session, in seconds since the Unix epoch.
    pub closed spec fn started(&self) -> i64 {
        self.start_time
    }

    /// The patient the session is filed under.
    pub closed spec fn patient(&self) -> Seq<char> {
        self.patient_id@
    }

    /// The free-text description of the session.
    pub closed spec fn info(&self) -> Seq<char> {
        self.recording_info@
    }

    /// The duration of a record in seconds, as binary64 bits.
    pub closed spec fn record_duration(&self) -> u64 {
        self.record_duration_sec
    }

    /// The number of values that every channel holds in its buffer.
    pub open spec fn buffered(&self) -> nat {
        self.buffers()[0].len()
    }

    /// The invariant of a session: there is a channel; a record holds one
    /// second of the stream and has a length that the file format can name;
    /// all buffers hold equally many values, fewer than a record; and every
    /// sample taken in has either left in a record or is buffered.
    pub open spec fn wf(&self) -> bool {
        &&& self.buffers().len() == self.stream().channels_count
        &&& self.buffers().len() > 0
        &&& self.samples_per_record() == record_length(self.stream().sample_rate)
        &&& 0 < self.samples_per_record() <= i32::MAX
        &&& forall|c: int|
            0 <= c < self.buffers().len() ==> (#[trigger] self.buffers()[c]).len()
                == self.buffered()
        &&& self.buffered() < self.samples_per_record()
        &&& self.records() * self.samples_per_record() + self.buffered() == self.samples()
    }

    /// What the session reports about itself.
    pub open spec fn stats(&self) -> StatsView {
        StatsView {
            filename: self.file(),
            duration_seconds: duration_of(self.samples() as u64, self.stream().sample_rate) as u64,
            samples_written: self.samples() as u64,
            channels_count: self.stream().channels_count,
            sample_rate: self.stream().sample_rate,
            start_time: self.started(),
            file_size_bytes: 0,
        }
    }

    /// Opens a session that starts at the given time.
    ///
    /// The stream must have a channel, and its rate must give a record
    /// between 1 and `i32::MAX` values long; otherwise the configuration is
    /// rejected.  A session without a patient is filed under `Unknown`; one
    /// without a description gets one made of the stream's source and
    /// `start_text`.
    pub fn with_start(
        filename: String,
        stream_info: StreamInfo,
        patient_id: Option<String>,
        recording_info: Option<String>,
        start_time: i64,
        start_text: &str,
    ) -> (out: Result<EdfRecorder, AppError>)
        ensures
            match out {
                Ok(session) => {
                    &&& session_error(stream_info.channels_count, stream_info.sample_rate) is None
                    &&& session.wf()
                    &&& session.file() == filename@
                    &&& session.stream() == stream_info
                    &&& session.samples_per_record() == record_length(stream_info.sample_rate)
                    &&& session.record_duration() == F64_ONE
                    &&& session.buffers() == empty_buffers(stream_info.channels_count as nat)
                    &&& session.samples() == 0
                    &&& session.records() == 0
                    &&& session.errors() == 0
                    &&& session.started() == start_time
                    &&& session.patient() == match patient_id {
                        Some(id) => id@,
                        None => "Unknown"@,
                    }
                    &&& session.info() == match recording_info {
                        Some(text) => text@,
                        None => default_info(stream_info.source_id@, start_text@),
                    }
                },
                Err(error) => session_error(stream_info.channels_count, stream_info.sample_rate)
                    == Some(error@),
            },
    {
        if stream_info.channels_count == 0 {
            return Err(AppError::Config(String::from_str("Channel count must be positive")));
        }
        let rounded = round_f64_to_u64(stream_info.sample_rate);
        if rounded < 1 || rounded > 0x7FFF_FFFF {
            return Err(AppError::Config(String::from_str("Sample rate out of range")));
        }
        let samples_per_record = rounded as usize;
        let patient_id = match patient_id {
            Some(id) => id,
            None => String::from_str("Unknown"),
        };
        let recording_info = match recording_info {
            Some(text) => text,
            None => {
                let mut text = joined("EEG Recording from ", stream_info.source_id.as_str());
                text.append(" at ");
                text.append(start_text);
                text
            },
        };
        let mut channel_buffers: Vec<VecDeque<u64>> = Vec::new();
        let mut c: u32 = 0;
        while c < stream_info.channels_count
            invariant
                c <= stream_info.channels_count,
                channel_buffers.len() == c,
                forall|k: int|
                    0 <= k < c ==> (#[trigger] channel_buffers[k])@ == Seq::<u64>::empty(),
            decreases stream_info.channels_count - c,
        {
            channel_buffers.push(VecDeque::new());
            c += 1;
        }
        let session = EdfRecorder {
            filename,
            stream_info,
            samples_written: 0,
            channel_buffers,
            samples_per_record,
            record_duration_sec: F64_ONE,
            records_flushed: 0,
            flush_errors: 0,
            start_time,
            patient_id,
            recording_info,
        };
        assert(session.buffers() =~= empty_buffers(stream_info.channels_count as nat));
        assert(session.records() * session.samples_per_record() == 0) by (nonlinear_arith)
            requires
                session.records() == 0,
        ;
        Ok(session)
    }

    /// Opens a session that starts at the given time, in seconds since the
    /// Unix epoch.
    ///
    /// The session is the one that [`EdfRecorder::with_start`] opens with
    /// the text of that time in UTC, or with no text where the time lies
    /// outside the calendar.
    pub fn new(
        filename: String,
        stream_info: StreamInfo,
        patient_id: Option<String>,
        recording_info: Option<String>,
        start_time: i64,
    ) -> (out: Result<EdfRecorder, AppError>)
        ensures
            match out {
                Ok(session) => {
                    &&& session_error(stream_info.channels_count, stream_info.sample_rate) is None
                    &&& session.wf()
                    &&& session.file() == filename@
                    &&& session.stream() == stream_info
                    &&& session.samples_per_record() == record_length(stream_info.sample_rate)
                    &&& session.record_duration() == F64_ONE
                    &&& session.buffers() == empty_buffers(stream_info.channels_count as nat)
                    &&& session.samples() == 0
                    &&& session.records() == 0
                    &&& session.errors() == 0
                    &&& session.started() == start_time
                    &&& session.patient() == match patient_id {
                        Some(id) => id@,
                        None => "Unknown"@,
                    }
                    &&& session.info() == match recording_info {
                        Some(text) => text@,
                        None => default_info(
                            stream_info.source_id@,
                            match utc_text(start_time) {
                                Some(text) => text,
                                None => Seq::<char>::empty(),
                            },
                        ),
                    }
                },
                Err(error) => session_error(stream_info.channels_count, stream_info.sample_rate)
                    == Some(error@),
            },
    {
        let start_text = match format_utc(start_time) {
            Some(text) => text,
            None => String::new(),
        };
        EdfRecorder::with_start(
            filename,
            stream_info,
            patient_id,
            recording_info,
            start_time,
            start_text.as_str(),
        )
    }

    /// The number of values per channel in one record.
    pub fn record_len(&self) -> (n: usize)
        ensures
            n == self.samples_per_record(),
    {
        self.samples_per_record
    }

    /// The patient the session is filed under.
    pub fn patient_id(&self) -> (out: String)
        ensures
            out@ == self.patient(),
    {
        self.patient_id.clone()
    }

    /// The free-text description of the session.
    pub fn recording_info(&self) -> (out: String)
        ensures
            out@ == self.info(),
    {
        self.recording_info.clone()
    }

    /// The number of samples taken in so far.
    pub fn samples_written(&self) -> (n: u64)
        ensures
            n == self.samples(),
    {
        self.samples_written
    }

    /// The number of records handed out so far.
    pub fn records_flushed(&self) -> (n: u64)
        ensures
            n == self.records(),
    {
        self.records_flushed
    }

    /// The number of records that could not be written.
    pub fn flush_errors(&self) -> (n: u64)
        ensures
            n == self.errors(),
    {
        self.flush_errors
    }

    /// The number of values that every channel holds in its buffer.
    pub fn buffered_len(&self) -> (n: usize)
        requires
            self.wf(),
        ensures
            n == self.buffered(),
    {
        self.channel_buffers[0].len()
    }

    /// The header entries of the channels, in channel order.
    pub fn signal_params(&self) -> (out: Vec<SignalParam>)
        requires
            self.wf(),
        ensures
            out.len() == self.stream().channels_count,
            forall|c: int|
                0 <= c < out.len() ==> (#[trigger] out[c])@ == signal_of(
                    c as nat,
                    self.samples_per_record() as i32,
                ),
    {
        let physical_max = f64_bits_from_u32(PHYSICAL_RANGE_UV);
        let physical_min = negate_f64(physical_max);
        let mut out: Vec<SignalParam> = Vec::new();
        let mut c: u32 = 0;
        while c < self.stream_info.channels_count
            invariant
                self.wf(),
                c <= self.stream_info.channels_count,
                out.len() == c,
                physical_max == f64_bits_of_nat(PHYSICAL_RANGE_UV as nat),
                physical_min == f64_negated(physical_max),
                forall|k: int|
                    0 <= k < c ==> (#[trigger] out[k])@ == signal_of(
                        k as nat,
                        self.samples_per_record() as i32,
                    ),
            decreases self.stream_info.channels_count - c,
        {
            let number = two_digit_text(c + 1);
            out.push(
                SignalParam {
                    label: joined("EEG Ch", number.as_str()),
                    samples_in_file: 0,
                    physical_max,
                    physical_min,
                    digital_max: DIGITAL_MAX,
                    digital_min: DIGITAL_MIN,
                    samples_per_record: self.samples_per_record as i32,
                    physical_dimension: String::from_str("uV"),
                    prefilter: String::from_str("HP:0.1Hz LP:70Hz"),
                    transducer: String::from_str("AgAgCl electrodes"),
                },
            );
            c += 1;
        }
        out
    }

    /// Takes in one sample.
    ///
    /// Every channel's buffer grows by the sample's value for that channel,
    /// or by `+0.0` where the sample has none; values beyond the session's
    /// channels are ignored.  If the buffers then hold a record's worth of
    /// values, those leave as a record, in channel order, and the buffers
    /// are empty again.  So after every sample the records that have left
    /// are the samples taken in over the record length, rounded down, and
    /// the buffers hold the remainder, which is less than a record.
    pub fn write_sample(&mut self, sample: &EegSample) -> (record: Option<Vec<Vec<u64>>>)
        requires
            old(self).wf(),
            old(self).samples() < u64::MAX,
        ensures
            final(self).wf(),
            final(self).samples() == old(self).samples() + 1,
            final(self).samples_per_record() == old(self).samples_per_record(),
            final(self).stream() == old(self).stream(),
            final(self).file() == old(self).file(),
            final(self).started() == old(self).started(),
            final(self).errors() == old(self).errors(),
            final(self).records() == final(self).samples() / final(self).samples_per_record(),
            final(self).buffered() == final(self).samples() % final(self).samples_per_record(),
            match record {
                Some(rows) => {
                    &&& old(self).buffered() + 1 == old(self).samples_per_record()
                    &&& rows_view(rows@) == buffers_after(old(self).buffers(), sample@)
                    &&& final(self).buffers() == empty_buffers(old(self).buffers().len())
                    &&& final(self).records() == old(self).records() + 1
                },
                None => {
                    &&& old(self).buffered() + 1 < old(self).samples_per_record()
                    &&& final(self).buffers() == buffers_after(old(self).buffers(), sample@)
                    &&& final(self).records() == old(self).records()
                },
            },
    {
        let ghost before = self.buffers();
        let ghost grown = buffers_after(before, sample@);
        let n = self.channel_buffers.len();
        let mut c: usize = 0;
        while c < n
            invariant
                n == self.channel_buffers.len(),
                n == before.len(),
                c <= n,
                grown == buffers_after(before, sample@),
                self.filename == old(self).filename,
                self.stream_info == old(self).stream_info,
                self.samples_written == old(self).samples_written,
                self.samples_per_record == old(self).samples_per_record,
                self.records_flushed == old(self).records_flushed,
                self.flush_errors == old(self).flush_errors,
                self.start_time == old(self).start_time,
                forall|k: int| 0 <= k < c ==> (#[trigger] self.channel_buffers[k])@ == grown[k],
                forall|k: int| c <= k < n ==> (#[trigger] self.channel_buffers[k])@ == before[k],
            decreases n - c,
        {
            let value = if c < sample.channels.len() {
                sample.channels[c]
            } else {
                0
            };
            self.channel_buffers[c].push_back(value);
            c += 1;
        }
        assert(self.buffers() =~= grown);
        self.samples_written = self.samples_written + 1;
        let ghost spr = self.samples_per_record as int;
        let ghost recs = old(self).records_flushed as int;
        let record = if self.channel_buffers[0].len() >= self.samples_per_record {
            let rows = drain_padded(&mut self.channel_buffers, self.samples_per_record);
            proof {
                assert((recs + 1) * spr == recs * spr + spr) by (nonlinear_arith);
                assert(recs * spr >= recs) by (nonlinear_arith)
                    requires
                        recs >= 0,
                        spr >= 1,
                ;
            }
            self.records_flushed = self.records_flushed + 1;
            proof {
                assert(self.buffers() =~= empty_buffers(before.len()));
                assert forall|k: int| 0 <= k < rows.len() implies (#[trigger] rows[k])@
                    == grown[k] by {
                    assert(padded(grown[k], spr as nat) =~= grown[k]);
                }
                assert(rows_view(rows@) =~= grown);
            }
            Some(rows)
        } else {
            None
        };
        proof {
            self.lemma_record_count();
        }
        record
    }

    /// Notes an annotation.  The file format's writer takes none, so the
    /// session stays as it is.
    pub fn write_annotation(&mut self, timestamp: u64, description: &str) -> (out: Result<
        (),
        AppError,
    >)
        ensures
            out is Ok,
            *final(self) == *old(self),
    {
        Ok(())
    }

    /// Counts a record that could not be written.  The session goes on.
    pub fn record_flush_failure(&mut self)
        requires
            old(self).wf(),
            old(self).errors() < u64::MAX,
        ensures
            final(self).wf(),
            final(self).errors() == old(self).errors() + 1,
            final(self).buffers() == old(self).buffers(),
            final(self).samples() == old(self).samples(),
            final(self).records() == old(self).records(),
            final(self).samples_per_record() == old(self).samples_per_record(),
            final(self).stream() == old(self).stream(),
            final(self).file() == old(self).file(),
            final(self).started() == old(self).started(),
    {
        self.flush_errors = self.flush_errors + 1;
    }

    /// What the session reports about itself.  The duration is the number
    /// of samples taken in divided by the sample rate.
    pub fn get_recording_stats(&self) -> (out: RecordingStats)
        requires
            self.wf(),
        ensures
            out@ == self.stats(),
    {
        proof {
            lemma_rate_in_range(self.stream_info.sample_rate);
        }
        RecordingStats {
            filename: self.filename.clone(),
            duration_seconds: duration_seconds(self.samples_written, self.stream_info.sample_rate),
            samples_written: self.samples_written,
            channels_count: self.stream_info.channels_count,
            sample_rate: self.stream_info.sample_rate,
            start_time: self.start_time,
            file_size_bytes: 0,
        }
    }

    /// Closes the session.
    ///
    /// If values are still buffered, they leave as the last record, every
    /// channel filled up with `+0.0` to the record's length.  The report is
    /// the one the session gave just before.
    pub fn close(self) -> (out: RecordingClose)
        requires
            self.wf(),
        ensures
            out.stats@ == self.stats(),
            match out.final_record {
                Some(rows) => {
                    &&& self.buffered() > 0
                    &&& rows_view(rows@) == padded_rows(self.buffers(), self.samples_per_record())
                },
                None => self.buffered() == 0,
            },
    {
        let stats = self.get_recording_stats();
        let mut session = self;
        if session.channel_buffers[0].len() > 0 {
            assert forall|c: int| 0 <= c < session.channel_buffers.len() implies (
            #[trigger] session.channel_buffers[c])@.len() <= session.samples_per_record by {
                assert(self.buffers()[c].len() == self.buffered());
            }
            let rows = drain_padded(&mut session.channel_buffers, session.samples_per_record);
            assert(rows_view(rows@) =~= padded_rows(self.buffers(), self.samples_per_record()));
            RecordingClose { final_record: Some(rows), stats }
        } else {
            RecordingClose { final_record: None, stats }
        }
    }

    /// The records of a session are counted by its samples: after `S`
    /// samples, `S / n` records of `n` values have left and `S % n` values
    /// are buffered, so that closing brings the number of records to `S / n`
    /// rounded up.
    pub proof fn lemma_record_count(&self)
        requires
            self.wf(),
        ensures
            self.records() == self.samples() / self.samples_per_record(),
            self.buffered() == self.samples() % self.samples_per_record(),
            self.records() + (if self.buffered() > 0 {
                1nat
            } else {
                0nat
            }) == (self.samples() + self.samples_per_record() - 1) / (
            self.samples_per_record() as int),
    {
        let n = self.samples_per_record() as int;
        let q = self.records() as int;
        let r = self.buffered() as int;
        let s = self.samples() as int;
        lemma_fundamental_div_mod_converse(s, n, q, r);
        if r > 0 {
            assert(s + n - 1 == (q + 1) * n + (r - 1)) by (nonlinear_arith)
                requires
                    s == q * n + r,
            ;
            lemma_fundamental_div_mod_converse(s + n - 1, n, q + 1, r - 1);
        } else {
            lemma_fundamental_div_mod_converse(s + n - 1, n, q, n - 1);
        }
    }
}

} // verus!

//! The error type shared by every component of the pipeline.

use vstd::prelude::*;
use vstd::string::*;

verus! {

/// What can go wrong in the pipeline.
#[derive(Clone, Debug, PartialEq, Eq)]
pub enum AppError {
    /// The stream source reported a failure or the stream was not found.
    Lsl(String),
    /// A file could not be created or written.
    Io(String),
    /// A producer or every consumer of a channel has gone away.
    Channel(String),
    /// The spectral analysis could not be carried out.
    Fft(String),
    /// The recording session failed.
    Recording(String),
    /// No stream is connected.
    NotConnected,
    /// The request contradicts the current configuration.
    Config(String),
}

/// Mathematical content of an [`AppError`].
pub enum ErrorView {
    Lsl(Seq<char>),
    Io(Seq<char>),
    Channel(Seq<char>),
    Fft(Seq<char>),
    Recording(Seq<char>),
    NotConnected,
    Config(Seq<char>),
}

impl View for AppError {
    type V = ErrorView;

    open spec fn view(&self) -> ErrorView {
        match self {
            AppError::Lsl(detail) => ErrorView::Lsl(detail@),
            AppError::Io(detail) => ErrorView::Io(detail@),
            AppError::Channel(detail) => ErrorView::Channel(detail@),
            AppError::Fft(detail) => ErrorView::Fft(detail@),
            AppError::Recording(detail) => ErrorView::Recording(detail@),
            AppError::NotConnected => ErrorView::NotConnected,
            AppError::Config(detail) => ErrorView::Config(detail@),
        }
    }
}

/// The text that describes an error: a heading for its kind, followed by
/// the detail it carries.
pub open spec fn message_of(error: ErrorView) -> Seq<char> {
    match error {
        ErrorView::Lsl(detail) => "LSL error: "@ + detail,
        ErrorView::Io(detail) => "IO error: "@ + detail,
        ErrorView::Channel(detail) => "Channel communication error: "@ + detail,
        ErrorView::Fft(detail) => "FFT calculation error: "@ + detail,
        ErrorView::Recording(detail) => "Recording error: "@ + detail,
        ErrorView::NotConnected => "Stream not connected"@,
        ErrorView::Config(detail) => "Invalid configuration: "@ + detail,
    }
}

/// `head` followed by `tail`.
pub fn joined(head: &str, tail: &str) -> (out: String)
    ensures
        out@ == head@ + tail@,
{
    let mut out = String::from_str(head);
    out.append(tail);
    out
}

impl AppError {
    /// The text that describes this error.
    pub fn message(&self) -> (out: String)
        ensures
            out@ == message_of(self@),
    {
        match self {
            AppError::Lsl(detail) => joined("LSL error: ", detail.as_str()),
            AppError::Io(detail) => joined("IO error: ", detail.as_str()),
            AppError::Channel(detail) => joined("Channel communication error: ", detail.as_str()),
            AppError::Fft(detail) => joined("FFT calculation error: ", detail.as_str()),
            AppError::Recording(detail) => joined("Recording error: ", detail.as_str()),
            AppError::NotConnected => String::from_str("Stream not connected"),
            AppError::Config(detail) => joined("Invalid configuration: ", detail.as_str()),
        }
    }

    /// The error of a channel whose other side has gone away.
    pub fn channel_closed(detail: &str) -> (out: AppError)
        ensures
            out@ == ErrorView::Channel(detail@),
    {
        AppError::Channel(String::from_str(detail))
    }

    /// The error of a one-shot reply that never came.
    pub fn reply_lost(detail: &str) -> (out: AppError)
        ensures
            out@ == ErrorView::Channel("OneShot receive error: "@ + detail@),
    {
        AppError::Channel(joined("OneShot receive error: ", detail))
    }
}

} // verus!

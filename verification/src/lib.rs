//! Building blocks of a real-time EEG acquisition pipeline.
//!
//! A stream of timestamped multi-channel samples is fanned out to
//! independent consumers ([`distributor`]), recorded in fixed-length records
//! ([`recorder`]), grouped into display batches ([`batcher`]), analysed in
//! sliding windows ([`fft_processor`]) and joined again into display frames
//! ([`synchronizer`]); [`pipeline`] says what holds of batcher and
//! synchronizer together.  Batches can be regrouped by channel
//! ([`converter`]) and laid out as compact binary frames ([`binary_frame`]).
//!
//! The components hold no threads, files or sockets of their own.  Each is
//! a state with operations; whoever drives it runs the loops, waits and
//! writes, and hands over what arrived.
//!
//! Floating-point quantities are held as IEEE-754 bit patterns throughout.
//! The few computations on them are done on the bits ([`float_bits`],
//! [`float_ratio`]).

pub mod batcher;
pub mod binary_frame;
pub mod control;
pub mod converter;
pub mod data_types;
pub mod distributor;
pub mod eeg_processor;
pub mod error;
pub mod fft_processor;
pub mod float_bits;
pub mod float_ratio;
pub mod lsl_manager;
pub mod pipeline;
pub mod recorder;
pub mod synchronizer;
pub mod text;

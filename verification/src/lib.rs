//! Hearing, for a GNOME application.
//!
//! A microphone read from a main loop, and two local speech models on a thread
//! behind it.
//!
//! ## What is here and what is not
//!
//! The line is **the boundary, not the policy**. Opening a microphone, turning
//! bytes into samples, and getting words out of a model are the same job in
//! every app. Deciding when somebody stopped talking, where model files live,
//! what to do with the words, and what to say when it goes wrong are not, and
//! they stay with the caller:
//!
//! - [`Recorder`] hands over blocks of samples and says when it stopped. It has
//!   no opinion about when an utterance ended.
//! - [`Speech`] takes requests for transcription and [`Worker`] works on them.
//!   Neither knows where models live: that is asked anew for every request, so a
//!   model downloaded while the app runs is picked up without a restart.
//! - [`is_complete`] tells a usable copy of a model from half a download.
//!
//! All of this is decided from plain values. Running `pw-record`, looking at
//! directories, the main loop, the thread, and the models themselves are around
//! it, not in it.
//!
//! ## Two things not to change casually
//!
//! **The sample format is not a preference.** 16-bit mono at 16 kHz is what the
//! models take, so PipeWire is asked to resample and nothing here does.
//!
//! **[`STREAM_CHUNK`] is not a free parameter.** The streaming encoder is
//! cache-aware and was trained on 560 ms. It also emits *nothing* until it has a
//! whole one, so the remainder at the end of an utterance has to be padded and
//! sent or the last words are simply never decoded.

pub mod microphone;
pub mod models;
pub mod speech;
pub mod text;
pub mod worker;

pub use microphone::{Heard, PipeRead, Recorder, StartError, BLOCK_MS, READ_BYTES, SAMPLE_RATE};
pub use models::{has_encoder, is_complete, Directory, Model};
pub use speech::{Answer, Job, Next, Speech, SpeechError, STREAM_CHUNK};
pub use worker::{transcribed, Manner, Request, Stamps, Step, Worker};

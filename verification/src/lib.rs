//! Core of a cue-driven show playback engine: a show is an ordered list of
//! cues, each cue a sequence of beats with embedded events that trigger
//! per-channel clip playback, conditional jumps and SMPTE linear timecode.
//! This crate holds the data model, the transport state machine, the LTC
//! generator, the playback and processor decision logic, the show codec and
//! the subscriber bookkeeping; audio drivers, sockets and files live outside.

pub mod boot;
pub mod bus;
pub mod clipstore;
pub mod codec;
pub mod display;
pub mod handler;
pub mod ltc;
pub mod metronome;
pub mod model;
pub mod playback;
pub mod processor;
pub mod protocol;
pub mod smpte;
pub mod state;
pub mod subscribers;
pub mod timecode;
pub mod vlt;

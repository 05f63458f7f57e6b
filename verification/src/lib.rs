//! Core logic of a low-latency audio forwarding daemon.
//!
//! The library verifies the engine's decision logic: the SPSC sample ring,
//! endpoint resolution, format conversion between capture and render PCM
//! formats, the per-iteration state machines of the forwarding workers, and
//! the control-channel dispatcher.  Samples are 32-bit IEEE-754 float PCM;
//! the library carries them as their `u32` bit patterns, and the few
//! arithmetic mixing steps go through software IEEE-754 on those patterns.
#![verifier::loop_isolation(false)]

pub mod config;
pub mod control;
pub mod convert;
pub mod format;
pub mod resolver;
pub mod ring;
pub mod samples;
pub mod worker;

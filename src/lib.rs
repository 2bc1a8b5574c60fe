//! Core of a bare-metal cooperative scheduler: a fixed-capacity task arena,
//! per-slot wake handles, a wrapping tick counter driven by a timer
//! interrupt, and a sleep state machine registered with that counter.
//!
//! Every item here is plain sequential state: the interrupt masking that
//! makes the shared parts safe on the device is the caller's concern.

pub mod executor;
pub mod sonic;
pub mod timer;

//! The verified core of the weaver membrane and harness: framing, relay, lifecycle
//! decisions, replay certification and the record's vocabulary.

pub mod text;
pub mod json;
pub mod wire;
pub mod gate;
pub mod harness;

//! The membrane organ, which stands between the loop and its clients. The channel's read and write
//! verdicts, the hook's access rule, the relay's framing, the shell's
//! validation and capture, and the lifecycle service's position.

pub mod channel;
pub mod hook;
pub mod relay;
pub mod service;
pub mod shell;

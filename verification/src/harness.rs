//! The harness organ: the state seam's shapes, the diagnostic replay's
//! grouping and certification, the failure vocabulary, trace authorship's
//! licensing, the turn's decisions and the lifecycle's.

pub mod assembly;
pub mod authorship;
pub mod channel;
pub mod dev_loop;
pub mod failure;
pub mod lifecycle;
pub mod record;
pub mod replay;
pub mod spawn;
pub mod state;
pub mod tools;
pub mod turn;

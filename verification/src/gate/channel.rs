//! The membrane's organ channel: what entry can fail at, and the verdicts on a
//! send and on a read against the envelope bound. The descriptor work and
//! the encoding stand at the composition root; the bound is judged here.

use vstd::prelude::*;

verus! {

/// The largest envelope either end of an organ channel writes or reads, in
/// bytes.
pub const MAX_ENVELOPE_BYTES: usize = 65536;

/// What entry can fail at before the channel is held.
#[derive(Debug, Clone, Copy, PartialEq, Eq, Structural)]
pub enum EntryFault {
    ChannelUnusable,
    HygieneFailed,
}

/// A channel operation's failure.
#[derive(Debug, Clone, Copy, PartialEq, Eq, Structural)]
pub enum ChannelFault {
    Truncated { bound: usize },
    Undecodable,
    Closed,
}

/// Whether an encoded envelope of `body_len` bytes may be written: a body
/// past the bound is refused before it reaches the socket.
pub fn send_verdict(body_len: usize, bound: usize) -> (verdict: Result<(), ChannelFault>)
    ensures
        body_len > bound ==> verdict == Err::<(), ChannelFault>(ChannelFault::Truncated { bound }),
        body_len <= bound ==> verdict is Ok,
{
    if body_len > bound {
        Err(ChannelFault::Truncated { bound })
    } else {
        Ok(())
    }
}

/// What one datagram read against a buffer of `capacity` bytes holds, the
/// read reporting the datagram's full length: a datagram longer than the
/// buffer is a fault rather than a short body, a read of nothing is the
/// peer's closure, and otherwise the body is the first `read` bytes.
pub fn read_verdict(read: usize, capacity: usize) -> (verdict: Result<usize, ChannelFault>)
    ensures
        read > capacity ==> verdict == Err::<usize, ChannelFault>(
            ChannelFault::Truncated { bound: capacity },
        ),
        read == 0 ==> verdict == Err::<usize, ChannelFault>(ChannelFault::Closed),
        0 < read <= capacity ==> verdict == Ok::<usize, ChannelFault>(read),
{
    if read > capacity {
        Err(ChannelFault::Truncated { bound: capacity })
    } else if read == 0 {
        Err(ChannelFault::Closed)
    } else {
        Ok(read)
    }
}

} // verus!

//! The harness's channels: who may hold the coordination socket, and what
//! one datagram read off an organ channel holds. The sockets themselves
//! stand at the composition root.

use vstd::prelude::*;
use crate::harness::failure::ChannelFault;

verus! {

/// The first descriptor a forked organ finds its channels at.
pub const FIRST_ORGAN_DESCRIPTOR: i32 = 3;

/// The coordination socket admits root alone: any other dialing uid is
/// named and refused.
pub fn root_peer(uid: u32) -> (admitted: Result<(), ChannelFault>)
    ensures
        uid == 0 ==> admitted is Ok,
        uid != 0 ==> admitted == Err::<(), ChannelFault>(ChannelFault::WrongPeer { uid }),
{
    if uid != 0 {
        Err(ChannelFault::WrongPeer { uid })
    } else {
        Ok(())
    }
}

/// What one datagram read holds: a failed read is the channel's closure, a
/// body or a descriptor the buffers could not take whole is a fault against
/// the bound, a read of nothing is the peer's closure, and otherwise the
/// body is the first `read` bytes.
pub fn datagram_verdict(read: isize, truncated: bool, bound: usize) -> (verdict: Result<usize, ChannelFault>)
    ensures
        read < 0 ==> verdict == Err::<usize, ChannelFault>(ChannelFault::Closed),
        read >= 0 && truncated ==> verdict == Err::<usize, ChannelFault>(
            ChannelFault::Truncated { bound },
        ),
        read == 0 && !truncated ==> verdict == Err::<usize, ChannelFault>(ChannelFault::Closed),
        read > 0 && !truncated ==> verdict == Ok::<usize, ChannelFault>(read as usize),
{
    if read < 0 {
        return Err(ChannelFault::Closed);
    }
    if truncated {
        return Err(ChannelFault::Truncated { bound });
    }
    if read == 0 {
        return Err(ChannelFault::Closed);
    }
    Ok(read as usize)
}

/// A send of an encoded envelope of `body_len` bytes: a body past the bound
/// is refused before it reaches the socket.
pub fn send_verdict(body_len: usize, bound: usize) -> (verdict: Result<(), ChannelFault>)
    ensures
        body_len > bound ==> verdict == Err::<(), ChannelFault>(ChannelFault::Truncated { bound }),
        body_len <= bound ==> verdict is Ok,
{
    if body_len > bound {
        Err(ChannelFault::Truncated { bound })
    } else {
        Ok(())
    }
}

} // verus!

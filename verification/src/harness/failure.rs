//! The harness's failure vocabulary and the words each failure is told in.

use vstd::prelude::*;
use vstd::string::*;
use crate::text::{cat3, decimal, decimal_string, signed_decimal, signed_decimal_string};

verus! {

/// An organ channel's or the coordination socket's failure.
#[derive(Debug, Clone, PartialEq, Eq, Structural)]
pub enum ChannelFault {
    Truncated { bound: usize },
    Undecodable,
    Closed,
    SocketPathUnusable { errno: i32 },
    WrongPeer { uid: u32 },
}

impl ChannelFault {
    /// The fault in words.
    pub open spec fn told(&self) -> Seq<char> {
        match *self {
            ChannelFault::Truncated { bound } => "read truncated against the "@ + decimal(
                bound as nat,
            ) + " byte envelope bound"@,
            ChannelFault::Undecodable => "octets do not decode to an envelope"@,
            ChannelFault::Closed => "channel closed"@,
            ChannelFault::SocketPathUnusable { errno } => "the coordination socket's name is unusable ("@
                + signed_decimal(errno as int) + ")"@,
            ChannelFault::WrongPeer { uid } => "dialing peer is uid "@ + decimal(uid as nat)
                + " and not root"@,
        }
    }

    /// The fault in words.
    pub fn describe(&self) -> (words: String)
        ensures
            words@ == self.told(),
    {
        match self {
            ChannelFault::Truncated { bound } => cat3(
                "read truncated against the ",
                decimal_string(*bound as u64).as_str(),
                " byte envelope bound",
            ),
            ChannelFault::Undecodable => String::from_str("octets do not decode to an envelope"),
            ChannelFault::Closed => String::from_str("channel closed"),
            ChannelFault::SocketPathUnusable { errno } => cat3(
                "the coordination socket's name is unusable (",
                signed_decimal_string(*errno).as_str(),
                ")",
            ),
            ChannelFault::WrongPeer { uid } => cat3(
                "dialing peer is uid ",
                decimal_string(*uid as u64).as_str(),
                " and not root",
            ),
        }
    }
}

/// How a service ended by a directive.
#[derive(Debug, Clone, Copy, PartialEq, Eq, Structural)]
pub enum Outcome {
    Left,
}

/// Why the harness refused construction.
#[derive(Debug, Clone, PartialEq, Eq, Structural)]
pub enum AdoptionFault {
    DumpableNotCleared { errno: i32 },
}

impl AdoptionFault {
    /// The fault in words.
    pub fn describe(&self) -> (words: String)
        ensures
            match *self {
                AdoptionFault::DumpableNotCleared { errno } => words@
                    == "the dumpable flag could not be cleared ("@ + signed_decimal(errno as int)
                    + ")"@,
            },
    {
        match self {
            AdoptionFault::DumpableNotCleared { errno } => cat3(
                "the dumpable flag could not be cleared (",
                signed_decimal_string(*errno).as_str(),
                ")",
            ),
        }
    }
}

/// A message a role may not carry: the role and the block that broke the
/// license.
#[derive(Debug, Clone, PartialEq, Eq)]
pub struct UnlicensedMessage {
    pub role: &'static str,
    pub block: &'static str,
}

impl UnlicensedMessage {
    /// The refusal in words.
    pub fn describe(&self) -> (words: String)
        ensures
            words@ == "a "@ + self.role@ + " message may not carry a "@ + self.block@ + " block"@,
    {
        let mut words = cat3("a ", self.role, " message may not carry a ");
        words.append(self.block);
        words.append(" block");
        words
    }
}

} // verus!

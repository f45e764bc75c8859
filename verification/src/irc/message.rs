//! The control messages that the rest of the program sends to the IRC client.
use vstd::prelude::*;

verus! {

/// What the program asks the IRC client to do in the channel.
#[derive(Debug, Clone, PartialEq, Eq)]
pub enum IrcControlMessage {
    /// Leave the channel.
    Part,
    /// Say `message` in the channel.
    Message { message: String },
}

} // verus!

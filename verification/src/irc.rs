//! The IRC side of the program: the client that registers with the server and
//! follows the channel, the table of users in the channel, and the control
//! messages that the rest of the program sends to the client.
pub mod proto;
pub mod message;
pub mod server;
pub mod users;
pub mod channel;

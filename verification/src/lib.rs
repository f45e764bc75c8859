//! WorldChat: the logic of a small multiplayer chat world, in which players
//! meet in an IRC channel and move on a grid.
//!
//! The library holds the decisions of the program: the IRC client's
//! registration and session state machines, the table of users seen in the
//! channel, the encoding of the position messages that players exchange,
//! the move queues of players, the room DNS record rules, and the
//! bookkeeping of background tasks.  Input and output, rendering and the
//! event loops live around it.
pub mod runtime;
pub mod text;
pub mod table;
pub mod irc;
pub mod world;
pub mod chat;

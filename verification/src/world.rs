//! The world that players share: their positions on the grid, the messages
//! that carry them, and the queues of moves that players make.
pub mod chat;

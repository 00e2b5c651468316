//! A verified voting engine for a chat-controlled input bot.
//!
//! Audience members of a line-oriented chat channel vote for command tokens;
//! the engine tallies votes over a fixed round, picks a winner, and plans the
//! outbound protocol lines and the key action to dispatch. All I/O (the
//! socket, the clock, the key-event backend) lives outside this crate; the
//! library works on plain byte lines and returns plain byte lines.

pub mod bytes;
pub mod engine;
pub mod parser;
pub mod protocol;
pub mod tally;

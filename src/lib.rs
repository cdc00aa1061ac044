//! The client side of a terminal multiplexer: the instructions its units exchange,
//! the bounded channel that carries them, the latch that paces the input reader,
//! the router that relays the server's messages, and the main loop that alone
//! touches the terminal and guarantees its restoration on every way out.

pub mod instruction;
pub mod terminal;
pub mod orchestrator;
pub mod gate;
pub mod channel;
pub mod router;
pub mod cli;

//! The logic of an IRC e-book client: reading DCC SEND offers and acknowledging their transfers,
//! reading search result listings, recognizing bot replies, joining a server, and the
//! interface of a session as a state machine.

pub mod connection;
pub mod dcc;
pub mod defs;
pub mod reply;
pub mod search;
pub mod session;
pub mod text;

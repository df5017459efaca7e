//! A line-oriented echo service: the line framing of a byte stream, the
//! decisions of a connection handler and of an interactive client, and the
//! server's shutdown command, each stated and proved over a model of its state.
pub mod lines;
pub mod echo;
pub mod client;
pub mod shutdown;

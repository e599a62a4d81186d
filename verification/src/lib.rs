//! The core of a chat client for a code assistant: the decoder of the
//! stream in which an answer arrives, the aggregator that gathers the answer,
//! and the session that keeps the history of the conversation. Beside them,
//! what the client needs to log in: the steps of the device login, the
//! headers of the requests and the identifiers of a session.

pub mod aggregate;
pub mod copilot;
pub mod decoder;
pub mod event;
pub mod gh;
pub mod headers;
pub mod json;
pub mod term;
pub mod text;
pub mod utils;

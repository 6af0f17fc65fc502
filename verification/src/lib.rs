//! A conversation with a language model: its messages, the context window
//! they have to fit in, and the transports that connect a session to its
//! remote end.

pub mod clock;
pub mod compact;
pub mod counting;
pub mod engine;
pub mod error;
pub mod estimate;
pub mod fraction;
pub mod json;
pub mod message_laws;
pub mod seqs;
pub mod tally;
pub mod text;
pub mod text_laws;
pub mod transport;
pub mod types;

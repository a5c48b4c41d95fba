//! The desktop shell: the state behind its commands and what they decide.
pub mod chat;
pub mod chat_laws;
pub mod gate;
pub mod llm;
pub mod state;

//! The agent: history, streaming, confirmation and the run itself.
pub mod cloud;
pub mod confirm;
pub mod delivery_laws;
pub mod delta;
pub mod event;
pub mod gate_laws;
pub mod loop_;
pub mod message;
pub mod request_laws;
pub mod run_laws;
pub mod stand_in_laws;
pub mod step_laws;
pub mod stream_laws;
pub mod testing;
pub mod tool;
pub mod tool_laws;
pub mod tools;
pub mod turn;

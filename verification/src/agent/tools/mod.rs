//! The tools: what each checks before it acts and what it answers.
pub mod capped;
pub mod file_read;
pub mod shell_exec;
pub mod web_fetch;

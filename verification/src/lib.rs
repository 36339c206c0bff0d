//! An assistant that turns plain-language requests into shell commands: the
//! tasks it plans, the model exchanges it prepares and reads, the agent's token
//! budget and context window, and the shell tool's screening and results.
pub mod agent;
pub mod cli;
pub mod error;
pub mod laws;
pub mod laws_text;
pub mod llm;
pub mod task;
pub mod text;
pub mod tool;

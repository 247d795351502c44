//! The state and the rules of a multi-session orchestrator for an agent CLI.

pub mod attach;
pub mod counting;
pub mod effects;
pub mod events;
pub mod headless;
pub mod json;
pub mod launch_laws;
pub mod launcher;
pub mod laws;
pub mod lifecycle;
pub mod model;
pub mod monitor;
pub mod naming;
pub mod project;
pub mod project_laws;
pub mod protocol;
pub mod protocol_laws;
pub mod queue_laws;
pub mod report_laws;
pub mod ring;
pub mod rounds;
pub mod scheduler;
pub mod session_laws;
pub mod spawning;
pub mod state;
pub mod storage;
pub mod tasks;
pub mod terminal;
pub mod text;
pub mod text_laws;
pub mod worker_laws;

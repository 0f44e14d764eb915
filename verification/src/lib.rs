//! Verified core of Continuum Studio: offline operation queueing,
//! connection tracking, session monitoring and the decision logic of the
//! desktop dashboard.

pub mod chat_pipeline;
pub mod core_state;
pub mod feed;
pub mod launch;
pub mod monitoring;
pub mod offline;
pub mod settings;
pub mod studio;
pub mod task_board;
pub mod text;
pub mod triage;
pub mod units;
pub mod workspace_files;

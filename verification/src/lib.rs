//! Local document indexing and retrieval: the catalog of indexed files, the
//! chunk store, the ingestion scheduler and the query orchestrator, with the
//! behaviour of each stated as a contract.

pub mod agent;
pub mod clock;
pub mod commands;
pub mod embed;
pub mod errors;
pub mod extract;
pub mod maintenance;
pub mod models;
pub mod query;
pub mod seqs;
pub mod text;
pub mod storage;

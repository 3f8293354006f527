//! Mail ingestion and feed synthesis: a protocol session state machine, a
//! message record model, the latest-per-subject selection over stored
//! records, and the assembly of syndication documents from them.
pub mod types;
pub mod store;
pub mod session;
pub mod db;
pub mod feed;

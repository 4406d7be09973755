//! Blaze: a file-system indexer.
//!
//! The library holds the indexer's logic: how paths are split into
//! components and filtered, how file entries and their ids are formed,
//! how a burst of file-system events is reduced to one action per path,
//! how the event-id checkpoint is written and read back, and how a warm
//! or cold start is chosen. Reading the disk, the database and the
//! event stream is left to the program around it.
pub mod appdata;
pub mod checkpoint;
pub mod db;
pub mod defaults;
pub mod events;
pub mod indexer;
pub mod paths;
pub mod schema;
pub mod types;
pub mod walker;

//! Wake reads the session histories that coding agents leave on a machine.
pub mod adapters;
pub mod index_lock;
pub mod json;
pub mod memory;
pub mod models;
pub mod order;
pub mod paths;
pub mod settings;
pub mod text;
pub mod ui;

//! The memory page: documents that agents have written down, to be read and not to be changed.
pub mod docs;
pub mod laws;
pub mod page;
pub mod state;

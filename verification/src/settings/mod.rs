//! The settings window, page by page: what is shown, and what a click does.
pub mod about;
pub mod connect;
pub mod data;
pub mod general;
pub mod laws;
pub mod locations;
pub mod nav;
pub mod remotes;
pub mod state;
pub mod updates;

//! Nemu: the verified core of a launcher for Wayland compositors.
//!
//! The library holds the launcher's logic on plain values: scoring and
//! ranking of search results, desktop entry actions, the emoji catalog,
//! dmenu input splitting, mode selection and the state machine that the
//! application window runs.
pub mod text;

pub mod fuzzy;
pub mod ranking;
pub mod config;
pub mod desktop_entry;
pub mod app_launcher;
pub mod output;
pub mod app;
pub mod dmenu;
pub mod emoji;
pub mod modes;

//! Verified core of the Happy Wakey command-line client: text and number
//! rules, alarm drafts, command settings and request decisions.
pub mod text;

pub mod alarm_draft;
pub mod outside;
pub mod settings;
pub mod cli;
pub mod laws;

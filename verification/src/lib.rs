//! Watches a project tree for changes that match a glob and decides, event by
//! event, when the configured command has to run.

pub mod command;
pub mod config;
pub mod dispatcher;
pub mod event;
pub mod markers;
pub mod matcher;
pub mod outcome;
pub mod paths;
pub mod root;
pub mod text;

//! shoka: a bookshelf for repositories.
pub mod actions;
pub mod cache;
pub mod cli;
pub mod commands;
pub mod config;
pub mod fspath;
pub mod gh;
pub mod git_status;
pub mod paths;
pub mod remote;
pub mod seqs;
pub mod state;
pub mod text;
pub mod updater;

//! Model catalog, settings and dictation-session rules of FastAF Flow, a local
//! dictation desk: which models are installed and suitable, how much memory they
//! need, which one to recommend, and how the desk reacts to its inputs.
pub mod text;
pub mod json;
pub mod rules;
pub mod catalog;
pub mod order;
pub mod paths;
pub mod table;
pub mod settings;
pub mod session;
pub mod runtime;
pub mod cli;
pub mod audio;
pub mod desktop;
pub mod system;

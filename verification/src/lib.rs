//! Cargo GUI: the logic behind a graphical front end for cargo.
//!
//! The application state and its transitions, the parsing of cargo's output,
//! the searching and replacing in the editor and what the views show are all
//! here, each with a contract. Windows, dialogs, files and processes are the
//! business of the program that uses this library.

pub mod app;
pub mod config;
pub mod content;
pub mod diagnostic_laws;
pub mod diagnostics;
pub mod direction;
pub mod duration;
pub mod editor;
pub mod editor_laws;
pub mod keys;
pub mod laws;
pub mod layout;
pub mod log;
pub mod message;
pub mod message_laws;
pub mod output;
pub mod paths;
pub mod process;
pub mod run;
pub mod search;
pub mod strings;
pub mod text_laws;
pub mod view;
pub mod view_laws;

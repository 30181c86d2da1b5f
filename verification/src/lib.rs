//! A small modal text editor: buffer, undo history, command line and screen plan.

#![allow(unused_imports)]

pub mod command;
pub mod dialog_laws;
pub mod display;
pub mod edit;
pub mod edit_laws;
pub mod editor;
pub mod file_laws;
pub mod groq;
pub mod key_laws;
pub mod keyboard;
pub mod language;
pub mod laws;
pub mod lines;
pub mod number;
pub mod outside;
pub mod picture_laws;
pub mod program;
pub mod run_laws;
pub mod screen;
pub mod screen_laws;
pub mod state;
pub mod text;
pub mod text_laws;
pub mod view_laws;
pub mod wire_laws;

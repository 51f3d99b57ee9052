//! Kode: the editing core of a modal, tmux-flavoured code editor.
//!
//! The library holds the verified logic: key parsing, motions and text
//! objects, the rope-backed text buffer with undo history, search, the
//! Spring bean graph analysis, the plugin event bridge and plugin
//! bookkeeping, the framing of language-server messages and the stores
//! built from their replies, colour parsing, and the decisions the front
//! ends take on keys, clicks and command lines.

pub mod geometry;
pub mod text;
pub mod path;
pub mod event;
pub mod keymap;
pub mod editor;
pub mod spring;
pub mod plugin;
pub mod config;
pub mod error;
pub mod renderer;
pub mod gpu;
pub mod color;
pub mod cli;
pub mod lsp;
pub mod app;

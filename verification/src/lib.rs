//! The modal text-editing core of a vault-based markdown note editor.
//!
//! The crate provides the text buffer with its cursor, selection and editing
//! primitives; the Vim-style key-interpretation state machine; the editor
//! layer that applies interpreted commands to the buffer and projects it into
//! styled render lines; the markdown block/inline document model; and the
//! small pure data types around them (terminal grid, configuration records,
//! file-tree flattening). Windowing, rendering, file access and terminal
//! process plumbing are hosts of this library, not part of it.

pub mod buffer;
pub mod chars;
pub mod commands;
pub mod config;
pub mod editor;
pub mod file_tree;
pub mod keybindings;
pub mod linedoc;
pub mod lines;
pub mod markdown;
pub mod rope;
pub mod terminal;
pub mod vault;
pub mod vim;
pub mod welcome;

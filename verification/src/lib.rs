//! The core of a modal terminal text editor: screen geometry, the action
//! language and its parser, positional keymaps, the screen buffer and the
//! views drawn into it.

pub mod geo;
pub mod text;
pub mod mode;
pub mod suggest;
pub mod action;
pub mod action_text;
pub mod action_print;
pub mod location;
pub mod document;
pub mod keymap;
pub mod theme;
pub mod config;
pub mod screen_buffer;
pub mod editor;
pub mod layout;
pub mod rope;
pub mod buffer_view;
pub mod screen;
pub mod components;
pub mod popup;

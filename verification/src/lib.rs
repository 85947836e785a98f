//! Verified core of Waydoodle, a screen annotation tool for Wayland.
//!
//! Everything here is plain logic: the drawing state machine, the context
//! menu, key bindings, pixel-buffer rendering of the help panel and a few
//! conversions. Rendering with cairo and talking to the compositor live in
//! the application crate around this library.

pub mod actions;
pub mod bdf;
pub mod canvas;
pub mod config;
pub mod cursor;
pub mod drawing;
pub mod font;
pub mod help;
pub mod input;
pub mod menu;
pub mod model;
pub mod notify;
pub mod pad;
pub mod pixels;
pub mod present;
pub mod render;
pub mod waydoodle;
pub mod tablet;
pub mod text;
pub mod ui;

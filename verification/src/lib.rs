//! A tiling layout engine for a character-cell terminal.
//!
//! The screen is divided among panes by a tree of containers. Each container
//! lines its children up along one axis, and one pane at a time holds the
//! focus. The library keeps the geometry, the headers and the text buffers of
//! the panes consistent while panes are split and closed, the focus moves and
//! the terminal changes its size. Drawing is left to the caller, who reads
//! the tree after each operation.

pub mod geometry;
pub mod text;
pub mod window;
pub mod container;
pub mod layout;
pub mod render;
pub mod focus;
pub mod ident;
pub mod edit;
pub mod screen;
pub mod tcwm;
pub mod laws;

//! Scrollback engine, key translation and event scheduling for a small
//! floating terminal overlay.
pub mod line_store;
pub mod state;
pub mod keys;
pub mod events;
pub mod render;

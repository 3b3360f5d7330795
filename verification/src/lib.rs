//! Core logic of a small 2D tile platformer: the screen state machine,
//! level geometry (merging platform tiles into collider runs), hazard and
//! exit resolution, level progression with persistent progress, and the
//! settings screen with its reset-confirmation flow.
//!
//! Rendering, input polling and physics belong to the host engine and stay
//! outside this crate; the functions here take plain values (key presses,
//! overlap flags) and return the decisions the engine must apply.

pub mod level;
pub mod level_select;
pub mod logring;
pub mod menu;
pub mod pause;
pub mod player;
pub mod progress;
pub mod settings;
pub mod states;
pub mod ui;
pub mod victory;

//! Core of a window-tiling hotkey daemon: a key-state tracker, a chord
//! recognizer, a layout engine and an arrangement orchestrator. The
//! platform layer (global input hook, window enumeration, geometry calls)
//! is an external collaborator; this crate holds the decisions and the
//! arithmetic, stated and proved.

pub mod arrange;
pub mod hotkeys;
pub mod keys;
pub mod layout;

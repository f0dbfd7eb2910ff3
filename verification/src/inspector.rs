//! The inspector's parts, one module per concern.

pub mod camera_movement;
pub mod default_scene;
pub mod inspect_log;
pub mod scene;
pub mod ui;

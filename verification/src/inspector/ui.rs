//! State and decisions of the docked panels.

pub mod gizmos;
pub mod hierarchy;
pub mod select;
pub mod tab_viewer;

//! Decision logic of a scene inspector overlay for a 3D engine: which panel
//! shows what, what a click selects, which entities of the hierarchy stand
//! open, where the fly camera moves, and what the log console holds. The GUI
//! and the engine's world stay outside; the functions here work on values.

pub mod inspector;
pub mod text;

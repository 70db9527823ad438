//! A planar linkage sketch: nodes, rigid beams and pivot joints, edited by a
//! modal state machine that turns pointer and key events into graph changes.

pub mod geometry;
pub mod sketch;
pub mod editor;

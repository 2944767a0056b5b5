//! A fixed-geometry framed text renderer: wraps and crops text into a bordered
//! box and repaints it on a line-oriented surface.

pub mod config;
pub mod text;
pub mod layout;
pub mod paint;
pub mod surface;
pub mod engine;
pub mod terminal;

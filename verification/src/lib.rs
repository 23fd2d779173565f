//! A small terminal-style simulation: a fixed-size character grid onto which
//! a handful of entities are painted as ASCII glyphs, with the player entity
//! movable one cell at a time by directional commands.
//!
//! The heart of the library is the layered canvas compositing algorithm: each
//! tick resets the canvas to background and repaints every entity, type by
//! type in a configured paint order, so that later types overwrite earlier
//! ones where glyphs overlap.

pub mod laws;
pub mod world;

//! Rendering and frame-coordination core of a terminal arcade game.
//!
//! One thread simulates the game and produces a complete [`frame::Frame`]
//! per tick; a second thread owns the terminal and redraws only what changed
//! between two consecutive frames. This crate holds the verified heart of
//! that split: the frame data model, the entities that stamp themselves onto
//! a frame, the differ that turns two frames into the minimal sequence of
//! terminal writes, and the per-tick decision logic of both loops. Actual
//! terminal, input and audio I/O live with the binary around this crate.

pub mod engine;
pub mod frame;
pub mod player;
pub mod render;

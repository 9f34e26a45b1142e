//! A text-shaping core: logical runs of UTF-16 text plus a sized font face
//! become positioned glyphs whose clusters map back to the source text.
//!
//! The engine owns the faces it loads. A face gets a pixel size, a shaping
//! context is derived from the sized face, runs of text are pushed into a
//! layout buffer, and the buffer is shaped once against the context: each
//! run is split into segments of one script, and each segment's characters
//! are mapped to glyphs, substituted, positioned and put in output order.
//!
//! Every type has a mathematical view, and every operation says over the
//! views what it answers and what it leaves behind. The laws that relate
//! several operations stand as proof functions beside them.

pub mod context;
pub mod engine;
pub mod error;
pub mod font;
pub mod layout;
pub mod segment;
pub mod shape;
pub mod table;
pub mod text;

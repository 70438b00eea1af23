//! A small layer over a programmable-pipeline graphics driver: shader programs
//! with reflected attributes and uniforms, interleaved vertex geometry,
//! textures, and nodes that resolve named uniform values at draw time.
//!
//! Every operation that touches the driver appends [`gli::Command`] values to
//! a caller-owned list instead of calling it; the host executes that list
//! against its context. Handles and reflection data that the driver produces
//! are handed back to the library as plain values.

pub mod geometry;
pub mod gli;
pub mod node;
pub mod program;
pub mod table;
pub mod texture;
pub mod uniforms;

//! Decoding of glTF-style assets into renderer-ready meshes.
//!
//! An asset description references raw byte buffers through a chain of
//! indirections (accessor -> buffer view -> buffer). This crate resolves
//! those references with bounds checking and decodes the referenced byte
//! ranges into typed vertex and index arrays, rejecting any read that
//! would fall outside a declared range.
//!
//! Vertex attribute components are IEEE 754 single-precision values that
//! are reinterpreted, never computed on; they are carried here as their
//! 32-bit little-endian bit patterns.

pub mod asset;
pub mod codec;
pub mod laws;
pub mod mesh;

//! Ownership and storage core for reference-counted, copy-on-write resource
//! handles: a generic handle, a growable array built on it, the image codec
//! protocol handles and the glyph buffer.
pub mod array;
pub mod capacity;
pub mod codec;
pub mod error;
pub mod glyph_buffer;
pub mod handle;
pub mod variant;

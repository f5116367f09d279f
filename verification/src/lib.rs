//! Decoders for GCZ compressed textures and charlib sprite indexes.
//!
//! Every function works on in-memory byte buffers. Reading the index and the
//! texture files, and encoding the decoded images, is left to the caller.

pub mod atlas;
pub mod bytes;
pub mod charlib;
pub mod collect;
pub mod error;
pub mod gcz;
pub mod loader;
pub mod pixel;
pub mod platform;
pub mod sheet;
pub mod text;
pub mod texture;

//! A small writer for documents in a page-description format: typed object
//! builders, a content-stream encoder, an image embedding strategy and a
//! serializer that emits the objects with their cross-reference table.
pub mod bytes;
pub mod document;
pub mod content;
pub mod objects;
pub mod page;
pub mod image;
pub mod demo;

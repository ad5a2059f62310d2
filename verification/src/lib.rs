//! A decoder for hierarchical, tag-based map documents: tile maps composed of
//! tilesets, object groups and geometric objects.
//!
//! The decoder consumes a flat sequence of tree events (start tags with their
//! attributes, end tags, end of document) and builds the in-memory structures,
//! validating required attributes, skipping unknown child tags, and resolving
//! tilesets that are either embedded or kept in a separate document.

pub mod attrs;
pub mod colour;
pub mod error;
pub mod events;
pub mod image;
pub mod num;
pub mod object;
pub mod properties;
pub mod scan;
pub mod text;
pub mod tileset;

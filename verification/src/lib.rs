//! Decoding of binary level archives into a binary-space-partition map
//! model, and a visibility traversal that walks the partition tree
//! near-to-far for an observer pose.
//!
//! `fixed` holds the 16.16 fixed-point arithmetic, `bsp` the map model
//! and its well-formedness conditions, `wadpackage` the archive decoder,
//! `resourcemanager` the catalog of loaded levels, and `render` the
//! visibility traversal.

pub mod bsp;
pub mod fixed;
pub mod render;
pub mod resourcemanager;
pub mod wadpackage;

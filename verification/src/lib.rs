//! Conversion of a parsed vector-graphics scene tree into a page-description
//! object graph.
//!
//! The scene tree (groups, paths, images, text, gradients, patterns, clip
//! paths, masks) is walked recursively and translated into a sequence of
//! document-writer events: indirect objects (form XObjects, shading and
//! tiling patterns, graphics states, images, fonts, ICC profiles) together
//! with the content-stream operators that reference them.  Shared resources
//! are deduplicated, object identities are issued monotonically, and nested
//! content keeps its own resource scope.  All coordinates are fixed-point
//! integers in thousandths of a unit; an unverified outer layer converts
//! between this model and the floating-point interfaces of the surrounding
//! document and graphics crates.

pub mod api;
pub mod content;
pub mod convert;
pub mod ctx;
pub mod fx;
pub mod scene;
pub mod geom;
pub mod laws;
pub mod transform;

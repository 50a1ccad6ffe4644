//! A retained-mode scene graph and its compiler.
//!
//! A tree of surfaces, each with optional paint attributes, is compiled
//! against a table of layout rectangles into a frame: a flat list of
//! primitives in paint order, at absolute positions, each under the clip that
//! is active for it and tagged with the id of its surface.
//!
//! - [`surface`] holds the tree and the operations that change it.
//! - [`style`] holds the paint attributes.
//! - [`geometry`] holds rectangles in whole layout pixels.
//! - [`text`] is the boundary to the text shaping service.
//! - [`compiler`] walks the tree and emits the frame.
//! - [`display_list`] holds the frame, its clip table and the point query.
//! - [`resources`] prepares fonts and images for registration.
//! - [`service`] builds transactions for the display-list backend and keeps
//!   the protocol of submitting a frame and waiting for it.
//! - [`paths`] and [`laws`] state and prove what holds of every frame.
//!
//! The library does no input or output. Whoever embeds it carries
//! transactions to the backend and the backend's signals back.

pub mod compiler;
pub mod display_list;
pub mod geometry;
pub mod laws;
pub mod paths;
pub mod resources;
pub mod service;
pub mod style;
pub mod surface;
pub mod text;

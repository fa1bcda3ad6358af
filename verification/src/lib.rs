//! Verified core of a fixed-layout image chart: a grid of rows of varying
//! length whose cells each hold either an item (an album with a cover image
//! source) or a placeholder, together with the layout engine that turns the
//! grid into exact pixel geometry and a plan of draw operations.
//!
//! The surrounding application owns the actual drawing surface and the
//! asynchronous image loads; it executes the plans computed here.

pub mod chart;
pub mod layout;
pub mod render;

//! The scales of the interface, in points.

pub mod radius;
pub mod space;
pub mod text;

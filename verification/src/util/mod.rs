//! Coordinates shared by the rest of the crate.

pub mod point;

pub use point::BlockPoint;
pub use crate::convert::Denominable;
pub use point::ChunkPoint;
pub use point::FlatPoint;
pub use point::Point2D;
pub use point::Point3D;
pub use point::Repr2D;

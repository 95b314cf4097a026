//! Point cloud frames: validation, packing into a common little-endian
//! layout, and the framing and session logic used to stream them.

pub mod pointcloud;
pub mod publisher;

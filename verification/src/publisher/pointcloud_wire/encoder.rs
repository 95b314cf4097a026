use vstd::prelude::*;

use crate::publisher::framing::{frame_message, framed_message};

verus! {

/// The opcode of a PointCloud Wire binary point cloud message.
pub const WIRE_BINARY_OP_POINTCLOUD: u8 = 0x01;

/// Builds the PointCloud Wire binary message that carries packed
/// `point_data` for a subscription: the opcode, the subscription identifier
/// and the time stamp, little-endian, then the points.
pub fn encode_wire_pointcloud_message(subscription_id: u32, timestamp_ns: u64, point_data: &[u8]) -> (message:
    Vec<u8>)
    ensures
        message@ == framed_message(
            WIRE_BINARY_OP_POINTCLOUD,
            subscription_id,
            timestamp_ns,
            point_data@,
        ),
{
    frame_message(WIRE_BINARY_OP_POINTCLOUD, subscription_id, timestamp_ns, point_data)
}

} // verus!

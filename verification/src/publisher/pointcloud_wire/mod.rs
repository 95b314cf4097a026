mod encoder;
mod message;

use vstd::prelude::*;

pub use encoder::{WIRE_BINARY_OP_POINTCLOUD, encode_wire_pointcloud_message};
pub use message::{
    ChannelInfo, ChannelList, Subscribe, Subscribed, SubscribedChannel, Subscription, Unsubscribe,
    WIRE_OP_SUBSCRIBE, WIRE_OP_UNSUBSCRIBE, WireField, WireOperation, confirms, describes_field,
    lists,
};

verus! {

/// The WebSocket subprotocol of the PointCloud Wire protocol.
pub const POINTCLOUD_WIRE_SUBPROTOCOL: &'static str = "pointcloud.wire.v1";

} // verus!

mod encoder;
mod message;

use vstd::prelude::*;

pub use encoder::{
    FOXGLOVE_BINARY_OP_MESSAGE_DATA, FoxgloveField, FoxgloveFieldView, FoxglovePointCloud,
    FoxgloveTimestamp, encode_foxglove_pointcloud_message, encode_message_data, expanded_fields,
    field_view, foxglove_numeric_type, foxglove_type_code, lemma_foxglove_type_codes, is_foxglove_cloud_of, value_field,
    value_field_count, value_offsets_fit, value_offsets_fit_u32,
};
pub use message::{
    Advertise, AdvertisedChannel, FOXGLOVE_OP_SUBSCRIBE, FOXGLOVE_OP_UNSUBSCRIBE,
    FoxgloveOperation, ServerInfo, Subscribe, Subscription, Unsubscribe, advertises,
};

verus! {

/// The WebSocket subprotocol of the Foxglove protocol.
pub const FOXGLOVE_SUBPROTOCOL: &'static str = "foxglove.websocket.v1";

} // verus!

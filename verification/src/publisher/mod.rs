pub mod channel;
pub mod foxgloves;
pub mod framing;
pub mod pointcloud_wire;
pub mod text;
pub mod websocket;

pub use channel::{
    Channel, ChannelId, ChannelRegistry, NumberedChannels, channels_numbered, find_channel,
    first_with_id, id_for_position, lemma_numbered_ids_unique, lemma_register_then_find,
    lookup_result, register_channel_in, same_channel,
};

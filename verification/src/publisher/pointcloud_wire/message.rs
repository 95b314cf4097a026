use vstd::prelude::*;

use crate::pointcloud::PointField;
use crate::publisher::channel::Channel;

verus! {

/// The `op` of a PointCloud Wire subscribe request.
pub const WIRE_OP_SUBSCRIBE: &'static str = "subscribe";

/// The `op` of a PointCloud Wire unsubscribe request.
pub const WIRE_OP_UNSUBSCRIBE: &'static str = "unsubscribe";

/// One entry of the channel list: identifier and topic.
#[derive(Debug, PartialEq, Eq)]
pub struct ChannelInfo {
    pub id: u32,
    pub topic: String,
}

/// `info` lists channel `c`.
pub open spec fn lists(info: ChannelInfo, c: Channel) -> bool {
    info.id == c.id.value() && info.topic@ == c.topic@
}

impl ChannelInfo {
    /// The list entry of `channel`.
    pub fn from_channel(channel: &Channel) -> (info: Self)
        ensures
            lists(info, *channel),
    {
        ChannelInfo { id: channel.id.as_u32(), topic: channel.topic.clone() }
    }
}

/// The `channels` message a PointCloud Wire client receives first.
#[derive(Debug)]
pub struct ChannelList {
    pub op: &'static str,
    pub channels: Vec<ChannelInfo>,
}

impl ChannelList {
    /// A channel list with these entries.
    pub fn new(channels: Vec<ChannelInfo>) -> (m: Self)
        ensures
            m.op@ == "channels"@,
            m.channels == channels,
    {
        ChannelList { op: "channels", channels }
    }

    /// The channel list of `channels`, in order.
    pub fn from_channels(channels: &[Channel]) -> (m: Self)
        ensures
            m.op@ == "channels"@,
            m.channels@.len() == channels@.len(),
            forall|i: int| 0 <= i < channels@.len() ==> lists(#[trigger] m.channels@[i], channels@[i]),
    {
        let mut infos: Vec<ChannelInfo> = Vec::new();
        let mut i: usize = 0;
        while i < channels.len()
            invariant
                i <= channels@.len(),
                infos@.len() == i,
                forall|j: int| 0 <= j < i ==> lists(#[trigger] infos@[j], channels@[j]),
            decreases channels.len() - i,
        {
            infos.push(ChannelInfo::from_channel(&channels[i]));
            i = i + 1;
        }
        ChannelList { op: "channels", channels: infos }
    }
}

/// A PointCloud Wire subscribe request.
#[derive(Debug)]
pub struct Subscribe {
    pub op: String,
    pub subscriptions: Vec<Subscription>,
}

/// One subscription of a request: the client's identifier for it and the
/// channel it asks for.
#[derive(Debug, Clone, Copy, PartialEq, Eq, Structural)]
pub struct Subscription {
    pub id: u32,
    pub channel_id: u32,
}

/// A PointCloud Wire unsubscribe request.
#[derive(Debug)]
pub struct Unsubscribe {
    pub op: String,
    pub subscription_ids: Vec<u32>,
}

/// The `op` of any PointCloud Wire request.
#[derive(Debug)]
pub struct WireOperation {
    pub op: String,
}

/// One field of a subscribed channel's layout, with its ROS type code.
#[derive(Debug, PartialEq, Eq)]
pub struct WireField {
    pub name: String,
    pub offset: u32,
    pub data_type: u8,
    pub count: u32,
}

/// `w` describes point field `f`.
pub open spec fn describes_field(w: WireField, f: PointField) -> bool {
    &&& w.name@ == f.name@
    &&& w.offset == f.offset
    &&& w.data_type == f.data_type.spec_ros_code()
    &&& w.count == f.count
}

/// One accepted subscription and the layout of the points it will carry.
#[derive(Debug)]
pub struct SubscribedChannel {
    pub id: u32,
    pub channel_id: u32,
    pub point_stride: u32,
    pub fields: Vec<WireField>,
}

/// `s` confirms subscription `subscription_id` to channel `c`.
pub open spec fn confirms(s: SubscribedChannel, subscription_id: u32, c: Channel) -> bool {
    &&& s.id == subscription_id
    &&& s.channel_id == c.id.value()
    &&& s.point_stride == c.layout.point_step
    &&& s.fields@.len() == c.layout.fields@.len()
    &&& forall|i: int|
        0 <= i < c.layout.fields@.len() ==> describes_field(
            #[trigger] s.fields@[i],
            c.layout.fields@[i],
        )
}

impl SubscribedChannel {
    /// The confirmation of subscription `subscription_id` to `channel`,
    /// carrying the channel's layout.
    pub fn from_channel(subscription_id: u32, channel: &Channel) -> (s: Self)
        ensures
            confirms(s, subscription_id, *channel),
    {
        let mut fields: Vec<WireField> = Vec::new();
        let layout_fields = &channel.layout.fields;
        let mut i: usize = 0;
        while i < layout_fields.len()
            invariant
                *layout_fields == channel.layout.fields,
                i <= layout_fields@.len(),
                fields@.len() == i,
                forall|j: int| 0 <= j < i ==> describes_field(#[trigger] fields@[j], layout_fields@[j]),
            decreases layout_fields.len() - i,
        {
            let field = &layout_fields[i];
            fields.push(
                WireField {
                    name: field.name.clone(),
                    offset: field.offset,
                    data_type: field.data_type.ros_code(),
                    count: field.count,
                },
            );
            i = i + 1;
        }
        SubscribedChannel {
            id: subscription_id,
            channel_id: channel.id.as_u32(),
            point_stride: channel.layout.point_step,
            fields,
        }
    }
}

/// The `subscribed` reply to a PointCloud Wire subscribe request.
#[derive(Debug)]
pub struct Subscribed {
    pub op: &'static str,
    pub subscriptions: Vec<SubscribedChannel>,
}

impl Subscribed {
    /// A `subscribed` reply confirming these subscriptions.
    pub fn new(subscriptions: Vec<SubscribedChannel>) -> (m: Self)
        ensures
            m.op@ == "subscribed"@,
            m.subscriptions == subscriptions,
    {
        Subscribed { op: "subscribed", subscriptions }
    }
}

} // verus!

use vstd::prelude::*;

use crate::publisher::channel::Channel;

verus! {

/// The `op` of a Foxglove subscribe request.
pub const FOXGLOVE_OP_SUBSCRIBE: &'static str = "subscribe";

/// The `op` of a Foxglove unsubscribe request.
pub const FOXGLOVE_OP_UNSUBSCRIBE: &'static str = "unsubscribe";

/// The `serverInfo` message a Foxglove client receives first.
#[derive(Debug)]
pub struct ServerInfo {
    pub op: &'static str,
    pub name: String,
    pub capabilities: Vec<&'static str>,
}

impl ServerInfo {
    /// The server information of a server called `name`, with no
    /// capabilities.
    pub fn new(name: &str) -> (info: Self)
        ensures
            info.op@ == "serverInfo"@,
            info.name@ == name@,
            info.capabilities@.len() == 0,
    {
        ServerInfo { op: "serverInfo", name: name.to_owned(), capabilities: Vec::new() }
    }
}

/// One channel of a Foxglove `advertise` message.
#[derive(Debug, PartialEq, Eq)]
pub struct AdvertisedChannel {
    pub id: u32,
    pub topic: String,
    pub encoding: String,
    pub schema_name: String,
    pub schema: String,
}

/// `a` advertises channel `c`: same identifier and topic, JSON encoding of
/// the `foxglove.PointCloud` schema.
pub open spec fn advertises(a: AdvertisedChannel, c: Channel) -> bool {
    &&& a.id == c.id.value()
    &&& a.topic@ == c.topic@
    &&& a.encoding@ == "json"@
    &&& a.schema_name@ == "foxglove.PointCloud"@
    &&& a.schema@ == ""@
}

impl AdvertisedChannel {
    /// How channel `channel` is advertised.
    pub fn from_channel(channel: &Channel) -> (a: Self)
        ensures
            advertises(a, *channel),
    {
        AdvertisedChannel {
            id: channel.id.as_u32(),
            topic: channel.topic.clone(),
            encoding: "json".to_owned(),
            schema_name: "foxglove.PointCloud".to_owned(),
            schema: "".to_owned(),
        }
    }
}

/// The Foxglove `advertise` message.
#[derive(Debug)]
pub struct Advertise {
    pub op: &'static str,
    pub channels: Vec<AdvertisedChannel>,
}

impl Advertise {
    /// An `advertise` message for these channels.
    pub fn new(channels: Vec<AdvertisedChannel>) -> (m: Self)
        ensures
            m.op@ == "advertise"@,
            m.channels == channels,
    {
        Advertise { op: "advertise", channels }
    }

    /// An `advertise` message for every channel of `channels`, in order.
    pub fn from_channels(channels: &[Channel]) -> (m: Self)
        ensures
            m.op@ == "advertise"@,
            m.channels@.len() == channels@.len(),
            forall|i: int|
                0 <= i < channels@.len() ==> advertises(#[trigger] m.channels@[i], channels@[i]),
    {
        let mut advertised: Vec<AdvertisedChannel> = Vec::new();
        let mut i: usize = 0;
        while i < channels.len()
            invariant
                i <= channels@.len(),
                advertised@.len() == i,
                forall|j: int| 0 <= j < i ==> advertises(#[trigger] advertised@[j], channels@[j]),
            decreases channels.len() - i,
        {
            advertised.push(AdvertisedChannel::from_channel(&channels[i]));
            i = i + 1;
        }
        Advertise { op: "advertise", channels: advertised }
    }
}

/// A Foxglove subscribe request.
#[derive(Debug)]
pub struct Subscribe {
    pub op: String,
    pub subscriptions: Vec<Subscription>,
}

/// One subscription of a request: the client's identifier for it and the
/// channel it asks for.
#[derive(Debug, Clone, Copy, PartialEq, Eq, Structural)]
pub struct Subscription {
    pub id: u32,
    pub channel_id: u32,
}

/// A Foxglove unsubscribe request.
#[derive(Debug)]
pub struct Unsubscribe {
    pub op: String,
    pub subscription_ids: Vec<u32>,
}

/// The `op` of any Foxglove request.
#[derive(Debug)]
pub struct FoxgloveOperation {
    pub op: String,
}

} // verus!

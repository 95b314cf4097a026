use std::sync::Arc;

use vstd::prelude::*;
use vstd::rwlock::{RwLock, RwLockPredicate};

use crate::pointcloud::PointCloudLayout;

verus! {

/// The identifier of a registered channel.
#[derive(Debug, Clone, Copy, PartialEq, Eq, Hash, Structural)]
pub struct ChannelId(u32);

impl ChannelId {
    /// The number behind the identifier.
    pub closed spec fn value(self) -> u32 {
        self.0
    }

    /// Returns the number behind the identifier.
    pub fn as_u32(self) -> (v: u32)
        ensures
            v == self.value(),
    {
        self.0
    }
}

/// A topic on which point clouds of one layout are published.
#[derive(Debug)]
pub struct Channel {
    pub id: ChannelId,
    pub topic: String,
    pub layout: PointCloudLayout,
}

/// Two channels that agree on identifier, topic and layout.
pub open spec fn same_channel(a: Channel, b: Channel) -> bool {
    &&& a.id == b.id
    &&& a.topic@ == b.topic@
    &&& a.layout.point_step == b.layout.point_step
    &&& a.layout.fields@ == b.layout.fields@
}

impl Clone for Channel {
    fn clone(&self) -> (res: Self)
        ensures
            same_channel(res, *self),
    {
        Channel { id: self.id, topic: self.topic.clone(), layout: self.layout.clone() }
    }
}

/// The identifier that the channel registered at position `i` gets: its
/// position, wrapping around past `u32::MAX` as the position is stored in a
/// `u32`.
pub open spec fn id_for_position(i: int) -> u32 {
    (i % 0x1_0000_0000) as u32
}

/// Every channel carries the identifier of its position.
pub open spec fn channels_numbered(channels: Seq<Channel>) -> bool {
    forall|i: int| 0 <= i < channels.len() ==> (#[trigger] channels[i]).id.value() == id_for_position(i)
}

/// The position of the first channel whose identifier is `raw`, if any.
pub open spec fn first_with_id(channels: Seq<Channel>, raw: u32) -> Option<int> {
    if exists|i: int| 0 <= i < channels.len() && (#[trigger] channels[i]).id.value() == raw {
        Some(
            choose|i: int|
                0 <= i < channels.len() && (#[trigger] channels[i]).id.value() == raw && forall|
                    j: int,
                | 0 <= j < i ==> (#[trigger] channels[j]).id.value() != raw,
        )
    } else {
        None
    }
}

/// What a lookup of `raw` among `channels` returns: a copy of the first
/// channel with that identifier, or nothing.
pub open spec fn lookup_result(channels: Seq<Channel>, raw: u32, r: Option<Channel>) -> bool {
    match first_with_id(channels, raw) {
        Some(i) => r is Some && same_channel(r->0, channels[i]),
        None => r is None,
    }
}

/// Appends a channel for `topic` and `layout` with the identifier of its
/// position, and returns that identifier.
pub fn register_channel_in(channels: &mut Vec<Channel>, topic: String, layout: PointCloudLayout) -> (id:
    ChannelId)
    ensures
        id.value() == id_for_position(old(channels)@.len() as int),
        final(channels)@ == old(channels)@.push(Channel { id, topic, layout }),
{
    let position = channels.len() as u64;
    let id = ChannelId((position % 0x1_0000_0000) as u32);
    channels.push(Channel { id, topic, layout });
    id
}

/// Looks `raw` up among `channels`, first match first.
pub fn find_channel(channels: &Vec<Channel>, raw: u32) -> (r: Option<Channel>)
    ensures
        lookup_result(channels@, raw, r),
        r matches Some(c) ==> c.id.value() == raw,
{
    let mut i: usize = 0;
    while i < channels.len()
        invariant
            i <= channels@.len(),
            forall|j: int| 0 <= j < i ==> (#[trigger] channels@[j]).id.value() != raw,
        decreases channels.len() - i,
    {
        if channels[i].id.0 == raw {
            let found = channels[i].clone();
            proof {
                let k = i as int;
                assert(0 <= k < channels@.len() && channels@[k].id.value() == raw);
                let c = choose|c: int|
                    0 <= c < channels@.len() && (#[trigger] channels@[c]).id.value() == raw
                        && forall|j: int| 0 <= j < c ==> (#[trigger] channels@[j]).id.value() != raw;
                assert(c == k) by {
                    if c < k {
                        assert(channels@[c].id.value() != raw);
                    } else if c > k {
                        assert(channels@[k].id.value() != raw);
                    }
                }
            }
            return Some(found);
        }
        i = i + 1;
    }
    None
}

/// Registering a channel keeps the channels numbered by position, and a
/// lookup of its identifier then finds it, while fewer than 2^32 channels
/// were registered before it.
pub proof fn lemma_register_then_find(channels: Seq<Channel>, c: Channel)
    requires
        channels_numbered(channels),
        channels.len() < 0x1_0000_0000,
        c.id.value() == id_for_position(channels.len() as int),
    ensures
        channels_numbered(channels.push(c)),
        first_with_id(channels.push(c), c.id.value()) == Some(channels.len() as int),
{
    let all = channels.push(c);
    let n = channels.len() as int;
    assert forall|i: int| 0 <= i < all.len() implies (#[trigger] all[i]).id.value()
        == id_for_position(i) by {
        if i < n {
            assert(all[i] == channels[i]);
        }
    }
    assert(all[n].id.value() == c.id.value());
    assert forall|j: int| 0 <= j < n implies (#[trigger] all[j]).id.value() != c.id.value() by {
        assert(all[j] == channels[j]);
        assert(id_for_position(j) == j);
        assert(id_for_position(n) == n);
    }
    let k = choose|i: int|
        0 <= i < all.len() && (#[trigger] all[i]).id.value() == c.id.value() && forall|j: int|
            0 <= j < i ==> (#[trigger] all[j]).id.value() != c.id.value();
    assert(k == n) by {
        if k < n {
            assert(all[k].id.value() != c.id.value());
        } else if k > n {
            assert(all[n].id.value() != c.id.value());
        }
    }
}

/// Channels numbered by position carry distinct identifiers, as long as
/// there are at most 2^32 of them.
pub proof fn lemma_numbered_ids_unique(channels: Seq<Channel>)
    requires
        channels_numbered(channels),
        channels.len() <= 0x1_0000_0000,
    ensures
        forall|i: int, j: int|
            0 <= i < j < channels.len() ==> (#[trigger] channels[i]).id != (#[trigger] channels[j]).id,
{
    assert forall|i: int, j: int| 0 <= i < j < channels.len() implies (#[trigger] channels[i]).id
        != (#[trigger] channels[j]).id by {
        assert(channels[i].id.value() == i);
        assert(channels[j].id.value() == j);
    }
}

/// The lock invariant of a registry: channels are numbered by position.
pub struct NumberedChannels;

impl RwLockPredicate<Vec<Channel>> for NumberedChannels {
    open spec fn inv(self, channels: Vec<Channel>) -> bool {
        channels_numbered(channels@)
    }
}

/// The channels known to a server. Clones share the same channels.
#[derive(Clone)]
pub struct ChannelRegistry {
    channels: Arc<RwLock<Vec<Channel>, NumberedChannels>>,
}

impl ChannelRegistry {
    /// A registry with no channels.
    pub fn new() -> (r: Self) {
        ChannelRegistry { channels: Arc::new(RwLock::new(Vec::new(), Ghost(NumberedChannels))) }
    }

    /// Registers a channel; its identifier is the number of channels
    /// registered before it in this registry and its clones.
    pub fn register(&self, topic: &str, layout: PointCloudLayout) -> (id: ChannelId) {
        let (mut channels, handle) = self.channels.acquire_write();
        let id = register_channel_in(&mut channels, topic.to_owned(), layout);
        proof {
            assert forall|i: int| 0 <= i < channels@.len() implies (#[trigger] channels@[i]).id.value()
                == id_for_position(i) by {}
        }
        handle.release_write(channels);
        id
    }

    /// The channel registered under `id`, if any.
    pub fn get(&self, id: ChannelId) -> (r: Option<Channel>)
        ensures
            r matches Some(c) ==> c.id == id,
    {
        self.get_by_raw_id(id.0)
    }

    /// A copy of all channels, in the order they were registered; each
    /// carries the identifier of its position.
    pub fn channels(&self) -> (all: Vec<Channel>)
        ensures
            channels_numbered(all@),
    {
        let handle = self.channels.acquire_read();
        let all = handle.borrow().clone();
        proof {
            assert forall|i: int| 0 <= i < all@.len() implies (#[trigger] all@[i]).id.value()
                == id_for_position(i) by {
                assert(same_channel(all@[i], handle.view()@[i]));
            }
        }
        handle.release_read();
        all
    }

    /// The channel whose identifier is the number `id`, if any.
    pub fn get_by_raw_id(&self, id: u32) -> (r: Option<Channel>)
        ensures
            r matches Some(c) ==> c.id.value() == id,
    {
        let handle = self.channels.acquire_read();
        let found = find_channel(handle.borrow(), id);
        handle.release_read();
        found
    }
}

impl Default for ChannelRegistry {
    fn default() -> (r: Self) {
        ChannelRegistry::new()
    }
}

} // verus!

use std::collections::HashMap;

use vstd::prelude::*;

use crate::pointcloud::{
    PointCloudFrame, PointCloudLayout, can_pack, fields_equal, frame_can_be_packed, pack_point_data,
    packed_point_data, same_fields,
};
use crate::publisher::channel::{Channel, ChannelId, find_channel, first_with_id};
use crate::publisher::foxgloves::{
    Advertise, FOXGLOVE_OP_SUBSCRIBE, FOXGLOVE_OP_UNSUBSCRIBE, FoxgloveOperation, ServerInfo,
    Subscribe as FoxgloveSubscribe, Unsubscribe as FoxgloveUnsubscribe,
};
use crate::publisher::pointcloud_wire::{
    ChannelList, Subscribe as WireSubscribe, Subscribed, SubscribedChannel,
    Unsubscribe as WireUnsubscribe, WIRE_OP_SUBSCRIBE, WIRE_OP_UNSUBSCRIBE, WireOperation,
    confirms,
};
use super::protocol::Subprotocol;

verus! {

broadcast use vstd::std_specs::hash::group_hash_axioms;

/// The name the server gives itself in its Foxglove `serverInfo`.
pub const SERVER_NAME: &'static str = "pointcloud-stream";

/// What a client asked for in a text message.
#[derive(Debug)]
pub enum ClientRequest {
    /// Subscribe: pairs of the client's subscription identifier and the
    /// raw identifier of the channel it wants.
    Subscribe(Vec<(u32, u32)>),
    /// Unsubscribe these subscription identifiers.
    Unsubscribe(Vec<u32>),
    /// Anything else: not a request, an unknown `op`, or a request whose body
    /// could not be read.
    Ignored,
}

/// What a request means, given its `op` (if the text had one), and its body
/// read as a subscribe and as an unsubscribe request (where it could be).
pub open spec fn request_meaning(
    op: Option<Seq<char>>,
    subscribe: Option<Seq<(u32, u32)>>,
    unsubscribe: Option<Seq<u32>>,
) -> RequestMeaning {
    match op {
        Some(o) => if o == "subscribe"@ {
            match subscribe {
                Some(s) => RequestMeaning::Subscribe(s),
                None => RequestMeaning::Ignored,
            }
        } else if o == "unsubscribe"@ {
            match unsubscribe {
                Some(u) => RequestMeaning::Unsubscribe(u),
                None => RequestMeaning::Ignored,
            }
        } else {
            RequestMeaning::Ignored
        },
        None => RequestMeaning::Ignored,
    }
}

/// A [`ClientRequest`] with its lists taken as sequences.
pub enum RequestMeaning {
    Subscribe(Seq<(u32, u32)>),
    Unsubscribe(Seq<u32>),
    Ignored,
}

impl View for ClientRequest {
    type V = RequestMeaning;

    open spec fn view(&self) -> RequestMeaning {
        match self {
            ClientRequest::Subscribe(s) => RequestMeaning::Subscribe(s@),
            ClientRequest::Unsubscribe(u) => RequestMeaning::Unsubscribe(u@),
            ClientRequest::Ignored => RequestMeaning::Ignored,
        }
    }
}

fn is_op(op: &String, name: &str) -> (r: bool)
    ensures
        r == (op@ == name@),
{
    *op == name.to_owned()
}

impl ClientRequest {
    /// Reads a Foxglove request from its `op` and its body, each where the
    /// text could be read as one.
    pub fn from_foxglove(
        op: Option<FoxgloveOperation>,
        subscribe: Option<FoxgloveSubscribe>,
        unsubscribe: Option<FoxgloveUnsubscribe>,
    ) -> (r: Self)
        ensures
            r@ == request_meaning(
                match op {
                    Some(o) => Some(o.op@),
                    None => None,
                },
                match subscribe {
                    Some(s) => Some(
                        s.subscriptions@.map_values(|x: crate::publisher::foxgloves::Subscription| (x.id, x.channel_id)),
                    ),
                    None => None,
                },
                match unsubscribe {
                    Some(u) => Some(u.subscription_ids@),
                    None => None,
                },
            ),
    {
        proof {
            reveal_strlit("subscribe");
            reveal_strlit("unsubscribe");
        }
        match op {
            Some(o) => {
                if is_op(&o.op, FOXGLOVE_OP_SUBSCRIBE) {
                    match subscribe {
                        Some(s) => {
                            let mut pairs: Vec<(u32, u32)> = Vec::new();
                            let mut i: usize = 0;
                            while i < s.subscriptions.len()
                                invariant
                                    i <= s.subscriptions@.len(),
                                    pairs@ == s.subscriptions@.take(i as int).map_values(
                                        |x: crate::publisher::foxgloves::Subscription| (x.id, x.channel_id),
                                    ),
                                decreases s.subscriptions.len() - i,
                            {
                                let x = s.subscriptions[i];
                                pairs.push((x.id, x.channel_id));
                                assert(s.subscriptions@.take(i + 1) =~= s.subscriptions@.take(
                                    i as int,
                                ).push(x));
                                assert(pairs@ =~= s.subscriptions@.take(i + 1).map_values(
                                    |x: crate::publisher::foxgloves::Subscription| (x.id, x.channel_id),
                                ));
                                i = i + 1;
                            }
                            assert(s.subscriptions@.take(s.subscriptions@.len() as int)
                                =~= s.subscriptions@);
                            ClientRequest::Subscribe(pairs)
                        },
                        None => ClientRequest::Ignored,
                    }
                } else if is_op(&o.op, FOXGLOVE_OP_UNSUBSCRIBE) {
                    match unsubscribe {
                        Some(u) => ClientRequest::Unsubscribe(u.subscription_ids),
                        None => ClientRequest::Ignored,
                    }
                } else {
                    ClientRequest::Ignored
                }
            },
            None => ClientRequest::Ignored,
        }
    }

    /// Reads a PointCloud Wire request from its `op` and its body, each where
    /// the text could be read as one.
    pub fn from_wire(
        op: Option<WireOperation>,
        subscribe: Option<WireSubscribe>,
        unsubscribe: Option<WireUnsubscribe>,
    ) -> (r: Self)
        ensures
            r@ == request_meaning(
                match op {
                    Some(o) => Some(o.op@),
                    None => None,
                },
                match subscribe {
                    Some(s) => Some(
                        s.subscriptions@.map_values(|x: crate::publisher::pointcloud_wire::Subscription| (x.id, x.channel_id)),
                    ),
                    None => None,
                },
                match unsubscribe {
                    Some(u) => Some(u.subscription_ids@),
                    None => None,
                },
            ),
    {
        proof {
            reveal_strlit("subscribe");
            reveal_strlit("unsubscribe");
        }
        match op {
            Some(o) => {
                if is_op(&o.op, WIRE_OP_SUBSCRIBE) {
                    match subscribe {
                        Some(s) => {
                            let mut pairs: Vec<(u32, u32)> = Vec::new();
                            let mut i: usize = 0;
                            while i < s.subscriptions.len()
                                invariant
                                    i <= s.subscriptions@.len(),
                                    pairs@ == s.subscriptions@.take(i as int).map_values(
                                        |x: crate::publisher::pointcloud_wire::Subscription| (x.id, x.channel_id),
                                    ),
                                decreases s.subscriptions.len() - i,
                            {
                                let x = s.subscriptions[i];
                                pairs.push((x.id, x.channel_id));
                                assert(s.subscriptions@.take(i + 1) =~= s.subscriptions@.take(
                                    i as int,
                                ).push(x));
                                assert(pairs@ =~= s.subscriptions@.take(i + 1).map_values(
                                    |x: crate::publisher::pointcloud_wire::Subscription| (x.id, x.channel_id),
                                ));
                                i = i + 1;
                            }
                            assert(s.subscriptions@.take(s.subscriptions@.len() as int)
                                =~= s.subscriptions@);
                            ClientRequest::Subscribe(pairs)
                        },
                        None => ClientRequest::Ignored,
                    }
                } else if is_op(&o.op, WIRE_OP_UNSUBSCRIBE) {
                    match unsubscribe {
                        Some(u) => ClientRequest::Unsubscribe(u.subscription_ids),
                        None => ClientRequest::Ignored,
                    }
                } else {
                    ClientRequest::Ignored
                }
            },
            None => ClientRequest::Ignored,
        }
    }
}


/// The subscriptions after a subscribe request: each pair, in order, whose
/// channel identifier names a channel of `channels` maps the subscription
/// identifier to that channel (a later pair replacing an earlier one); pairs
/// naming no channel are skipped.
pub open spec fn after_subscribe(
    subscriptions: Map<u32, ChannelId>,
    channels: Seq<Channel>,
    requests: Seq<(u32, u32)>,
) -> Map<u32, ChannelId>
    decreases requests.len(),
{
    if requests.len() == 0 {
        subscriptions
    } else {
        let before = after_subscribe(subscriptions, channels, requests.drop_last());
        let (id, raw) = requests.last();
        match first_with_id(channels, raw) {
            Some(i) => before.insert(id, channels[i].id),
            None => before,
        }
    }
}

/// Some request of `requests` is for subscription identifier `id`.
pub open spec fn names_subscription(requests: Seq<(u32, u32)>, id: u32) -> bool {
    exists|j: int| 0 <= j < requests.len() && (#[trigger] requests[j]).0 == id
}

/// A subscribe request keeps every earlier subscription whose identifier it
/// does not name, to the same channel: subscribing adds to the
/// subscriptions, it does not replace them.
pub proof fn lemma_subscribe_keeps_others(
    subscriptions: Map<u32, ChannelId>,
    channels: Seq<Channel>,
    requests: Seq<(u32, u32)>,
)
    ensures
        forall|k: u32|
            !names_subscription(requests, k) && subscriptions.contains_key(k) ==> #[trigger] after_subscribe(
                subscriptions,
                channels,
                requests,
            ).contains_key(k) && after_subscribe(subscriptions, channels, requests)[k]
                == subscriptions[k],
    decreases requests.len(),
{
    if requests.len() > 0 {
        let prefix = requests.drop_last();
        lemma_subscribe_keeps_others(subscriptions, channels, prefix);
        let before = after_subscribe(subscriptions, channels, prefix);
        assert forall|k: u32|
            !names_subscription(requests, k) && subscriptions.contains_key(k) implies #[trigger] after_subscribe(
            subscriptions,
            channels,
            requests,
        ).contains_key(k) && after_subscribe(subscriptions, channels, requests)[k]
            == subscriptions[k] by {
            assert(!names_subscription(prefix, k)) by {
                if names_subscription(prefix, k) {
                    let j = choose|j: int| 0 <= j < prefix.len() && (#[trigger] prefix[j]).0 == k;
                    assert(requests[j] == prefix[j]);
                }
            }
            assert(requests[requests.len() - 1].0 != k);
            assert(after_subscribe(subscriptions, channels, prefix).contains_key(k));
            assert(before.contains_key(k) && before[k] == subscriptions[k]);
        }
    }
}

/// The requests of a subscribe request that name a channel of `channels`,
/// in order, each with the position of that channel.
pub open spec fn accepted_requests(channels: Seq<Channel>, requests: Seq<(u32, u32)>) -> Seq<
    (u32, int),
>
    decreases requests.len(),
{
    if requests.len() == 0 {
        Seq::empty()
    } else {
        let before = accepted_requests(channels, requests.drop_last());
        let (id, raw) = requests.last();
        match first_with_id(channels, raw) {
            Some(i) => before.push((id, i)),
            None => before,
        }
    }
}

/// The subscriptions after an unsubscribe request: each identifier removed.
pub open spec fn after_unsubscribe(subscriptions: Map<u32, ChannelId>, ids: Seq<u32>) -> Map<
    u32,
    ChannelId,
>
    decreases ids.len(),
{
    if ids.len() == 0 {
        subscriptions
    } else {
        after_unsubscribe(subscriptions, ids.drop_last()).remove(ids.last())
    }
}

/// `reply` confirms, in order, the accepted requests of a subscribe request.
pub open spec fn confirms_all(reply: Seq<SubscribedChannel>, channels: Seq<Channel>, requests: Seq<
    (u32, u32),
>) -> bool {
    let accepted = accepted_requests(channels, requests);
    &&& reply.len() == accepted.len()
    &&& forall|k: int|
        0 <= k < accepted.len() ==> confirms(
            #[trigger] reply[k],
            accepted[k].0,
            channels[accepted[k].1],
        )
}

/// The state the server keeps for one connected client: the subprotocol
/// chosen at the handshake and the client's subscriptions, each mapping the
/// client's identifier to a channel.
#[derive(Debug)]
pub struct ClientSession {
    subprotocol: Option<Subprotocol>,
    subscriptions: HashMap<u32, ChannelId>,
}

/// The state of a [`ClientSession`].
pub struct SessionView {
    pub subprotocol: Option<Subprotocol>,
    pub subscriptions: Map<u32, ChannelId>,
}

impl View for ClientSession {
    type V = SessionView;

    closed spec fn view(&self) -> SessionView {
        SessionView { subprotocol: self.subprotocol, subscriptions: self.subscriptions@ }
    }
}

/// What the server does with a text message of a client.
#[derive(Debug)]
pub enum TextAction {
    /// Hand the message to the user of the server.
    Forward,
    /// Nothing more to do.
    Done,
    /// Send this reply to the client.
    Reply(Subscribed),
}

/// What the server sends a client right after the handshake.
#[derive(Debug)]
pub enum ServerMessage {
    ChannelList(ChannelList),
    ServerInfo(ServerInfo),
    Advertise(Advertise),
}

/// The subscriptions of one client that a published frame goes to, by
/// subprotocol.
#[derive(Debug)]
pub struct PublishTargets {
    pub foxglove: Vec<u32>,
    pub wire: Vec<u32>,
}

/// The identifiers, among `subscriptions`, of the subscriptions to `channel`.
pub open spec fn subscribed_to(subscriptions: Map<u32, ChannelId>, channel: ChannelId) -> Set<u32> {
    Set::new(|id: u32| subscriptions.contains_key(id) && subscriptions[id] == channel)
}

impl ClientSession {
    /// A session with this subprotocol and no subscriptions.
    pub fn new(subprotocol: Option<Subprotocol>) -> (s: Self)
        ensures
            s@.subprotocol == subprotocol,
            s@.subscriptions == Map::<u32, ChannelId>::empty(),
    {
        ClientSession { subprotocol, subscriptions: HashMap::new() }
    }

    /// The subprotocol chosen at the handshake.
    pub fn subprotocol(&self) -> (p: Option<Subprotocol>)
        ensures
            p == self@.subprotocol,
    {
        self.subprotocol
    }

    /// Applies a subscribe request against `channels`, and returns the
    /// confirmation of every request that named a channel.
    fn subscribe(&mut self, channels: &Vec<Channel>, requests: &Vec<(u32, u32)>) -> (reply: Vec<
        SubscribedChannel,
    >)
        ensures
            final(self)@.subprotocol == old(self)@.subprotocol,
            final(self)@.subscriptions == after_subscribe(
                old(self)@.subscriptions,
                channels@,
                requests@,
            ),
            confirms_all(reply@, channels@, requests@),
    {
        let mut reply: Vec<SubscribedChannel> = Vec::new();
        let ghost start = self@.subscriptions;
        let mut i: usize = 0;
        while i < requests.len()
            invariant
                i <= requests@.len(),
                self@.subprotocol == old(self)@.subprotocol,
                start == old(self)@.subscriptions,
                self@.subscriptions == after_subscribe(start, channels@, requests@.take(i as int)),
                confirms_all(reply@, channels@, requests@.take(i as int)),
            decreases requests.len() - i,
        {
            let (id, raw) = requests[i];
            let ghost prefix = requests@.take(i + 1);
            assert(prefix.drop_last() =~= requests@.take(i as int));
            assert(prefix.last() == requests@[i as int]);
            let ghost reply_before = reply@;
            match find_channel(channels, raw) {
                Some(channel) => {
                    self.subscriptions.insert(id, channel.id);
                    reply.push(SubscribedChannel::from_channel(id, &channel));
                    proof {
                        let accepted = accepted_requests(channels@, prefix);
                        let k = first_with_id(channels@, raw)->0;
                        assert(accepted == accepted_requests(channels@, requests@.take(i as int)).push(
                            (id, k),
                        ));
                        assert forall|m: int| 0 <= m < accepted.len() implies confirms(
                            #[trigger] reply@[m],
                            accepted[m].0,
                            channels@[accepted[m].1],
                        ) by {
                            if m < accepted.len() - 1 {
                                assert(reply@[m] == reply_before[m]);
                            }
                        }
                    }
                },
                None => {},
            }
            i = i + 1;
        }
        assert(requests@.take(requests@.len() as int) =~= requests@);
        reply
    }

    /// Applies an unsubscribe request.
    fn unsubscribe(&mut self, ids: &Vec<u32>)
        ensures
            final(self)@.subprotocol == old(self)@.subprotocol,
            final(self)@.subscriptions == after_unsubscribe(old(self)@.subscriptions, ids@),
    {
        let ghost start = self@.subscriptions;
        let mut i: usize = 0;
        while i < ids.len()
            invariant
                i <= ids@.len(),
                self@.subprotocol == old(self)@.subprotocol,
                start == old(self)@.subscriptions,
                self@.subscriptions == after_unsubscribe(start, ids@.take(i as int)),
            decreases ids.len() - i,
        {
            let id = ids[i];
            self.subscriptions.remove(&id);
            assert(ids@.take(i + 1).drop_last() =~= ids@.take(i as int));
            i = i + 1;
        }
        assert(ids@.take(ids@.len() as int) =~= ids@);
    }

    /// Handles a text message of the client, given what it asks for and the
    /// registered `channels`: without a subprotocol the message goes to the
    /// user; with one, subscribe and unsubscribe requests change the
    /// subscriptions, and a PointCloud Wire subscribe request is answered
    /// with the confirmations.
    pub fn on_text(&mut self, channels: &Vec<Channel>, request: ClientRequest) -> (action:
        TextAction)
        ensures
            final(self)@.subprotocol == old(self)@.subprotocol,
            match old(self)@.subprotocol {
                None => action is Forward && final(self)@.subscriptions == old(self)@.subscriptions,
                Some(p) => match request@ {
                    RequestMeaning::Subscribe(requests) => {
                        &&& final(self)@.subscriptions == after_subscribe(
                            old(self)@.subscriptions,
                            channels@,
                            requests,
                        )
                        &&& forall|k: u32|
                            !names_subscription(requests, k)
                                && old(self)@.subscriptions.contains_key(k)
                                ==> #[trigger] final(self)@.subscriptions.contains_key(k)
                                && final(self)@.subscriptions[k] == old(self)@.subscriptions[k]
                        &&& match p {
                            Subprotocol::Foxglove => action is Done,
                            Subprotocol::PointCloudWire => match action {
                                TextAction::Reply(reply) => reply.op@ == "subscribed"@
                                    && confirms_all(reply.subscriptions@, channels@, requests),
                                _ => false,
                            },
                        }
                    },
                    RequestMeaning::Unsubscribe(ids) => action is Done && final(self)@.subscriptions
                        == after_unsubscribe(old(self)@.subscriptions, ids),
                    RequestMeaning::Ignored => action is Done && final(self)@.subscriptions == old(
                        self,
                    )@.subscriptions,
                },
            },
    {
        match self.subprotocol {
            None => TextAction::Forward,
            Some(p) => match request {
                ClientRequest::Subscribe(requests) => {
                    proof {
                        lemma_subscribe_keeps_others(old(self)@.subscriptions, channels@, requests@);
                    }
                    let reply = self.subscribe(channels, &requests);
                    match p {
                        Subprotocol::Foxglove => TextAction::Done,
                        Subprotocol::PointCloudWire => TextAction::Reply(Subscribed::new(reply)),
                    }
                },
                ClientRequest::Unsubscribe(ids) => {
                    self.unsubscribe(&ids);
                    TextAction::Done
                },
                ClientRequest::Ignored => TextAction::Done,
            },
        }
    }

    /// The identifiers of this client's subscriptions to `channel`, each
    /// once.
    pub fn subscriptions_to(&self, channel: ChannelId) -> (ids: Vec<u32>)
        ensures
            ids@.no_duplicates(),
            ids@.to_set() == subscribed_to(self@.subscriptions, channel),
    {
        let mut ids: Vec<u32> = Vec::new();
        let ghost m = self.subscriptions@;
        let ghost wanted = subscribed_to(m, channel);
        for entry in it: self.subscriptions.iter()
            invariant
                m == self.subscriptions@,
                wanted == subscribed_to(m, channel),
                it.seq().no_duplicates(),
                forall|k: int|
                    #![trigger it.seq()[k]]
                    0 <= k < it.seq().len() ==> m.contains_key(*it.seq()[k].0) && m[*it.seq()[k].0]
                        == *it.seq()[k].1,
                ids@.no_duplicates(),
                forall|id: u32| #[trigger] ids@.contains(id) ==> wanted.contains(id),
                forall|id: u32|
                    #[trigger] ids@.contains(id) ==> exists|k: int|
                        0 <= k < it.index() && *(#[trigger] it.seq()[k]).0 == id,
                forall|id: u32|
                    #[trigger] wanted.contains(id) && !ids@.contains(id) ==> exists|k: int|
                        it.index() <= k < it.seq().len() && *(#[trigger] it.seq()[k]).0 == id,
        {
            let (id, subscribed) = entry;
            let ghost here = it.index();
            let ghost before = ids@;
            if *subscribed == channel {
                proof {
                    if before.contains(*id) {
                        let k = choose|k: int| 0 <= k < here && *(#[trigger] it.seq()[k]).0 == *id;
                        assert(it.seq()[k] == it.seq()[here]);
                    }
                }
                ids.push(*id);
                assert(ids@[ids@.len() - 1] == *id);
                assert(ids@.contains(*id));
            }
            proof {
                assert(m.contains_key(*it.seq()[here].0) && m[*it.seq()[here].0] == *it.seq()[here].1);
                assert forall|x: u32| #[trigger] ids@.contains(x) implies wanted.contains(x) by {
                    if !before.contains(x) {
                        let j = choose|j: int| 0 <= j < ids@.len() && ids@[j] == x;
                        if j < before.len() {
                            assert(before[j] == x);
                        }
                        assert(x == *id);
                    }
                }
                assert forall|x: u32| #[trigger] wanted.contains(x) && !ids@.contains(x) implies exists|
                    k: int,
                | here + 1 <= k < it.seq().len() && *(#[trigger] it.seq()[k]).0 == x by {
                    if before.contains(x) {
                        let j = choose|j: int| 0 <= j < before.len() && before[j] == x;
                        assert(ids@[j] == x);
                    }
                    let k = choose|k: int|
                        here <= k < it.seq().len() && *(#[trigger] it.seq()[k]).0 == x;
                    if k == here {
                        assert(false);
                    }
                }
                assert forall|x: u32| #[trigger] ids@.contains(x) implies exists|k: int|
                    0 <= k < here + 1 && *(#[trigger] it.seq()[k]).0 == x by {
                    if before.contains(x) {
                        let k = choose|k: int| 0 <= k < here && *(#[trigger] it.seq()[k]).0 == x;
                    } else {
                        assert(it.seq()[here].0 == x);
                    }
                }
            }
        }
        proof {
            assert(ids@.to_set() =~= wanted);
        }
        ids
    }

    /// The subscriptions of this client that a frame of `channel` goes to,
    /// under the client's subprotocol.
    pub fn targets_for(&self, channel: ChannelId) -> (targets: PublishTargets)
        ensures
            match self@.subprotocol {
                Some(Subprotocol::Foxglove) => targets.wire@.len() == 0
                    && targets.foxglove@.no_duplicates() && targets.foxglove@.to_set()
                    == subscribed_to(self@.subscriptions, channel),
                Some(Subprotocol::PointCloudWire) => targets.foxglove@.len() == 0
                    && targets.wire@.no_duplicates() && targets.wire@.to_set() == subscribed_to(
                    self@.subscriptions,
                    channel,
                ),
                None => targets.foxglove@.len() == 0 && targets.wire@.len() == 0,
            },
    {
        match self.subprotocol {
            Some(Subprotocol::Foxglove) => PublishTargets {
                foxglove: self.subscriptions_to(channel),
                wire: Vec::new(),
            },
            Some(Subprotocol::PointCloudWire) => PublishTargets {
                foxglove: Vec::new(),
                wire: self.subscriptions_to(channel),
            },
            None => PublishTargets { foxglove: Vec::new(), wire: Vec::new() },
        }
    }
}

/// What the server sends a client right after the handshake: the channel
/// list under PointCloud Wire; the server information then the advertised
/// channels under Foxglove; nothing without a subprotocol.
pub fn greeting(subprotocol: Option<Subprotocol>, channels: &[Channel]) -> (messages: Vec<
    ServerMessage,
>)
    ensures
        match subprotocol {
            None => messages@.len() == 0,
            Some(Subprotocol::PointCloudWire) => messages@.len() == 1 && match messages@[0] {
                ServerMessage::ChannelList(list) => list.op@ == "channels"@ && list.channels@.len()
                    == channels@.len() && forall|i: int|
                    0 <= i < channels@.len() ==> crate::publisher::pointcloud_wire::lists(
                        #[trigger] list.channels@[i],
                        channels@[i],
                    ),
                _ => false,
            },
            Some(Subprotocol::Foxglove) => messages@.len() == 2 && match messages@[0] {
                ServerMessage::ServerInfo(info) => info.op@ == "serverInfo"@ && info.name@
                    == SERVER_NAME@ && info.capabilities@.len() == 0,
                _ => false,
            } && match messages@[1] {
                ServerMessage::Advertise(ad) => ad.op@ == "advertise"@ && ad.channels@.len()
                    == channels@.len() && forall|i: int|
                    0 <= i < channels@.len() ==> crate::publisher::foxgloves::advertises(
                        #[trigger] ad.channels@[i],
                        channels@[i],
                    ),
                _ => false,
            },
        },
{
    let mut messages: Vec<ServerMessage> = Vec::new();
    match subprotocol {
        None => {},
        Some(Subprotocol::PointCloudWire) => {
            messages.push(ServerMessage::ChannelList(ChannelList::from_channels(channels)));
        },
        Some(Subprotocol::Foxglove) => {
            messages.push(ServerMessage::ServerInfo(ServerInfo::new(SERVER_NAME)));
            messages.push(ServerMessage::Advertise(Advertise::from_channels(channels)));
        },
    }
    messages
}

/// Whether a frame has the layout of the channel it is published on: the
/// same point step and the same fields.
pub fn layout_matches(layout: &PointCloudLayout, frame: &PointCloudFrame) -> (m: bool)
    ensures
        m == (frame.point_step == layout.point_step && same_fields(frame.fields@, layout.fields@)),
{
    frame.point_step == layout.point_step && fields_equal(&frame.fields, &layout.fields)
}

/// A subscribe request for a registered channel subscribes the client to
/// it: a frame published on that channel then goes to that subscription.
pub proof fn lemma_subscribe_then_target(
    subscriptions: Map<u32, ChannelId>,
    channels: Seq<Channel>,
    id: u32,
    raw: u32,
)
    requires
        first_with_id(channels, raw) is Some,
    ensures
        subscribed_to(
            after_subscribe(subscriptions, channels, seq![(id, raw)]),
            channels[first_with_id(channels, raw)->0].id,
        ).contains(id),
{
    let requests = seq![(id, raw)];
    assert(requests.drop_last() =~= Seq::<(u32, u32)>::empty());
}

/// After an unsubscribe request none of its identifiers is subscribed any
/// more, and every other subscription stays as it was.
pub proof fn lemma_unsubscribe_removes(subscriptions: Map<u32, ChannelId>, ids: Seq<u32>)
    ensures
        forall|k: u32| ids.contains(k) ==> !#[trigger] after_unsubscribe(subscriptions, ids).contains_key(k),
        forall|k: u32|
            !ids.contains(k) && subscriptions.contains_key(k) ==> #[trigger] after_unsubscribe(
                subscriptions,
                ids,
            ).contains_key(k) && after_unsubscribe(subscriptions, ids)[k] == subscriptions[k],
    decreases ids.len(),
{
    if ids.len() > 0 {
        let prefix = ids.drop_last();
        lemma_unsubscribe_removes(subscriptions, prefix);
        let before = after_unsubscribe(subscriptions, prefix);
        assert(after_unsubscribe(subscriptions, ids) == before.remove(ids.last()));
        assert forall|k: u32| ids.contains(k) implies !#[trigger] after_unsubscribe(
            subscriptions,
            ids,
        ).contains_key(k) by {
            if k != ids.last() {
                let i = choose|i: int| 0 <= i < ids.len() && ids[i] == k;
                assert(prefix[i] == k);
                assert(prefix.contains(k));
                assert(!before.contains_key(k));
            }
        }
        assert forall|k: u32|
            !ids.contains(k) && subscriptions.contains_key(k) implies #[trigger] after_unsubscribe(
            subscriptions,
            ids,
        ).contains_key(k) && after_unsubscribe(subscriptions, ids)[k] == subscriptions[k] by {
            assert(k != ids[ids.len() - 1]);
            if prefix.contains(k) {
                let i = choose|i: int| 0 <= i < prefix.len() && prefix[i] == k;
                assert(ids[i] == k);
            }
            assert(before.contains_key(k) && before[k] == subscriptions[k]);
        }
    }
}

/// Subscription `id` of the session at position `i` is one that a frame of
/// `channel` goes to under `protocol`.
pub open spec fn is_target(
    sessions: Seq<&ClientSession>,
    channel: ChannelId,
    protocol: Subprotocol,
    i: int,
    id: u32,
) -> bool {
    &&& 0 <= i < sessions.len()
    &&& sessions[i]@.subprotocol == Some(protocol)
    &&& subscribed_to(sessions[i]@.subscriptions, channel).contains(id)
}

/// `pairs` lists, each once, the (session position, subscription) pairs that
/// a frame of `channel` goes to under `protocol`, among sessions before
/// position `upto`.
pub open spec fn lists_targets_before(
    pairs: Seq<(usize, u32)>,
    sessions: Seq<&ClientSession>,
    channel: ChannelId,
    protocol: Subprotocol,
    upto: int,
) -> bool {
    &&& pairs.no_duplicates()
    &&& forall|i: usize, id: u32|
        #[trigger] pairs.contains((i, id)) <==> (i < upto && is_target(
            sessions,
            channel,
            protocol,
            i as int,
            id,
        ))
}

/// `pairs` lists, each once, every (session position, subscription) pair that
/// a frame of `channel` goes to under `protocol`.
pub open spec fn lists_targets(
    pairs: Seq<(usize, u32)>,
    sessions: Seq<&ClientSession>,
    channel: ChannelId,
    protocol: Subprotocol,
) -> bool {
    lists_targets_before(pairs, sessions, channel, protocol, sessions.len() as int)
}

/// Some session has a subscription that a frame of `channel` goes to.
pub open spec fn has_target(sessions: Seq<&ClientSession>, channel: ChannelId) -> bool {
    exists|i: int, id: u32|
        #![trigger sessions[i], subscribed_to(sessions[i]@.subscriptions, channel).contains(id)]
        is_target(sessions, channel, Subprotocol::Foxglove, i, id) || is_target(
            sessions,
            channel,
            Subprotocol::PointCloudWire,
            i,
            id,
        )
}

/// The packed points of a frame and the subscriptions they go to, by
/// subprotocol, as (session position, subscription) pairs.
#[derive(Debug)]
pub struct Publication {
    pub point_data: Vec<u8>,
    pub foxglove: Vec<(usize, u32)>,
    pub wire: Vec<(usize, u32)>,
}

/// What publishing a frame on a channel comes to.
#[derive(Debug)]
pub enum PublishPlan {
    /// Nothing to send: the frame does not have the channel's layout, or no
    /// session subscribes to the channel.
    Skip,
    /// There are subscriptions, but the frame's data does not hold the rows
    /// and values its layout describes.
    Unpackable,
    /// Send the packed points to these subscriptions.
    Send(Publication),
}

fn push_targets(pairs: &mut Vec<(usize, u32)>, i: usize, ids: &Vec<u32>)
    ensures
        final(pairs)@ == old(pairs)@ + ids@.map_values(|id: u32| (i, id)),
{
    let ghost start = pairs@;
    let mut k: usize = 0;
    while k < ids.len()
        invariant
            k <= ids@.len(),
            pairs@ == start + ids@.take(k as int).map_values(|id: u32| (i, id)),
        decreases ids.len() - k,
    {
        pairs.push((i, ids[k]));
        assert(ids@.take(k + 1).map_values(|id: u32| (i, id)) =~= ids@.take(k as int).map_values(
            |id: u32| (i, id),
        ).push((i, ids@[k as int])));
        k = k + 1;
    }
    assert(ids@.take(ids@.len() as int) =~= ids@);
}

proof fn lemma_extend_targets(
    pairs: Seq<(usize, u32)>,
    sessions: Seq<&ClientSession>,
    channel: ChannelId,
    protocol: Subprotocol,
    i: usize,
    ids: Seq<u32>,
)
    requires
        i < sessions.len(),
        lists_targets_before(pairs, sessions, channel, protocol, i as int),
        ids.no_duplicates(),
        forall|id: u32|
            ids.contains(id) <==> (sessions[i as int]@.subprotocol == Some(protocol)
                && subscribed_to(sessions[i as int]@.subscriptions, channel).contains(id)),
    ensures
        lists_targets_before(
            pairs + ids.map_values(|id: u32| (i, id)),
            sessions,
            channel,
            protocol,
            i + 1,
        ),
{
    let added = ids.map_values(|id: u32| (i, id));
    let all = pairs + added;
    assert forall|a: int, b: int| 0 <= a < b < all.len() implies all[a] != all[b] by {
        if b < pairs.len() {
        } else if a >= pairs.len() {
            assert(ids[a - pairs.len()] != ids[b - pairs.len()]);
        } else {
            assert(pairs.contains(pairs[a]));
            let (j, id) = pairs[a];
            assert(pairs.contains((j, id)));
            assert(all[b].0 == i);
        }
    }
    assert forall|j: usize, id: u32| #[trigger] all.contains((j, id)) <==> (j < i + 1 && is_target(
        sessions,
        channel,
        protocol,
        j as int,
        id,
    )) by {
        if all.contains((j, id)) {
            let k = choose|k: int| 0 <= k < all.len() && all[k] == (j, id);
            if k < pairs.len() {
                assert(pairs.contains((j, id)));
            } else {
                assert(ids.contains(ids[k - pairs.len()]));
            }
        }
        if j < i + 1 && is_target(sessions, channel, protocol, j as int, id) {
            if j < i {
                assert(pairs.contains((j, id)));
                let k = choose|k: int| 0 <= k < pairs.len() && pairs[k] == (j, id);
                assert(all[k] == (j, id));
            } else {
                assert(ids.contains(id));
                let k = choose|k: int| 0 <= k < ids.len() && ids[k] == id;
                assert(all[pairs.len() + k] == (j, id));
            }
        }
    }
}

/// Decides what publishing `frame` on `channel`, whose layout is `layout`,
/// sends to the sessions: nothing when the frame's layout differs or nobody
/// subscribes; otherwise the packed points and every subscription to the
/// channel, by subprotocol, when the frame can be packed.
pub fn plan_publication(
    layout: &PointCloudLayout,
    channel: ChannelId,
    frame: &PointCloudFrame,
    sessions: &Vec<&ClientSession>,
) -> (plan: PublishPlan)
    ensures
        ({
            let matches = frame.point_step == layout.point_step && same_fields(
                frame.fields@,
                layout.fields@,
            );
            match plan {
                PublishPlan::Skip => !matches || !has_target(sessions@, channel),
                PublishPlan::Unpackable => matches && has_target(sessions@, channel) && !can_pack(
                    *frame,
                ),
                PublishPlan::Send(p) => {
                    &&& matches
                    &&& has_target(sessions@, channel)
                    &&& can_pack(*frame)
                    &&& p.point_data@ == packed_point_data(*frame)
                    &&& lists_targets(p.foxglove@, sessions@, channel, Subprotocol::Foxglove)
                    &&& lists_targets(p.wire@, sessions@, channel, Subprotocol::PointCloudWire)
                },
            }
        }),
{
    if !layout_matches(layout, frame) {
        return PublishPlan::Skip;
    }
    let mut foxglove: Vec<(usize, u32)> = Vec::new();
    let mut wire: Vec<(usize, u32)> = Vec::new();
    let mut i: usize = 0;
    while i < sessions.len()
        invariant
            i <= sessions@.len(),
            lists_targets_before(foxglove@, sessions@, channel, Subprotocol::Foxglove, i as int),
            lists_targets_before(wire@, sessions@, channel, Subprotocol::PointCloudWire, i as int),
        decreases sessions.len() - i,
    {
        let session: &ClientSession = sessions[i];
        let targets = session.targets_for(channel);
        proof {
            assert(session@ == sessions@[i as int]@);
            assert forall|id: u32| targets.foxglove@.contains(id) <==> (sessions@[i as int]@.subprotocol
                == Some(Subprotocol::Foxglove) && subscribed_to(
                sessions@[i as int]@.subscriptions,
                channel,
            ).contains(id)) by {
                if sessions@[i as int]@.subprotocol == Some(Subprotocol::Foxglove) {
                    assert(targets.foxglove@.to_set().contains(id) == targets.foxglove@.contains(id));
                } else if targets.foxglove@.contains(id) {
                    assert(targets.foxglove@.len() == 0);
                }
            }
            assert forall|id: u32| targets.wire@.contains(id) <==> (sessions@[i as int]@.subprotocol
                == Some(Subprotocol::PointCloudWire) && subscribed_to(
                sessions@[i as int]@.subscriptions,
                channel,
            ).contains(id)) by {
                if sessions@[i as int]@.subprotocol == Some(Subprotocol::PointCloudWire) {
                    assert(targets.wire@.to_set().contains(id) == targets.wire@.contains(id));
                } else if targets.wire@.contains(id) {
                    assert(targets.wire@.len() == 0);
                }
            }
            assert(targets.foxglove@.no_duplicates()) by {
                if targets.foxglove@.len() > 0 {
                    assert(targets.foxglove@.contains(targets.foxglove@[0]));
                }
            }
            assert(targets.wire@.no_duplicates()) by {
                if targets.wire@.len() > 0 {
                    assert(targets.wire@.contains(targets.wire@[0]));
                }
            }
            lemma_extend_targets(
                foxglove@,
                sessions@,
                channel,
                Subprotocol::Foxglove,
                i,
                targets.foxglove@,
            );
            lemma_extend_targets(
                wire@,
                sessions@,
                channel,
                Subprotocol::PointCloudWire,
                i,
                targets.wire@,
            );
        }
        push_targets(&mut foxglove, i, &targets.foxglove);
        push_targets(&mut wire, i, &targets.wire);
        i = i + 1;
    }
    if foxglove.len() == 0 && wire.len() == 0 {
        proof {
            assert(!has_target(sessions@, channel)) by {
                if has_target(sessions@, channel) {
                    let (j, id) = choose|j: int, id: u32|
                        #![trigger sessions@[j], subscribed_to(sessions@[j]@.subscriptions, channel).contains(id)]
                        is_target(sessions@, channel, Subprotocol::Foxglove, j, id) || is_target(
                            sessions@,
                            channel,
                            Subprotocol::PointCloudWire,
                            j,
                            id,
                        );
                    assert(foxglove@.contains((j as usize, id)) || wire@.contains((j as usize, id)));
                }
            }
        }
        return PublishPlan::Skip;
    }
    proof {
        if foxglove.len() > 0 {
            let (j, id) = foxglove@[0];
            assert(foxglove@.contains((j, id)));
            assert(is_target(sessions@, channel, Subprotocol::Foxglove, j as int, id));
        } else {
            let (j, id) = wire@[0];
            assert(wire@.contains((j, id)));
            assert(is_target(sessions@, channel, Subprotocol::PointCloudWire, j as int, id));
        }
    }
    if !frame_can_be_packed(frame) {
        return PublishPlan::Unpackable;
    }
    let point_data = pack_point_data(frame);
    PublishPlan::Send(Publication { point_data, foxglove, wire })
}

} // verus!

use pointcloud_stream::pointcloud::{Endianness, PointCloudFrame, PointCloudLayout, PointField, PointFieldDataType};
use pointcloud_stream::publisher::foxgloves::{
    FoxgloveOperation, Subscribe as FoxgloveSubscribe, Subscription as FoxgloveSubscription,
    FOXGLOVE_SUBPROTOCOL,
};
use pointcloud_stream::publisher::pointcloud_wire::{
    Subscribe as WireSubscribe, Subscription as WireSubscription, Unsubscribe as WireUnsubscribe,
    WireOperation, POINTCLOUD_WIRE_SUBPROTOCOL,
};
use pointcloud_stream::publisher::websocket::{
    greeting, layout_matches, plan_publication, select_subprotocol, ClientRequest, ClientSession,
    PublishPlan, ServerMessage, Subprotocol, TextAction, SERVER_NAME,
};
use pointcloud_stream::publisher::ChannelRegistry;

fn xyz() -> Vec<PointField> {
    ["x", "y", "z"]
        .iter()
        .enumerate()
        .map(|(i, name)| PointField {
            name: name.to_string(),
            offset: 4 * i as u32,
            data_type: PointFieldDataType::Float32,
            count: 1,
        })
        .collect()
}

fn wire_subscribe(pairs: &[(u32, u32)]) -> ClientRequest {
    ClientRequest::from_wire(
        Some(WireOperation { op: "subscribe".to_string() }),
        Some(WireSubscribe {
            op: "subscribe".to_string(),
            subscriptions: pairs
                .iter()
                .map(|&(id, channel_id)| WireSubscription { id, channel_id })
                .collect(),
        }),
        None,
    )
}

#[test]
fn subprotocol_selection_prefers_foxglove() {
    assert_eq!(select_subprotocol(POINTCLOUD_WIRE_SUBPROTOCOL), Some(Subprotocol::PointCloudWire));
    assert_eq!(select_subprotocol(FOXGLOVE_SUBPROTOCOL), Some(Subprotocol::Foxglove));
    assert_eq!(
        select_subprotocol("pointcloud.wire.v1, foxglove.websocket.v1"),
        Some(Subprotocol::Foxglove)
    );
    assert_eq!(
        select_subprotocol("chat,\t pointcloud.wire.v1 "),
        Some(Subprotocol::PointCloudWire)
    );
    assert_eq!(select_subprotocol("pointcloud.wire.v2"), None);
    assert_eq!(select_subprotocol("pointcloud.wire.v1x"), None);
    assert_eq!(select_subprotocol(""), None);
    assert_eq!(Subprotocol::Foxglove.name(), "foxglove.websocket.v1");
}

#[test]
fn greeting_depends_on_subprotocol() {
    let registry = ChannelRegistry::new();
    registry.register("/lidar/front", PointCloudLayout::new(0, Vec::new()));
    registry.register("/lidar/rear", PointCloudLayout::new(0, Vec::new()));
    let channels = registry.channels();

    assert!(greeting(None, &channels).is_empty());

    let wire = greeting(Some(Subprotocol::PointCloudWire), &channels);
    assert_eq!(wire.len(), 1);
    match &wire[0] {
        ServerMessage::ChannelList(list) => {
            assert_eq!(list.op, "channels");
            assert_eq!(list.channels.len(), 2);
            assert_eq!(list.channels[1].id, 1);
            assert_eq!(list.channels[1].topic, "/lidar/rear");
        }
        other => panic!("unexpected greeting {:?}", other),
    }

    let foxglove = greeting(Some(Subprotocol::Foxglove), &channels);
    assert_eq!(foxglove.len(), 2);
    match (&foxglove[0], &foxglove[1]) {
        (ServerMessage::ServerInfo(info), ServerMessage::Advertise(ad)) => {
            assert_eq!(info.name, SERVER_NAME);
            assert_eq!(ad.channels.len(), 2);
            assert_eq!(ad.channels[0].topic, "/lidar/front");
            assert_eq!(ad.channels[0].schema_name, "foxglove.PointCloud");
        }
        other => panic!("unexpected greeting {:?}", other),
    }
}

#[test]
fn wire_subscription_is_confirmed_and_targeted() {
    let registry = ChannelRegistry::new();
    let channel = registry.register("/pointcloud", PointCloudLayout::new(12, xyz()));
    let channels = registry.channels();

    let mut session = ClientSession::new(Some(Subprotocol::PointCloudWire));
    let action = session.on_text(&channels, wire_subscribe(&[(10, channel.as_u32()), (11, 7)]));

    match action {
        TextAction::Reply(subscribed) => {
            assert_eq!(subscribed.op, "subscribed");
            assert_eq!(subscribed.subscriptions.len(), 1);
            let s = &subscribed.subscriptions[0];
            assert_eq!(s.id, 10);
            assert_eq!(s.channel_id, channel.as_u32());
            assert_eq!(s.point_stride, 12);
            assert_eq!(s.fields.len(), 3);
            assert_eq!(s.fields[2].name, "z");
            assert_eq!(s.fields[2].offset, 8);
            assert_eq!(s.fields[2].data_type, 7);
            assert_eq!(s.fields[2].count, 1);
        }
        other => panic!("unexpected action {:?}", other),
    }

    let targets = session.targets_for(channel);
    assert_eq!(targets.wire, vec![10]);
    assert!(targets.foxglove.is_empty());

    let action = session.on_text(
        &channels,
        ClientRequest::from_wire(
            Some(WireOperation { op: "unsubscribe".to_string() }),
            None,
            Some(WireUnsubscribe { op: "unsubscribe".to_string(), subscription_ids: vec![10] }),
        ),
    );
    assert!(matches!(action, TextAction::Done));
    assert!(session.targets_for(channel).wire.is_empty());
}

#[test]
fn foxglove_subscription_is_silent() {
    let registry = ChannelRegistry::new();
    let channel = registry.register("/pointcloud", PointCloudLayout::new(12, xyz()));
    let channels = registry.channels();

    let mut session = ClientSession::new(Some(Subprotocol::Foxglove));
    let request = ClientRequest::from_foxglove(
        Some(FoxgloveOperation { op: "subscribe".to_string() }),
        Some(FoxgloveSubscribe {
            op: "subscribe".to_string(),
            subscriptions: vec![
                FoxgloveSubscription { id: 3, channel_id: channel.as_u32() },
                FoxgloveSubscription { id: 4, channel_id: channel.as_u32() },
            ],
        }),
        None,
    );
    assert!(matches!(session.on_text(&channels, request), TextAction::Done));

    let mut ids = session.targets_for(channel).foxglove;
    ids.sort();
    assert_eq!(ids, vec![3, 4]);
}

#[test]
fn text_without_subprotocol_is_forwarded() {
    let mut session = ClientSession::new(None);
    assert!(matches!(session.on_text(&Vec::new(), ClientRequest::Ignored), TextAction::Forward));
    assert_eq!(session.subprotocol(), None);
}

#[test]
fn unknown_operation_is_ignored() {
    let request = ClientRequest::from_wire(Some(WireOperation { op: "advertise".to_string() }), None, None);
    assert!(matches!(request, ClientRequest::Ignored));
    let request = ClientRequest::from_wire(Some(WireOperation { op: "subscribe".to_string() }), None, None);
    assert!(matches!(request, ClientRequest::Ignored));
}

#[test]
fn frame_layout_must_match_channel_layout() {
    let layout = PointCloudLayout::new(12, xyz());
    let mut frame = PointCloudFrame {
        timestamp_ns: 0,
        frame_id: "map".to_string(),
        width: 1,
        height: 1,
        fields: xyz(),
        endianness: Endianness::Little,
        point_step: 12,
        row_step: 12,
        is_dense: true,
        data: vec![0; 12],
    };
    assert!(layout_matches(&layout, &frame));
    frame.fields[1].offset = 5;
    assert!(!layout_matches(&layout, &frame));
    frame.fields = xyz();
    frame.point_step = 16;
    assert!(!layout_matches(&layout, &frame));
}

#[test]
fn publication_goes_to_every_subscription_of_the_channel() {
    let registry = ChannelRegistry::new();
    let channel = registry.register("/pointcloud", PointCloudLayout::new(12, xyz()));
    let other = registry.register("/other", PointCloudLayout::new(12, xyz()));
    let channels = registry.channels();
    let layout = PointCloudLayout::new(12, xyz());

    let mut wire_client = ClientSession::new(Some(Subprotocol::PointCloudWire));
    wire_client.on_text(&channels, wire_subscribe(&[(10, channel.as_u32()), (11, other.as_u32())]));
    let mut fox_client = ClientSession::new(Some(Subprotocol::Foxglove));
    fox_client.on_text(
        &channels,
        ClientRequest::from_foxglove(
            Some(FoxgloveOperation { op: "subscribe".to_string() }),
            Some(FoxgloveSubscribe {
                op: "subscribe".to_string(),
                subscriptions: vec![FoxgloveSubscription { id: 3, channel_id: channel.as_u32() }],
            }),
            None,
        ),
    );
    let idle = ClientSession::new(None);

    let mut frame = PointCloudFrame {
        timestamp_ns: 5,
        frame_id: "map".to_string(),
        width: 1,
        height: 1,
        fields: xyz(),
        endianness: Endianness::Little,
        point_step: 12,
        row_step: 12,
        is_dense: true,
        data: (0u8..12).collect(),
    };

    let sessions = vec![&idle, &wire_client, &fox_client];
    match plan_publication(&layout, channel, &frame, &sessions) {
        PublishPlan::Send(p) => {
            assert_eq!(p.point_data, (0u8..12).collect::<Vec<u8>>());
            assert_eq!(p.wire, vec![(1, 10)]);
            assert_eq!(p.foxglove, vec![(2, 3)]);
        }
        other => panic!("unexpected plan {:?}", other),
    }

    assert!(matches!(plan_publication(&layout, channel, &frame, &vec![&idle]), PublishPlan::Skip));

    frame.data.truncate(8);
    assert!(matches!(plan_publication(&layout, channel, &frame, &sessions), PublishPlan::Unpackable));

    frame.point_step = 16;
    assert!(matches!(plan_publication(&layout, channel, &frame, &sessions), PublishPlan::Skip));
}

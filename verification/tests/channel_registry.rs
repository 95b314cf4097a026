use pointcloud_stream::pointcloud::PointCloudLayout;
use pointcloud_stream::publisher::ChannelRegistry;

#[test]
fn registry_assigns_unique_channel_ids() {
    let registry = ChannelRegistry::new();

    let front = registry.register("/lidar/front", PointCloudLayout::new(0, Vec::new()));
    let rear = registry.register("/lidar/rear", PointCloudLayout::new(0, Vec::new()));

    assert_eq!(front.as_u32(), 0);
    assert_eq!(rear.as_u32(), 1);

    assert_eq!(registry.channels().len(), 2);
}

#[test]
fn cloned_registry_shares_registered_channels() {
    let registry = ChannelRegistry::new();
    let cloned_registry = registry.clone();

    let channel_id = registry.register("/lidar/front", PointCloudLayout::new(0, Vec::new()));

    let channel = cloned_registry
        .get(channel_id)
        .expect("registered channel should be visible from cloned registry");

    assert_eq!(channel.topic, "/lidar/front");
}

#[test]
fn registry_lookup_by_raw_id_finds_only_registered_channels() {
    let registry = ChannelRegistry::default();
    registry.register("/a", PointCloudLayout::new(4, Vec::new()));
    registry.register("/b", PointCloudLayout::new(8, Vec::new()));

    let b = registry.get_by_raw_id(1).unwrap();
    assert_eq!(b.topic, "/b");
    assert_eq!(b.layout.point_step, 8);
    assert!(registry.get_by_raw_id(2).is_none());

    let all = registry.channels();
    assert_eq!(all[0].id.as_u32(), 0);
    assert_eq!(all[0].topic, "/a");
    assert_eq!(all[1].id.as_u32(), 1);
}

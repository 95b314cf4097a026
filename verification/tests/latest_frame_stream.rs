use pointcloud_stream::pointcloud::{Endianness, LatestFrameStream, PointCloudFrame};

fn empty_frame(timestamp_ns: u64) -> PointCloudFrame {
    PointCloudFrame {
        timestamp_ns,
        frame_id: "lidar".to_string(),
        width: 1,
        height: 1,
        fields: vec![],
        endianness: Endianness::Little,
        point_step: 0,
        row_step: 0,
        is_dense: true,
        data: vec![],
    }
}

#[test]
fn stream_take_returns_latest_frame() {
    let stream = LatestFrameStream::new();

    stream.push(empty_frame(1));
    stream.push(empty_frame(2));

    let frame = stream.take().unwrap();

    assert_eq!(frame.timestamp_ns, 2);
    assert!(stream.take().is_none());
}

#[test]
fn cloned_stream_shares_latest_frame() {
    let stream = LatestFrameStream::default();
    let producer = stream.clone();

    producer.push(empty_frame(10));
    producer.push(empty_frame(20));

    assert_eq!(stream.take().unwrap().timestamp_ns, 20);
    assert!(producer.take().is_none());
}

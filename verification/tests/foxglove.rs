use pointcloud_stream::pointcloud::{Endianness, PointCloudFrame, PointField, PointFieldDataType};
use pointcloud_stream::publisher::foxgloves::{
    encode_foxglove_pointcloud_message, Advertise, AdvertisedChannel, FoxglovePointCloud,
    ServerInfo, FOXGLOVE_BINARY_OP_MESSAGE_DATA,
};

fn float_field(name: &str, offset: u32, count: u32) -> PointField {
    PointField { name: name.to_string(), offset, data_type: PointFieldDataType::Float32, count }
}

fn lidar_frame(timestamp_ns: u64, fields: Vec<PointField>, point_step: u32, data: Vec<u8>) -> PointCloudFrame {
    PointCloudFrame {
        timestamp_ns,
        frame_id: "lidar".to_string(),
        width: 1,
        height: 1,
        fields,
        endianness: Endianness::Little,
        point_step,
        row_step: point_step,
        is_dense: true,
        data,
    }
}

#[test]
fn pointcloud_payload_encodes_required_fields() {
    let mut point_data = Vec::new();
    point_data.extend_from_slice(&1.0f32.to_le_bytes());
    point_data.extend_from_slice(&2.0f32.to_le_bytes());
    point_data.extend_from_slice(&3.0f32.to_le_bytes());

    let frame = lidar_frame(
        1_500_000_000,
        vec![float_field("x", 0, 1), float_field("y", 4, 1), float_field("z", 8, 1)],
        12,
        point_data.clone(),
    );

    let cloud = FoxglovePointCloud::from_frame(&frame, &point_data);

    assert_eq!(cloud.timestamp.sec, 1);
    assert_eq!(cloud.timestamp.nsec, 500_000_000);
    assert_eq!(cloud.frame_id, "lidar");
    assert_eq!(cloud.point_stride, 12);

    assert_eq!(cloud.fields.len(), 3);
    assert_eq!(cloud.fields[0].name, "x");
    assert_eq!(cloud.fields[0].offset, 0);
    assert_eq!(cloud.fields[0].data_type, 7);
    assert_eq!(cloud.fields[1].name, "y");
    assert_eq!(cloud.fields[1].offset, 4);
    assert_eq!(cloud.fields[1].data_type, 7);
    assert_eq!(cloud.fields[2].name, "z");
    assert_eq!(cloud.fields[2].offset, 8);
    assert_eq!(cloud.fields[2].data_type, 7);

    assert_eq!(cloud.data, point_data.as_slice());
}

#[test]
fn pointcloud_payload_expands_multi_value_field() {
    let fields = vec![
        float_field("x", 0, 1),
        float_field("y", 4, 1),
        float_field("z", 8, 1),
        float_field("normal", 12, 3),
    ];
    let point_data = vec![0u8; 24];
    let frame = lidar_frame(0, fields, 24, point_data.clone());

    let cloud = FoxglovePointCloud::from_frame(&frame, &point_data);

    assert_eq!(cloud.fields.len(), 6);
    assert_eq!(cloud.fields[3].name, "normal");
    assert_eq!(cloud.fields[3].offset, 12);
    assert_eq!(cloud.fields[3].data_type, 7);
    assert_eq!(cloud.fields[4].name, "normal[1]");
    assert_eq!(cloud.fields[4].offset, 16);
    assert_eq!(cloud.fields[4].data_type, 7);
    assert_eq!(cloud.fields[5].name, "normal[2]");
    assert_eq!(cloud.fields[5].offset, 20);
    assert_eq!(cloud.fields[5].data_type, 7);
}

#[test]
fn pointcloud_payload_numbers_many_values_in_decimal() {
    let fields = vec![PointField {
        name: "histogram".to_string(),
        offset: 2,
        data_type: PointFieldDataType::Uint16,
        count: 12,
    }];
    let frame = lidar_frame(0, fields, 26, vec![0u8; 26]);

    let cloud = FoxglovePointCloud::from_frame(&frame, &frame.data);

    assert_eq!(cloud.fields.len(), 12);
    assert_eq!(cloud.fields[10].name, "histogram[10]");
    assert_eq!(cloud.fields[10].offset, 22);
    assert_eq!(cloud.fields[11].name, "histogram[11]");
    assert_eq!(cloud.fields[11].data_type, 3);
}

#[test]
fn foxglove_pointcloud_message_encodes_complete_message() {
    let point_data = [1.0f32.to_le_bytes(), 2.0f32.to_le_bytes(), 3.0f32.to_le_bytes()].concat();
    let payload = b"{\"frame_id\":\"lidar\"}".to_vec();
    let subscription_id = 10;
    let timestamp_ns = 123456789;

    let frame = lidar_frame(
        timestamp_ns,
        vec![float_field("x", 0, 1), float_field("y", 4, 1), float_field("z", 8, 1)],
        12,
        point_data.clone(),
    );
    let cloud = FoxglovePointCloud::from_frame(&frame, &point_data);
    assert_eq!(cloud.frame_id, "lidar");
    assert_eq!(cloud.data, point_data.as_slice());

    let message = encode_foxglove_pointcloud_message(subscription_id, frame.timestamp_ns, &payload);

    assert_eq!(message[0], FOXGLOVE_BINARY_OP_MESSAGE_DATA);
    let actual_subscription_id = u32::from_le_bytes(message[1..5].try_into().unwrap());
    assert_eq!(actual_subscription_id, subscription_id);
    let actual_timestamp_ns = u64::from_le_bytes(message[5..13].try_into().unwrap());
    assert_eq!(actual_timestamp_ns, frame.timestamp_ns);
    assert_eq!(&message[13..], payload.as_slice());
}

#[test]
fn server_info_holds_required_fields() {
    let server_info = ServerInfo::new("pointcloud-stream");

    assert_eq!(server_info.op, "serverInfo");
    assert_eq!(server_info.name, "pointcloud-stream");
    assert!(server_info.capabilities.is_empty());
}

#[test]
fn advertise_holds_required_fields() {
    let channel = AdvertisedChannel {
        id: 1,
        topic: "/pointcloud".to_string(),
        encoding: "json".to_string(),
        schema_name: "foxglove.PointCloud".to_string(),
        schema: "".to_string(),
    };

    let advertise = Advertise::new(vec![channel]);

    assert_eq!(advertise.op, "advertise");
    assert_eq!(advertise.channels[0].id, 1);
    assert_eq!(advertise.channels[0].topic, "/pointcloud");
    assert_eq!(advertise.channels[0].encoding, "json");
    assert_eq!(advertise.channels[0].schema_name, "foxglove.PointCloud");
    assert_eq!(advertise.channels[0].schema, "");
}

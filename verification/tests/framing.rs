use pointcloud_stream::publisher::foxgloves::{
    encode_foxglove_pointcloud_message, encode_message_data, FOXGLOVE_BINARY_OP_MESSAGE_DATA,
};
use pointcloud_stream::publisher::pointcloud_wire::{
    encode_wire_pointcloud_message, WIRE_BINARY_OP_POINTCLOUD,
};

#[test]
fn message_data_encodes_header() {
    let payload = [10, 20, 30];

    let message = encode_message_data(3, 1000, &payload);

    assert_eq!(message[0], FOXGLOVE_BINARY_OP_MESSAGE_DATA);
    assert_eq!(&message[1..5], &3u32.to_le_bytes());
    assert_eq!(&message[5..13], &1000u64.to_le_bytes());
    assert_eq!(&message[13..], &payload);
}

#[test]
fn pointcloud_message_encodes_header_and_data() {
    let subscription_id = 10u32;
    let timestamp_ns = 123456789u64;

    let point_data = [1.0f32.to_le_bytes(), 2.0f32.to_le_bytes(), 3.0f32.to_le_bytes()].concat();

    let message = encode_wire_pointcloud_message(subscription_id, timestamp_ns, &point_data);

    assert_eq!(message.len(), 13 + point_data.len());
    assert_eq!(message[0], WIRE_BINARY_OP_POINTCLOUD);

    let actual_subscription_id = u32::from_le_bytes(message[1..5].try_into().unwrap());
    assert_eq!(actual_subscription_id, subscription_id);

    let actual_timestamp_ns = u64::from_le_bytes(message[5..13].try_into().unwrap());
    assert_eq!(actual_timestamp_ns, timestamp_ns);

    assert_eq!(&message[13..], point_data.as_slice());
}

#[test]
fn pointcloud_message_preserves_point_data() {
    let point_data = vec![0, 1, 2, 3, 10, 20, 30, 40, 100, 200, 250];

    let message = encode_wire_pointcloud_message(1, 1000, &point_data);

    assert_eq!(&message[13..], point_data.as_slice());
}

#[test]
fn message_header_is_little_endian_for_large_values() {
    let message = encode_foxglove_pointcloud_message(0xA1B2_C3D4, 0x0102_0304_0506_0708, &[]);

    assert_eq!(
        message,
        vec![0x01, 0xD4, 0xC3, 0xB2, 0xA1, 0x08, 0x07, 0x06, 0x05, 0x04, 0x03, 0x02, 0x01]
    );
}

use pointcloud_stream::pointcloud::{
    Endianness, PointCloudBuilder, PointCloudError, PointFieldDataType,
};

#[test]
fn builder_valid_config_creates_frame() {
    let data = vec![0; 24];

    let frame = PointCloudBuilder::new()
        .frame_id("lidar")
        .width(2)
        .height(1)
        .field("x", PointFieldDataType::Float32, 1)
        .field("y", PointFieldDataType::Float32, 1)
        .field("z", PointFieldDataType::Float32, 1)
        .build(data)
        .unwrap();

    assert_eq!(frame.point_step, 12);
    assert_eq!(frame.row_step, 24);

    assert_eq!(frame.fields[0].offset, 0);
    assert_eq!(frame.fields[1].offset, 4);
    assert_eq!(frame.fields[2].offset, 8);
}

#[test]
fn builder_custom_field_offset_creates_valid_frame() {
    let data = vec![0; 32];

    let frame = PointCloudBuilder::new()
        .width(2)
        .height(1)
        .field_at("x", 0, PointFieldDataType::Float32, 1)
        .field_at("y", 8, PointFieldDataType::Float32, 1)
        .field_at("z", 12, PointFieldDataType::Float32, 1)
        .build(data)
        .unwrap();

    assert_eq!(frame.fields[0].offset, 0);
    assert_eq!(frame.fields[1].offset, 8);
    assert_eq!(frame.fields[2].offset, 12);

    assert_eq!(frame.point_step, 16);
    assert_eq!(frame.row_step, 32);
}

#[test]
fn builder_step_override_creates_valid_frame() {
    let data = vec![0; 64];

    let frame = PointCloudBuilder::new()
        .width(2)
        .height(1)
        .field("x", PointFieldDataType::Float32, 1)
        .field("y", PointFieldDataType::Float32, 1)
        .field("z", PointFieldDataType::Float32, 1)
        .point_step(16)
        .row_step(64)
        .build(data)
        .unwrap();

    assert_eq!(frame.point_step, 16);
    assert_eq!(frame.row_step, 64);
}

#[test]
fn builder_next_field_follows_field_with_largest_offset() {
    let frame = PointCloudBuilder::default()
        .timestamp_ns(7)
        .width(1)
        .field_at("z", 8, PointFieldDataType::Float32, 1)
        .field_at("x", 0, PointFieldDataType::Float32, 1)
        .field_at("y", 4, PointFieldDataType::Float32, 1)
        .field("intensity", PointFieldDataType::Uint16, 2)
        .endianness(Endianness::Big)
        .is_dense(false)
        .build(vec![0; 16])
        .unwrap();

    assert_eq!(frame.fields[3].offset, 12);
    assert_eq!(frame.point_step, 16);
    assert_eq!(frame.row_step, 16);
    assert_eq!(frame.timestamp_ns, 7);
    assert_eq!(frame.endianness, Endianness::Big);
    assert!(!frame.is_dense);
}

#[test]
fn builder_reports_validation_error() {
    let result = PointCloudBuilder::new()
        .width(2)
        .field("x", PointFieldDataType::Float32, 1)
        .field("y", PointFieldDataType::Float32, 1)
        .build(vec![0; 16]);

    assert_eq!(
        result,
        Err(PointCloudError::MissingCoordinateField {
            field_name: "z".to_string()
        })
    );
}

#[test]
fn builder_default_width_is_rejected() {
    let result = PointCloudBuilder::new().build(Vec::new());
    assert_eq!(result, Err(PointCloudError::InvalidDimensions));
}

use pointcloud_stream::pointcloud::{
    frame_can_be_packed, pack_point_data, Endianness, PointCloudBuilder, PointCloudFrame,
    PointField, PointFieldDataType,
};

fn float_field(name: &str, offset: u32, count: u32) -> PointField {
    PointField {
        name: name.to_string(),
        offset,
        data_type: PointFieldDataType::Float32,
        count,
    }
}

fn xyz_fields() -> Vec<PointField> {
    vec![float_field("x", 0, 1), float_field("y", 4, 1), float_field("z", 8, 1)]
}

#[test]
fn pack_point_data_removes_row_padding() {
    let first = 1.0f32.to_le_bytes();
    let second = 2.0f32.to_le_bytes();

    let frame = PointCloudFrame {
        timestamp_ns: 0,
        frame_id: "map".to_string(),
        width: 1,
        height: 2,
        fields: vec![float_field("x", 0, 1)],
        endianness: Endianness::Little,
        point_step: 4,
        row_step: 8,
        is_dense: true,
        data: vec![
            first[0], first[1], first[2], first[3], 0, 0, 0, 0, second[0], second[1], second[2],
            second[3], 0, 0, 0, 0,
        ],
    };

    let packed = pack_point_data(&frame);

    assert_eq!(packed.len(), 8);
    assert_eq!(&packed[0..4], &first);
    assert_eq!(&packed[4..8], &second);
}

#[test]
fn pack_point_data_converts_big_endian_to_little_endian() {
    let x = 1.5f32;
    let y = 2.5f32;
    let z = 3.5f32;

    let mut data = Vec::new();
    data.extend_from_slice(&x.to_be_bytes());
    data.extend_from_slice(&y.to_be_bytes());
    data.extend_from_slice(&z.to_be_bytes());

    let frame = PointCloudFrame {
        timestamp_ns: 0,
        frame_id: "map".to_string(),
        width: 1,
        height: 1,
        fields: xyz_fields(),
        endianness: Endianness::Big,
        point_step: 12,
        row_step: 12,
        is_dense: true,
        data,
    };

    let packed = pack_point_data(&frame);

    assert_eq!(&packed[0..4], &x.to_le_bytes());
    assert_eq!(&packed[4..8], &y.to_le_bytes());
    assert_eq!(&packed[8..12], &z.to_le_bytes());
}

#[test]
fn pack_point_data_converts_each_counted_value_to_little_endian() {
    let values = [1.0f32, 2.0f32, 3.0f32];

    let mut data = Vec::new();
    for value in values {
        data.extend_from_slice(&value.to_be_bytes());
    }

    let frame = PointCloudFrame {
        timestamp_ns: 0,
        frame_id: "map".to_string(),
        width: 1,
        height: 1,
        fields: vec![float_field("normal", 0, 3)],
        endianness: Endianness::Big,
        point_step: 12,
        row_step: 12,
        is_dense: true,
        data,
    };

    let packed = pack_point_data(&frame);

    assert_eq!(&packed[0..4], &1.0f32.to_le_bytes());
    assert_eq!(&packed[4..8], &2.0f32.to_le_bytes());
    assert_eq!(&packed[8..12], &3.0f32.to_le_bytes());
}

#[test]
fn pack_point_data_preserves_little_endian_data() {
    let mut data = Vec::new();
    data.extend_from_slice(&1.0f32.to_le_bytes());
    data.extend_from_slice(&2.0f32.to_le_bytes());
    data.extend_from_slice(&3.0f32.to_le_bytes());

    let frame = PointCloudFrame {
        timestamp_ns: 0,
        frame_id: "map".to_string(),
        width: 1,
        height: 1,
        fields: xyz_fields(),
        endianness: Endianness::Little,
        point_step: 12,
        row_step: 12,
        is_dense: true,
        data: data.clone(),
    };

    let packed = pack_point_data(&frame);

    assert_eq!(packed, data);
}

#[test]
fn pack_point_data_big_endian_keeps_single_byte_values_and_padding() {
    // Two points per row, two rows, 2 bytes of row padding; each point holds
    // a big-endian u16, one u8 and one byte of padding.
    let frame = PointCloudFrame {
        timestamp_ns: 0,
        frame_id: "map".to_string(),
        width: 2,
        height: 2,
        fields: vec![
            PointField {
                name: "ring".to_string(),
                offset: 0,
                data_type: PointFieldDataType::Uint16,
                count: 1,
            },
            PointField {
                name: "flag".to_string(),
                offset: 2,
                data_type: PointFieldDataType::Uint8,
                count: 1,
            },
        ],
        endianness: Endianness::Big,
        point_step: 4,
        row_step: 10,
        is_dense: true,
        data: vec![
            0x01, 0x02, 7, 0xAA, 0x03, 0x04, 8, 0xBB, 0xEE, 0xEE, // row 0
            0x05, 0x06, 9, 0xCC, 0x07, 0x08, 10, 0xDD, 0xEE, 0xEE, // row 1
        ],
    };

    let packed = pack_point_data(&frame);

    assert_eq!(
        packed,
        vec![
            0x02, 0x01, 7, 0xAA, 0x04, 0x03, 8, 0xBB, 0x06, 0x05, 9, 0xCC, 0x08, 0x07, 10, 0xDD
        ]
    );
}

#[test]
fn pack_point_data_of_empty_frame_is_empty() {
    let frame = PointCloudFrame {
        timestamp_ns: 0,
        frame_id: "map".to_string(),
        width: 0,
        height: 3,
        fields: xyz_fields(),
        endianness: Endianness::Big,
        point_step: 12,
        row_step: 0,
        is_dense: true,
        data: vec![],
    };

    assert!(pack_point_data(&frame).is_empty());
}

#[test]
fn validated_big_endian_frame_packs_value_by_value() {
    let mut data = Vec::new();
    for point in 0..2u16 {
        data.extend_from_slice(&(1.0f32 + point as f32).to_be_bytes());
        data.extend_from_slice(&(2.0f32).to_be_bytes());
        data.extend_from_slice(&(3.0f32).to_be_bytes());
        data.extend_from_slice(&(0x0102u16 + point).to_be_bytes());
        data.extend_from_slice(&[0xAB, 0xCD]);
    }

    let frame = PointCloudBuilder::new()
        .width(2)
        .field("x", PointFieldDataType::Float32, 1)
        .field("y", PointFieldDataType::Float32, 1)
        .field("z", PointFieldDataType::Float32, 1)
        .field("ring", PointFieldDataType::Uint16, 1)
        .point_step(16)
        .endianness(Endianness::Big)
        .build(data)
        .unwrap();

    assert!(frame_can_be_packed(&frame));
    let packed = pack_point_data(&frame);

    assert_eq!(&packed[0..4], &1.0f32.to_le_bytes());
    assert_eq!(&packed[12..14], &0x0102u16.to_le_bytes());
    assert_eq!(&packed[14..16], &[0xAB, 0xCD]);
    assert_eq!(&packed[16..20], &2.0f32.to_le_bytes());
    assert_eq!(&packed[28..30], &0x0103u16.to_le_bytes());
}

#[test]
fn frame_with_short_data_cannot_be_packed() {
    let frame = PointCloudFrame {
        timestamp_ns: 0,
        frame_id: "map".to_string(),
        width: 2,
        height: 2,
        fields: xyz_fields(),
        endianness: Endianness::Little,
        point_step: 12,
        row_step: 24,
        is_dense: true,
        data: vec![0; 40],
    };
    assert!(!frame_can_be_packed(&frame));

    let mut wide = frame.clone();
    wide.data = vec![0; 48];
    wide.endianness = Endianness::Big;
    wide.fields.push(float_field("w", 10, 1));
    assert!(!frame_can_be_packed(&wide));
}

#[test]
fn big_endian_conversion_undoes_itself() {
    let mut data = Vec::new();
    for value in [1.5f32, -2.25, 3.0, 1e-3] {
        data.extend_from_slice(&value.to_be_bytes());
    }
    let big = PointCloudFrame {
        timestamp_ns: 0,
        frame_id: "map".to_string(),
        width: 2,
        height: 1,
        fields: vec![float_field("x", 0, 1), float_field("y", 4, 1)],
        endianness: Endianness::Big,
        point_step: 8,
        row_step: 16,
        is_dense: true,
        data: data.clone(),
    };

    let once = pack_point_data(&big);
    assert_ne!(once, data);

    let mut again = big.clone();
    again.data = once;
    assert_eq!(pack_point_data(&again), data);
}

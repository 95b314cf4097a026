use pointcloud_stream::pointcloud::{
    coordinate_positions, Endianness, PointCloudError, PointCloudFrame, PointField,
    PointFieldDataType,
};

fn field(name: &str, offset: u32, data_type: PointFieldDataType, count: u32) -> PointField {
    PointField { name: name.to_string(), offset, data_type, count }
}

fn xyz() -> Vec<PointField> {
    vec![
        field("x", 0, PointFieldDataType::Float32, 1),
        field("y", 4, PointFieldDataType::Float32, 1),
        field("z", 8, PointFieldDataType::Float32, 1),
    ]
}

fn frame(width: u32, height: u32, fields: Vec<PointField>, point_step: u32, row_step: u32, len: usize) -> PointCloudFrame {
    PointCloudFrame {
        timestamp_ns: 0,
        frame_id: "lidar".to_string(),
        width,
        height,
        fields,
        endianness: Endianness::Little,
        point_step,
        row_step,
        is_dense: true,
        data: vec![0; len],
    }
}

#[test]
fn valid_frame_passes_validation() {
    let frame = frame(2, 1, xyz(), 12, 24, 24);
    assert!(frame.validate().is_ok());
}

#[test]
fn valid_frame_fails_validation() {
    let frame = frame(2, 5, xyz(), 12, 24, 24);
    assert_eq!(frame.validate(), Err(PointCloudError::InvalidDataLength));
}

#[test]
fn validation_reports_each_problem() {
    assert_eq!(frame(0, 1, xyz(), 12, 0, 0).validate(), Err(PointCloudError::InvalidDimensions));
    assert_eq!(frame(2, 1, xyz(), 12, 20, 20).validate(), Err(PointCloudError::InvalidRowStep));

    let mut zero_count = xyz();
    zero_count.push(field("intensity", 12, PointFieldDataType::Uint8, 0));
    assert_eq!(
        frame(1, 1, zero_count, 16, 16, 16).validate(),
        Err(PointCloudError::InvalidFieldCount { field_name: "intensity".to_string() })
    );

    let mut past_end = xyz();
    past_end.push(field("intensity", 12, PointFieldDataType::Uint16, 1));
    assert_eq!(
        frame(1, 1, past_end, 13, 13, 13).validate(),
        Err(PointCloudError::InvalidFieldLayout { field_name: "intensity".to_string() })
    );

    let mut wrong_type = xyz();
    wrong_type[1] = field("Y", 4, PointFieldDataType::Float64, 1);
    assert_eq!(
        frame(1, 1, wrong_type, 12, 12, 12).validate(),
        Err(PointCloudError::InvalidCoordinateFieldType { field_name: "Y".to_string() })
    );

    let mut vector = xyz();
    vector[2] = field("z", 8, PointFieldDataType::Float32, 2);
    assert_eq!(
        frame(1, 1, vector, 16, 16, 16).validate(),
        Err(PointCloudError::InvalidFieldCount { field_name: "z".to_string() })
    );

    let mut twice = xyz();
    twice.push(field("X", 12, PointFieldDataType::Float32, 1));
    assert_eq!(
        frame(1, 1, twice, 16, 16, 16).validate(),
        Err(PointCloudError::DuplicateFieldName { field_name: "X".to_string() })
    );

    let no_z = vec![
        field("x", 0, PointFieldDataType::Float32, 1),
        field("y", 4, PointFieldDataType::Float32, 1),
    ];
    assert_eq!(
        frame(1, 1, no_z, 8, 8, 8).validate(),
        Err(PointCloudError::MissingCoordinateField { field_name: "z".to_string() })
    );

    let mut same_name = xyz();
    same_name.push(field("ring", 12, PointFieldDataType::Uint8, 1));
    same_name.push(field("ring", 13, PointFieldDataType::Uint8, 1));
    assert_eq!(
        frame(1, 1, same_name, 14, 14, 14).validate(),
        Err(PointCloudError::DuplicateFieldName { field_name: "ring".to_string() })
    );

    let mut overlap = xyz();
    overlap.push(field("intensity", 6, PointFieldDataType::Uint16, 1));
    assert_eq!(
        frame(1, 1, overlap, 12, 12, 12).validate(),
        Err(PointCloudError::OverlappingFields {
            first_field: "y".to_string(),
            second_field: "intensity".to_string()
        })
    );
}

#[test]
fn error_messages_name_the_fields() {
    assert_eq!(
        PointCloudError::InvalidRowStep.message(),
        "row_step is smaller than width * point_step"
    );
    assert_eq!(
        PointCloudError::InvalidFieldLayout { field_name: "ring".to_string() }.message(),
        "field 'ring' exceeds point_step"
    );
    assert_eq!(
        PointCloudError::OverlappingFields {
            first_field: "a".to_string(),
            second_field: "b".to_string()
        }
        .message(),
        "fields 'a' and 'b' overlap"
    );
}

#[test]
fn coordinate_positions_follow_rows_and_points() {
    let fields = vec![
        field("z", 0, PointFieldDataType::Float32, 1),
        field("x", 4, PointFieldDataType::Float32, 1),
        field("y", 8, PointFieldDataType::Float32, 1),
    ];
    let positions = coordinate_positions(&frame(2, 2, fields, 16, 40, 80)).unwrap();

    assert_eq!(positions.len(), 4);
    assert_eq!((positions[0].x, positions[0].y, positions[0].z), (4, 8, 0));
    assert_eq!((positions[1].x, positions[1].y, positions[1].z), (20, 24, 16));
    assert_eq!((positions[2].x, positions[2].y, positions[2].z), (44, 48, 40));
    assert_eq!((positions[3].x, positions[3].y, positions[3].z), (60, 64, 56));

    assert_eq!(
        coordinate_positions(&frame(2, 2, xyz(), 12, 24, 40)),
        Err(PointCloudError::InvalidDataLength)
    );
}

mod builder;
mod datatype;
mod error;
mod field;
mod frame;
mod layout;
mod packing;
mod stream;
mod transform;

pub use builder::{
    BuilderView, PointCloudBuilder, built_frame, built_point_step, built_row_step, can_build,
    initial_settings, last_max_offset_index, lemma_initial_settings, next_field_offset,
};
pub use datatype::{PointFieldDataType, lemma_data_type_widths, lemma_ros_codes};
pub use error::{PointCloudError, PointCloudErrorView, error_message};
pub use field::{PointField, field_end, fields_equal, same_field, same_fields};
pub use frame::{
    Endianness, PointCloudFrame, axis_before, axis_name, coordinate_axis, field_issue,
    fields_issue, first_field_issue, first_pair_issue, frame_is_valid, frame_issue,
    has_float_coordinate, layout_issue, lemma_valid_frame_layout, missing_axis, pair_before,
    pair_issue, widen_mul,
};
pub use layout::PointCloudLayout;
pub use packing::{
    can_pack, disjoint_fields, frame_can_be_packed, in_wide_field, in_wide_value,
    lemma_pack_big_endian_bytes, lemma_pack_unpadded_little_endian, lemma_swap_points_involution, lemma_valid_frame_can_pack,
    mirror_byte, pack_point_data, packed_point_data, packed_rows, point_byte, point_value_byte,
    reverse_range, swap_field, swap_fields, swap_points, swap_values, value_byte,
};
pub use stream::{AnyFrame, LatestFrameStream, replace_latest, take_latest};
pub use transform::{
    CoordinatePositions, axis_offset, coordinate_positions, first_axis_field, lists_points,
    point_positions,
};

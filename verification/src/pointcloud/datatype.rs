use vstd::prelude::*;

verus! {

/// The primitive type of the values stored in a point field.
///
/// The variants follow the `datatype` codes of ROS `sensor_msgs/PointField`
/// (see [`PointFieldDataType::ros_code`]).
#[derive(Clone, Copy, Debug, PartialEq, Eq, Structural)]
pub enum PointFieldDataType {
    Int8,
    Uint8,
    Int16,
    Uint16,
    Int32,
    Uint32,
    Float32,
    Float64,
}

impl PointFieldDataType {
    /// Width in bytes of one value of this type.
    pub open spec fn spec_size(self) -> nat {
        match self {
            PointFieldDataType::Int8 | PointFieldDataType::Uint8 => 1,
            PointFieldDataType::Int16 | PointFieldDataType::Uint16 => 2,
            PointFieldDataType::Int32 | PointFieldDataType::Uint32 | PointFieldDataType::Float32 => 4,
            PointFieldDataType::Float64 => 8,
        }
    }

    /// The ROS `sensor_msgs/PointField` code of this type.
    pub open spec fn spec_ros_code(self) -> u8 {
        match self {
            PointFieldDataType::Int8 => 1,
            PointFieldDataType::Uint8 => 2,
            PointFieldDataType::Int16 => 3,
            PointFieldDataType::Uint16 => 4,
            PointFieldDataType::Int32 => 5,
            PointFieldDataType::Uint32 => 6,
            PointFieldDataType::Float32 => 7,
            PointFieldDataType::Float64 => 8,
        }
    }

    /// Returns the number of bytes one value of this type occupies.
    pub fn size_bytes(self) -> (size: usize)
        ensures
            size == self.spec_size(),
    {
        match self {
            PointFieldDataType::Int8 | PointFieldDataType::Uint8 => 1,
            PointFieldDataType::Int16 | PointFieldDataType::Uint16 => 2,
            PointFieldDataType::Int32 | PointFieldDataType::Uint32 | PointFieldDataType::Float32 => 4,
            PointFieldDataType::Float64 => 8,
        }
    }

    /// Returns the ROS `sensor_msgs/PointField` code of this type.
    pub fn ros_code(self) -> (code: u8)
        ensures
            code == self.spec_ros_code(),
    {
        match self {
            PointFieldDataType::Int8 => 1,
            PointFieldDataType::Uint8 => 2,
            PointFieldDataType::Int16 => 3,
            PointFieldDataType::Uint16 => 4,
            PointFieldDataType::Int32 => 5,
            PointFieldDataType::Uint32 => 6,
            PointFieldDataType::Float32 => 7,
            PointFieldDataType::Float64 => 8,
        }
    }
}

/// The width in bytes of each data type is that of the value it holds: one
/// byte for 8-bit integers, two for 16-bit, four for 32-bit integers and
/// `float32`, eight for `float64`.
pub proof fn lemma_data_type_widths()
    ensures
        PointFieldDataType::Int8.spec_size() == 1,
        PointFieldDataType::Uint8.spec_size() == 1,
        PointFieldDataType::Int16.spec_size() == 2,
        PointFieldDataType::Uint16.spec_size() == 2,
        PointFieldDataType::Int32.spec_size() == 4,
        PointFieldDataType::Uint32.spec_size() == 4,
        PointFieldDataType::Float32.spec_size() == 4,
        PointFieldDataType::Float64.spec_size() == 8,
{
}

/// The code of each data type is the `sensor_msgs/PointField` constant of
/// ROS: INT8 = 1, UINT8 = 2, INT16 = 3, UINT16 = 4, INT32 = 5, UINT32 = 6,
/// FLOAT32 = 7, FLOAT64 = 8.
pub proof fn lemma_ros_codes()
    ensures
        PointFieldDataType::Int8.spec_ros_code() == 1,
        PointFieldDataType::Uint8.spec_ros_code() == 2,
        PointFieldDataType::Int16.spec_ros_code() == 3,
        PointFieldDataType::Uint16.spec_ros_code() == 4,
        PointFieldDataType::Int32.spec_ros_code() == 5,
        PointFieldDataType::Uint32.spec_ros_code() == 6,
        PointFieldDataType::Float32.spec_ros_code() == 7,
        PointFieldDataType::Float64.spec_ros_code() == 8,
{
}

} // verus!

use vstd::prelude::*;
use vstd::string::*;

verus! {

/// Why a point cloud frame is not well formed.
#[derive(Clone, Debug, PartialEq, Eq)]
pub enum PointCloudError {
    InvalidDimensions,
    InvalidRowStep,
    InvalidDataLength,
    InvalidFieldLayout { field_name: String },
    InvalidFieldCount { field_name: String },
    InvalidCoordinateFieldType { field_name: String },
    DuplicateFieldName { field_name: String },
    MissingCoordinateField { field_name: String },
    OverlappingFields { first_field: String, second_field: String },
}

/// A [`PointCloudError`] with its names taken as character sequences.
pub enum PointCloudErrorView {
    InvalidDimensions,
    InvalidRowStep,
    InvalidDataLength,
    InvalidFieldLayout(Seq<char>),
    InvalidFieldCount(Seq<char>),
    InvalidCoordinateFieldType(Seq<char>),
    DuplicateFieldName(Seq<char>),
    MissingCoordinateField(Seq<char>),
    OverlappingFields(Seq<char>, Seq<char>),
}

impl View for PointCloudError {
    type V = PointCloudErrorView;

    open spec fn view(&self) -> PointCloudErrorView {
        match self {
            PointCloudError::InvalidDimensions => PointCloudErrorView::InvalidDimensions,
            PointCloudError::InvalidRowStep => PointCloudErrorView::InvalidRowStep,
            PointCloudError::InvalidDataLength => PointCloudErrorView::InvalidDataLength,
            PointCloudError::InvalidFieldLayout { field_name } => PointCloudErrorView::InvalidFieldLayout(
                field_name@,
            ),
            PointCloudError::InvalidFieldCount { field_name } => PointCloudErrorView::InvalidFieldCount(
                field_name@,
            ),
            PointCloudError::InvalidCoordinateFieldType { field_name } =>
                PointCloudErrorView::InvalidCoordinateFieldType(field_name@),
            PointCloudError::DuplicateFieldName { field_name } => PointCloudErrorView::DuplicateFieldName(
                field_name@,
            ),
            PointCloudError::MissingCoordinateField { field_name } =>
                PointCloudErrorView::MissingCoordinateField(field_name@),
            PointCloudError::OverlappingFields { first_field, second_field } =>
                PointCloudErrorView::OverlappingFields(first_field@, second_field@),
        }
    }
}

/// The human-readable description of an error.
pub open spec fn error_message(e: PointCloudErrorView) -> Seq<char> {
    match e {
        PointCloudErrorView::InvalidDimensions => "width and height must be non-zero"@,
        PointCloudErrorView::InvalidRowStep => "row_step is smaller than width * point_step"@,
        PointCloudErrorView::InvalidDataLength => "data length is smaller than row_step * height"@,
        PointCloudErrorView::InvalidFieldLayout(n) => "field '"@ + n + "' exceeds point_step"@,
        PointCloudErrorView::InvalidFieldCount(n) => "field '"@ + n + "' has an invalid count"@,
        PointCloudErrorView::InvalidCoordinateFieldType(n) => "coordinate field '"@ + n
            + "' must be float32"@,
        PointCloudErrorView::DuplicateFieldName(n) => "field '"@ + n + "' is duplicated"@,
        PointCloudErrorView::MissingCoordinateField(n) => "coordinate field '"@ + n
            + "' is missing"@,
        PointCloudErrorView::OverlappingFields(a, b) => "fields '"@ + a + "' and '"@ + b
            + "' overlap"@,
    }
}

/// `prefix`, then `name`, then `suffix`, as one string.
fn quoted(prefix: &str, name: &String, suffix: &str) -> (s: String)
    ensures
        s@ == prefix@ + name@ + suffix@,
{
    let mut s = prefix.to_owned();
    s.append(name.as_str());
    s.append(suffix);
    s
}

impl PointCloudError {
    /// Describes the error in words.
    pub fn message(&self) -> (s: String)
        ensures
            s@ == error_message(self@),
    {
        match self {
            PointCloudError::InvalidDimensions => "width and height must be non-zero".to_owned(),
            PointCloudError::InvalidRowStep => "row_step is smaller than width * point_step".to_owned(),
            PointCloudError::InvalidDataLength => "data length is smaller than row_step * height".to_owned(),
            PointCloudError::InvalidFieldLayout { field_name } => quoted(
                "field '",
                field_name,
                "' exceeds point_step",
            ),
            PointCloudError::InvalidFieldCount { field_name } => quoted(
                "field '",
                field_name,
                "' has an invalid count",
            ),
            PointCloudError::InvalidCoordinateFieldType { field_name } => quoted(
                "coordinate field '",
                field_name,
                "' must be float32",
            ),
            PointCloudError::DuplicateFieldName { field_name } => quoted(
                "field '",
                field_name,
                "' is duplicated",
            ),
            PointCloudError::MissingCoordinateField { field_name } => quoted(
                "coordinate field '",
                field_name,
                "' is missing",
            ),
            PointCloudError::OverlappingFields { first_field, second_field } => {
                let mut s = quoted("fields '", first_field, "' and '");
                s.append(second_field.as_str());
                s.append("' overlap");
                s
            },
        }
    }
}

} // verus!

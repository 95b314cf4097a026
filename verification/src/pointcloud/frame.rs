use vstd::prelude::*;

use super::datatype::PointFieldDataType;
use super::error::{PointCloudError, PointCloudErrorView};
use super::field::{PointField, field_end};

verus! {

/// Byte order of the values stored in a frame.
#[derive(Clone, Copy, Debug, PartialEq, Eq, Structural)]
pub enum Endianness {
    Little,
    Big,
}

/// One point cloud: `height` rows of `width` points, each point laid out in
/// `data` as `fields` describe it.
#[derive(Clone, Debug, PartialEq)]
pub struct PointCloudFrame {
    /// Time at which the frame was produced, in nanoseconds.
    pub timestamp_ns: u64,
    /// Coordinate frame the points are expressed in (`lidar`, `map`, ...).
    pub frame_id: String,
    /// Points per row.
    pub width: u32,
    /// Number of rows (`1` for an unordered list of points).
    pub height: u32,
    /// The fields of one point.
    pub fields: Vec<PointField>,
    /// Byte order of the values in `data`.
    pub endianness: Endianness,
    /// Bytes per point, padding included.
    pub point_step: u32,
    /// Bytes per row, padding included.
    pub row_step: u32,
    /// Whether every point holds valid values.
    pub is_dense: bool,
    /// The points, row after row.
    pub data: Vec<u8>,
}

/// Which coordinate a field name stands for: `x`/`X` is 0, `y`/`Y` is 1 and
/// `z`/`Z` is 2; any other name is none of them.
pub open spec fn coordinate_axis(name: Seq<char>) -> Option<int> {
    if name == seq!['x'] || name == seq!['X'] {
        Some(0)
    } else if name == seq!['y'] || name == seq!['Y'] {
        Some(1)
    } else if name == seq!['z'] || name == seq!['Z'] {
        Some(2)
    } else {
        None
    }
}

/// The lower-case name of a coordinate axis.
pub open spec fn axis_name(axis: int) -> Seq<char> {
    if axis == 0 {
        seq!['x']
    } else if axis == 1 {
        seq!['y']
    } else {
        seq!['z']
    }
}

/// Some field before position `n` names coordinate `axis`.
pub open spec fn axis_before(fields: Seq<PointField>, n: int, axis: int) -> bool {
    exists|j: int| 0 <= j < n && #[trigger] coordinate_axis(fields[j].name@) == Some(axis)
}

/// What is wrong with field `i` on its own, given the fields before it: a zero
/// count, values past `point_step`, a coordinate that is not one `float32`, or
/// a coordinate already named by an earlier field.
pub open spec fn field_issue(fields: Seq<PointField>, point_step: u32, i: int) -> Option<
    PointCloudErrorView,
> {
    let f = fields[i];
    let name = f.name@;
    if f.count == 0 {
        Some(PointCloudErrorView::InvalidFieldCount(name))
    } else if field_end(f) > point_step {
        Some(PointCloudErrorView::InvalidFieldLayout(name))
    } else if coordinate_axis(name) is Some {
        if f.data_type != PointFieldDataType::Float32 {
            Some(PointCloudErrorView::InvalidCoordinateFieldType(name))
        } else if f.count != 1 {
            Some(PointCloudErrorView::InvalidFieldCount(name))
        } else if axis_before(fields, i, coordinate_axis(name)->0) {
            Some(PointCloudErrorView::DuplicateFieldName(name))
        } else {
            None
        }
    } else {
        None
    }
}

/// The issue of the first field at or after `from` that has one.
pub open spec fn first_field_issue(fields: Seq<PointField>, point_step: u32, from: int) -> Option<
    PointCloudErrorView,
>
    decreases fields.len() - from,
{
    if from < 0 || from >= fields.len() {
        None
    } else if field_issue(fields, point_step, from) is Some {
        field_issue(fields, point_step, from)
    } else {
        first_field_issue(fields, point_step, from + 1)
    }
}

/// The first of `x`, `y`, `z` that no field names.
pub open spec fn missing_axis(fields: Seq<PointField>) -> Option<PointCloudErrorView> {
    if !axis_before(fields, fields.len() as int, 0) {
        Some(PointCloudErrorView::MissingCoordinateField(axis_name(0)))
    } else if !axis_before(fields, fields.len() as int, 1) {
        Some(PointCloudErrorView::MissingCoordinateField(axis_name(1)))
    } else if !axis_before(fields, fields.len() as int, 2) {
        Some(PointCloudErrorView::MissingCoordinateField(axis_name(2)))
    } else {
        None
    }
}

/// What is wrong with fields `i` and `j` together: the same name, or byte
/// ranges that overlap.
pub open spec fn pair_issue(fields: Seq<PointField>, i: int, j: int) -> Option<PointCloudErrorView> {
    let a = fields[i];
    let b = fields[j];
    if a.name@ == b.name@ {
        Some(PointCloudErrorView::DuplicateFieldName(a.name@))
    } else if a.offset < field_end(b) && b.offset < field_end(a) {
        Some(PointCloudErrorView::OverlappingFields(a.name@, b.name@))
    } else {
        None
    }
}

/// The issue of the first pair `(i, j)`, `i < j`, in lexicographic order from
/// `(i, j)` on, that has one.
pub open spec fn first_pair_issue(fields: Seq<PointField>, i: int, j: int) -> Option<
    PointCloudErrorView,
>
    decreases fields.len() - i, fields.len() - j,
{
    if i < 0 || i >= fields.len() {
        None
    } else if j <= i || j >= fields.len() {
        first_pair_issue(fields, i + 1, i + 2)
    } else if pair_issue(fields, i, j) is Some {
        pair_issue(fields, i, j)
    } else {
        first_pair_issue(fields, i, j + 1)
    }
}

/// What [`PointCloudFrame::validate`] reports of a frame, checked in this
/// order: the dimensions, the row step, the data length, each field on its
/// own, the three coordinates, then each pair of fields; `None` when the frame
/// is well formed.
pub open spec fn frame_issue(frame: PointCloudFrame) -> Option<PointCloudErrorView> {
    layout_issue(
        frame.width,
        frame.height,
        frame.point_step,
        frame.row_step,
        frame.data@.len() as int,
        frame.fields@,
    )
}

/// [`frame_issue`] of a frame with these dimensions, steps, data length and
/// fields: the other parts of a frame play no part in it.
pub open spec fn layout_issue(
    width: u32,
    height: u32,
    point_step: u32,
    row_step: u32,
    data_len: int,
    fields: Seq<PointField>,
) -> Option<PointCloudErrorView> {
    if width == 0 || height == 0 {
        Some(PointCloudErrorView::InvalidDimensions)
    } else if row_step < width * point_step {
        Some(PointCloudErrorView::InvalidRowStep)
    } else if data_len != row_step * height {
        Some(PointCloudErrorView::InvalidDataLength)
    } else {
        fields_issue(fields, point_step)
    }
}

/// What is wrong with the fields of a frame whose dimensions and lengths are
/// right: each field on its own, then the three coordinates, then each pair.
pub open spec fn fields_issue(fields: Seq<PointField>, point_step: u32) -> Option<PointCloudErrorView> {
    if first_field_issue(fields, point_step, 0) is Some {
        first_field_issue(fields, point_step, 0)
    } else if missing_axis(fields) is Some {
        missing_axis(fields)
    } else {
        first_pair_issue(fields, 0, 1)
    }
}

/// A frame that [`PointCloudFrame::validate`] accepts.
pub open spec fn frame_is_valid(frame: PointCloudFrame) -> bool {
    frame_issue(frame) is None
}

proof fn lemma_first_field_issue_none(fields: Seq<PointField>, point_step: u32, from: int)
    requires
        0 <= from,
        forall|j: int|
            from <= j < fields.len() ==> #[trigger] field_issue(fields, point_step, j) is None,
    ensures
        first_field_issue(fields, point_step, from) is None,
    decreases fields.len() - from,
{
    if from < fields.len() {
        lemma_first_field_issue_none(fields, point_step, from + 1);
    }
}

proof fn lemma_first_field_issue_at(fields: Seq<PointField>, point_step: u32, from: int, k: int)
    requires
        0 <= from <= k < fields.len(),
        forall|j: int| from <= j < k ==> #[trigger] field_issue(fields, point_step, j) is None,
        field_issue(fields, point_step, k) is Some,
    ensures
        first_field_issue(fields, point_step, from) == field_issue(fields, point_step, k),
    decreases k - from,
{
    if from < k {
        lemma_first_field_issue_at(fields, point_step, from + 1, k);
    }
}

/// When no field from `from` on has an issue by [`first_field_issue`], none
/// of them has one.
pub proof fn lemma_no_first_issue(fields: Seq<PointField>, point_step: u32, from: int, i: int)
    requires
        0 <= from <= i < fields.len(),
        first_field_issue(fields, point_step, from) is None,
    ensures
        field_issue(fields, point_step, i) is None,
    decreases i - from,
{
    if from < i {
        lemma_no_first_issue(fields, point_step, from + 1, i);
    }
}

/// `(a, b)` comes strictly before `(c, d)` in lexicographic order.
pub open spec fn pair_before(a: int, b: int, c: int, d: int) -> bool {
    a < c || (a == c && b < d)
}

proof fn lemma_first_pair_issue_none(fields: Seq<PointField>, i: int, j: int)
    requires
        0 <= i,
        i < j,
        forall|p: int, q: int|
            0 <= p < q < fields.len() && !pair_before(p, q, i, j) ==> #[trigger] pair_issue(
                fields,
                p,
                q,
            ) is None,
    ensures
        first_pair_issue(fields, i, j) is None,
    decreases fields.len() - i, fields.len() - j,
{
    if i < fields.len() {
        if j >= fields.len() {
            lemma_first_pair_issue_none(fields, i + 1, i + 2);
        } else {
            assert(pair_issue(fields, i, j) is None);
            lemma_first_pair_issue_none(fields, i, j + 1);
        }
    }
}

proof fn lemma_first_pair_issue_at(fields: Seq<PointField>, i: int, j: int, a: int, b: int)
    requires
        0 <= i < j,
        0 <= a < b < fields.len(),
        !pair_before(a, b, i, j),
        forall|p: int, q: int|
            0 <= p < q < fields.len() && !pair_before(p, q, i, j) && pair_before(p, q, a, b)
                ==> #[trigger] pair_issue(fields, p, q) is None,
        pair_issue(fields, a, b) is Some,
    ensures
        first_pair_issue(fields, i, j) == pair_issue(fields, a, b),
    decreases fields.len() - i, fields.len() - j,
{
    if j >= fields.len() {
        lemma_first_pair_issue_at(fields, i + 1, i + 2, a, b);
    } else if i == a && j == b {
    } else {
        assert(pair_issue(fields, i, j) is None);
        lemma_first_pair_issue_at(fields, i, j + 1, a, b);
    }
}

/// Some field names coordinate `axis` and holds one `float32`.
pub open spec fn has_float_coordinate(fields: Seq<PointField>, axis: int) -> bool {
    exists|i: int|
        0 <= i < fields.len() && #[trigger] coordinate_axis(fields[i].name@) == Some(axis)
            && fields[i].data_type == PointFieldDataType::Float32 && fields[i].count == 1
}

proof fn lemma_no_first_pair_issue(fields: Seq<PointField>, i: int, j: int, p: int, q: int)
    requires
        0 <= i < j,
        0 <= p < q < fields.len(),
        !pair_before(p, q, i, j),
        first_pair_issue(fields, i, j) is None,
    ensures
        pair_issue(fields, p, q) is None,
    decreases fields.len() - i, fields.len() - j,
{
    if j >= fields.len() {
        lemma_no_first_pair_issue(fields, i + 1, i + 2, p, q);
    } else if i == p && j == q {
    } else {
        lemma_no_first_pair_issue(fields, i, j + 1, p, q);
    }
}

/// What a frame that validates is sure to be: non-empty, with rows long
/// enough for their points and data long enough for its rows; every field
/// with at least one value and inside its point; no two fields with the same
/// name or overlapping bytes; and `x`, `y` and `z` each named by a single
/// `float32` field.
pub proof fn lemma_valid_frame_layout(frame: PointCloudFrame)
    requires
        frame_is_valid(frame),
    ensures
        frame.width > 0 && frame.height > 0,
        frame.row_step >= frame.width * frame.point_step,
        frame.data@.len() == frame.row_step * frame.height,
        forall|i: int|
            0 <= i < frame.fields@.len() ==> (#[trigger] frame.fields@[i]).count > 0 && field_end(
                frame.fields@[i],
            ) <= frame.point_step,
        forall|i: int, j: int|
            0 <= i < j < frame.fields@.len() ==> (#[trigger] frame.fields@[i]).name@
                != (#[trigger] frame.fields@[j]).name@ && (field_end(frame.fields@[i])
                <= frame.fields@[j].offset || field_end(frame.fields@[j])
                <= frame.fields@[i].offset),
        has_float_coordinate(frame.fields@, 0),
        has_float_coordinate(frame.fields@, 1),
        has_float_coordinate(frame.fields@, 2),
{
    let fs = frame.fields@;
    let ps = frame.point_step;
    assert forall|i: int| 0 <= i < fs.len() implies (#[trigger] fs[i]).count > 0 && field_end(fs[i])
        <= ps by {
        lemma_no_first_issue(fs, ps, 0, i);
    }
    assert forall|i: int, j: int| 0 <= i < j < fs.len() implies (#[trigger] fs[i]).name@ != (
    #[trigger] fs[j]).name@ && (field_end(fs[i]) <= fs[j].offset || field_end(fs[j]) <= fs[i].offset) by {
        lemma_no_first_pair_issue(fs, 0, 1, i, j);
    }
    assert forall|a: int| 0 <= a < 3 implies #[trigger] has_float_coordinate(fs, a) by {
        assert(axis_before(fs, fs.len() as int, a));
        let i = choose|i: int| 0 <= i < fs.len() && #[trigger] coordinate_axis(fs[i].name@) == Some(a);
        lemma_no_first_issue(fs, ps, 0, i);
    }
}

/// The coordinate that `name` stands for, as [`coordinate_axis`] defines it.
pub(crate) fn axis_of(name: &String) -> (axis: Option<usize>)
    ensures
        match axis {
            Some(k) => coordinate_axis(name@) == Some(k as int),
            None => coordinate_axis(name@) is None,
        },
{
    proof {
        reveal_strlit("x");
        reveal_strlit("X");
        reveal_strlit("y");
        reveal_strlit("Y");
        reveal_strlit("z");
        reveal_strlit("Z");
        assert("x"@ =~= seq!['x']);
        assert("X"@ =~= seq!['X']);
        assert("y"@ =~= seq!['y']);
        assert("Y"@ =~= seq!['Y']);
        assert("z"@ =~= seq!['z']);
        assert("Z"@ =~= seq!['Z']);
    }
    if *name == "x".to_owned() || *name == "X".to_owned() {
        Some(0)
    } else if *name == "y".to_owned() || *name == "Y".to_owned() {
        Some(1)
    } else if *name == "z".to_owned() || *name == "Z".to_owned() {
        Some(2)
    } else {
        None
    }
}

/// The lower-case name of coordinate `axis`, as a string.
fn axis_name_string(axis: usize) -> (s: String)
    requires
        axis < 3,
    ensures
        s@ == axis_name(axis as int),
{
    proof {
        reveal_strlit("x");
        reveal_strlit("y");
        reveal_strlit("z");
        assert("x"@ =~= seq!['x']);
        assert("y"@ =~= seq!['y']);
        assert("z"@ =~= seq!['z']);
    }
    if axis == 0 {
        "x".to_owned()
    } else if axis == 1 {
        "y".to_owned()
    } else {
        "z".to_owned()
    }
}

/// The product of two `u32`, which always fits in a `u64`.
pub fn widen_mul(a: u32, b: u32) -> (p: u64)
    ensures
        p == a * b,
{
    assert(a * b <= 0xffff_ffff * 0xffff_ffff) by (nonlinear_arith)
        requires
            a <= 0xffff_ffff,
            b <= 0xffff_ffff,
    ;
    a as u64 * b as u64
}

impl PointCloudFrame {
    /// Checks that the frame is well formed, and reports the first problem
    /// found in the order that [`frame_issue`] gives.
    pub fn validate(&self) -> (r: Result<(), PointCloudError>)
        ensures
            match r {
                Ok(()) => frame_issue(*self) is None,
                Err(e) => frame_issue(*self) == Some(e@),
            },
    {
        if self.width == 0 || self.height == 0 {
            return Err(PointCloudError::InvalidDimensions);
        }
        if (self.row_step as u64) < widen_mul(self.width, self.point_step) {
            return Err(PointCloudError::InvalidRowStep);
        }
        if self.data.len() as u64 != widen_mul(self.row_step, self.height) {
            return Err(PointCloudError::InvalidDataLength);
        }
        let fields = &self.fields;
        let ghost fs = self.fields@;
        let ghost ps = self.point_step;
        assert(frame_issue(*self) == fields_issue(fs, ps));
        let mut seen: [bool; 3] = [false, false, false];
        let mut i: usize = 0;
        while i < fields.len()
            invariant
                fields@ == fs,
                fs == self.fields@,
                ps == self.point_step,
                frame_issue(*self) == fields_issue(fs, ps),
                i <= fs.len(),
                forall|j: int| 0 <= j < i ==> #[trigger] field_issue(fs, ps, j) is None,
                forall|a: int| 0 <= a < 3 ==> seen@[a] == axis_before(fs, i as int, a),
            decreases fs.len() - i,
        {
            let field = &fields[i];
            let ghost bad = field_issue(fs, ps, i as int);
            if field.count == 0 {
                proof {
                    lemma_first_field_issue_at(fs, ps, 0, i as int);
                }
                return Err(PointCloudError::InvalidFieldCount { field_name: field.name.clone() });
            }
            let end = field.end_offset();
            if end > self.point_step as u64 {
                proof {
                    lemma_first_field_issue_at(fs, ps, 0, i as int);
                }
                return Err(PointCloudError::InvalidFieldLayout { field_name: field.name.clone() });
            }
            let axis = axis_of(&field.name);
            match axis {
                Some(k) => {
                    if field.data_type != PointFieldDataType::Float32 {
                        proof {
                            lemma_first_field_issue_at(fs, ps, 0, i as int);
                        }
                        return Err(
                            PointCloudError::InvalidCoordinateFieldType {
                                field_name: field.name.clone(),
                            },
                        );
                    }
                    if field.count != 1 {
                        proof {
                            lemma_first_field_issue_at(fs, ps, 0, i as int);
                        }
                        return Err(PointCloudError::InvalidFieldCount { field_name: field.name.clone() });
                    }
                    if seen[k] {
                        proof {
                            lemma_first_field_issue_at(fs, ps, 0, i as int);
                        }
                        return Err(PointCloudError::DuplicateFieldName { field_name: field.name.clone() });
                    }
                    seen[k] = true;
                },
                None => {},
            }
            proof {
                assert forall|a: int| 0 <= a < 3 implies seen@[a] == axis_before(
                    fs,
                    i + 1,
                    a,
                ) by {
                    if coordinate_axis(fs[i as int].name@) == Some(a) {
                        assert(axis_before(fs, i + 1, a));
                    }
                    if axis_before(fs, i + 1, a) {
                        let j = choose|j: int|
                            0 <= j < i + 1 && #[trigger] coordinate_axis(fs[j].name@) == Some(a);
                        if j < i {
                            assert(axis_before(fs, i as int, a));
                        }
                    }
                }
            }
            i = i + 1;
        }
        proof {
            lemma_first_field_issue_none(fs, ps, 0);
        }
        let mut axis: usize = 0;
        while axis < 3
            invariant
                axis <= 3,
                first_field_issue(fs, ps, 0) is None,
                frame_issue(*self) == fields_issue(fs, ps),
                forall|a: int| 0 <= a < 3 ==> seen@[a] == axis_before(fs, fs.len() as int, a),
                forall|a: int| 0 <= a < axis ==> seen@[a],
            decreases 3 - axis,
        {
            if !seen[axis] {
                proof {
                    assert(!axis_before(fs, fs.len() as int, axis as int));
                    if axis >= 1 {
                        assert(seen@[0int]);
                        assert(axis_before(fs, fs.len() as int, 0));
                    }
                    if axis >= 2 {
                        assert(seen@[1int]);
                        assert(axis_before(fs, fs.len() as int, 1));
                    }
                }
                return Err(PointCloudError::MissingCoordinateField { field_name: axis_name_string(axis) });
            }
            axis = axis + 1;
        }
        assert(missing_axis(fs) is None);
        assert forall|j: int| 0 <= j < fs.len() implies #[trigger] field_issue(fs, ps, j) is None by {
            if field_issue(fs, ps, j) is Some {
                lemma_first_field_issue_at(fs, ps, 0, j);
            }
        }
        let mut i: usize = 0;
        while i < fields.len()
            invariant
                fields@ == fs,
                i <= fs.len(),
                frame_issue(*self) == fields_issue(fs, ps),
                first_field_issue(fs, ps, 0) is None,
                missing_axis(fs) is None,
                forall|j: int| 0 <= j < fs.len() ==> #[trigger] field_issue(fs, ps, j) is None,
                forall|p: int, q: int|
                    0 <= p < q < fs.len() && p < i ==> #[trigger] pair_issue(fs, p, q) is None,
            decreases fs.len() - i,
        {
            let field = &fields[i];
            let mut j: usize = i + 1;
            while j < fields.len()
                invariant
                    fields@ == fs,
                    i < fs.len(),
                    frame_issue(*self) == fields_issue(fs, ps),
                    first_field_issue(fs, ps, 0) is None,
                    missing_axis(fs) is None,
                    forall|j: int| 0 <= j < fs.len() ==> #[trigger] field_issue(fs, ps, j) is None,
                    i + 1 <= j <= fs.len(),
                    *field == fs[i as int],
                    forall|p: int, q: int|
                        0 <= p < q < fs.len() && pair_before(p, q, i as int, j as int)
                            ==> #[trigger] pair_issue(fs, p, q) is None,
                decreases fs.len() - j,
            {
                let other = &fields[j];
                if field.name == other.name {
                    proof {
                        lemma_first_pair_issue_at(fs, 0, 1, i as int, j as int);
                    }
                    return Err(PointCloudError::DuplicateFieldName { field_name: field.name.clone() });
                }
                let field_end = field.end_offset();
                let other_end = other.end_offset();
                if (field.offset as u64) < other_end && (other.offset as u64) < field_end {
                    proof {
                        lemma_first_pair_issue_at(fs, 0, 1, i as int, j as int);
                    }
                    return Err(
                        PointCloudError::OverlappingFields {
                            first_field: field.name.clone(),
                            second_field: other.name.clone(),
                        },
                    );
                }
                j = j + 1;
            }
            i = i + 1;
        }
        proof {
            lemma_first_pair_issue_none(fs, 0, 1);
        }
        Ok(())
    }
}

} // verus!

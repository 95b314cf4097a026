use vstd::prelude::*;

use super::error::PointCloudError;
use super::field::{PointField, field_end};
use super::frame::{PointCloudFrame, axis_before, coordinate_axis, frame_issue};

verus! {

/// Where the three coordinates of one point lie in a frame's data: the
/// offsets of the first byte of its `x`, `y` and `z` values.
#[derive(Debug, Clone, Copy, PartialEq, Eq, Structural)]
pub struct CoordinatePositions {
    pub x: usize,
    pub y: usize,
    pub z: usize,
}

/// The position of the first field that names coordinate `axis`.
pub open spec fn first_axis_field(fields: Seq<PointField>, axis: int) -> int {
    choose|i: int|
        0 <= i < fields.len() && coordinate_axis(fields[i].name@) == Some(axis) && !axis_before(
            fields,
            i,
            axis,
        )
}

/// The byte offset, inside a point, of the field that names coordinate
/// `axis`.
pub open spec fn axis_offset(fields: Seq<PointField>, axis: int) -> int {
    fields[first_axis_field(fields, axis)].offset as int
}

/// The coordinate positions of the point in row `row` and column `column`.
pub open spec fn point_positions(frame: PointCloudFrame, row: int, column: int) -> (int, int, int) {
    let start = row * frame.row_step + column * frame.point_step;
    (
        start + axis_offset(frame.fields@, 0),
        start + axis_offset(frame.fields@, 1),
        start + axis_offset(frame.fields@, 2),
    )
}

/// `positions` lists the coordinate positions of every point of `frame`,
/// row after row.
pub open spec fn lists_points(frame: PointCloudFrame, positions: Seq<CoordinatePositions>) -> bool {
    &&& positions.len() == frame.width * frame.height
    &&& forall|r: int, c: int|
        0 <= r < frame.height && 0 <= c < frame.width ==> {
            let p = #[trigger] positions[r * frame.width + c];
            (p.x as int, p.y as int, p.z as int) == point_positions(frame, r, c)
        }
}

proof fn lemma_axis_field_exists(fields: Seq<PointField>, n: int, axis: int)
    requires
        0 <= n <= fields.len(),
        axis_before(fields, n, axis),
    ensures
        exists|i: int|
            0 <= i < n && coordinate_axis(fields[i].name@) == Some(axis) && !axis_before(
                fields,
                i,
                axis,
            ),
    decreases n,
{
    let j = choose|j: int| 0 <= j < n && #[trigger] coordinate_axis(fields[j].name@) == Some(axis);
    if axis_before(fields, j, axis) {
        lemma_axis_field_exists(fields, j, axis);
    } else {
        assert(0 <= j < n && coordinate_axis(fields[j].name@) == Some(axis) && !axis_before(
            fields,
            j,
            axis,
        ));
    }
}

/// The first field that names coordinate `axis`, found by search.
fn find_axis_field(fields: &Vec<PointField>, axis: usize) -> (i: usize)
    requires
        axis < 3,
        axis_before(fields@, fields@.len() as int, axis as int),
    ensures
        i == first_axis_field(fields@, axis as int),
        i < fields@.len(),
{
    proof {
        lemma_axis_field_exists(fields@, fields@.len() as int, axis as int);
    }
    let mut i: usize = 0;
    while i < fields.len()
        invariant
            i <= fields@.len(),
            axis < 3,
            axis_before(fields@, fields@.len() as int, axis as int),
            !axis_before(fields@, i as int, axis as int),
        decreases fields.len() - i,
    {
        let found = crate::pointcloud::frame::axis_of(&fields[i].name);
        if found == Some(axis) {
            proof {
                let c = first_axis_field(fields@, axis as int);
                assert(c == i) by {
                    if c < i {
                        assert(axis_before(fields@, i as int, axis as int));
                    } else if c > i {
                        assert(axis_before(fields@, c, axis as int));
                    }
                }
            }
            return i;
        }
        proof {
            assert forall|j: int|
                0 <= j < i + 1 implies #[trigger] coordinate_axis(fields@[j].name@) != Some(
                axis as int,
            ) by {
                if j < i {
                    if coordinate_axis(fields@[j].name@) == Some(axis as int) {
                        assert(axis_before(fields@, i as int, axis as int));
                    }
                }
            }
        }
        i = i + 1;
    }
    // Not reached: some field names the axis.
    0
}

/// Validates `frame` and lists where the coordinates of each of its points
/// lie, row after row, so that they can be read and rewritten in place; the
/// first problem validation finds otherwise.
pub fn coordinate_positions(frame: &PointCloudFrame) -> (r: Result<
    Vec<CoordinatePositions>,
    PointCloudError,
>)
    ensures
        match r {
            Ok(positions) => {
                &&& frame_issue(*frame) is None
                &&& lists_points(*frame, positions@)
                &&& forall|k: int|
                    0 <= k < positions@.len() ==> {
                        let p = #[trigger] positions@[k];
                        &&& p.x + 4 <= frame.data@.len()
                        &&& p.y + 4 <= frame.data@.len()
                        &&& p.z + 4 <= frame.data@.len()
                    }
            },
            Err(e) => frame_issue(*frame) == Some(e@),
        },
{
    match frame.validate() {
        Ok(()) => {},
        Err(e) => {
            return Err(e);
        },
    }
    assert(frame_issue(*frame) is None);
    assert(crate::pointcloud::frame::missing_axis(frame.fields@) is None);
    let ghost fs = frame.fields@;
    let xi = find_axis_field(&frame.fields, 0);
    let yi = find_axis_field(&frame.fields, 1);
    let zi = find_axis_field(&frame.fields, 2);
    proof {
        assert(axis_before(fs, fs.len() as int, 0));
        assert(axis_before(fs, fs.len() as int, 1));
        assert(axis_before(fs, fs.len() as int, 2));
        assert forall|a: int| 0 <= a < 3 implies field_end(
            #[trigger] fs[first_axis_field(fs, a)],
        ) <= frame.point_step && fs[first_axis_field(fs, a)].count == 1
            && fs[first_axis_field(fs, a)].data_type.spec_size() == 4 by {
            lemma_axis_field_exists(fs, fs.len() as int, a);
            let i = first_axis_field(fs, a);
            lemma_first_issue_none_at(fs, frame.point_step, i);
        }
    }
    let x_offset = frame.fields[xi].offset as usize;
    let y_offset = frame.fields[yi].offset as usize;
    let z_offset = frame.fields[zi].offset as usize;
    let width = frame.width as usize;
    let height = frame.height as usize;
    let row_step = frame.row_step as usize;
    let point_step = frame.point_step as usize;
    let len = frame.data.len();
    let mut positions: Vec<CoordinatePositions> = Vec::new();
    let mut row: usize = 0;
    while row < height
        invariant
            len == frame.data@.len(),
            len == row_step * height,
            width * point_step <= row_step,
            width == frame.width,
            height == frame.height,
            row_step == frame.row_step,
            point_step == frame.point_step,
            x_offset == axis_offset(fs, 0),
            y_offset == axis_offset(fs, 1),
            z_offset == axis_offset(fs, 2),
            x_offset + 4 <= point_step,
            y_offset + 4 <= point_step,
            z_offset + 4 <= point_step,
            fs == frame.fields@,
            row <= height,
            positions@.len() == row * width,
            forall|r: int, c: int|
                0 <= r < row && 0 <= c < width ==> {
                    let p = #[trigger] positions@[r * width + c];
                    (p.x as int, p.y as int, p.z as int) == point_positions(*frame, r, c)
                },
            forall|k: int|
                0 <= k < positions@.len() ==> {
                    let p = #[trigger] positions@[k];
                    &&& p.x + 4 <= len
                    &&& p.y + 4 <= len
                    &&& p.z + 4 <= len
                },
        decreases height - row,
    {
        assert(row * row_step + row_step <= len) by (nonlinear_arith)
            requires
                row + 1 <= height,
                len == row_step * height,
        ;
        let row_start = row * row_step;
        let mut column: usize = 0;
        while column < width
            invariant
                len == frame.data@.len(),
                width * point_step <= row_step,
                row_start + row_step <= len,
                row_start == row * row_step,
                width == frame.width,
                height == frame.height,
                row_step == frame.row_step,
                point_step == frame.point_step,
                row < height,
                x_offset == axis_offset(fs, 0),
                y_offset == axis_offset(fs, 1),
                z_offset == axis_offset(fs, 2),
                x_offset + 4 <= point_step,
                y_offset + 4 <= point_step,
                z_offset + 4 <= point_step,
                fs == frame.fields@,
                column <= width,
                positions@.len() == row * width + column,
                forall|r: int, c: int|
                    0 <= r < row && 0 <= c < width ==> {
                        let p = #[trigger] positions@[r * width + c];
                        (p.x as int, p.y as int, p.z as int) == point_positions(*frame, r, c)
                    },
                forall|c: int|
                    0 <= c < column ==> {
                        let p = #[trigger] positions@[row * width + c];
                        (p.x as int, p.y as int, p.z as int) == point_positions(*frame, row as int, c)
                    },
                forall|k: int|
                    0 <= k < positions@.len() ==> {
                        let p = #[trigger] positions@[k];
                        &&& p.x + 4 <= len
                        &&& p.y + 4 <= len
                        &&& p.z + 4 <= len
                    },
            decreases width - column,
        {
            assert(column * point_step + point_step <= width * point_step) by (nonlinear_arith)
                requires
                    column + 1 <= width,
            ;
            let start = row_start + column * point_step;
            let p = CoordinatePositions {
                x: start + x_offset,
                y: start + y_offset,
                z: start + z_offset,
            };
            let ghost before = positions@;
            positions.push(p);
            proof {
                assert(positions@[row * width + column] == p);
                assert forall|r: int, c: int| 0 <= r < row && 0 <= c < width implies {
                    let q = #[trigger] positions@[r * width + c];
                    (q.x as int, q.y as int, q.z as int) == point_positions(*frame, r, c)
                } by {
                    assert(r * width + c < row * width) by (nonlinear_arith)
                        requires
                            r + 1 <= row,
                            c < width,
                    ;
                    assert(positions@[r * width + c] == before[r * width + c]);
                }
                assert forall|c: int| 0 <= c < column + 1 implies {
                    let q = #[trigger] positions@[row * width + c];
                    (q.x as int, q.y as int, q.z as int) == point_positions(*frame, row as int, c)
                } by {
                    if c < column {
                        assert(positions@[row * width + c] == before[row * width + c]);
                    }
                }
            }
            column = column + 1;
        }
        proof {
            assert forall|r: int, c: int| 0 <= r < row + 1 && 0 <= c < width implies {
                let q = #[trigger] positions@[r * width + c];
                (q.x as int, q.y as int, q.z as int) == point_positions(*frame, r, c)
            } by {
                if r == row {
                    assert(positions@[row * width + c] == positions@[r * width + c]);
                }
            }
            assert(positions@.len() == (row + 1) * width) by (nonlinear_arith)
                requires
                    positions@.len() == row * width + width,
            ;
        }
        row = row + 1;
    }
    assert(height * width == frame.width * frame.height) by (nonlinear_arith)
        requires
            width == frame.width,
            height == frame.height,
    ;
    Ok(positions)
}

proof fn lemma_first_issue_none_at(fields: Seq<PointField>, point_step: u32, i: int)
    requires
        0 <= i < fields.len(),
        crate::pointcloud::frame::first_field_issue(fields, point_step, 0) is None,
        coordinate_axis(fields[i].name@) is Some,
    ensures
        field_end(fields[i]) <= point_step,
        fields[i].count == 1,
        fields[i].data_type.spec_size() == 4,
{
    crate::pointcloud::frame::lemma_no_first_issue(fields, point_step, 0, i);
}

} // verus!

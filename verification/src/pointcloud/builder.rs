use vstd::prelude::*;

use super::datatype::PointFieldDataType;
use super::error::PointCloudError;
use super::field::{PointField, field_end};
use super::frame::{Endianness, PointCloudFrame, frame_is_valid, layout_issue};

verus! {

/// Collects the settings of a [`PointCloudFrame`] one by one; [`build`]
/// then makes the frame and validates it.
///
/// [`build`]: PointCloudBuilder::build
#[derive(Debug)]
pub struct PointCloudBuilder {
    timestamp_ns: u64,
    frame_id: String,
    width: u32,
    height: u32,
    fields: Vec<PointField>,
    endianness: Endianness,
    is_dense: bool,
    // Computed from the fields unless set, for points with padding.
    point_step: Option<u32>,
    // Computed as `width * point_step` unless set, for rows with padding.
    row_step: Option<u32>,
}

/// The settings a [`PointCloudBuilder`] holds.
pub struct BuilderView {
    pub timestamp_ns: u64,
    pub frame_id: Seq<char>,
    pub width: u32,
    pub height: u32,
    pub fields: Seq<PointField>,
    pub endianness: Endianness,
    pub is_dense: bool,
    pub point_step: Option<u32>,
    pub row_step: Option<u32>,
}

impl View for PointCloudBuilder {
    type V = BuilderView;

    closed spec fn view(&self) -> BuilderView {
        BuilderView {
            timestamp_ns: self.timestamp_ns,
            frame_id: self.frame_id@,
            width: self.width,
            height: self.height,
            fields: self.fields@,
            endianness: self.endianness,
            is_dense: self.is_dense,
            point_step: self.point_step,
            row_step: self.row_step,
        }
    }
}

/// The settings of a new builder: no fields, width 0, height 1,
/// little-endian, dense, steps computed.
pub open spec fn initial_settings() -> BuilderView {
    BuilderView {
        timestamp_ns: 0,
        frame_id: Seq::empty(),
        width: 0,
        height: 1,
        fields: Seq::empty(),
        endianness: Endianness::Little,
        is_dense: true,
        point_step: None,
        row_step: None,
    }
}

/// A new builder describes a little-endian, dense frame of width 0 and
/// height 1 with no fields, no time stamp and no frame identifier, whose
/// steps are computed from its fields.
pub proof fn lemma_initial_settings()
    ensures
        initial_settings().endianness == Endianness::Little,
        initial_settings().timestamp_ns == 0,
        initial_settings().frame_id.len() == 0,
        initial_settings().width == 0,
        initial_settings().height == 1,
        initial_settings().fields.len() == 0,
        initial_settings().is_dense,
        initial_settings().point_step is None,
        initial_settings().row_step is None,
{
}

/// Among the first `n` fields, the position of the last one with the largest
/// offset.
pub open spec fn last_max_offset_index(fields: Seq<PointField>, n: nat) -> int
    decreases n,
{
    if n <= 1 {
        0
    } else {
        let m = last_max_offset_index(fields, (n - 1) as nat);
        if fields[n - 1].offset >= fields[m].offset {
            n - 1
        } else {
            m
        }
    }
}

/// Where the field with the largest offset ends (the last such field when
/// several share it); 0 when there are no fields.
pub open spec fn next_field_offset(fields: Seq<PointField>) -> int {
    if fields.len() == 0 {
        0
    } else {
        field_end(fields[last_max_offset_index(fields, fields.len())])
    }
}

/// The point step that [`PointCloudBuilder::build`] uses.
pub open spec fn built_point_step(b: BuilderView) -> int {
    match b.point_step {
        Some(p) => p as int,
        None => next_field_offset(b.fields),
    }
}

/// The row step that [`PointCloudBuilder::build`] uses.
pub open spec fn built_row_step(b: BuilderView) -> int {
    match b.row_step {
        Some(r) => r as int,
        None => b.width * built_point_step(b),
    }
}

/// Settings whose computed steps fit in a `u32`.
pub open spec fn can_build(b: BuilderView) -> bool {
    built_point_step(b) <= u32::MAX && built_row_step(b) <= u32::MAX
}

/// `frame` is the frame that settings `b` describe, holding `data`.
pub open spec fn built_frame(frame: PointCloudFrame, b: BuilderView, data: Seq<u8>) -> bool {
    &&& frame.timestamp_ns == b.timestamp_ns
    &&& frame.frame_id@ == b.frame_id
    &&& frame.width == b.width
    &&& frame.height == b.height
    &&& frame.fields@ == b.fields
    &&& frame.endianness == b.endianness
    &&& frame.point_step == built_point_step(b)
    &&& frame.row_step == built_row_step(b)
    &&& frame.is_dense == b.is_dense
    &&& frame.data@ == data
}

/// The position of the last field with the largest offset, or 0.
fn last_max_offset(fields: &Vec<PointField>) -> (m: usize)
    ensures
        fields@.len() > 0 ==> m == last_max_offset_index(fields@, fields@.len()) && m
            < fields@.len(),
{
    let mut m: usize = 0;
    let mut i: usize = 1;
    while i < fields.len()
        invariant
            1 <= i,
            i <= fields@.len() || fields@.len() == 0,
            fields@.len() > 0 ==> m == last_max_offset_index(fields@, i as nat) && m < i,
        decreases fields.len() - i,
    {
        if fields[i].offset >= fields[m].offset {
            m = i;
        }
        i = i + 1;
    }
    m
}

/// Where the field with the largest offset ends, or 0.
fn next_offset(fields: &Vec<PointField>) -> (next: u64)
    ensures
        next == next_field_offset(fields@),
{
    if fields.len() == 0 {
        0
    } else {
        let m = last_max_offset(fields);
        fields[m].end_offset()
    }
}

impl PointCloudBuilder {
    /// Settings for an empty frame: no fields, width 0, height 1,
    /// little-endian, dense, steps computed.
    pub fn new() -> (b: Self)
        ensures
            b@ == initial_settings(),
            b@.endianness == Endianness::Little,
            b@.timestamp_ns == 0,
            b@.frame_id.len() == 0,
            b@.width == 0,
            b@.height == 1,
            b@.fields.len() == 0,
            b@.is_dense,
            b@.point_step is None,
            b@.row_step is None,
    {
        PointCloudBuilder {
            timestamp_ns: 0,
            frame_id: String::new(),
            width: 0,
            height: 1,
            fields: Vec::new(),
            endianness: Endianness::Little,
            is_dense: true,
            point_step: None,
            row_step: None,
        }
    }

    /// Sets the time stamp.
    pub fn timestamp_ns(self, timestamp_ns: u64) -> (b: Self)
        ensures
            b@ == (BuilderView { timestamp_ns, ..self@ }),
    {
        let mut b = self;
        b.timestamp_ns = timestamp_ns;
        b
    }

    /// Sets the coordinate frame identifier.
    pub fn frame_id(self, frame_id: &str) -> (b: Self)
        ensures
            b@ == (BuilderView { frame_id: frame_id@, ..self@ }),
    {
        let mut b = self;
        b.frame_id = frame_id.to_owned();
        b
    }

    /// Sets the number of points per row.
    pub fn width(self, width: u32) -> (b: Self)
        ensures
            b@ == (BuilderView { width, ..self@ }),
    {
        let mut b = self;
        b.width = width;
        b
    }

    /// Sets the number of rows.
    pub fn height(self, height: u32) -> (b: Self)
        ensures
            b@ == (BuilderView { height, ..self@ }),
    {
        let mut b = self;
        b.height = height;
        b
    }

    /// Replaces all fields.
    pub fn fields(self, fields: Vec<PointField>) -> (b: Self)
        ensures
            b@ == (BuilderView { fields: fields@, ..self@ }),
    {
        let mut b = self;
        b.fields = fields;
        b
    }

    /// Adds a field right after the field with the largest offset (at 0 for
    /// the first field).
    pub fn field(self, name: &str, data_type: PointFieldDataType, count: u32) -> (b: Self)
        requires
            next_field_offset(self@.fields) <= u32::MAX,
        ensures
            b@ == (BuilderView {
                fields: self@.fields.push(
                    PointField {
                        name: b@.fields.last().name,
                        offset: next_field_offset(self@.fields) as u32,
                        data_type,
                        count,
                    },
                ),
                ..self@
            }),
            b@.fields.last().name@ == name@,
    {
        let next = next_offset(&self.fields) as u32;
        let mut b = self;
        b.fields.push(PointField { name: name.to_owned(), offset: next, data_type, count });
        b
    }

    /// Adds a field at the given offset.
    pub fn field_at(self, name: &str, offset: u32, data_type: PointFieldDataType, count: u32) -> (b:
        Self)
        ensures
            b@ == (BuilderView {
                fields: self@.fields.push(
                    PointField { name: b@.fields.last().name, offset, data_type, count },
                ),
                ..self@
            }),
            b@.fields.last().name@ == name@,
    {
        let mut b = self;
        b.fields.push(PointField { name: name.to_owned(), offset, data_type, count });
        b
    }

    /// Sets the byte order of the data.
    pub fn endianness(self, endianness: Endianness) -> (b: Self)
        ensures
            b@ == (BuilderView { endianness, ..self@ }),
    {
        let mut b = self;
        b.endianness = endianness;
        b
    }

    /// Sets whether every point is valid.
    pub fn is_dense(self, is_dense: bool) -> (b: Self)
        ensures
            b@ == (BuilderView { is_dense, ..self@ }),
    {
        let mut b = self;
        b.is_dense = is_dense;
        b
    }

    /// Fixes the bytes per point instead of computing them from the fields.
    pub fn point_step(self, point_step: u32) -> (b: Self)
        ensures
            b@ == (BuilderView { point_step: Some(point_step), ..self@ }),
    {
        let mut b = self;
        b.point_step = Some(point_step);
        b
    }

    /// Fixes the bytes per row instead of computing `width * point_step`.
    pub fn row_step(self, row_step: u32) -> (b: Self)
        ensures
            b@ == (BuilderView { row_step: Some(row_step), ..self@ }),
    {
        let mut b = self;
        b.row_step = Some(row_step);
        b
    }

    /// Makes the frame with `data` and validates it: the frame when it is
    /// well formed, else the first problem that validation finds.
    pub fn build(self, data: Vec<u8>) -> (r: Result<PointCloudFrame, PointCloudError>)
        requires
            can_build(self@),
        ensures
            match r {
                Ok(frame) => built_frame(frame, self@, data@) && frame_is_valid(frame) && layout_issue(
                    self@.width,
                    self@.height,
                    built_point_step(self@) as u32,
                    built_row_step(self@) as u32,
                    data@.len() as int,
                    self@.fields,
                ) is None,
                Err(e) => layout_issue(
                    self@.width,
                    self@.height,
                    built_point_step(self@) as u32,
                    built_row_step(self@) as u32,
                    data@.len() as int,
                    self@.fields,
                ) == Some(e@),
            },
    {
        let point_step = match self.point_step {
            Some(point_step) => point_step,
            None => next_offset(&self.fields) as u32,
        };
        let row_step = match self.row_step {
            Some(row_step) => row_step,
            None => {
                assert(self.width * point_step <= u32::MAX);
                self.width * point_step
            },
        };
        let frame = PointCloudFrame {
            timestamp_ns: self.timestamp_ns,
            frame_id: self.frame_id,
            width: self.width,
            height: self.height,
            fields: self.fields,
            endianness: self.endianness,
            point_step,
            row_step,
            is_dense: self.is_dense,
            data,
        };
        match frame.validate() {
            Ok(()) => Ok(frame),
            Err(e) => Err(e),
        }
    }
}

impl Default for PointCloudBuilder {
    fn default() -> (b: Self)
        ensures
            b@ == initial_settings(),
    {
        PointCloudBuilder::new()
    }
}

} // verus!

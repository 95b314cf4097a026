use vstd::prelude::*;

use super::field::PointField;

verus! {

/// The point layout that a channel publishes: bytes per point and the fields
/// of one point.
#[derive(Debug, PartialEq, Eq)]
pub struct PointCloudLayout {
    pub point_step: u32,
    pub fields: Vec<PointField>,
}

impl Clone for PointCloudLayout {
    fn clone(&self) -> (res: Self)
        ensures
            res.point_step == self.point_step,
            res.fields@ == self.fields@,
    {
        let fields = self.fields.clone();
        assert(fields@ =~= self.fields@);
        PointCloudLayout { point_step: self.point_step, fields }
    }
}

impl PointCloudLayout {
    /// A layout of `point_step` bytes per point with these fields.
    pub fn new(point_step: u32, fields: Vec<PointField>) -> (layout: Self)
        ensures
            layout.point_step == point_step,
            layout.fields == fields,
    {
        PointCloudLayout { point_step, fields }
    }
}

} // verus!

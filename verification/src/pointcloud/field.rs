use vstd::prelude::*;

use super::datatype::PointFieldDataType;

verus! {

/// One field of a point: its name, its byte offset inside the point, the type
/// of its values and how many values of that type follow one another.
#[derive(Debug, PartialEq, Eq)]
pub struct PointField {
    pub name: String,
    pub offset: u32,
    pub data_type: PointFieldDataType,
    pub count: u32,
}

/// The byte just past the last value of a field, inside its point.
pub open spec fn field_end(f: PointField) -> int {
    f.offset + f.count * f.data_type.spec_size()
}

/// Two fields that agree on name, offset, type and count.
pub open spec fn same_field(a: PointField, b: PointField) -> bool {
    &&& a.name@ == b.name@
    &&& a.offset == b.offset
    &&& a.data_type == b.data_type
    &&& a.count == b.count
}

/// Two lists of fields that agree field by field.
pub open spec fn same_fields(a: Seq<PointField>, b: Seq<PointField>) -> bool {
    &&& a.len() == b.len()
    &&& forall|i: int| 0 <= i < a.len() ==> #[trigger] same_field(a[i], b[i])
}

impl Clone for PointField {
    fn clone(&self) -> (res: Self)
        ensures
            res == *self,
    {
        PointField {
            name: self.name.clone(),
            offset: self.offset,
            data_type: self.data_type,
            count: self.count,
        }
    }
}

impl PointField {
    /// Byte offset just past the last value of this field, computed without
    /// overflow.
    pub fn end_offset(&self) -> (end: u64)
        ensures
            end == field_end(*self),
    {
        let size = self.data_type.size_bytes() as u64;
        assert(self.count * size <= 0xffff_ffff * 8) by (nonlinear_arith)
            requires
                self.count <= 0xffff_ffff,
                size <= 8,
        ;
        self.offset as u64 + self.count as u64 * size
    }
}

/// Compares two lists of fields, field by field.
pub fn fields_equal(a: &Vec<PointField>, b: &Vec<PointField>) -> (eq: bool)
    ensures
        eq == same_fields(a@, b@),
{
    if a.len() != b.len() {
        return false;
    }
    let mut i: usize = 0;
    while i < a.len()
        invariant
            a.len() == b.len(),
            i <= a.len(),
            forall|j: int| 0 <= j < i ==> #[trigger] same_field(a@[j], b@[j]),
        decreases a.len() - i,
    {
        let fa = &a[i];
        let fb = &b[i];
        if !(fa.name == fb.name && fa.offset == fb.offset && fa.data_type == fb.data_type
            && fa.count == fb.count) {
            assert(!same_field(a@[i as int], b@[i as int]));
            return false;
        }
        i = i + 1;
    }
    true
}

} // verus!

use vstd::prelude::*;
use vstd::string::*;

use crate::pointcloud::{PointCloudFrame, PointField, PointFieldDataType};
use crate::publisher::framing::{frame_message, framed_message};
use crate::publisher::text::{decimal, push_decimal};

verus! {

/// The opcode of a Foxglove binary "message data" frame.
pub const FOXGLOVE_BINARY_OP_MESSAGE_DATA: u8 = 0x01;

/// A time stamp split into whole seconds and the nanoseconds that remain.
#[derive(Debug, Clone, Copy, PartialEq, Eq)]
pub struct FoxgloveTimestamp {
    pub sec: u64,
    pub nsec: u64,
}

/// One field of a `foxglove.PointCloud`: a name, a byte offset and a Foxglove
/// numeric type.
#[derive(Debug, PartialEq, Eq)]
pub struct FoxgloveField {
    pub name: String,
    pub offset: u32,
    pub data_type: u8,
}

/// The content of a `foxglove.PointCloud` message; its pose is always the
/// identity.
#[derive(Debug)]
pub struct FoxglovePointCloud<'a> {
    pub timestamp: FoxgloveTimestamp,
    pub frame_id: String,
    pub point_stride: u32,
    pub fields: Vec<FoxgloveField>,
    pub data: &'a [u8],
}

/// The Foxglove `NumericType` code of a data type.
pub open spec fn foxglove_type_code(data_type: PointFieldDataType) -> u8 {
    match data_type {
        PointFieldDataType::Uint8 => 1,
        PointFieldDataType::Int8 => 2,
        PointFieldDataType::Uint16 => 3,
        PointFieldDataType::Int16 => 4,
        PointFieldDataType::Uint32 => 5,
        PointFieldDataType::Int32 => 6,
        PointFieldDataType::Float32 => 7,
        PointFieldDataType::Float64 => 8,
    }
}

/// The code of each data type is the Foxglove `NumericType` of that type:
/// UINT8 = 1, INT8 = 2, UINT16 = 3, INT16 = 4, UINT32 = 5, INT32 = 6,
/// FLOAT32 = 7, FLOAT64 = 8.
pub proof fn lemma_foxglove_type_codes()
    ensures
        foxglove_type_code(PointFieldDataType::Uint8) == 1,
        foxglove_type_code(PointFieldDataType::Int8) == 2,
        foxglove_type_code(PointFieldDataType::Uint16) == 3,
        foxglove_type_code(PointFieldDataType::Int16) == 4,
        foxglove_type_code(PointFieldDataType::Uint32) == 5,
        foxglove_type_code(PointFieldDataType::Int32) == 6,
        foxglove_type_code(PointFieldDataType::Float32) == 7,
        foxglove_type_code(PointFieldDataType::Float64) == 8,
{
}

/// Returns the Foxglove `NumericType` code of a data type.
pub fn foxglove_numeric_type(data_type: PointFieldDataType) -> (code: u8)
    ensures
        code == foxglove_type_code(data_type),
{
    match data_type {
        PointFieldDataType::Uint8 => 1,
        PointFieldDataType::Int8 => 2,
        PointFieldDataType::Uint16 => 3,
        PointFieldDataType::Int16 => 4,
        PointFieldDataType::Uint32 => 5,
        PointFieldDataType::Int32 => 6,
        PointFieldDataType::Float32 => 7,
        PointFieldDataType::Float64 => 8,
    }
}

/// A Foxglove field as name, offset and type code.
pub type FoxgloveFieldView = (Seq<char>, int, u8);

/// The Foxglove field for value `i` of field `f`: the field's own name for
/// the first value, `name[i]` for the others.
pub open spec fn value_field(f: PointField, i: int) -> FoxgloveFieldView {
    (
        if i == 0 {
            f.name@
        } else {
            f.name@ + seq!['['] + decimal(i as nat) + seq![']']
        },
        f.offset + i * f.data_type.spec_size(),
        foxglove_type_code(f.data_type),
    )
}

/// How many Foxglove fields stand for field `f`: one per value, and one for
/// a field with no values.
pub open spec fn value_field_count(f: PointField) -> int {
    if f.count == 0 {
        1
    } else {
        f.count as int
    }
}

/// The Foxglove fields of a list of point fields, in order: every value of a
/// multi-value field gets a field of its own.
pub open spec fn expanded_fields(fields: Seq<PointField>) -> Seq<FoxgloveFieldView>
    decreases fields.len(),
{
    if fields.len() == 0 {
        Seq::empty()
    } else {
        expanded_fields(fields.drop_last()) + Seq::new(
            value_field_count(fields.last()) as nat,
            |i: int| value_field(fields.last(), i),
        )
    }
}

/// The view of a Foxglove field.
pub open spec fn field_view(f: FoxgloveField) -> FoxgloveFieldView {
    (f.name@, f.offset as int, f.data_type)
}

/// Point fields whose value offsets all fit in a `u32`.
pub open spec fn value_offsets_fit(fields: Seq<PointField>) -> bool {
    forall|i: int|
        0 <= i < fields.len() && (#[trigger] fields[i]).count > 1 ==> fields[i].offset + (
        fields[i].count - 1) * fields[i].data_type.spec_size() <= u32::MAX
}

/// Whether the value offsets of `fields` all fit in a `u32`, as
/// [`value_offsets_fit`] says.
pub fn value_offsets_fit_u32(fields: &Vec<PointField>) -> (ok: bool)
    ensures
        ok == value_offsets_fit(fields@),
{
    let mut i: usize = 0;
    while i < fields.len()
        invariant
            i <= fields@.len(),
            forall|j: int|
                0 <= j < i && (#[trigger] fields@[j]).count > 1 ==> fields@[j].offset + (fields@[j].count
                    - 1) * fields@[j].data_type.spec_size() <= u32::MAX,
        decreases fields.len() - i,
    {
        let f = &fields[i];
        if f.count > 1 {
            let size = f.data_type.size_bytes() as u64;
            assert((f.count - 1) * size <= 0xffff_ffff * 8) by (nonlinear_arith)
                requires
                    f.count - 1 <= 0xffff_ffff,
                    size <= 8,
            ;
            if f.offset as u64 + (f.count as u64 - 1) * size > u32::MAX as u64 {
                return false;
            }
        }
        i = i + 1;
    }
    true
}

/// `cloud` is the `foxglove.PointCloud` of `frame` carrying `point_data`.
pub open spec fn is_foxglove_cloud_of(
    cloud: FoxglovePointCloud,
    frame: PointCloudFrame,
    point_data: Seq<u8>,
) -> bool {
    &&& cloud.timestamp.sec == frame.timestamp_ns / 1_000_000_000
    &&& cloud.timestamp.nsec == frame.timestamp_ns % 1_000_000_000
    &&& cloud.frame_id@ == frame.frame_id@
    &&& cloud.point_stride == frame.point_step
    &&& cloud.fields@.map_values(|f: FoxgloveField| field_view(f)) == expanded_fields(frame.fields@)
    &&& cloud.data@ == point_data
}

/// Appends the Foxglove fields of point field `f`.
fn push_value_fields(out: &mut Vec<FoxgloveField>, f: &PointField)
    requires
        f.count > 1 ==> f.offset + (f.count - 1) * f.data_type.spec_size() <= u32::MAX,
    ensures
        final(out)@.map_values(|g: FoxgloveField| field_view(g)) == old(out)@.map_values(
            |g: FoxgloveField| field_view(g),
        ) + Seq::new(value_field_count(*f) as nat, |i: int| value_field(*f, i)),
{
    let ghost start = old(out)@.map_values(|g: FoxgloveField| field_view(g));
    let code = foxglove_numeric_type(f.data_type);
    let size = f.data_type.size_bytes() as u32;
    out.push(FoxgloveField { name: f.name.clone(), offset: f.offset, data_type: code });
    assert(out@.map_values(|g: FoxgloveField| field_view(g)) =~= start + Seq::new(
        1,
        |i: int| value_field(*f, i),
    ));
    let mut i: u32 = 1;
    while i < f.count
        invariant
            1 <= i,
            i <= f.count || f.count <= 1,
            f.count <= 1 ==> i == 1,
            f.count > 1 ==> f.offset + (f.count - 1) * f.data_type.spec_size() <= u32::MAX,
            size == f.data_type.spec_size(),
            code == foxglove_type_code(f.data_type),
            out@.map_values(|g: FoxgloveField| field_view(g)) == start + Seq::new(
                i as nat,
                |k: int| value_field(*f, k),
            ),
        decreases f.count - i,
    {
        assert(f.offset + i * size <= f.offset + (f.count - 1) * size) by (nonlinear_arith)
            requires
                i <= f.count - 1,
                size >= 0,
        ;
        proof {
            reveal_strlit("[");
            reveal_strlit("]");
            assert("["@ =~= seq!['[']);
            assert("]"@ =~= seq![']']);
        }
        let mut name = f.name.clone();
        name.append("[");
        push_decimal(&mut name, i);
        name.append("]");
        let ghost before = out@;
        let entry = FoxgloveField { name, offset: f.offset + i * size, data_type: code };
        assert(field_view(entry) == value_field(*f, i as int));
        out.push(entry);
        assert(out@ == before.push(entry));
        assert(out@.map_values(|g: FoxgloveField| field_view(g)) =~= before.map_values(
            |g: FoxgloveField| field_view(g),
        ).push(field_view(entry)));
        assert(Seq::new((i + 1) as nat, |k: int| value_field(*f, k)) =~= Seq::new(
            i as nat,
            |k: int| value_field(*f, k),
        ).push(value_field(*f, i as int)));
        assert(out@.map_values(|g: FoxgloveField| field_view(g)) =~= start + Seq::new(
            (i + 1) as nat,
            |k: int| value_field(*f, k),
        ));
        i = i + 1;
    }
    assert(out@.map_values(|g: FoxgloveField| field_view(g)) =~= start + Seq::new(
        value_field_count(*f) as nat,
        |k: int| value_field(*f, k),
    ));
}

impl<'a> FoxglovePointCloud<'a> {
    /// The `foxglove.PointCloud` of `frame`, carrying the packed `point_data`:
    /// the time stamp split into seconds and nanoseconds, and one Foxglove
    /// field per value of every point field.
    pub fn from_frame(frame: &PointCloudFrame, point_data: &'a [u8]) -> (cloud: Self)
        requires
            value_offsets_fit(frame.fields@),
        ensures
            is_foxglove_cloud_of(cloud, *frame, point_data@),
    {
        let mut fields: Vec<FoxgloveField> = Vec::new();
        let mut k: usize = 0;
        while k < frame.fields.len()
            invariant
                k <= frame.fields@.len(),
                value_offsets_fit(frame.fields@),
                fields@.map_values(|g: FoxgloveField| field_view(g)) == expanded_fields(
                    frame.fields@.take(k as int),
                ),
            decreases frame.fields.len() - k,
        {
            let f = &frame.fields[k];
            push_value_fields(&mut fields, f);
            assert(frame.fields@.take(k + 1).drop_last() =~= frame.fields@.take(k as int));
            assert(frame.fields@.take(k + 1).last() == frame.fields@[k as int]);
            k = k + 1;
        }
        assert(frame.fields@.take(frame.fields@.len() as int) =~= frame.fields@);
        FoxglovePointCloud {
            timestamp: FoxgloveTimestamp {
                sec: frame.timestamp_ns / 1_000_000_000,
                nsec: frame.timestamp_ns % 1_000_000_000,
            },
            frame_id: frame.frame_id.clone(),
            point_stride: frame.point_step,
            fields,
            data: point_data,
        }
    }
}

/// Builds the Foxglove binary frame that carries `payload` for a
/// subscription.
pub fn encode_message_data(subscription_id: u32, timestamp_ns: u64, payload: &[u8]) -> (message: Vec<
    u8,
>)
    ensures
        message@ == framed_message(
            FOXGLOVE_BINARY_OP_MESSAGE_DATA,
            subscription_id,
            timestamp_ns,
            payload@,
        ),
{
    frame_message(FOXGLOVE_BINARY_OP_MESSAGE_DATA, subscription_id, timestamp_ns, payload)
}

/// Builds the Foxglove binary frame that carries an encoded
/// `foxglove.PointCloud` for a subscription.
pub fn encode_foxglove_pointcloud_message(subscription_id: u32, timestamp_ns: u64, payload: &[u8]) -> (message:
    Vec<u8>)
    ensures
        message@ == framed_message(
            FOXGLOVE_BINARY_OP_MESSAGE_DATA,
            subscription_id,
            timestamp_ns,
            payload@,
        ),
{
    encode_message_data(subscription_id, timestamp_ns, payload)
}

} // verus!

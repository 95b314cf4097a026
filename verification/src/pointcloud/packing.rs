use vstd::prelude::*;

use super::field::{PointField, field_end};
use super::frame::{Endianness, PointCloudFrame, frame_is_valid, has_float_coordinate, lemma_valid_frame_layout};

verus! {

/// The first `rows` rows of `data`, each `row_size` bytes long and starting
/// every `row_step` bytes, joined in order: the row padding left out.
pub open spec fn packed_rows(data: Seq<u8>, row_step: int, row_size: int, rows: nat) -> Seq<u8>
    decreases rows,
{
    if rows == 0 {
        Seq::empty()
    } else {
        packed_rows(data, row_step, row_size, (rows - 1) as nat) + data.subrange(
            (rows - 1) * row_step,
            (rows - 1) * row_step + row_size,
        )
    }
}

/// `s` with its `size` bytes from `start` on in reverse order.
pub open spec fn reverse_range(s: Seq<u8>, start: int, size: int) -> Seq<u8> {
    Seq::new(
        s.len(),
        |k: int|
            if start <= k < start + size {
                s[2 * start + size - 1 - k]
            } else {
                s[k]
            },
    )
}

/// `s` with the bytes of the first `n` values of field `f`, in the point that
/// starts at `base`, reversed one value after the other.
pub open spec fn swap_values(s: Seq<u8>, base: int, f: PointField, n: nat) -> Seq<u8>
    decreases n,
{
    if n == 0 {
        s
    } else {
        let size = f.data_type.spec_size() as int;
        reverse_range(swap_values(s, base, f, (n - 1) as nat), base + f.offset + (n - 1) * size, size)
    }
}

/// `s` with every value of field `f` in the point that starts at `base`
/// byte-reversed; one-byte values stay as they are.
pub open spec fn swap_field(s: Seq<u8>, base: int, f: PointField) -> Seq<u8> {
    if f.data_type.spec_size() == 1 {
        s
    } else {
        swap_values(s, base, f, f.count as nat)
    }
}

/// [`swap_field`] applied to each of `fields` in order, in the point that
/// starts at `base`.
pub open spec fn swap_fields(s: Seq<u8>, base: int, fields: Seq<PointField>) -> Seq<u8>
    decreases fields.len(),
{
    if fields.len() == 0 {
        s
    } else {
        swap_field(swap_fields(s, base, fields.drop_last()), base, fields.last())
    }
}

/// [`swap_fields`] applied to the first `n` points, `point_step` bytes apart,
/// in order.
pub open spec fn swap_points(s: Seq<u8>, point_step: int, fields: Seq<PointField>, n: nat) -> Seq<
    u8,
>
    decreases n,
{
    if n == 0 {
        s
    } else {
        swap_fields(swap_points(s, point_step, fields, (n - 1) as nat), (n - 1) * point_step, fields)
    }
}

/// What [`pack_point_data`] returns: the rows without their padding, then,
/// for a big-endian frame, every value of every field of every point with its
/// bytes reversed.
pub open spec fn packed_point_data(frame: PointCloudFrame) -> Seq<u8> {
    let rows = packed_rows(
        frame.data@,
        frame.row_step as int,
        frame.width * frame.point_step,
        frame.height as nat,
    );
    if frame.endianness == Endianness::Big {
        swap_points(rows, frame.point_step as int, frame.fields@, (frame.width * frame.height) as nat)
    } else {
        rows
    }
}

/// The frames that [`pack_point_data`] handles: every row it copies lies in
/// `data`, every value it reverses lies in its point, and the result fits in
/// memory.
pub open spec fn can_pack(frame: PointCloudFrame) -> bool {
    let row_size = frame.width * frame.point_step;
    &&& row_size * frame.height <= usize::MAX
    &&& frame.width * frame.height <= usize::MAX
    &&& (frame.height > 0 ==> (frame.height - 1) * frame.row_step + row_size <= frame.data@.len())
    &&& (frame.endianness == Endianness::Big && frame.width * frame.height > 0 ==> forall|i: int|
        0 <= i < frame.fields@.len() && frame.fields@[i].data_type.spec_size() > 1
            && frame.fields@[i].count > 0 ==> field_end(#[trigger] frame.fields@[i])
            <= frame.point_step)
}

proof fn lemma_packed_rows_len(data: Seq<u8>, row_step: int, row_size: int, rows: nat)
    requires
        0 <= row_step,
        0 <= row_size,
        rows > 0 ==> (rows - 1) * row_step + row_size <= data.len(),
    ensures
        packed_rows(data, row_step, row_size, rows).len() == rows * row_size,
    decreases rows,
{
    if rows > 0 {
        if rows > 1 {
            assert((rows - 2) * row_step <= (rows - 1) * row_step) by (nonlinear_arith)
                requires
                    rows >= 2,
                    row_step >= 0,
            ;
        }
        lemma_packed_rows_len(data, row_step, row_size, (rows - 1) as nat);
        assert((rows - 1) * row_size + row_size == rows * row_size) by (nonlinear_arith);
        assert(0 <= (rows - 1) * row_step) by (nonlinear_arith)
            requires
                rows >= 1,
                row_step >= 0,
        ;
    }
}

/// Reverses the `size` bytes of `data` that start at `start`.
fn reverse_bytes(data: &mut Vec<u8>, start: usize, size: usize)
    requires
        start + size <= old(data)@.len(),
    ensures
        final(data)@ == reverse_range(old(data)@, start as int, size as int),
{
    let ghost orig = data@;
    let mut value: Vec<u8> = Vec::new();
    let mut i: usize = 0;
    while i < size
        invariant
            data@ == orig,
            data.len() == orig.len(),
            start + size <= orig.len(),
            i <= size,
            value@ == orig.subrange(start as int, start + i),
        decreases size - i,
    {
        value.push(data[start + i]);
        i = i + 1;
    }
    let mut i: usize = 0;
    while i < size
        invariant
            data.len() == orig.len(),
            start + size <= orig.len(),
            i <= size,
            value@ == orig.subrange(start as int, start + size),
            data@ == Seq::new(
                orig.len(),
                |k: int|
                    if start <= k < start + i {
                        orig[2 * start + size - 1 - k]
                    } else {
                        orig[k]
                    },
            ),
        decreases size - i,
    {
        data.set(start + i, value[size - 1 - i]);
        i = i + 1;
    }
    assert(data@ =~= reverse_range(orig, start as int, size as int));
}

/// Reverses the bytes of every value wider than one byte, point by point and
/// field by field, turning big-endian values into little-endian ones.
fn convert_to_little_endian(data: &mut Vec<u8>, frame: &PointCloudFrame)
    requires
        frame.width * frame.height <= usize::MAX,
        old(data)@.len() >= frame.width * frame.height * frame.point_step,
        frame.width * frame.height > 0 ==> forall|i: int|
            0 <= i < frame.fields@.len() && frame.fields@[i].data_type.spec_size() > 1
                && frame.fields@[i].count > 0 ==> field_end(#[trigger] frame.fields@[i])
                <= frame.point_step,
    ensures
        final(data)@.len() == old(data)@.len(),
        final(data)@ == swap_points(
            old(data)@,
            frame.point_step as int,
            frame.fields@,
            (frame.width * frame.height) as nat,
        ),
{
    let ghost orig = data@;
    let ghost fs = frame.fields@;
    let ghost ps = frame.point_step as int;
    let point_count = frame.width as usize * frame.height as usize;
    let point_step = frame.point_step as usize;
    let ghost n = point_count as int;
    let mut point_index: usize = 0;
    while point_index < point_count
        invariant
            point_count == frame.width * frame.height,
            point_step == ps,
            fs == frame.fields@,
            n == point_count,
            orig.len() >= n * ps,
            point_index <= point_count,
            n > 0 ==> forall|i: int|
                0 <= i < fs.len() && fs[i].data_type.spec_size() > 1 && fs[i].count > 0
                    ==> field_end(#[trigger] fs[i]) <= ps,
            data@ == swap_points(orig, ps, fs, point_index as nat),
            data.len() == orig.len(),
        decreases point_count - point_index,
    {
        assert((point_index + 1) * ps <= n * ps) by (nonlinear_arith)
            requires
                point_index + 1 <= n,
                ps >= 0,
        ;
        assert(point_index * ps + ps == (point_index + 1) * ps) by (nonlinear_arith);
        let point_start = point_index * point_step;
        let ghost at_point = data@;
        let mut field_index: usize = 0;
        while field_index < frame.fields.len()
            invariant
                point_step == ps,
                fs == frame.fields@,
                n > 0,
                point_start + ps <= orig.len(),
                point_start == point_index * ps,
                forall|i: int|
                    0 <= i < fs.len() && fs[i].data_type.spec_size() > 1 && fs[i].count > 0
                        ==> field_end(#[trigger] fs[i]) <= ps,
                field_index <= fs.len(),
                data@ == swap_fields(at_point, point_start as int, fs.take(field_index as int)),
                data.len() == orig.len(),
            decreases fs.len() - field_index,
        {
            let field = &frame.fields[field_index];
            let value_size = field.data_type.size_bytes();
            let ghost before = data@;
            assert(fs.take(field_index + 1).drop_last() =~= fs.take(field_index as int));
            assert(fs.take(field_index + 1).last() == fs[field_index as int]);
            if value_size != 1 {
                let count = field.count as usize;
                let mut value_index: usize = 0;
                while value_index < count
                    invariant
                        *field == fs[field_index as int],
                        value_size == field.data_type.spec_size(),
                        value_size > 1,
                        count == field.count,
                        point_start + ps <= orig.len(),
                        count > 0 ==> field_end(*field) <= ps,
                        value_index <= count,
                        data@ == swap_values(before, point_start as int, *field, value_index as nat),
                        data.len() == orig.len(),
                        field_index < fs.len(),
                    decreases count - value_index,
                {
                    assert(value_index * value_size + value_size <= count * value_size)
                        by (nonlinear_arith)
                        requires
                            value_index + 1 <= count,
                            value_size >= 0,
                    ;
                    let value_start = point_start + field.offset as usize + value_index * value_size;
                    reverse_bytes(data, value_start, value_size);
                    value_index = value_index + 1;
                }
            }
            field_index = field_index + 1;
        }
        assert(fs.take(fs.len() as int) =~= fs);
        point_index = point_index + 1;
    }
}

/// Whether [`pack_point_data`] can pack `frame`, as [`can_pack`] says.
pub fn frame_can_be_packed(frame: &PointCloudFrame) -> (ok: bool)
    ensures
        ok == can_pack(*frame),
{
    let w = frame.width as u128;
    let h = frame.height as u128;
    let ps = frame.point_step as u128;
    let rs = frame.row_step as u128;
    assert(w * ps <= 0xffff_ffff * 0xffff_ffff) by (nonlinear_arith)
        requires
            w <= 0xffff_ffff,
            ps <= 0xffff_ffff,
    ;
    assert(w * ps * h <= 0xffff_ffff * 0xffff_ffff * 0xffff_ffff) by (nonlinear_arith)
        requires
            w * ps <= 0xffff_ffff * 0xffff_ffff,
            h <= 0xffff_ffff,
    ;
    assert(w * h <= 0xffff_ffff * 0xffff_ffff) by (nonlinear_arith)
        requires
            w <= 0xffff_ffff,
            h <= 0xffff_ffff,
    ;
    let row_size = w * ps;
    if row_size * h > usize::MAX as u128 || w * h > usize::MAX as u128 {
        return false;
    }
    if h > 0 {
        assert((h - 1) * rs <= 0xffff_ffff * 0xffff_ffff) by (nonlinear_arith)
            requires
                h - 1 <= 0xffff_ffff,
                rs <= 0xffff_ffff,
        ;
        if (h - 1) * rs + row_size > frame.data.len() as u128 {
            return false;
        }
    }
    if frame.endianness == Endianness::Big && w * h > 0 {
        let mut i: usize = 0;
        while i < frame.fields.len()
            invariant
                i <= frame.fields@.len(),
                frame.endianness == Endianness::Big,
                frame.width * frame.height > 0,
                forall|j: int|
                    0 <= j < i && frame.fields@[j].data_type.spec_size() > 1 && frame.fields@[j].count
                        > 0 ==> field_end(#[trigger] frame.fields@[j]) <= frame.point_step,
            decreases frame.fields.len() - i,
        {
            let f = &frame.fields[i];
            if f.data_type.size_bytes() > 1 && f.count > 0 && f.end_offset() > frame.point_step as u64 {
                assert(field_end(frame.fields@[i as int]) > frame.point_step);
                return false;
            }
            i = i + 1;
        }
    }
    true
}

/// Copies the points of `frame` into one buffer without the row padding,
/// converting big-endian values to little-endian.
pub fn pack_point_data(frame: &PointCloudFrame) -> (packed: Vec<u8>)
    requires
        can_pack(*frame),
    ensures
        packed@ == packed_point_data(*frame),
        packed@.len() == frame.width * frame.height * frame.point_step,
{
    let ghost rs = frame.width * frame.point_step;
    let ghost step = frame.row_step as int;
    assert(frame.width * frame.point_step * frame.height == frame.width * frame.height
        * frame.point_step) by (nonlinear_arith);
    assert(frame.width * frame.point_step <= frame.width * frame.point_step * frame.height
        || frame.height == 0) by (nonlinear_arith);
    let point_step = frame.point_step as usize;
    let row_step = frame.row_step as usize;
    let width = frame.width as usize;
    let height = frame.height as usize;
    let row_data_size = if height == 0 {
        0
    } else {
        width * point_step
    };
    assert(height > 0 ==> row_data_size == rs);
    let data_len = frame.data.len();
    let mut data: Vec<u8> = Vec::new();
    let mut row: usize = 0;
    while row < height
        invariant
            data_len == frame.data@.len(),
            height == frame.height,
            row_step == step,
            height > 0 ==> row_data_size == rs,
            rs >= 0,
            step >= 0,
            height > 0 ==> (height - 1) * step + rs <= frame.data@.len(),
            row <= height,
            data@ == packed_rows(frame.data@, step, rs, row as nat),
        decreases height - row,
    {
        assert(row * step <= (height - 1) * step) by (nonlinear_arith)
            requires
                row <= height - 1,
                step >= 0,
        ;
        let row_start = row * row_step;
        let ghost prefix = data@;
        let mut k: usize = 0;
        while k < row_data_size
            invariant
                data_len == frame.data@.len(),
                row_data_size == rs,
                row_start + rs <= frame.data@.len(),
                k <= row_data_size,
                data@ == prefix + frame.data@.subrange(row_start as int, row_start + k),
            decreases row_data_size - k,
        {
            data.push(frame.data[row_start + k]);
            assert(frame.data@.subrange(row_start as int, row_start + k + 1) =~= frame.data@.subrange(
                row_start as int,
                row_start + k,
            ).push(frame.data@[row_start + k]));
            k = k + 1;
        }
        row = row + 1;
    }
    proof {
        lemma_packed_rows_len(frame.data@, step, rs, frame.height as nat);
        assert(frame.height * rs == frame.width * frame.height * frame.point_step)
            by (nonlinear_arith)
            requires
                rs == frame.width * frame.point_step,
        ;
    }
    if frame.endianness == Endianness::Big {
        convert_to_little_endian(&mut data, frame);
    }
    data
}

/// Every frame that validates can be packed, as long as its points fit in
/// memory.
pub proof fn lemma_valid_frame_can_pack(frame: PointCloudFrame)
    requires
        frame_is_valid(frame),
        frame.width * frame.point_step * frame.height <= usize::MAX,
    ensures
        can_pack(frame),
{
    lemma_valid_frame_layout(frame);
    let w = frame.width as int;
    let h = frame.height as int;
    let ps = frame.point_step as int;
    let rs = frame.row_step as int;
    assert(has_float_coordinate(frame.fields@, 0));
    let i = choose|i: int|
        0 <= i < frame.fields@.len() && #[trigger] super::frame::coordinate_axis(
            frame.fields@[i].name@,
        ) == Some(0int) && frame.fields@[i].data_type == super::datatype::PointFieldDataType::Float32
            && frame.fields@[i].count == 1;
    assert(field_end(frame.fields@[i]) <= ps);
    assert(ps >= 1);
    assert(w * h <= w * ps * h) by (nonlinear_arith)
        requires
            w >= 0,
            h >= 0,
            ps >= 1,
    ;
    assert((h - 1) * rs + w * ps <= rs * h) by (nonlinear_arith)
        requires
            h >= 1,
            w * ps <= rs,
    ;
}

proof fn lemma_unpadded_rows(data: Seq<u8>, row_size: int, rows: nat)
    requires
        row_size >= 0,
        rows * row_size <= data.len(),
    ensures
        packed_rows(data, row_size, row_size, rows) == data.subrange(0, rows * row_size),
    decreases rows,
{
    if rows == 0 {
        assert(rows * row_size == 0) by (nonlinear_arith)
            requires
                rows == 0,
        ;
        assert(data.subrange(0, 0) =~= Seq::<u8>::empty());
    } else {
        assert((rows - 1) * row_size + row_size == rows * row_size) by (nonlinear_arith);
        assert((rows - 1) * row_size >= 0) by (nonlinear_arith)
            requires
                rows >= 1,
                row_size >= 0,
        ;
        lemma_unpadded_rows(data, row_size, (rows - 1) as nat);
        assert(data.subrange(0, (rows - 1) * row_size) + data.subrange(
            (rows - 1) * row_size,
            rows * row_size,
        ) =~= data.subrange(0, rows * row_size));
    }
}

/// Packing a little-endian frame whose rows have no padding gives back its
/// data unchanged.
pub proof fn lemma_pack_unpadded_little_endian(frame: PointCloudFrame)
    requires
        frame.endianness == Endianness::Little,
        frame.row_step == frame.width * frame.point_step,
        frame.data@.len() == frame.row_step * frame.height,
    ensures
        packed_point_data(frame) == frame.data@,
{
    let rs = frame.row_step as int;
    assert(frame.height * rs == rs * frame.height) by (nonlinear_arith);
    lemma_unpadded_rows(frame.data@, rs, frame.height as nat);
    assert(frame.data@.subrange(0, frame.height * rs) =~= frame.data@);
}

/// Byte `b` of value `v` of field `f`, in the point that starts at `base`.
pub open spec fn value_byte(base: int, f: PointField, v: int, b: int) -> int {
    base + f.offset + v * f.data_type.spec_size() + b
}

/// The byte that [`value_byte`] `b` takes its place from when the value is
/// reversed: byte `size - 1 - b` of the same value.
pub open spec fn mirror_byte(base: int, f: PointField, v: int, b: int) -> int {
    base + f.offset + v * f.data_type.spec_size() + f.data_type.spec_size() - 1 - b
}

/// Byte `k` lies in the values of field `f`, in the point that starts at
/// `base`, and those values are wider than one byte.
pub open spec fn in_wide_field(f: PointField, base: int, k: int) -> bool {
    &&& f.data_type.spec_size() > 1
    &&& base + f.offset <= k < base + field_end(f)
}

/// Byte `k` lies in a value wider than one byte of one of `fields`, in the
/// point that starts at `base`.
pub open spec fn in_wide_value(fields: Seq<PointField>, base: int, k: int) -> bool {
    exists|i: int| 0 <= i < fields.len() && #[trigger] in_wide_field(fields[i], base, k)
}

/// Fields that lie inside a point of `point_step` bytes and do not overlap.
pub open spec fn disjoint_fields(fields: Seq<PointField>, point_step: int) -> bool {
    &&& forall|i: int| 0 <= i < fields.len() ==> field_end(#[trigger] fields[i]) <= point_step
    &&& forall|i: int, j: int|
        0 <= i < j < fields.len() ==> field_end(#[trigger] fields[i]) <= fields[j].offset
            || field_end(#[trigger] fields[j]) <= fields[i].offset
}

proof fn lemma_value_span(v: int, b: int, size: int, count: int)
    requires
        0 <= v < count,
        0 <= b < size,
    ensures
        0 <= v * size,
        v * size + size <= count * size,
{
    assert(0 <= v * size) by (nonlinear_arith)
        requires
            0 <= v,
            0 <= size,
    ;
    assert(v * size + size <= count * size) by (nonlinear_arith)
        requires
            v + 1 <= count,
            0 <= size,
    ;
}

proof fn lemma_swap_values_bytes(s: Seq<u8>, base: int, f: PointField, n: nat)
    requires
        0 <= base,
        base + f.offset + n * f.data_type.spec_size() <= s.len(),
    ensures
        swap_values(s, base, f, n).len() == s.len(),
        forall|v: int, b: int|
            0 <= v < n && 0 <= b < f.data_type.spec_size() ==> swap_values(s, base, f, n)[
                #[trigger] value_byte(base, f, v, b)] == s[mirror_byte(base, f, v, b)],
        forall|k: int|
            0 <= k < s.len() && !(base + f.offset <= k < base + f.offset + n * f.data_type.spec_size())
                ==> #[trigger] swap_values(s, base, f, n)[k] == s[k],
    decreases n,
{
    let size = f.data_type.spec_size() as int;
    if n == 0 {
        assert(n * size == 0) by (nonlinear_arith)
            requires
                n == 0,
        ;
    } else {
        let m = (n - 1) as nat;
        assert(m * size + size == n * size) by (nonlinear_arith)
            requires
                m + 1 == n,
        ;
        assert(0 <= m * size) by (nonlinear_arith)
            requires
                0 <= m,
                0 <= size,
        ;
        lemma_swap_values_bytes(s, base, f, m);
        let t = swap_values(s, base, f, m);
        let start = base + f.offset + m * size;
        assert forall|v: int, b: int| 0 <= v < n && 0 <= b < size implies swap_values(s, base, f, n)[
            #[trigger] value_byte(base, f, v, b)] == s[mirror_byte(base, f, v, b)] by {
            lemma_value_span(v, b, size, n as int);
            if v == m {
            } else {
                lemma_value_span(v, b, size, m as int);
                assert(swap_values(s, base, f, n)[value_byte(base, f, v, b)] == t[value_byte(
                    base,
                    f,
                    v,
                    b,
                )]);
            }
        }
        assert forall|k: int|
            0 <= k < s.len() && !(base + f.offset <= k < base + f.offset + n * size) implies #[trigger] swap_values(
            s,
            base,
            f,
            n,
        )[k] == s[k] by {
            assert(swap_values(s, base, f, n)[k] == t[k]);
        }
    }
}

proof fn lemma_swap_fields_bytes(s: Seq<u8>, base: int, fields: Seq<PointField>, point_step: int)
    requires
        0 <= base,
        base + point_step <= s.len(),
        disjoint_fields(fields, point_step),
    ensures
        swap_fields(s, base, fields).len() == s.len(),
        forall|i: int, v: int, b: int|
            0 <= i < fields.len() && fields[i].data_type.spec_size() > 1 && 0 <= v < fields[i].count
                && 0 <= b < fields[i].data_type.spec_size() ==> swap_fields(s, base, fields)[
                #[trigger] value_byte(base, fields[i], v, b)] == s[mirror_byte(
                base,
                fields[i],
                v,
                b,
            )],
        forall|k: int|
            0 <= k < s.len() && !in_wide_value(fields, base, k) ==> #[trigger] swap_fields(
                s,
                base,
                fields,
            )[k] == s[k],
    decreases fields.len(),
{
    if fields.len() > 0 {
        let prefix = fields.drop_last();
        let last = fields.last();
        let li = fields.len() - 1;
        assert(disjoint_fields(prefix, point_step)) by {
            assert forall|i: int, j: int| 0 <= i < j < prefix.len() implies field_end(
                #[trigger] prefix[i],
            ) <= prefix[j].offset || field_end(#[trigger] prefix[j]) <= prefix[i].offset by {
                assert(prefix[i] == fields[i] && prefix[j] == fields[j]);
            }
            assert forall|i: int| 0 <= i < prefix.len() implies field_end(#[trigger] prefix[i])
                <= point_step by {
                assert(prefix[i] == fields[i]);
            }
        }
        lemma_swap_fields_bytes(s, base, prefix, point_step);
        let t = swap_fields(s, base, prefix);
        let size = last.data_type.spec_size() as int;
        assert(field_end(fields[li]) <= point_step);
        if size > 1 {
            assert(last.count * size >= 0) by (nonlinear_arith)
                requires
                    size >= 0,
            ;
            lemma_swap_values_bytes(t, base, last, last.count as nat);
        }
        let r = swap_fields(s, base, fields);
        assert(r == swap_field(t, base, last));
        assert forall|i: int, v: int, b: int|
            0 <= i < fields.len() && fields[i].data_type.spec_size() > 1 && 0 <= v < fields[i].count
                && 0 <= b < fields[i].data_type.spec_size() implies r[#[trigger] value_byte(
            base,
            fields[i],
            v,
            b,
        )] == s[mirror_byte(base, fields[i], v, b)] by {
            let f = fields[i];
            let fsize = f.data_type.spec_size() as int;
            lemma_value_span(v, b, fsize, f.count as int);
            assert(field_end(f) == f.offset + f.count * fsize);
            if i == li {
                let mb = mirror_byte(base, f, v, b);
                assert(!in_wide_value(prefix, base, mb)) by {
                    if in_wide_value(prefix, base, mb) {
                        let j = choose|j: int|
                            0 <= j < prefix.len() && #[trigger] in_wide_field(prefix[j], base, mb);
                        assert(prefix[j] == fields[j]);
                    }
                }
                assert(t[mb] == s[mb]);
            } else {
                assert(prefix[i] == f);
                let vb = value_byte(base, f, v, b);
                assert(r[vb] == t[vb]);
            }
        }
        assert forall|k: int| 0 <= k < s.len() && !in_wide_value(fields, base, k) implies #[trigger] r[k]
            == s[k] by {
            assert(!in_wide_field(fields[li], base, k));
            assert(!in_wide_value(prefix, base, k)) by {
                if in_wide_value(prefix, base, k) {
                    let j = choose|j: int|
                        0 <= j < prefix.len() && #[trigger] in_wide_field(prefix[j], base, k);
                    assert(prefix[j] == fields[j]);
                    assert(in_wide_field(fields[j], base, k));
                }
            }
            if size > 1 {
                assert(field_end(last) == last.offset + last.count * size);
                assert(r[k] == t[k]);
            }
        }
    }
}

/// Byte `b` of value `v` of field `f` in point `p`, points being
/// `point_step` bytes apart.
pub open spec fn point_value_byte(point_step: int, p: int, f: PointField, v: int, b: int) -> int {
    value_byte(p * point_step, f, v, b)
}

/// Byte `k` of point `p`, points being `point_step` bytes apart.
pub open spec fn point_byte(point_step: int, p: int, k: int) -> int {
    p * point_step + k
}

proof fn lemma_swap_points_bytes(s: Seq<u8>, point_step: int, fields: Seq<PointField>, n: nat)
    requires
        0 <= point_step,
        n * point_step <= s.len(),
        disjoint_fields(fields, point_step),
    ensures
        swap_points(s, point_step, fields, n).len() == s.len(),
        forall|p: int, i: int, v: int, b: int|
            0 <= p < n && 0 <= i < fields.len() && fields[i].data_type.spec_size() > 1 && 0 <= v
                < fields[i].count && 0 <= b < fields[i].data_type.spec_size() ==> swap_points(
                s,
                point_step,
                fields,
                n,
            )[#[trigger] point_value_byte(point_step, p, fields[i], v, b)] == s[mirror_byte(
                p * point_step,
                fields[i],
                v,
                b,
            )],
        forall|p: int, k: int|
            0 <= p < n && 0 <= k < point_step && !in_wide_value(fields, 0, k) ==> swap_points(
                s,
                point_step,
                fields,
                n,
            )[#[trigger] point_byte(point_step, p, k)] == s[point_byte(point_step, p, k)],
        forall|k: int|
            n * point_step <= k < s.len() ==> #[trigger] swap_points(s, point_step, fields, n)[k]
                == s[k],
    decreases n,
{
    if n == 0 {
        assert(n * point_step == 0) by (nonlinear_arith)
            requires
                n == 0,
        ;
    } else {
        let m = (n - 1) as nat;
        let base = m * point_step;
        assert(base + point_step == n * point_step) by (nonlinear_arith)
            requires
                m + 1 == n,
                base == m * point_step,
        ;
        assert(0 <= base) by (nonlinear_arith)
            requires
                0 <= m,
                0 <= point_step,
                base == m * point_step,
        ;
        lemma_swap_points_bytes(s, point_step, fields, m);
        let t = swap_points(s, point_step, fields, m);
        lemma_swap_fields_bytes(t, base, fields, point_step);
        let r = swap_points(s, point_step, fields, n);
        assert(r == swap_fields(t, base, fields));
        assert forall|p: int, i: int, v: int, b: int|
            0 <= p < n && 0 <= i < fields.len() && fields[i].data_type.spec_size() > 1 && 0 <= v
                < fields[i].count && 0 <= b < fields[i].data_type.spec_size() implies r[
            #[trigger] point_value_byte(point_step, p, fields[i], v, b)] == s[mirror_byte(
            p * point_step,
            fields[i],
            v,
            b,
        )] by {
            let f = fields[i];
            let fsize = f.data_type.spec_size() as int;
            lemma_value_span(v, b, fsize, f.count as int);
            assert(field_end(f) <= point_step);
            if p == m {
                let mb = mirror_byte(base, f, v, b);
                assert(t[mb] == s[mb]);
                assert(r[value_byte(base, f, v, b)] == t[mb]);
            } else {
                assert(p * point_step + point_step <= base) by (nonlinear_arith)
                    requires
                        p + 1 <= m,
                        base == m * point_step,
                        0 <= point_step,
                ;
                assert(0 <= p * point_step) by (nonlinear_arith)
                    requires
                        0 <= p,
                        0 <= point_step,
                ;
                let vb = point_value_byte(point_step, p, f, v, b);
                assert(!in_wide_value(fields, base, vb));
                assert(r[vb] == t[vb]);
            }
        }
        assert forall|p: int, k: int|
            0 <= p < n && 0 <= k < point_step && !in_wide_value(fields, 0, k) implies r[
            #[trigger] point_byte(point_step, p, k)] == s[point_byte(point_step, p, k)] by {
            let pb = point_byte(point_step, p, k);
            if p == m {
                assert(!in_wide_value(fields, base, pb)) by {
                    if in_wide_value(fields, base, pb) {
                        let j = choose|j: int|
                            0 <= j < fields.len() && #[trigger] in_wide_field(fields[j], base, pb);
                        assert(in_wide_field(fields[j], 0, k));
                    }
                }
                assert(t[pb] == s[pb]);
            } else {
                assert(p * point_step + point_step <= base) by (nonlinear_arith)
                    requires
                        p + 1 <= m,
                        base == m * point_step,
                        0 <= point_step,
                ;
                assert(0 <= p * point_step) by (nonlinear_arith)
                    requires
                        0 <= p,
                        0 <= point_step,
                ;
                assert(!in_wide_value(fields, base, pb));
                assert(r[pb] == t[pb]);
            }
        }
        assert forall|k: int| n * point_step <= k < s.len() implies #[trigger] r[k] == s[k] by {
            assert(!in_wide_value(fields, base, k));
            assert(r[k] == t[k]);
        }
    }
}

/// Packing a big-endian frame that validates reverses the bytes of every
/// value wider than one byte, in every point, and keeps every other byte of
/// the rows as it is.
pub proof fn lemma_pack_big_endian_bytes(frame: PointCloudFrame)
    requires
        frame_is_valid(frame),
        frame.endianness == Endianness::Big,
    ensures
        ({
            let rows = packed_rows(
                frame.data@,
                frame.row_step as int,
                frame.width * frame.point_step,
                frame.height as nat,
            );
            let packed = packed_point_data(frame);
            let ps = frame.point_step as int;
            let fields = frame.fields@;
            &&& packed.len() == rows.len()
            &&& forall|p: int, i: int, v: int, b: int|
                0 <= p < frame.width * frame.height && 0 <= i < fields.len()
                    && fields[i].data_type.spec_size() > 1 && 0 <= v < fields[i].count && 0 <= b
                    < fields[i].data_type.spec_size() ==> packed[#[trigger] point_value_byte(
                    ps,
                    p,
                    fields[i],
                    v,
                    b,
                )] == rows[mirror_byte(p * ps, fields[i], v, b)]
            &&& forall|p: int, k: int|
                0 <= p < frame.width * frame.height && 0 <= k < ps && !in_wide_value(fields, 0, k)
                    ==> packed[#[trigger] point_byte(ps, p, k)] == rows[point_byte(ps, p, k)]
        }),
{
    lemma_valid_frame_layout(frame);
    let rs = frame.width * frame.point_step;
    let ps = frame.point_step as int;
    let n = (frame.width * frame.height) as nat;
    assert((frame.height - 1) * frame.row_step + rs <= frame.data@.len()) by (nonlinear_arith)
        requires
            frame.height >= 1,
            rs <= frame.row_step,
            frame.data@.len() == frame.row_step * frame.height,
    ;
    lemma_packed_rows_len(frame.data@, frame.row_step as int, rs, frame.height as nat);
    let rows = packed_rows(frame.data@, frame.row_step as int, rs, frame.height as nat);
    assert(n * ps == frame.height * rs) by (nonlinear_arith)
        requires
            n == frame.width * frame.height,
            rs == frame.width * ps,
    ;
    assert(disjoint_fields(frame.fields@, ps));
    lemma_swap_points_bytes(rows, ps, frame.fields@, n);
}

/// Splits `x` into `d * q + r` with `0 <= r < d`.
proof fn lemma_split(x: int, d: int) -> (qr: (int, int))
    requires
        0 <= x,
        0 < d,
    ensures
        x == qr.0 * d + qr.1,
        0 <= qr.0,
        0 <= qr.1 < d,
{
    vstd::arithmetic::div_mod::lemma_fundamental_div_mod(x, d);
    vstd::arithmetic::div_mod::lemma_mod_pos_bound(x, d);
    let q = x / d;
    let r = x % d;
    assert(q * d == d * q) by (nonlinear_arith);
    assert(0 <= q) by (nonlinear_arith)
        requires
            x == d * q + r,
            0 <= x,
            0 < d,
            r < d,
    ;
    (q, r)
}

/// Reversing the values of every point twice gives the bytes back: the
/// big-endian conversion undoes itself, for fields that lie inside their
/// point and do not overlap.
pub proof fn lemma_swap_points_involution(
    s: Seq<u8>,
    point_step: int,
    fields: Seq<PointField>,
    n: nat,
)
    requires
        0 <= point_step,
        n * point_step <= s.len(),
        disjoint_fields(fields, point_step),
    ensures
        swap_points(swap_points(s, point_step, fields, n), point_step, fields, n) == s,
{
    let r1 = swap_points(s, point_step, fields, n);
    lemma_swap_points_bytes(s, point_step, fields, n);
    lemma_swap_points_bytes(r1, point_step, fields, n);
    let r2 = swap_points(r1, point_step, fields, n);
    assert forall|k: int| 0 <= k < s.len() implies r2[k] == s[k] by {
        if k >= n * point_step {
            assert(r2[k] == r1[k]);
        } else {
            assert(point_step > 0) by (nonlinear_arith)
                requires
                    0 <= k < n * point_step,
                    0 <= point_step,
            ;
            let (p, kk) = lemma_split(k, point_step);
            assert(p < n) by (nonlinear_arith)
                requires
                    k == p * point_step + kk,
                    0 <= kk,
                    k < n * point_step,
                    0 < point_step,
            ;
            assert(point_byte(point_step, p, kk) == k);
            if !in_wide_value(fields, 0, kk) {
                assert(r2[point_byte(point_step, p, kk)] == r1[point_byte(point_step, p, kk)]);
                assert(r1[point_byte(point_step, p, kk)] == s[point_byte(point_step, p, kk)]);
            } else {
                let i = choose|i: int| 0 <= i < fields.len() && #[trigger] in_wide_field(fields[i], 0, kk);
                let f = fields[i];
                let size = f.data_type.spec_size() as int;
                let (v, b) = lemma_split(kk - f.offset, size);
                assert(v < f.count) by (nonlinear_arith)
                    requires
                        kk - f.offset == v * size + b,
                        0 <= b,
                        kk < f.offset + f.count * size,
                        0 < size,
                ;
                let b2 = size - 1 - b;
                assert(point_value_byte(point_step, p, f, v, b) == k);
                assert(mirror_byte(p * point_step, f, v, b) == point_value_byte(point_step, p, f, v, b2));
                assert(mirror_byte(p * point_step, f, v, b2) == k);
                assert(r2[point_value_byte(point_step, p, f, v, b)] == r1[mirror_byte(
                    p * point_step,
                    f,
                    v,
                    b,
                )]);
                assert(r1[point_value_byte(point_step, p, f, v, b2)] == s[mirror_byte(
                    p * point_step,
                    f,
                    v,
                    b2,
                )]);
            }
        }
    }
    assert(r2 =~= s);
}

} // verus!

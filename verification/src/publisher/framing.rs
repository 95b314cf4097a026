use vstd::prelude::*;

verus! {

/// The four bytes of `v`, least significant first.
pub open spec fn le_bytes_u32(v: u32) -> Seq<u8> {
    seq![
        (v % 0x100) as u8,
        (v / 0x100 % 0x100) as u8,
        (v / 0x1_0000 % 0x100) as u8,
        (v / 0x100_0000 % 0x100) as u8,
    ]
}

/// The eight bytes of `v`, least significant first.
pub open spec fn le_bytes_u64(v: u64) -> Seq<u8> {
    seq![
        (v % 0x100) as u8,
        (v / 0x100 % 0x100) as u8,
        (v / 0x1_0000 % 0x100) as u8,
        (v / 0x100_0000 % 0x100) as u8,
        (v / 0x1_0000_0000 % 0x100) as u8,
        (v / 0x100_0000_0000 % 0x100) as u8,
        (v / 0x1_0000_0000_0000 % 0x100) as u8,
        (v / 0x100_0000_0000_0000 % 0x100) as u8,
    ]
}

/// The number that `bytes` encode, least significant byte first.
pub open spec fn le_value(bytes: Seq<u8>) -> int
    decreases bytes.len(),
{
    if bytes.len() == 0 {
        0
    } else {
        bytes[0] + 0x100 * le_value(bytes.drop_first())
    }
}

/// A binary point cloud message: the opcode, the subscription identifier
/// (4 bytes, little-endian), the time stamp in nanoseconds (8 bytes,
/// little-endian), then the payload.
pub open spec fn framed_message(opcode: u8, subscription_id: u32, timestamp_ns: u64, payload: Seq<
    u8,
>) -> Seq<u8> {
    seq![opcode] + le_bytes_u32(subscription_id) + le_bytes_u64(timestamp_ns) + payload
}

/// Appends the four bytes of `v`, least significant first.
pub fn push_u32_le(out: &mut Vec<u8>, v: u32)
    ensures
        final(out)@ == old(out)@ + le_bytes_u32(v),
{
    out.push((v % 0x100) as u8);
    out.push((v / 0x100 % 0x100) as u8);
    out.push((v / 0x1_0000 % 0x100) as u8);
    out.push((v / 0x100_0000 % 0x100) as u8);
    assert(out@ =~= old(out)@ + le_bytes_u32(v));
}

/// Appends the eight bytes of `v`, least significant first.
pub fn push_u64_le(out: &mut Vec<u8>, v: u64)
    ensures
        final(out)@ == old(out)@ + le_bytes_u64(v),
{
    out.push((v % 0x100) as u8);
    out.push((v / 0x100 % 0x100) as u8);
    out.push((v / 0x1_0000 % 0x100) as u8);
    out.push((v / 0x100_0000 % 0x100) as u8);
    out.push((v / 0x1_0000_0000 % 0x100) as u8);
    out.push((v / 0x100_0000_0000 % 0x100) as u8);
    out.push((v / 0x1_0000_0000_0000 % 0x100) as u8);
    out.push((v / 0x100_0000_0000_0000 % 0x100) as u8);
    assert(out@ =~= old(out)@ + le_bytes_u64(v));
}

/// Appends `bytes`.
pub fn push_bytes(out: &mut Vec<u8>, bytes: &[u8])
    ensures
        final(out)@ == old(out)@ + bytes@,
{
    let ghost start = out@;
    let mut i: usize = 0;
    while i < bytes.len()
        invariant
            i <= bytes@.len(),
            out@ == start + bytes@.subrange(0, i as int),
        decreases bytes.len() - i,
    {
        out.push(bytes[i]);
        assert(bytes@.subrange(0, i + 1) =~= bytes@.subrange(0, i as int).push(bytes@[i as int]));
        i = i + 1;
    }
    assert(bytes@.subrange(0, bytes@.len() as int) =~= bytes@);
}

/// Builds the binary message with this opcode, subscription, time stamp and
/// payload.
pub fn frame_message(opcode: u8, subscription_id: u32, timestamp_ns: u64, payload: &[u8]) -> (message:
    Vec<u8>)
    ensures
        message@ == framed_message(opcode, subscription_id, timestamp_ns, payload@),
{
    let mut message: Vec<u8> = Vec::new();
    message.push(opcode);
    push_u32_le(&mut message, subscription_id);
    push_u64_le(&mut message, timestamp_ns);
    push_bytes(&mut message, payload);
    assert(message@ =~= framed_message(opcode, subscription_id, timestamp_ns, payload@));
    message
}

/// Reading a message back gives what went into it: the opcode at byte 0, the
/// subscription identifier in bytes 1 to 4, the time stamp in bytes 5 to 12,
/// and the payload after them.
pub proof fn lemma_framed_message_fields(
    opcode: u8,
    subscription_id: u32,
    timestamp_ns: u64,
    payload: Seq<u8>,
)
    ensures
        ({
            let m = framed_message(opcode, subscription_id, timestamp_ns, payload);
            &&& m.len() == 13 + payload.len()
            &&& m[0] == opcode
            &&& le_value(m.subrange(1, 5)) == subscription_id
            &&& le_value(m.subrange(5, 13)) == timestamp_ns
            &&& m.subrange(13, m.len() as int) == payload
        }),
{
    let m = framed_message(opcode, subscription_id, timestamp_ns, payload);
    let a = m.subrange(1, 5);
    let b = m.subrange(5, 13);
    assert(a =~= le_bytes_u32(subscription_id));
    assert(b =~= le_bytes_u64(timestamp_ns));
    assert(m.subrange(13, m.len() as int) =~= payload);
    lemma_le_bytes_u32_value(subscription_id);
    lemma_le_bytes_u64_value(timestamp_ns);
}

/// The four bytes of `v` encode `v`.
pub proof fn lemma_le_bytes_u32_value(v: u32)
    ensures
        le_value(le_bytes_u32(v)) == v,
{
    let s = le_bytes_u32(v);
    reveal_with_fuel(le_value, 5);
    assert(s.drop_first() =~= seq![s[1], s[2], s[3]]);
    assert(s.drop_first().drop_first() =~= seq![s[2], s[3]]);
    assert(s.drop_first().drop_first().drop_first() =~= seq![s[3]]);
    assert(s.drop_first().drop_first().drop_first().drop_first() =~= Seq::<u8>::empty());
    assert(v == v % 0x100 + 0x100 * (v / 0x100 % 0x100 + 0x100 * (v / 0x1_0000 % 0x100 + 0x100 * (v
        / 0x100_0000 % 0x100)))) by (bit_vector);
}

/// The eight bytes of `v` encode `v`.
pub proof fn lemma_le_bytes_u64_value(v: u64)
    ensures
        le_value(le_bytes_u64(v)) == v,
{
    let s = le_bytes_u64(v);
    reveal_with_fuel(le_value, 9);
    let t1 = s.drop_first();
    let t2 = t1.drop_first();
    let t3 = t2.drop_first();
    let t4 = t3.drop_first();
    let t5 = t4.drop_first();
    let t6 = t5.drop_first();
    let t7 = t6.drop_first();
    let t8 = t7.drop_first();
    assert(t1 =~= seq![s[1], s[2], s[3], s[4], s[5], s[6], s[7]]);
    assert(t2 =~= seq![s[2], s[3], s[4], s[5], s[6], s[7]]);
    assert(t3 =~= seq![s[3], s[4], s[5], s[6], s[7]]);
    assert(t4 =~= seq![s[4], s[5], s[6], s[7]]);
    assert(t5 =~= seq![s[5], s[6], s[7]]);
    assert(t6 =~= seq![s[6], s[7]]);
    assert(t7 =~= seq![s[7]]);
    assert(t8 =~= Seq::<u8>::empty());
    assert(v == v % 0x100 + 0x100 * (v / 0x100 % 0x100 + 0x100 * (v / 0x1_0000 % 0x100 + 0x100 * (v
        / 0x100_0000 % 0x100 + 0x100 * (v / 0x1_0000_0000 % 0x100 + 0x100 * (v / 0x100_0000_0000
        % 0x100 + 0x100 * (v / 0x1_0000_0000_0000 % 0x100 + 0x100 * (v / 0x100_0000_0000_0000
        % 0x100)))))))) by (bit_vector);
}

} // verus!

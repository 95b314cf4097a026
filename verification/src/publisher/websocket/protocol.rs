use vstd::prelude::*;
use vstd::string::*;

use crate::publisher::foxgloves::FOXGLOVE_SUBPROTOCOL;
use crate::publisher::pointcloud_wire::POINTCLOUD_WIRE_SUBPROTOCOL;

verus! {

/// A WebSocket subprotocol that the server speaks.
#[derive(Debug, Clone, Copy, PartialEq, Eq, Structural)]
pub enum Subprotocol {
    Foxglove,
    PointCloudWire,
}

impl Subprotocol {
    /// The name of the subprotocol in the `Sec-WebSocket-Protocol` header.
    pub open spec fn spec_name(self) -> &'static str {
        match self {
            Subprotocol::Foxglove => FOXGLOVE_SUBPROTOCOL,
            Subprotocol::PointCloudWire => POINTCLOUD_WIRE_SUBPROTOCOL,
        }
    }

    /// Returns the name of the subprotocol in the `Sec-WebSocket-Protocol`
    /// header.
    pub fn name(self) -> (name: &'static str)
        ensures
            name == self.spec_name(),
    {
        match self {
            Subprotocol::Foxglove => FOXGLOVE_SUBPROTOCOL,
            Subprotocol::PointCloudWire => POINTCLOUD_WIRE_SUBPROTOCOL,
        }
    }
}

/// An ASCII white-space byte: space, tab, line feed, vertical tab, form feed
/// or carriage return.
pub open spec fn is_space(b: u8) -> bool {
    b == 0x20 || (0x09 <= b <= 0x0d)
}

/// `t` without its leading white space.
pub open spec fn trim_start(t: Seq<u8>) -> Seq<u8>
    decreases t.len(),
{
    if t.len() > 0 && is_space(t[0]) {
        trim_start(t.drop_first())
    } else {
        t
    }
}

/// `t` without its trailing white space.
pub open spec fn trim_end(t: Seq<u8>) -> Seq<u8>
    decreases t.len(),
{
    if t.len() > 0 && is_space(t.last()) {
        trim_end(t.drop_last())
    } else {
        t
    }
}

/// `t` without its leading and trailing white space.
pub open spec fn trimmed(t: Seq<u8>) -> Seq<u8> {
    trim_end(trim_start(t))
}

/// Bytes `i` to `j` of `s` form one item of a comma-separated list: commas
/// (or the ends of `s`) on both sides and none inside.
pub open spec fn is_list_item(s: Seq<u8>, i: int, j: int) -> bool {
    &&& 0 <= i <= j <= s.len()
    &&& (i == 0 || s[i - 1] == 0x2c)
    &&& (j == s.len() || s[j] == 0x2c)
    &&& forall|k: int| i <= k < j ==> s[k] != 0x2c
}

/// The comma-separated list `s` has an item that, trimmed, is `name`.
pub open spec fn list_offers(s: Seq<u8>, name: Seq<u8>) -> bool {
    exists|i: int, j: int| is_list_item(s, i, j) && #[trigger] trimmed(s.subrange(i, j)) == name
}

/// The subprotocol the server chooses for a `Sec-WebSocket-Protocol` header
/// value: Foxglove when the client offers it, else PointCloud Wire when the
/// client offers it, else none.
pub open spec fn chosen_subprotocol(header: Seq<u8>) -> Option<Subprotocol> {
    if list_offers(header, FOXGLOVE_SUBPROTOCOL.spec_bytes()) {
        Some(Subprotocol::Foxglove)
    } else if list_offers(header, POINTCLOUD_WIRE_SUBPROTOCOL.spec_bytes()) {
        Some(Subprotocol::PointCloudWire)
    } else {
        None
    }
}

fn is_space_byte(b: u8) -> (r: bool)
    ensures
        r == is_space(b),
{
    b == 0x20 || (0x09 <= b && b <= 0x0d)
}

proof fn lemma_trim_start_step(s: Seq<u8>, a: int, end: int)
    requires
        0 <= a < end <= s.len(),
        is_space(s[a]),
    ensures
        trim_start(s.subrange(a, end)) == trim_start(s.subrange(a + 1, end)),
{
    assert(s.subrange(a, end).drop_first() =~= s.subrange(a + 1, end));
}

proof fn lemma_trim_end_step(s: Seq<u8>, a: int, e: int)
    requires
        0 <= a < e <= s.len(),
        is_space(s[e - 1]),
    ensures
        trim_end(s.subrange(a, e)) == trim_end(s.subrange(a, e - 1)),
{
    assert(s.subrange(a, e).drop_last() =~= s.subrange(a, e - 1));
}

/// Whether bytes `lo` to `hi` of `s` are exactly `name`.
fn range_equals(s: &[u8], lo: usize, hi: usize, name: &[u8]) -> (r: bool)
    requires
        lo <= hi <= s@.len(),
    ensures
        r == (s@.subrange(lo as int, hi as int) == name@),
{
    if hi - lo != name.len() {
        assert(s@.subrange(lo as int, hi as int).len() != name@.len());
        return false;
    }
    let mut k: usize = 0;
    while k < name.len()
        invariant
            hi - lo == name@.len(),
            lo <= hi <= s@.len(),
            k <= name@.len(),
            forall|m: int| 0 <= m < k ==> s@[lo + m] == name@[m],
        decreases name.len() - k,
    {
        if s[lo + k] != name[k] {
            assert(s@.subrange(lo as int, hi as int)[k as int] != name@[k as int]);
            return false;
        }
        k = k + 1;
    }
    assert(s@.subrange(lo as int, hi as int) =~= name@);
    true
}

/// Whether the comma-separated list `s` has an item that, trimmed, is
/// `name`.
fn offers(s: &[u8], name: &[u8]) -> (r: bool)
    ensures
        r == list_offers(s@, name@),
{
    let len = s.len();
    let mut start: usize = 0;
    loop
        invariant
            len == s@.len(),
            start <= len,
            start == 0 || s@[start - 1] == 0x2c,
            forall|i: int, j: int|
                is_list_item(s@, i, j) && i < start ==> #[trigger] trimmed(s@.subrange(i, j))
                    != name@,
        decreases len - start,
    {
        let mut end = start;
        while end < len && s[end] != 0x2c
            invariant
                len == s@.len(),
                start <= end <= len,
                forall|k: int| start <= k < end ==> s@[k] != 0x2c,
            decreases len - end,
        {
            end = end + 1;
        }
        assert(is_list_item(s@, start as int, end as int));
        let mut a = start;
        while a < end && is_space_byte(s[a])
            invariant
                start <= a <= end <= len,
                len == s@.len(),
                trim_start(s@.subrange(start as int, end as int)) == trim_start(
                    s@.subrange(a as int, end as int),
                ),
            decreases end - a,
        {
            proof {
                lemma_trim_start_step(s@, a as int, end as int);
            }
            a = a + 1;
        }
        assert(trim_start(s@.subrange(start as int, end as int)) == s@.subrange(a as int, end as int));
        let mut e = end;
        while e > a && is_space_byte(s[e - 1])
            invariant
                start <= a <= e <= end <= len,
                len == s@.len(),
                trim_end(s@.subrange(a as int, end as int)) == trim_end(
                    s@.subrange(a as int, e as int),
                ),
            decreases e - a,
        {
            proof {
                lemma_trim_end_step(s@, a as int, e as int);
            }
            e = e - 1;
        }
        assert(trim_end(s@.subrange(a as int, end as int)) == s@.subrange(a as int, e as int));
        assert(trimmed(s@.subrange(start as int, end as int)) == s@.subrange(a as int, e as int));
        if range_equals(s, a, e, name) {
            assert(list_offers(s@, name@));
            return true;
        }
        assert forall|i: int, j: int|
            is_list_item(s@, i, j) && i < end + 1 implies #[trigger] trimmed(s@.subrange(i, j))
            != name@ by {
            if i >= start {
                if i > start {
                    assert(s@[i - 1] == 0x2c);
                    assert(false);
                }
                if j < end {
                    assert(s@[j] == 0x2c);
                    assert(false);
                }
                if j > end {
                    assert(s@[end as int] == 0x2c);
                    assert(false);
                }
            }
        }
        if end == len {
            assert forall|i: int, j: int| is_list_item(s@, i, j) implies #[trigger] trimmed(
                s@.subrange(i, j),
            ) != name@ by {
                if i > end {
                    assert(false);
                }
            }
            return false;
        }
        start = end + 1;
    }
}

/// Chooses the subprotocol for the value of a `Sec-WebSocket-Protocol`
/// header: among the comma-separated names the client offers, Foxglove is
/// preferred to PointCloud Wire.
pub fn select_subprotocol(header: &str) -> (chosen: Option<Subprotocol>)
    requires
        is_ascii(header),
    ensures
        chosen == chosen_subprotocol(header.spec_bytes()),
{
    let bytes = header.as_bytes();
    if offers(bytes, FOXGLOVE_SUBPROTOCOL.as_bytes()) {
        Some(Subprotocol::Foxglove)
    } else if offers(bytes, POINTCLOUD_WIRE_SUBPROTOCOL.as_bytes()) {
        Some(Subprotocol::PointCloudWire)
    } else {
        None
    }
}

} // verus!

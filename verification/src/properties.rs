use vstd::prelude::*;

use crate::error::{MsgError, MsgErrorView};
use crate::storage::StreamContent;

verus! {

/// The value of the two bytes at `off` read as a little-endian integer.
pub open spec fn le_u16(b: Seq<u8>, off: int) -> int {
    b[off] + 256 * b[off + 1]
}

/// The value of the four bytes at `off` read as a little-endian integer.
pub open spec fn le_u32(b: Seq<u8>, off: int) -> int {
    le_u16(b, off) + 65536 * le_u16(b, off + 2)
}

/// The value of the eight bytes at `off` read as a little-endian integer.
pub open spec fn le_u64(b: Seq<u8>, off: int) -> int {
    le_u32(b, off) + 4294967296 * le_u32(b, off + 4)
}

/// Reads the little-endian `u16` at `off`.
pub fn read_le_u16(b: &[u8], off: usize) -> (r: u16)
    requires
        off + 2 <= b.len(),
    ensures
        r == le_u16(b@, off as int),
{
    b[off] as u16 + (b[off + 1] as u16) * 256
}

/// Reads the little-endian `u32` at `off`.
pub fn read_le_u32(b: &[u8], off: usize) -> (r: u32)
    requires
        off + 4 <= b.len(),
    ensures
        r == le_u32(b@, off as int),
{
    let lo = read_le_u16(b, off);
    let hi = read_le_u16(b, off + 2);
    lo as u32 + (hi as u32) * 65536
}

/// Reads the little-endian `u64` at `off`.
pub fn read_le_u64(b: &[u8], off: usize) -> (r: u64)
    requires
        off + 8 <= b.len(),
    ensures
        r == le_u64(b@, off as int),
{
    let lo = read_le_u32(b, off);
    let hi = read_le_u32(b, off + 4);
    lo as u64 + (hi as u64) * 4294967296
}

/// One 16-byte entry of a message's property stream.
#[derive(Debug, Clone, Copy, PartialEq, Eq, Structural)]
pub struct MsgProperty {
    pub property_type: u16,
    pub property_id: u16,
    pub property_flags: u32,
    pub value: u64,
}

/// The property entry that starts at `off`: type, id, flags and value, in
/// that order, each little-endian.
pub open spec fn property_at(b: Seq<u8>, off: int) -> MsgProperty {
    MsgProperty {
        property_type: le_u16(b, off) as u16,
        property_id: le_u16(b, off + 2) as u16,
        property_flags: le_u32(b, off + 4) as u32,
        value: le_u64(b, off + 8) as u64,
    }
}

/// Length of the property stream's header, which precedes the entries.
pub const PROPERTY_HEADER_LEN: usize = 32;

/// Length of one property entry.
pub const PROPERTY_ENTRY_LEN: usize = 16;

/// The entries of a property stream: one for each whole 16-byte chunk after
/// the 32-byte header.
pub open spec fn spec_parse_properties(b: Seq<u8>) -> Seq<MsgProperty> {
    if b.len() <= 32 {
        Seq::empty()
    } else {
        Seq::new(((b.len() - 32) / 16) as nat, |i: int| property_at(b, 32 + 16 * i))
    }
}

/// Decodes the entries of a property stream whose length is a multiple of 16.
pub fn parse_properties(data: &[u8]) -> (props: Vec<MsgProperty>)
    requires
        data@.len() % 16 == 0,
    ensures
        props@ == spec_parse_properties(data@),
{
    let mut props: Vec<MsgProperty> = Vec::new();
    if data.len() <= PROPERTY_HEADER_LEN {
        return props;
    }
    let count: usize = (data.len() - PROPERTY_HEADER_LEN) / PROPERTY_ENTRY_LEN;
    let mut i: usize = 0;
    let mut off: usize = PROPERTY_HEADER_LEN;
    while i < count
        invariant
            data@.len() % 16 == 0,
            data@.len() > 32,
            count == (data@.len() - 32) / 16,
            i <= count,
            off == 32 + 16 * i,
            props@.len() == i,
            forall|j: int| 0 <= j < i ==> props@[j] == property_at(data@, 32 + 16 * j),
        decreases count - i,
    {
        assert(off + 16 <= data.len());
        let p = MsgProperty {
            property_type: read_le_u16(data, off),
            property_id: read_le_u16(data, off + 2),
            property_flags: read_le_u32(data, off + 4),
            value: read_le_u64(data, off + 8),
        };
        props.push(p);
        i = i + 1;
        off = off + PROPERTY_ENTRY_LEN;
    }
    assert(props@ =~= spec_parse_properties(data@));
    props
}

/// What the property stream gives: an error where it is missing or its
/// length is not a multiple of 16, no properties where it cannot be read,
/// else its entries.
pub open spec fn spec_get_msg_properties(stream: StreamContent) -> Result<Seq<MsgProperty>, MsgErrorView> {
    match stream {
        StreamContent::Missing => Err(MsgErrorView::PropertyStreamMissing),
        StreamContent::Unreadable => Ok(Seq::empty()),
        StreamContent::Bytes(data) => if data@.len() % 16 != 0 {
            Err(MsgErrorView::PropertyStreamNotDivisibleBy16)
        } else {
            Ok(spec_parse_properties(data@))
        },
    }
}

/// Reads the properties of a message from what reading the
/// `__properties_version1.0` stream of the root storage gave.
pub fn get_msg_properties(stream: &StreamContent) -> (r: Result<Vec<MsgProperty>, MsgError>)
    ensures
        match (r, spec_get_msg_properties(*stream)) {
            (Ok(v), Ok(w)) => v@ == w,
            (Err(e), Err(k)) => e@ == k,
            _ => false,
        },
{
    match stream {
        StreamContent::Missing => Err(MsgError::PropertyStreamMissing),
        StreamContent::Unreadable => Ok(Vec::new()),
        StreamContent::Bytes(data) => {
            if data.len() % PROPERTY_ENTRY_LEN != 0 {
                Err(MsgError::PropertyStreamNotDivisibleBy16)
            } else {
                Ok(parse_properties(data.as_slice()))
            }
        },
    }
}

/// Whether `i` is the first index whose property has this id.
pub open spec fn is_first_with_id(props: Seq<MsgProperty>, id: u16, i: int) -> bool {
    &&& 0 <= i < props.len()
    &&& props[i].property_id == id
    &&& forall|j: int| 0 <= j < i ==> props[j].property_id != id
}

/// The value of the first property with this id, if any has it.
pub open spec fn spec_find_value(props: Seq<MsgProperty>, id: u16) -> Option<u64> {
    if exists|i: int| is_first_with_id(props, id, i) {
        Some(props[choose|i: int| is_first_with_id(props, id, i)].value)
    } else {
        None
    }
}

/// Finds the value of the first property with this id.
pub fn find_property_value(props: &Vec<MsgProperty>, id: u16) -> (r: Option<u64>)
    ensures
        r == spec_find_value(props@, id),
{
    let mut i: usize = 0;
    while i < props.len()
        invariant
            i <= props@.len(),
            forall|j: int| 0 <= j < i ==> props@[j].property_id != id,
        decreases props@.len() - i,
    {
        if props[i].property_id == id {
            proof {
                assert(is_first_with_id(props@, id, i as int));
                assert forall|k: int| is_first_with_id(props@, id, k) implies k == i by {
                    if k > i {
                        assert(props@[i as int].property_id != id);
                    }
                }
            }
            return Some(props[i].value);
        }
        i = i + 1;
    }
    None
}

} // verus!

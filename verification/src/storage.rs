use vstd::prelude::*;
use vstd::utf8::{decode_utf8, valid_utf8};

use crate::decode::{
    decode_utf16le, decode_utf8_lossy, utf16le_decode_fits, utf16le_decoded, utf8_lossy_decoded,
};

verus! {

/// What reading one named entry of a storage gave.
#[derive(Debug)]
pub enum StreamContent {
    /// No entry of that name exists.
    Missing,
    /// The entry exists but could not be opened or read as a stream.
    Unreadable,
    /// The entry's bytes.
    Bytes(Vec<u8>),
}

/// A `__substg1.0_` stream of a storage, named by its property tag and type.
#[derive(Debug)]
pub struct TaggedStream {
    pub tag: u16,
    pub kind: u16,
    pub content: StreamContent,
}

/// What the reader found in one storage of the compound file: the tagged
/// streams it asked for, and the storages directly below it, in the order in
/// which the compound file lists them.
#[derive(Debug)]
pub struct MsgStorage {
    pub streams: Vec<TaggedStream>,
    pub children: Vec<ChildStorage>,
}

/// A storage directly below another one.
#[derive(Debug)]
pub struct ChildStorage {
    /// The last component of the storage's path.
    pub name: String,
    /// What the storage itself holds.
    pub storage: MsgStorage,
    /// The contents of its `__substg1.0_3701000D` entry (an attached
    /// message), where that entry exists.
    pub embedded: Option<MsgStorage>,
}

/// Whether the stream with this tag and type is at index `i`, and at no
/// earlier index.
pub open spec fn is_first_stream(streams: Seq<TaggedStream>, tag: u16, kind: u16, i: int) -> bool {
    &&& 0 <= i < streams.len()
    &&& streams[i].tag == tag && streams[i].kind == kind
    &&& forall|j: int| 0 <= j < i ==> !(streams[j].tag == tag && streams[j].kind == kind)
}

/// The content that a storage gives for a tag and type: that of the first
/// stream that carries them, or `Missing` where none does.
pub open spec fn spec_stream(streams: Seq<TaggedStream>, tag: u16, kind: u16) -> StreamContent {
    if exists|i: int| is_first_stream(streams, tag, kind, i) {
        streams[choose|i: int| is_first_stream(streams, tag, kind, i)].content
    } else {
        StreamContent::Missing
    }
}

/// Finds the stream with this tag and type; `None` stands for `Missing`.
pub fn find_stream<'a>(streams: &'a Vec<TaggedStream>, tag: u16, kind: u16) -> (r: Option<&'a StreamContent>)
    ensures
        r is None ==> spec_stream(streams@, tag, kind) is Missing,
        r matches Some(c) ==> *c == spec_stream(streams@, tag, kind),
{
    let mut i: usize = 0;
    while i < streams.len()
        invariant
            i <= streams@.len(),
            forall|j: int| 0 <= j < i ==> !(streams@[j].tag == tag && streams@[j].kind == kind),
        decreases streams@.len() - i,
    {
        if streams[i].tag == tag && streams[i].kind == kind {
            proof {
                assert(is_first_stream(streams@, tag, kind, i as int));
                assert forall|k: int| is_first_stream(streams@, tag, kind, k) implies k == i by {
                    if k < i {
                    } else if k > i {
                        assert(!(streams@[i as int].tag == tag && streams@[i as int].kind == kind));
                    }
                }
            }
            return Some(&streams[i].content);
        }
        i = i + 1;
    }
    None
}

/// Property type of a Unicode (UTF-16LE) string stream.
pub const PT_UNICODE: u16 = 0x001F;

/// Property type of an 8-bit string stream.
pub const PT_STRING8: u16 = 0x001E;

/// Property type of a binary stream.
pub const PT_BINARY: u16 = 0x0102;

/// Whether reading a string property from what reading its Unicode stream
/// gave returns: where the stream's bytes are decoded, they fit the UTF-16
/// decoder (which panics on larger inputs).
pub open spec fn substg_string_returns(unicode: StreamContent) -> bool {
    unicode matches StreamContent::Bytes(d) ==> utf16le_decode_fits(d@)
}

/// Whether reading the string property `tag` of a storage returns.
pub open spec fn string_readable(streams: Seq<TaggedStream>, tag: u16) -> bool {
    substg_string_returns(spec_stream(streams, tag, PT_UNICODE))
}

/// The text of a string property from what reading its two streams gave: the
/// Unicode stream decoded where it exists and can be read; nothing where it
/// exists and cannot; else the 8-bit stream decoded where it can be read;
/// else nothing.
pub open spec fn spec_substg_string(unicode: StreamContent, string8: StreamContent) -> Seq<char> {
    match unicode {
        StreamContent::Bytes(d) => utf16le_decoded(d@),
        StreamContent::Unreadable => Seq::empty(),
        StreamContent::Missing => match string8 {
            StreamContent::Bytes(d) => utf8_lossy_decoded(d@),
            _ => Seq::empty(),
        },
    }
}

/// The bytes of a binary property: those of its stream where it exists and
/// can be read, else none.
pub open spec fn spec_substg_binary(c: StreamContent) -> Seq<u8> {
    match c {
        StreamContent::Bytes(d) => d@,
        _ => Seq::empty(),
    }
}

/// The text of the string property `tag` of a storage.
pub open spec fn storage_string(streams: Seq<TaggedStream>, tag: u16) -> Seq<char> {
    spec_substg_string(spec_stream(streams, tag, PT_UNICODE), spec_stream(streams, tag, PT_STRING8))
}

/// The bytes of the binary property `tag` of a storage.
pub open spec fn storage_binary(streams: Seq<TaggedStream>, tag: u16) -> Seq<u8> {
    spec_substg_binary(spec_stream(streams, tag, PT_BINARY))
}

/// Reads the string property `tag` of a storage, where decoding it does not
/// panic (see `string_readable`).
pub fn get_substg_string(streams: &Vec<TaggedStream>, tag: u16) -> (s: String)
    requires
        string_readable(streams@, tag),
    ensures
        s@ == storage_string(streams@, tag),
        spec_stream(streams@, tag, 0x001Fu16) matches StreamContent::Bytes(d) ==> s@ == utf16le_decoded(d@),
        spec_stream(streams@, tag, 0x001Fu16) is Unreadable ==> s@.len() == 0,
        spec_stream(streams@, tag, 0x001Fu16) is Missing ==> (spec_stream(streams@, tag, 0x001Eu16) matches StreamContent::Bytes(d)
            ==> s@ == utf8_lossy_decoded(d@)),
        spec_stream(streams@, tag, 0x001Fu16) is Missing && !(spec_stream(streams@, tag, 0x001Eu16) is Bytes)
            ==> s@.len() == 0,
        spec_stream(streams@, tag, PT_UNICODE) is Missing ==> (spec_stream(streams@, tag, PT_STRING8) matches StreamContent::Bytes(d)
            ==> (valid_utf8(d@) ==> s@ == decode_utf8(d@))),
{
    match find_stream(streams, tag, PT_UNICODE) {
        Some(StreamContent::Bytes(d)) => decode_utf16le(d.as_slice()),
        Some(StreamContent::Unreadable) => String::new(),
        _ => match find_stream(streams, tag, PT_STRING8) {
            Some(StreamContent::Bytes(d)) => decode_utf8_lossy(d.as_slice()),
            _ => String::new(),
        },
    }
}

/// Reads the binary property `tag` of a storage.
pub fn get_substg_binary(streams: &Vec<TaggedStream>, tag: u16) -> (b: Vec<u8>)
    ensures
        b@ == storage_binary(streams@, tag),
        spec_stream(streams@, tag, 0x0102u16) matches StreamContent::Bytes(d) ==> b@ == d@,
        !(spec_stream(streams@, tag, 0x0102u16) is Bytes) ==> b@.len() == 0,
{
    match find_stream(streams, tag, PT_BINARY) {
        Some(StreamContent::Bytes(d)) => d.clone(),
        _ => Vec::new(),
    }
}

} // verus!

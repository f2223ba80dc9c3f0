use vstd::prelude::*;
use vstd::utf8::{decode_utf8, valid_utf8};

use crate::properties::le_u32;

verus! {

/// Whether decoding these bytes with `encoding_rs::UTF_16LE.decode` stays
/// clear of its panics. `decode` sniffs a byte-order mark (a UTF-8 one makes
/// it decode as UTF-8), then reserves at most `3 * (len / 2) + 16` bytes of
/// output for UTF-16, or `3 * len + 16` for UTF-8, where `String` panics on
/// capacities above `isize::MAX`; the checked size computations before the
/// reservation overflow only beyond that.
pub open spec fn utf16le_decode_fits(b: Seq<u8>) -> bool {
    if b.len() >= 3 && b[0] == 0xEFu8 && b[1] == 0xBBu8 && b[2] == 0xBFu8 {
        3 * b.len() + 16 <= isize::MAX
    } else {
        3 * (b.len() / 2) + 16 <= isize::MAX
    }
}

/// The text that `encoding_rs` gives for bytes decoded as UTF-16LE (with its
/// byte-order-mark sniffing and replacement of malformed sequences).
pub uninterp spec fn utf16le_decoded(bytes: Seq<u8>) -> Seq<char>;

/// The text that `String::from_utf8_lossy` gives for bytes.
pub uninterp spec fn utf8_lossy_decoded(bytes: Seq<u8>) -> Seq<char>;

/// Decodes bytes as UTF-16LE with `encoding_rs::UTF_16LE.decode`, keeping the
/// text. Claimed: the text is a function of the bytes alone, and `decode`
/// returns on the inputs of `utf16le_decode_fits`.
#[verifier::external_body]
pub(crate) fn decode_utf16le(data: &[u8]) -> (s: String)
    requires
        utf16le_decode_fits(data@),
    ensures
        s@ == utf16le_decoded(data@),
{
    encoding_rs::UTF_16LE.decode(data).0.to_string()
}

/// Decodes bytes with `String::from_utf8_lossy`. Claimed: the text is a
/// function of the bytes alone, and for valid UTF-8 it is the text that the
/// bytes encode, as std's documentation says.
#[verifier::external_body]
pub(crate) fn decode_utf8_lossy(data: &[u8]) -> (s: String)
    ensures
        s@ == utf8_lossy_decoded(data@),
        valid_utf8(data@) ==> s@ == decode_utf8(data@),
{
    String::from_utf8_lossy(data).to_string()
}

/// The `COMPTYPE` of compressed RTF ("LZFu").
pub const RTF_COMPRESSED: u32 = 0x75465A4C;

/// The `COMPTYPE` of uncompressed RTF ("MELA").
pub const RTF_UNCOMPRESSED: u32 = 0x414C454D;

/// The inputs on which `compressed_rtf::decompress_rtf` returns: a 16-byte
/// header at least, `COMPSIZE + 4` computable, and, where the header
/// announces uncompressed content of the right total size, `RAWSIZE` bytes
/// after the header; for compressed content, an output capacity of
/// `RAWSIZE` bytes that can be allocated.
pub open spec fn rtf_decompress_returns(data: Seq<u8>) -> bool {
    &&& data.len() >= 16
    &&& le_u32(data, 0) + 4 <= usize::MAX
    &&& (le_u32(data, 0) + 4 == data.len() && le_u32(data, 8) == RTF_UNCOMPRESSED)
        ==> le_u32(data, 4) + 16 <= data.len()
    &&& (le_u32(data, 0) + 4 == data.len() && le_u32(data, 8) == RTF_COMPRESSED)
        ==> le_u32(data, 4) <= isize::MAX
}

/// What `compressed_rtf::decompress_rtf` gives for bytes: the text, or the
/// description (`Display`) of its error.
pub uninterp spec fn rtf_decompressed(data: Seq<u8>) -> Result<Seq<char>, Seq<char>>;

/// Calls `compressed_rtf::decompress_rtf` (MS-OXRTFCP), giving its error as
/// the error's `Display` text. Claimed: it returns on the inputs of
/// `rtf_decompress_returns` (it slices the header and the uncompressed
/// content without checking their bounds), and what it gives, text or error
/// text, is a function of the bytes alone.
#[verifier::external_body]
pub(crate) fn decompress_rtf(data: &[u8]) -> (r: Result<String, String>)
    requires
        rtf_decompress_returns(data@),
    ensures
        match (r, rtf_decompressed(data@)) {
            (Ok(s), Ok(t)) => s@ == t,
            (Err(e), Err(t)) => e@ == t,
            _ => false,
        },
{
    match compressed_rtf::decompress_rtf(data) {
        Ok(s) => Ok(s),
        Err(e) => Err(e.to_string()),
    }
}

} // verus!

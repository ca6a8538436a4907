use vstd::prelude::*;
use vstd::slice::slice_subrange;

verus! {

/// The text of `b` when `b` is valid UTF-8.
pub uninterp spec fn utf8_text(b: Seq<u8>) -> Option<Seq<char>>;

/// Relies on `String::from_utf8`: succeeds exactly on valid UTF-8 and then
/// holds the decoded text.
#[verifier::external_body]
pub(crate) fn text_from_utf8(b: &[u8]) -> (r: Option<String>)
    ensures
        match r {
            Some(s) => utf8_text(b@) == Some(s@),
            None => utf8_text(b@) is None,
        },
{
    String::from_utf8(b.to_vec()).ok()
}

/// The bytes that the zlib stream `b` decompresses to, when it is well formed.
pub uninterp spec fn zlib_inflated(b: Seq<u8>) -> Option<Seq<u8>>;

/// Relies on `flate2::read::ZlibDecoder`: reading it to the end yields the
/// decompressed bytes of the stream, or an error on a stream it rejects.
#[verifier::external_body]
fn zlib_bytes(b: &[u8]) -> (r: Option<Vec<u8>>)
    ensures
        match r {
            Some(v) => zlib_inflated(b@) == Some(v@),
            None => zlib_inflated(b@) is None,
        },
{
    let mut out = Vec::new();
    match std::io::Read::read_to_end(&mut flate2::read::ZlibDecoder::new(b), &mut out) {
        Ok(_) => Some(out),
        Err(_) => None,
    }
}

/// The text that a markup payload of a rich or light-app element carries:
/// after a flag byte, UTF-8 as it stands (flag 0) or zlib-compressed (flag 1).
/// An empty payload carries no text.
pub open spec fn markup_text_of(d: Seq<u8>) -> Option<Seq<char>> {
    if d.len() == 0 {
        Some(Seq::empty())
    } else if d[0] == 0 {
        utf8_text(d.drop_first())
    } else if d[0] == 1 {
        match zlib_inflated(d.drop_first()) {
            Some(p) => utf8_text(p),
            None => None,
        }
    } else {
        None
    }
}

/// Decodes the markup payload of a rich or light-app element; `None` when
/// the flag is unknown, the stream is malformed or the text is not UTF-8.
pub fn markup_text(data: &[u8]) -> (r: Option<String>)
    ensures
        match r {
            Some(s) => markup_text_of(data@) == Some(s@),
            None => markup_text_of(data@) is None,
        },
{
    if data.len() == 0 {
        return Some(String::new());
    }
    let rest = slice_subrange(data, 1, data.len());
    assert(rest@ =~= data@.drop_first());
    if data[0] == 0 {
        text_from_utf8(rest)
    } else if data[0] == 1 {
        match zlib_bytes(rest) {
            Some(p) => text_from_utf8(p.as_slice()),
            None => None,
        }
    } else {
        None
    }
}

} // verus!

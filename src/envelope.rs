use vstd::prelude::*;
use vstd::slice::slice_subrange;
use crate::error::{DecodeError, DecodeErrorView, Field};
use crate::tea::{qqtea_decrypt, qqtea_plain};

verus! {

/// The leading byte of a multi-message transport envelope.
pub const ENVELOPE_MARKER: u8 = 40;

/// The signed big-endian 32-bit integer in `b` at `i .. i + 4`.
pub open spec fn be_i32(b: Seq<u8>, i: int) -> int {
    let u = b[i] as int * 16777216 + b[i + 1] as int * 65536 + b[i + 2] as int * 256 + b[i
        + 3] as int;
    if b[i] >= 128 {
        u - 4294967296
    } else {
        u
    }
}

/// The encrypted data of an envelope: after the marker byte, the header
/// length and the data length, and after the header that they announce.
pub open spec fn envelope_data_of(p: Seq<u8>) -> Option<Seq<u8>> {
    if p.len() < 9 || p[0] != ENVELOPE_MARKER {
        None
    } else {
        let h = be_i32(p, 1);
        let d = be_i32(p, 5);
        if h < 0 || d < 0 || 9 + h + d > p.len() {
            None
        } else {
            Some(p.subrange(9 + h, 9 + h + d))
        }
    }
}

fn read_be_i32(b: &[u8], i: usize) -> (r: i64)
    requires
        i + 4 <= b@.len(),
    ensures
        r == be_i32(b@, i as int),
{
    let u: i64 = b[i] as i64 * 16777216 + b[i + 1] as i64 * 65536 + b[i + 2] as i64 * 256
        + b[i + 3] as i64;
    if b[i] >= 128 {
        u - 4294967296
    } else {
        u
    }
}

/// The encrypted data that `payload` frames; `MalformedFraming` when the
/// marker byte is wrong or the lengths do not fit the payload.
pub fn envelope_data(payload: &[u8]) -> (r: Result<&[u8], DecodeError>)
    ensures
        match r {
            Ok(d) => envelope_data_of(payload@) == Some(d@),
            Err(e) => envelope_data_of(payload@) is None && e@ == DecodeErrorView::MalformedFraming,
        },
{
    let n = payload.len();
    if n < 9 || payload[0] != ENVELOPE_MARKER {
        return Err(DecodeError::MalformedFraming);
    }
    let h = read_be_i32(payload, 1);
    let d = read_be_i32(payload, 5);
    if h < 0 || d < 0 || h as u64 + d as u64 > (n - 9) as u64 {
        return Err(DecodeError::MalformedFraming);
    }
    let start = 9 + h as usize;
    Ok(slice_subrange(payload, start, start + d as usize))
}

/// The decrypted body of an envelope: `MalformedFraming` when the framing
/// is broken, `DecryptionFailure` when its data does not decrypt under `key`.
pub fn decrypt_envelope(payload: &[u8], key: &[u8]) -> (r: Result<Vec<u8>, DecodeError>)
    ensures
        match envelope_data_of(payload@) {
            None => r matches Err(e) && e@ == DecodeErrorView::MalformedFraming,
            Some(d) => match qqtea_plain(d, key@) {
                None => r matches Err(e) && e@ == DecodeErrorView::DecryptionFailure,
                Some(p) => r matches Ok(v) && v@ == p,
            },
        },
{
    let data = envelope_data(payload)?;
    qqtea_decrypt(data, key)
}

/// The first element of a list field that must not be empty.
pub fn first_element<T>(v: Vec<T>, field: Field) -> (r: Result<T, DecodeError>)
    ensures
        match r {
            Ok(x) => v@.len() > 0 && x == v@[0],
            Err(e) => v@.len() == 0 && e@ == DecodeErrorView::EmptyField(field),
        },
{
    let mut v = v;
    if v.len() == 0 {
        Err(DecodeError::EmptyField(field))
    } else {
        Ok(v.remove(0))
    }
}

/// The bytes that the gzip stream `b` decompresses to, when it is well formed.
pub uninterp spec fn gunzip(b: Seq<u8>) -> Option<Seq<u8>>;

/// Relies on `flate2::write::GzDecoder`: writing the whole stream and
/// finishing yields its decompressed bytes, or an error on a stream that it
/// rejects.
#[verifier::external_body]
fn gunzip_bytes(b: &[u8]) -> (r: Option<Vec<u8>>)
    ensures
        match r {
            Some(v) => gunzip(b@) == Some(v@),
            None => gunzip(b@) is None,
        },
{
    let mut decoder = flate2::write::GzDecoder::new(Vec::new());
    match std::io::Write::write_all(&mut decoder, b) {
        Ok(()) => decoder.finish().ok(),
        Err(_) => None,
    }
}

/// Inflates a gzip stream in full; `Inflate` when it is malformed.
pub fn inflate(compressed: &[u8]) -> (r: Result<Vec<u8>, DecodeError>)
    ensures
        match r {
            Ok(v) => gunzip(compressed@) == Some(v@),
            Err(e) => gunzip(compressed@) is None && e@ == DecodeErrorView::Inflate,
        },
{
    match gunzip_bytes(compressed) {
        Some(v) => Ok(v),
        None => Err(DecodeError::Inflate),
    }
}

} // verus!

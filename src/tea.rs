use vstd::prelude::*;
use vstd::slice::{slice_subrange, slice_to_vec};
use crate::error::{DecodeError, DecodeErrorView};

verus! {

/// The TEA key schedule constant.
pub const TEA_DELTA: u32 = 0x9e37_79b9;

/// The round sum that deciphering starts from: sixteen times the delta.
pub const TEA_SUM_START: u32 = 0xe377_9b90;

/// A 128-bit TEA key as four words.
#[derive(Clone, Copy, Debug, PartialEq, Eq, Structural)]
pub struct TeaKey {
    pub k0: u32,
    pub k1: u32,
    pub k2: u32,
    pub k3: u32,
}

/// The value mixed into one half of a block in one round.
pub open spec fn mix(v: u32, sum: u32, ka: u32, kb: u32) -> u32 {
    (v << 4u32).wrapping_add(ka) ^ v.wrapping_add(sum) ^ (v >> 5u32).wrapping_add(kb)
}

/// `n` deciphering rounds on the block `(v0, v1)`, the first one with `sum`.
pub open spec fn rounds(v0: u32, v1: u32, k: TeaKey, sum: u32, n: nat) -> (u32, u32)
    decreases n,
{
    if n == 0 {
        (v0, v1)
    } else {
        let w1 = v1.wrapping_sub(mix(v0, sum, k.k2, k.k3));
        let w0 = v0.wrapping_sub(mix(w1, sum, k.k0, k.k1));
        rounds(w0, w1, k, sum.wrapping_sub(TEA_DELTA), (n - 1) as nat)
    }
}

/// The TEA decipherment of one block.
pub open spec fn decipher(v: (u32, u32), k: TeaKey) -> (u32, u32) {
    rounds(v.0, v.1, k, TEA_SUM_START, 16)
}

/// The big-endian word in `b` at `i .. i + 4`.
pub open spec fn be_u32(b: Seq<u8>, i: int) -> u32 {
    ((b[i] as u32) << 24u32) | ((b[i + 1] as u32) << 16u32) | ((b[i + 2] as u32) << 8u32) | (b[i
        + 3] as u32)
}

/// Block `i` of `b`, as two big-endian words.
pub open spec fn block(b: Seq<u8>, i: int) -> (u32, u32) {
    (be_u32(b, 8 * i), be_u32(b, 8 * i + 4))
}

/// The key that sixteen bytes spell, word by big-endian word.
pub open spec fn key_of(k: Seq<u8>) -> TeaKey {
    TeaKey { k0: be_u32(k, 0), k1: be_u32(k, 4), k2: be_u32(k, 8), k3: be_u32(k, 12) }
}

/// The word-wise exclusive or of two blocks.
pub open spec fn xor_block(a: (u32, u32), b: (u32, u32)) -> (u32, u32) {
    (a.0 ^ b.0, a.1 ^ b.1)
}

/// The big-endian bytes of a word.
pub open spec fn word_bytes(x: u32) -> Seq<u8> {
    seq![(x >> 24u32) as u8, (x >> 16u32) as u8, (x >> 8u32) as u8, x as u8]
}

/// The eight bytes of a block.
pub open spec fn block_bytes(v: (u32, u32)) -> Seq<u8> {
    word_bytes(v.0) + word_bytes(v.1)
}

/// The first `n` plain blocks of ciphertext `c`, with the chaining value
/// after them: each block is deciphered after mixing in the previous
/// decipherment, and its output is mixed with the previous ciphertext block.
pub open spec fn chain(c: Seq<u8>, k: TeaKey, n: nat) -> (Seq<u8>, (u32, u32))
    decreases n,
{
    if n == 0 {
        (Seq::empty(), (0u32, 0u32))
    } else {
        let (out, iv) = chain(c, k, (n - 1) as nat);
        let x = decipher(xor_block(block(c, n - 1), iv), k);
        let prev = if n == 1 {
            (0u32, 0u32)
        } else {
            block(c, n - 2)
        };
        (out + block_bytes(xor_block(x, prev)), x)
    }
}

/// The plaintext of `c` under the sixteen-byte `key`: the chained
/// decipherment without its padding header (three bytes and as many more as
/// the low three bits of its first byte say) and its seven trailing bytes.
pub open spec fn qqtea_plain(c: Seq<u8>, key: Seq<u8>) -> Option<Seq<u8>> {
    if key.len() != 16 || c.len() < 16 || c.len() % 8 != 0 {
        None
    } else {
        let d = chain(c, key_of(key), (c.len() / 8) as nat).0;
        let begin = (d[0] & 7u8) as int + 3;
        if begin > c.len() - 7 {
            None
        } else {
            Some(d.subrange(begin, c.len() - 7))
        }
    }
}

fn read_u32(b: &[u8], i: usize) -> (r: u32)
    requires
        i + 4 <= b@.len(),
    ensures
        r == be_u32(b@, i as int),
{
    ((b[i] as u32) << 24u32) | ((b[i + 1] as u32) << 16u32) | ((b[i + 2] as u32) << 8u32) | (b[i
        + 3] as u32)
}

fn decipher_exec(v: (u32, u32), k: TeaKey) -> (r: (u32, u32))
    ensures
        r == decipher(v, k),
{
    let mut v0 = v.0;
    let mut v1 = v.1;
    let mut sum = TEA_SUM_START;
    let mut n: u32 = 16;
    while n > 0
        invariant
            rounds(v0, v1, k, sum, n as nat) == decipher(v, k),
        decreases n,
    {
        v1 = v1.wrapping_sub(
            (v0 << 4u32).wrapping_add(k.k2) ^ v0.wrapping_add(sum) ^ (v0 >> 5u32).wrapping_add(k.k3),
        );
        v0 = v0.wrapping_sub(
            (v1 << 4u32).wrapping_add(k.k0) ^ v1.wrapping_add(sum) ^ (v1 >> 5u32).wrapping_add(k.k1),
        );
        sum = sum.wrapping_sub(TEA_DELTA);
        n = n - 1;
    }
    (v0, v1)
}

fn push_word(out: &mut Vec<u8>, x: u32)
    ensures
        final(out)@ == old(out)@ + word_bytes(x),
{
    out.push((x >> 24u32) as u8);
    out.push((x >> 16u32) as u8);
    out.push((x >> 8u32) as u8);
    out.push(x as u8);
    assert(final(out)@ =~= old(out)@ + word_bytes(x));
}

/// Decrypts `text` with the platform's TEA variant under the sixteen-byte
/// `key`; `DecryptionFailure` when the key or the ciphertext has the wrong
/// length or the padding header does not fit.
pub fn qqtea_decrypt(text: &[u8], key: &[u8]) -> (r: Result<Vec<u8>, DecodeError>)
    ensures
        match r {
            Ok(v) => qqtea_plain(text@, key@) == Some(v@),
            Err(e) => qqtea_plain(text@, key@) is None && e@ == DecodeErrorView::DecryptionFailure,
        },
{
    let len = text.len();
    if key.len() != 16 || len < 16 || len % 8 != 0 {
        return Err(DecodeError::DecryptionFailure);
    }
    let k = TeaKey {
        k0: read_u32(key, 0),
        k1: read_u32(key, 4),
        k2: read_u32(key, 8),
        k3: read_u32(key, 12),
    };
    let blocks = len / 8;
    let mut out: Vec<u8> = Vec::new();
    let mut iv: (u32, u32) = (0, 0);
    let mut prev: (u32, u32) = (0, 0);
    let mut i: usize = 0;
    while i < blocks
        invariant
            blocks == text@.len() / 8,
            text@.len() == len,
            len % 8 == 0,
            k == key_of(key@),
            i <= blocks,
            chain(text@, k, i as nat) == (out@, iv),
            out@.len() == 8 * i,
            prev == if i == 0 {
                (0u32, 0u32)
            } else {
                block(text@, i - 1)
            },
        decreases blocks - i,
    {
        let c = (read_u32(text, 8 * i), read_u32(text, 8 * i + 4));
        assert(c == block(text@, i as int));
        let x = decipher_exec((c.0 ^ iv.0, c.1 ^ iv.1), k);
        let ghost before = out@;
        push_word(&mut out, x.0 ^ prev.0);
        push_word(&mut out, x.1 ^ prev.1);
        assert(out@ =~= before + block_bytes(xor_block(x, prev)));
        iv = x;
        prev = c;
        i = i + 1;
    }
    let begin = (out[0] & 7u8) as usize + 3;
    if begin > len - 7 {
        return Err(DecodeError::DecryptionFailure);
    }
    Ok(slice_to_vec(slice_subrange(out.as_slice(), begin, len - 7)))
}

} // verus!

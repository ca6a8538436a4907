use std::io::Write;

use ricq_multimsg::envelope::{decrypt_envelope, inflate};
use ricq_multimsg::error::DecodeError;
use ricq_multimsg::tea::qqtea_decrypt;

const DELTA: u32 = 0x9e37_79b9;

fn words(key: &[u8]) -> [u32; 4] {
    let mut k = [0u32; 4];
    for (i, w) in k.iter_mut().enumerate() {
        *w = u32::from_be_bytes([key[4 * i], key[4 * i + 1], key[4 * i + 2], key[4 * i + 3]]);
    }
    k
}

fn encipher(n: u64, k: &[u32; 4]) -> u64 {
    let (mut v0, mut v1) = ((n >> 32) as u32, n as u32);
    let mut sum: u32 = 0;
    for _ in 0..16 {
        sum = sum.wrapping_add(DELTA);
        v0 = v0.wrapping_add(
            (v1 << 4).wrapping_add(k[0]) ^ v1.wrapping_add(sum) ^ (v1 >> 5).wrapping_add(k[1]),
        );
        v1 = v1.wrapping_add(
            (v0 << 4).wrapping_add(k[2]) ^ v0.wrapping_add(sum) ^ (v0 >> 5).wrapping_add(k[3]),
        );
    }
    ((v0 as u64) << 32) | v1 as u64
}

fn encrypt(src: &[u8], key: &[u8], salt: u8) -> Vec<u8> {
    let k = words(key);
    let fill = 10 - (src.len() + 1) % 8;
    let mut dst = vec![salt; fill + src.len() + 7];
    dst[0] = ((fill - 3) as u8) | 0xf8;
    dst[fill..fill + src.len()].copy_from_slice(src);
    for b in dst[fill + src.len()..].iter_mut() {
        *b = 0;
    }
    let (mut iv1, mut iv2) = (0u64, 0u64);
    for i in (0..dst.len()).step_by(8) {
        let block = u64::from_be_bytes(dst[i..i + 8].try_into().unwrap());
        let holder = block ^ iv1;
        iv1 = encipher(holder, &k) ^ iv2;
        iv2 = holder;
        dst[i..i + 8].copy_from_slice(&iv1.to_be_bytes());
    }
    dst
}

fn gzip(b: &[u8]) -> Vec<u8> {
    let mut e = flate2::write::GzEncoder::new(Vec::new(), flate2::Compression::default());
    e.write_all(b).unwrap();
    e.finish().unwrap()
}

const KEY: [u8; 16] = [
    0x01, 0x23, 0x45, 0x67, 0x89, 0xab, 0xcd, 0xef, 0xfe, 0xdc, 0xba, 0x98, 0x76, 0x54, 0x32, 0x10,
];

#[test]
fn decrypt_inverts_encryption() {
    for len in 0..40 {
        let plain: Vec<u8> = (0..len).map(|i| (i * 7 + 3) as u8).collect();
        let c = encrypt(&plain, &KEY, 0x5a);
        assert_eq!(c.len() % 8, 0);
        assert_ne!(&c[..], &plain[..]);
        assert_eq!(qqtea_decrypt(&c, &KEY), Ok(plain));
    }
}

#[test]
fn decrypt_rejects_bad_lengths() {
    let c = encrypt(b"hello", &KEY, 1);
    assert_eq!(qqtea_decrypt(&c[..c.len() - 1], &KEY), Err(DecodeError::DecryptionFailure));
    assert_eq!(qqtea_decrypt(&c[..8], &KEY), Err(DecodeError::DecryptionFailure));
    assert_eq!(qqtea_decrypt(&c, &KEY[..15]), Err(DecodeError::DecryptionFailure));
}

#[test]
fn envelope_round_trip_recovers_payload() {
    let plain = b"named item table".to_vec();
    let data = encrypt(&gzip(&plain), &KEY, 9);
    let header = b"im head";
    let mut p = vec![40u8];
    p.extend_from_slice(&(header.len() as i32).to_be_bytes());
    p.extend_from_slice(&(data.len() as i32).to_be_bytes());
    p.extend_from_slice(header);
    p.extend_from_slice(&data);
    let body = decrypt_envelope(&p, &KEY).unwrap();
    assert_eq!(inflate(&body), Ok(plain));
    p[0] = 7;
    assert_eq!(decrypt_envelope(&p, &KEY), Err(DecodeError::MalformedFraming));
}

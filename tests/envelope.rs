use std::io::Write;

use ricq_multimsg::envelope::{envelope_data, first_element, inflate};
use ricq_multimsg::error::{DecodeError, Field};

fn frame(header: &[u8], data: &[u8]) -> Vec<u8> {
    let mut p = vec![40u8];
    p.extend_from_slice(&(header.len() as i32).to_be_bytes());
    p.extend_from_slice(&(data.len() as i32).to_be_bytes());
    p.extend_from_slice(header);
    p.extend_from_slice(data);
    p
}

fn gzip(b: &[u8]) -> Vec<u8> {
    let mut e = flate2::write::GzEncoder::new(Vec::new(), flate2::Compression::default());
    e.write_all(b).unwrap();
    e.finish().unwrap()
}

#[test]
fn envelope_data_skips_header() {
    let p = frame(&[9, 9, 9], &[1, 2, 3, 4]);
    assert_eq!(envelope_data(&p), Ok(&[1u8, 2, 3, 4][..]));
    let mut longer = p.clone();
    longer.extend_from_slice(&[7, 7]);
    assert_eq!(envelope_data(&longer), Ok(&[1u8, 2, 3, 4][..]));
}

#[test]
fn envelope_wrong_marker_is_malformed() {
    let mut p = frame(&[], &[1, 2]);
    p[0] = 41;
    assert_eq!(envelope_data(&p), Err(DecodeError::MalformedFraming));
    assert_eq!(envelope_data(&[]), Err(DecodeError::MalformedFraming));
}

#[test]
fn envelope_truncated_is_malformed() {
    let p = frame(&[1], &[1, 2, 3]);
    assert_eq!(envelope_data(&p[..p.len() - 1]), Err(DecodeError::MalformedFraming));
    assert_eq!(envelope_data(&p[..5]), Err(DecodeError::MalformedFraming));
}

#[test]
fn envelope_negative_length_is_malformed() {
    let mut p = vec![40u8];
    p.extend_from_slice(&(-1i32).to_be_bytes());
    p.extend_from_slice(&0i32.to_be_bytes());
    assert_eq!(envelope_data(&p), Err(DecodeError::MalformedFraming));
}

#[test]
fn inflate_recovers_compressed_payload() {
    let plain = b"multi message transmit record".to_vec();
    let z = gzip(&plain);
    assert_ne!(z, plain);
    assert_eq!(inflate(&z), Ok(plain));
}

#[test]
fn inflate_malformed_is_error() {
    assert_eq!(inflate(&[1, 2, 3, 4, 5]), Err(DecodeError::Inflate));
}

#[test]
fn framed_compressed_payload_round_trips() {
    let plain = b"item table bytes".to_vec();
    let p = frame(b"head", &gzip(&plain));
    let data = envelope_data(&p).unwrap();
    assert_eq!(inflate(data), Ok(plain));
}

#[test]
fn first_element_of_list() {
    assert_eq!(first_element(vec![3, 4, 5], Field::MsgDownRsp), Ok(3));
    assert_eq!(
        first_element(Vec::<u8>::new(), Field::MsgDownRsp),
        Err(DecodeError::EmptyField(Field::MsgDownRsp))
    );
}

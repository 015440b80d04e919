//! Tests for the point and signature codecs: pure byte-level behaviour.

use suite_b::der::decode_der_signature;
use suite_b::errors::DecodeError;
use suite_b::point::decode_uncompressed_point;
use suite_b::point::encode_uncompressed_point;

#[test]
fn test_point_decode_ok_splits_halves() {
    let mut input = vec![0x04u8];
    let x: Vec<u8> = (0..32u8).collect();
    let y: Vec<u8> = (100..132u8).collect();
    input.extend_from_slice(&x);
    input.extend_from_slice(&y);
    let (dx, dy) = decode_uncompressed_point(&input, 32).unwrap();
    assert_eq!(dx, x);
    assert_eq!(dy, y);
}

#[test]
fn test_point_decode_wrong_length_rejected() {
    // One byte short, one byte long, empty: all length errors.
    let short = vec![0x04u8; 64];
    let long = vec![0x04u8; 66];
    let empty: Vec<u8> = Vec::new();
    assert_eq!(decode_uncompressed_point(&short, 32), Err(DecodeError::InvalidLength));
    assert_eq!(decode_uncompressed_point(&long, 32), Err(DecodeError::InvalidLength));
    assert_eq!(decode_uncompressed_point(&empty, 32), Err(DecodeError::InvalidLength));
    // The same bytes are a valid P-384 length for neither.
    assert_eq!(decode_uncompressed_point(&short, 48), Err(DecodeError::InvalidLength));
}

#[test]
fn test_point_decode_bad_tag_rejected_regardless_of_length() {
    // A compressed-point tag is an encoding error at the correct length...
    let mut right_len = vec![0x02u8];
    right_len.extend_from_slice(&[0u8; 64]);
    assert_eq!(decode_uncompressed_point(&right_len, 32), Err(DecodeError::InvalidEncoding));
    // ... and at any other length.
    let wrong_len = vec![0x05u8; 10];
    assert_eq!(decode_uncompressed_point(&wrong_len, 32), Err(DecodeError::InvalidEncoding));
    let single = vec![0xffu8];
    assert_eq!(decode_uncompressed_point(&single, 32), Err(DecodeError::InvalidEncoding));
}

#[test]
fn test_point_encode_decode_round_trip() {
    let x: Vec<u8> = (0..48u8).collect();
    let y: Vec<u8> = (200..248u8).map(|b| b.wrapping_mul(3)).collect();
    let encoded = encode_uncompressed_point(&x, &y);
    assert_eq!(encoded.len(), 97);
    assert_eq!(encoded[0], 0x04);
    let (dx, dy) = decode_uncompressed_point(&encoded, 48).unwrap();
    assert_eq!(dx, x);
    assert_eq!(dy, y);
}

#[test]
fn test_der_decode_ok() {
    // SEQUENCE { INTEGER 1, INTEGER 0x00ff (with its mandatory zero) }
    let input = vec![0x30u8, 0x07, 0x02, 0x01, 0x01, 0x02, 0x02, 0x00, 0xff];
    let (r, s) = decode_der_signature(&input).unwrap();
    assert_eq!(r, vec![0x01u8]);
    assert_eq!(s, vec![0x00u8, 0xff]);
}

#[test]
fn test_der_nonminimal_integer_rejected() {
    // First INTEGER carries a superfluous leading zero.
    let first = vec![0x30u8, 0x07, 0x02, 0x02, 0x00, 0x01, 0x02, 0x01, 0x01];
    assert_eq!(decode_der_signature(&first), Err(DecodeError::MalformedSignature));
    // Second INTEGER carries a superfluous leading zero.
    let second = vec![0x30u8, 0x07, 0x02, 0x01, 0x01, 0x02, 0x02, 0x00, 0x01];
    assert_eq!(decode_der_signature(&second), Err(DecodeError::MalformedSignature));
}

#[test]
fn test_der_trailing_bytes_rejected() {
    // One byte after the second INTEGER, inside the declared SEQUENCE body.
    let inside = vec![0x30u8, 0x07, 0x02, 0x01, 0x01, 0x02, 0x01, 0x01, 0x00];
    assert_eq!(decode_der_signature(&inside), Err(DecodeError::MalformedSignature));
    // One byte after the SEQUENCE itself.
    let after = vec![0x30u8, 0x06, 0x02, 0x01, 0x01, 0x02, 0x01, 0x01, 0x00];
    assert_eq!(decode_der_signature(&after), Err(DecodeError::MalformedSignature));
}

#[test]
fn test_der_structural_violations_rejected() {
    // Zero is not a positive integer.
    let zero = vec![0x30u8, 0x06, 0x02, 0x01, 0x00, 0x02, 0x01, 0x01];
    assert_eq!(decode_der_signature(&zero), Err(DecodeError::MalformedSignature));
    // A negative integer (high bit set, no leading zero).
    let negative = vec![0x30u8, 0x06, 0x02, 0x01, 0x80, 0x02, 0x01, 0x01];
    assert_eq!(decode_der_signature(&negative), Err(DecodeError::MalformedSignature));
    // Wrong outer tag.
    let tag = vec![0x31u8, 0x06, 0x02, 0x01, 0x01, 0x02, 0x01, 0x01];
    assert_eq!(decode_der_signature(&tag), Err(DecodeError::MalformedSignature));
    // Truncated: declared body longer than the input.
    let truncated = vec![0x30u8, 0x07, 0x02, 0x01, 0x01, 0x02, 0x01, 0x01];
    assert_eq!(decode_der_signature(&truncated), Err(DecodeError::MalformedSignature));
    // Only one INTEGER.
    let one = vec![0x30u8, 0x03, 0x02, 0x01, 0x01];
    assert_eq!(decode_der_signature(&one), Err(DecodeError::MalformedSignature));
    // Empty input.
    let empty: Vec<u8> = Vec::new();
    assert_eq!(decode_der_signature(&empty), Err(DecodeError::MalformedSignature));
    // A non-minimal long-form length (0x81 with a value below 0x80).
    let bad_len = vec![0x30u8, 0x81, 0x06, 0x02, 0x01, 0x01, 0x02, 0x01, 0x01];
    assert_eq!(decode_der_signature(&bad_len), Err(DecodeError::MalformedSignature));
}

#[test]
fn test_der_long_form_lengths_accepted() {
    // A body over 127 bytes forces the 0x81 length form.
    let r = vec![0x01u8; 60];
    let s = vec![0x02u8; 70];
    let mut input = vec![0x30u8, 0x81, 0x86, 0x02, 0x3c];
    input.extend_from_slice(&r);
    input.push(0x02);
    input.push(0x46);
    input.extend_from_slice(&s);
    let (dr, ds) = decode_der_signature(&input).unwrap();
    assert_eq!(dr, r);
    assert_eq!(ds, s);

    // A body over 255 bytes forces the 0x82 length form.
    let r2 = vec![0x01u8; 200];
    let s2 = vec![0x02u8; 100];
    let mut input2 = vec![0x30u8, 0x82, 0x01, 0x31, 0x02, 0x81, 0xc8];
    input2.extend_from_slice(&r2);
    input2.push(0x02);
    input2.push(0x64);
    input2.extend_from_slice(&s2);
    let (dr2, ds2) = decode_der_signature(&input2).unwrap();
    assert_eq!(dr2, r2);
    assert_eq!(ds2, s2);
}

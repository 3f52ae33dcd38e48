use payload_dumper::constants::HEADER_SIZE;
use payload_dumper::header::{HeaderError, PayloadHeader};

fn header_bytes(version: u64, manifest_len: u64, signature_len: u32) -> Vec<u8> {
    let mut b = b"CrAU".to_vec();
    b.extend_from_slice(&version.to_be_bytes());
    b.extend_from_slice(&manifest_len.to_be_bytes());
    b.extend_from_slice(&signature_len.to_be_bytes());
    b
}

#[test]
fn decodes_a_valid_header() {
    let b = header_bytes(2, 0x0102_0304_0506_0708, 0x0a0b_0c0d);
    let h = PayloadHeader::from_bytes(&b).unwrap();
    assert_eq!(h.version, 2);
    assert_eq!(h.manifest_len, 0x0102_0304_0506_0708);
    assert_eq!(h.signature_len, 0x0a0b_0c0d);
}

#[test]
fn trailing_bytes_do_not_change_the_header() {
    let mut b = header_bytes(2, 77, 5);
    let h1 = PayloadHeader::from_bytes(&b).unwrap();
    b.extend_from_slice(&[0xff; 100]);
    let h2 = PayloadHeader::from_bytes(&b).unwrap();
    assert_eq!(h1, h2);
}

#[test]
fn rejects_a_wrong_magic() {
    let mut b = header_bytes(2, 1, 1);
    b[0] = b'P';
    b[1] = b'K';
    assert_eq!(
        PayloadHeader::from_bytes(&b),
        Err(HeaderError::InvalidMagic(b'P', b'K', b'A', b'U'))
    );
}

#[test]
fn rejects_an_unsupported_version() {
    let b = header_bytes(1, 1, 1);
    assert_eq!(PayloadHeader::from_bytes(&b), Err(HeaderError::UnsupportedVersion));
}

#[test]
fn short_buffers_fail_at_the_first_missing_field() {
    assert_eq!(PayloadHeader::from_bytes(b"Cr"), Err(HeaderError::UnexpectedEof));
    assert_eq!(PayloadHeader::from_bytes(b"CrAU\0\0"), Err(HeaderError::UnexpectedEof));
    let b = header_bytes(2, 1, 1);
    assert_eq!(PayloadHeader::from_bytes(&b[..23]), Err(HeaderError::UnexpectedEof));
    // a wrong magic is reported even when the buffer is short afterwards
    assert_eq!(
        PayloadHeader::from_bytes(b"XrAU"),
        Err(HeaderError::InvalidMagic(b'X', b'r', b'A', b'U'))
    );
}

#[test]
fn offsets_follow_the_layout() {
    let h = PayloadHeader { version: 2, manifest_len: 1000, signature_len: 267 };
    assert_eq!(PayloadHeader::size(), HEADER_SIZE);
    assert_eq!(h.signature_offset(), 1024);
    assert_eq!(h.data_offset(), 1291);
    assert!(h.offsets_in_range());
    let big = PayloadHeader { version: 2, manifest_len: u64::MAX - 10, signature_len: 1 };
    assert!(!big.offsets_in_range());
}

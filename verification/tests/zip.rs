use payload_dumper::zip::{
    find_eocd, find_payload_entry, is_zip, local_data_start, parse_zip64_lhdr_offset,
    locate_central_directory, search_window, CdLocation, ZipError, ZipReader,
};

fn le16(v: u16) -> [u8; 2] {
    v.to_le_bytes()
}
fn le32(v: u32) -> [u8; 4] {
    v.to_le_bytes()
}
fn le64(v: u64) -> [u8; 8] {
    v.to_le_bytes()
}

fn local_header(name: &[u8], extra: &[u8]) -> Vec<u8> {
    let mut h = b"PK\x03\x04".to_vec();
    h.extend_from_slice(&[0u8; 22]);
    h.extend_from_slice(&le16(name.len() as u16));
    h.extend_from_slice(&le16(extra.len() as u16));
    h.extend_from_slice(name);
    h.extend_from_slice(extra);
    h
}

fn cd_entry(name: &[u8], compression: u16, lhdr_off: u32, extra: &[u8], comment: &[u8]) -> Vec<u8> {
    let mut e = b"PK\x01\x02".to_vec();
    e.extend_from_slice(&[0u8; 6]);
    e.extend_from_slice(&le16(compression));
    e.extend_from_slice(&[0u8; 16]);
    e.extend_from_slice(&le16(name.len() as u16));
    e.extend_from_slice(&le16(extra.len() as u16));
    e.extend_from_slice(&le16(comment.len() as u16));
    e.extend_from_slice(&[0u8; 8]);
    e.extend_from_slice(&le32(lhdr_off));
    e.extend_from_slice(name);
    e.extend_from_slice(extra);
    e.extend_from_slice(comment);
    e
}

fn eocd(cd_size: u32, cd_offset: u32, comment: &[u8]) -> Vec<u8> {
    let mut e = b"PK\x05\x06".to_vec();
    e.extend_from_slice(&[0u8; 8]);
    e.extend_from_slice(&le32(cd_size));
    e.extend_from_slice(&le32(cd_offset));
    e.extend_from_slice(&le16(comment.len() as u16));
    e.extend_from_slice(comment);
    e
}

/// An archive with `other.txt`, then `payload.bin`; gives it and the data start.
fn archive(payload_compression: u16, comment: &[u8]) -> (Vec<u8>, u64) {
    let mut z = Vec::new();
    let other_off = z.len() as u32;
    z.extend(local_header(b"other.txt", b""));
    z.extend_from_slice(b"hello");
    let payload_off = z.len() as u32;
    z.extend(local_header(b"payload.bin", b"xy"));
    let data_start = z.len() as u64;
    z.extend_from_slice(b"CrAU-payload-data");
    let cd_off = z.len() as u32;
    let mut cd = cd_entry(b"other.txt", 8, other_off, b"e", b"comment");
    cd.extend(cd_entry(b"payload.bin", payload_compression, payload_off, b"", b""));
    z.extend_from_slice(&cd);
    z.extend(eocd(cd.len() as u32, cd_off, comment));
    (z, data_start)
}

fn locate(archive: &[u8]) -> Result<u64, ZipError> {
    let mut z = ZipReader::new();
    z.begin(Some(archive.len() as u64));
    let mut reads = 0;
    while let Some((off, len)) = z.request() {
        let d = &archive[off as usize..(off + len) as usize];
        assert!(z.feed_in_range(d));
        z.feed(d);
        reads += 1;
        assert!(reads <= 4);
    }
    z.outcome().unwrap()
}

#[test]
fn finds_payload_in_a_classic_archive() {
    let (z, start) = archive(0, b"");
    assert_eq!(locate(&z), Ok(start));
}

#[test]
fn finds_payload_when_the_archive_has_a_comment() {
    let (z, start) = archive(0, b"PK\x05\x06 a comment that looks like a record");
    assert_eq!(locate(&z), Ok(start));
}

#[test]
fn refuses_a_compressed_payload() {
    let (z, _) = archive(8, b"");
    assert_eq!(locate(&z), Err(ZipError::PayloadCompressed));
}

#[test]
fn reports_a_missing_payload() {
    let mut z = local_header(b"a", b"");
    let cd = cd_entry(b"a", 0, 0, b"", b"");
    let off = z.len() as u32;
    z.extend_from_slice(&cd);
    z.extend(eocd(cd.len() as u32, off, b""));
    assert_eq!(locate(&z), Err(ZipError::CdEntryOutOfBounds));
}

#[test]
fn small_or_unsized_files_are_refused() {
    assert_eq!(search_window(None), Err(ZipError::FileSizeUnknown));
    assert_eq!(search_window(Some(21)), Err(ZipError::TooSmall));
    assert_eq!(search_window(Some(22)), Ok((0, 22)));
    assert_eq!(search_window(Some(100_000)), Ok((100_000 - 65557, 65557)));
    let mut z = ZipReader::new();
    z.begin(Some(10));
    assert_eq!(z.request(), None);
    assert_eq!(z.outcome(), Some(Err(ZipError::TooSmall)));
}

#[test]
fn no_end_record_is_reported() {
    let buf = vec![0u8; 40];
    assert_eq!(find_eocd(&buf, 40, 0), Err(ZipError::EocdNotFound));
    // a record whose comment length does not reach the end does not count
    let mut b = eocd(0, 0, b"");
    b.extend_from_slice(b"junk");
    assert_eq!(find_eocd(&b, b.len() as u64, 0), Err(ZipError::EocdNotFound));
}

#[test]
fn the_last_matching_record_wins() {
    // two records: the later one (with empty comment at the very end) is chosen
    let inner = eocd(0, 0, b"");
    let mut b = eocd(0, 0, &vec![b'c'; 22]);
    let first_comment_start = b.len() - 22;
    b.truncate(first_comment_start);
    b.extend_from_slice(&inner);
    assert_eq!(find_eocd(&b, b.len() as u64, 0), Ok(22));
}

#[test]
fn zip64_archives_are_followed() {
    // central directory, then ZIP64 end record, locator, classic record
    let mut z = Vec::new();
    let payload_off = z.len() as u64;
    z.extend(local_header(b"payload.bin", b""));
    let data_start = z.len() as u64;
    z.extend_from_slice(b"DATA");
    let mut extra = Vec::new();
    extra.extend_from_slice(&le16(0x0009));
    extra.extend_from_slice(&le16(2));
    extra.extend_from_slice(b"zz");
    extra.extend_from_slice(&le16(0x0001));
    extra.extend_from_slice(&le16(24));
    extra.extend_from_slice(&le64(4));
    extra.extend_from_slice(&le64(4));
    extra.extend_from_slice(&le64(payload_off));
    let cd = cd_entry(b"payload.bin", 0, 0xFFFF_FFFF, &extra, b"");
    z.extend_from_slice(&cd);
    let eocd64_off = z.len() as u64;
    let mut rec = b"PK\x06\x06".to_vec();
    rec.extend_from_slice(&[0u8; 36]);
    rec.extend_from_slice(&le64(cd.len() as u64));
    rec.extend_from_slice(&le64(0));
    assert_eq!(rec.len(), 56);
    z.extend_from_slice(&rec);
    let mut loc = b"PK\x06\x07".to_vec();
    loc.extend_from_slice(&le32(0));
    loc.extend_from_slice(&le64(eocd64_off));
    loc.extend_from_slice(&le32(1));
    z.extend_from_slice(&loc);
    z.extend(eocd(0xFFFF_FFFF, 0xFFFF_FFFF, b""));
    assert_eq!(locate(&z), Ok(data_start));

    let mut r = ZipReader::new();
    r.begin(Some(z.len() as u64));
    let (off, len) = r.request().unwrap();
    r.feed(&z[off as usize..(off + len) as usize]);
    assert_eq!(r.request(), Some((eocd64_off, 56)));
}

#[test]
fn zip64_errors() {
    // offset saturated but no room for a locator
    let b = eocd(0, 0xFFFF_FFFF, b"");
    assert_eq!(locate(&b), Err(ZipError::NoRoomForZip64Locator));
    // room but no locator signature
    let mut b = vec![0u8; 20];
    b.extend(eocd(0, 0xFFFF_FFFF, b""));
    assert_eq!(locate(&b), Err(ZipError::Zip64LocatorNotFound));
    // locator pointing at something that is not a ZIP64 record
    let mut b = vec![0u8; 60];
    let mut loc = b"PK\x06\x07".to_vec();
    loc.extend_from_slice(&le32(0));
    loc.extend_from_slice(&le64(0));
    loc.extend_from_slice(&le32(1));
    b.extend_from_slice(&loc);
    b.extend(eocd(0, 0xFFFF_FFFF, b""));
    assert_eq!(locate(&b), Err(ZipError::Zip64EocdNotFound));
    // a ZIP64 record whose directory would start before the file
    let mut rec = b"PK\x06\x06".to_vec();
    rec.extend_from_slice(&[0u8; 36]);
    rec.extend_from_slice(&le64(1000));
    rec.extend_from_slice(&le64(0));
    let mut b = rec.clone();
    let mut loc = b"PK\x06\x07".to_vec();
    loc.extend_from_slice(&le32(0));
    loc.extend_from_slice(&le64(0));
    loc.extend_from_slice(&le32(1));
    b.extend_from_slice(&loc);
    b.extend(eocd(0, 0xFFFF_FFFF, b""));
    assert_eq!(locate(&b), Err(ZipError::CdSizeTooLarge));
}

#[test]
fn zip64_extra_field_parsing() {
    let mut extra = Vec::new();
    extra.extend_from_slice(&le16(0x0001));
    extra.extend_from_slice(&le16(24));
    extra.extend_from_slice(&le64(1));
    extra.extend_from_slice(&le64(2));
    extra.extend_from_slice(&le64(0x1234_5678_9abc));
    assert_eq!(parse_zip64_lhdr_offset(&extra), Ok(0x1234_5678_9abc));
    let mut small = Vec::new();
    small.extend_from_slice(&le16(0x0001));
    small.extend_from_slice(&le16(8));
    small.extend_from_slice(&le64(1));
    assert_eq!(parse_zip64_lhdr_offset(&small), Err(ZipError::Zip64ExtraTooSmall));
    assert_eq!(parse_zip64_lhdr_offset(&[]), Err(ZipError::Zip64ExtraNotFound));
    let mut other = Vec::new();
    other.extend_from_slice(&le16(0x7075));
    other.extend_from_slice(&le16(1));
    other.push(0);
    assert_eq!(parse_zip64_lhdr_offset(&other), Err(ZipError::Zip64ExtraNotFound));
    // a block that claims more bytes than there are ends the search
    let mut cut = Vec::new();
    cut.extend_from_slice(&le16(0x0001));
    cut.extend_from_slice(&le16(24));
    cut.extend_from_slice(&le64(1));
    assert_eq!(parse_zip64_lhdr_offset(&cut), Err(ZipError::Zip64ExtraNotFound));
}

#[test]
fn central_directory_errors() {
    assert_eq!(find_payload_entry(&[0u8; 10]), Err(ZipError::CdEntryOutOfBounds));
    assert_eq!(find_payload_entry(&[0u8; 46]), Err(ZipError::InvalidCdSignature));
    let mut e = cd_entry(b"payload.bin", 0, 7, b"", b"");
    e.truncate(50);
    assert_eq!(find_payload_entry(&e), Err(ZipError::FileNameOutOfBounds));
    let mut e = cd_entry(b"x", 0, 7, b"", b"");
    e[32] = 0xff; // a comment longer than the directory
    assert_eq!(find_payload_entry(&e), Err(ZipError::EntryOverflows));
    let e = cd_entry(b"payload.bin", 0, 7, b"", b"");
    assert_eq!(find_payload_entry(&e), Ok(7));
}

#[test]
fn local_header_gives_the_data_start() {
    let h = local_header(b"payload.bin", b"abc");
    assert_eq!(local_data_start(&h[..30], 100), Ok(100 + 30 + 11 + 3));
    let mut bad = h.clone();
    bad[2] = 1;
    assert_eq!(local_data_start(&bad[..30], 100), Err(ZipError::InvalidLocalHeader));
}

#[test]
fn zip_magic_is_recognised() {
    assert!(is_zip(b"PK\x03\x04rest"));
    assert!(!is_zip(b"CrAU"));
    assert!(!is_zip(b"PK"));
}

#[test]
fn stages_are_reported() {
    let (z, _) = archive(0, b"");
    let mut r = ZipReader::new();
    r.begin(Some(z.len() as u64));
    let (off, len) = r.request().unwrap();
    assert_eq!((off, len), (0, z.len() as u64));
    r.feed(&z[..]);
    // the classic record names the central directory, which is read next
    let eocd_pos = z.len() - 22;
    let loc = locate_central_directory(&z, eocd_pos).unwrap();
    match loc {
        CdLocation::Direct { cd_offset, cd_size } => {
            assert_eq!(r.request(), Some((cd_offset, cd_size)));
        }
        CdLocation::Zip64 { .. } => panic!("classic archive"),
    }
    assert_eq!(r.outcome(), None);
}

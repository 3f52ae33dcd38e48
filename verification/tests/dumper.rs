use payload_dumper::constants::BUF_SIZE;
use payload_dumper::dumper::{ManifestSource, PayloadDumper, ReadRequest};
use payload_dumper::header::HeaderError;
use payload_dumper::manifest::{DeltaArchiveManifest, PartitionInfo, PartitionUpdate};
use payload_dumper::payload::Payload;

fn header_bytes(manifest_len: u64, signature_len: u32) -> Vec<u8> {
    let mut b = b"CrAU".to_vec();
    b.extend_from_slice(&2u64.to_be_bytes());
    b.extend_from_slice(&manifest_len.to_be_bytes());
    b.extend_from_slice(&signature_len.to_be_bytes());
    b
}

fn manifest(name: &str) -> DeltaArchiveManifest {
    DeltaArchiveManifest {
        block_size: None,
        partitions: vec![PartitionUpdate {
            partition_name: name.to_string(),
            new_partition_info: Some(PartitionInfo { size: Some(1), hash: None }),
            old_partition_info: None,
            operations: vec![],
        }],
    }
}

#[test]
fn a_new_dumper_has_read_nothing() {
    let d = PayloadDumper::new(Payload::from_file("f"));
    assert_eq!(d.buf_size(), BUF_SIZE);
    assert!(d.cached_header().is_none());
    assert!(d.manifest().is_none());
    assert_eq!(d.header_request(), Some(ReadRequest::At { offset: 0, len: 24 }));
    let d = PayloadDumper::with_buf_size(Payload::from_url("u"), 17);
    assert_eq!(d.buf_size(), 17);
    assert!(d.payload().is_remote());
}

#[test]
fn the_header_is_read_once() {
    let mut d = PayloadDumper::new(Payload::from_file("f"));
    assert_eq!(d.get_header(b"XXXX"), Err(HeaderError::InvalidMagic(b'X', b'X', b'X', b'X')));
    assert!(d.cached_header().is_none());
    let h = d.get_header(&header_bytes(100, 7)).unwrap();
    assert_eq!(h.manifest_len, 100);
    assert_eq!(d.header_request(), None);
    // later bytes are ignored: the kept header is given
    assert_eq!(d.get_header(b"garbage"), Ok(h));
}

#[test]
fn signatures_and_manifest_follow_the_header() {
    let mut d = PayloadDumper::new(Payload::from_url("u"));
    d.get_header(&header_bytes(100, 7)).unwrap();
    assert_eq!(d.signatures_request(), Some(ReadRequest::At { offset: 124, len: 7 }));
    assert_eq!(d.get_signatures_bytes(vec![1, 2, 3]), vec![1, 2, 3]);
    assert_eq!(d.signatures_request(), None);
    assert_eq!(d.get_signatures_bytes(vec![9]), vec![1, 2, 3]);

    assert_eq!(d.get_manifest_bytes(), ManifestSource::Read(ReadRequest::Next { len: 100 }));
    let m = d.get_manifest(manifest("boot"));
    assert_eq!(m.partitions[0].partition_name, "boot");
    assert_eq!(d.get_manifest_bytes(), ManifestSource::Decoded);
    // a second manifest does not replace the first
    let m = d.get_manifest(manifest("other"));
    assert_eq!(m.partitions[0].partition_name, "boot");
    let s = d.get_part_manifest(Err::<DeltaArchiveManifest, &str>("not fetched")).unwrap();
    assert!(s.is_http);
    assert_eq!(s.partitions.len(), 1);
    assert_eq!(s.partitions[0].download_size, Some(0));
}

#[test]
fn buffer_size_changes_no_answer() {
    let mut a = PayloadDumper::new(Payload::from_url("u"));
    let mut b = PayloadDumper::with_buf_size(Payload::from_url("u"), 1);
    assert_eq!(a.header_request(), b.header_request());
    let h = header_bytes(10, 3);
    assert_eq!(a.get_header(&h), b.get_header(&h));
    assert_eq!(a.signatures_request(), b.signatures_request());
    assert_eq!(a.get_signatures_bytes(vec![4, 5]), b.get_signatures_bytes(vec![4, 5]));
    assert_eq!(a.get_manifest_bytes(), b.get_manifest_bytes());
    a.get_manifest(manifest("boot"));
    b.get_manifest(manifest("boot"));
    let sa = a.get_part_manifest(Ok::<_, ()>(manifest("other"))).unwrap();
    let sb = b.get_part_manifest(Ok::<_, ()>(manifest("other"))).unwrap();
    assert_eq!(sa.is_http, sb.is_http);
    assert_eq!(sa.partitions[0].partition_name, sb.partitions[0].partition_name);
}

#[test]
fn the_summary_is_stable_and_marks_http_by_payload_kind() {
    let mut d = PayloadDumper::new(Payload::from_file("f"));
    d.get_header(&header_bytes(10, 3)).unwrap();
    d.get_manifest(manifest("boot"));
    let s1 = d.get_part_manifest(Ok::<_, ()>(manifest("boot"))).unwrap();
    d.get_manifest(manifest("other"));
    let s2 = d.get_part_manifest(Ok::<_, ()>(manifest("other"))).unwrap();
    assert!(!s1.is_http && !s2.is_http);
    assert_eq!(s1.partitions[0].partition_name, s2.partitions[0].partition_name);
    assert_eq!(s1.block_size, s2.block_size);
}

#[test]
fn a_failed_fetch_fails_the_summary_and_keeps_nothing() {
    let mut d = PayloadDumper::new(Payload::from_file("f"));
    d.get_header(&header_bytes(10, 3)).unwrap();
    let r = d.get_part_manifest(Err::<DeltaArchiveManifest, &str>("truncated manifest"));
    assert_eq!(r.err(), Some("truncated manifest"));
    assert!(d.manifest().is_none());
    assert_eq!(d.get_manifest_bytes(), ManifestSource::Read(ReadRequest::Next { len: 10 }));
}

#[test]
fn a_fetched_manifest_is_kept_for_later_summaries() {
    let mut d = PayloadDumper::new(Payload::from_url("u"));
    d.get_header(&header_bytes(10, 3)).unwrap();
    let s1 = d.get_part_manifest(Ok::<_, &str>(manifest("system"))).unwrap();
    assert_eq!(s1.partitions[0].partition_name, "system");
    assert!(s1.is_http);
    assert_eq!(d.manifest().unwrap().partitions[0].partition_name, "system");
    // a later fetch, failed or not, changes nothing
    let s2 = d.get_part_manifest(Err::<DeltaArchiveManifest, &str>("network down")).unwrap();
    let s3 = d.get_part_manifest(Ok::<_, &str>(manifest("vendor"))).unwrap();
    assert_eq!(s2.partitions[0].partition_name, "system");
    assert_eq!(s3.partitions[0].partition_name, "system");
}

use payload_dumper::manifest::{
    download_sizes_in_range, part_manifest_of, DeltaArchiveManifest, Extent, InstallOperation,
    PartitionInfo, PartitionUpdate,
};
use payload_dumper::payload::Payload;

fn op(t: i32, off: u64, len: Option<u64>, hash: Option<Vec<u8>>, blocks: &[u64]) -> InstallOperation {
    InstallOperation {
        op_type: t,
        data_offset: Some(off),
        data_length: len,
        dst_extents: blocks
            .iter()
            .map(|b| Extent { start_block: Some(0), num_blocks: Some(*b) })
            .collect(),
        data_sha256_hash: hash,
    }
}

fn manifest() -> DeltaArchiveManifest {
    DeltaArchiveManifest {
        block_size: Some(4096),
        partitions: vec![
            PartitionUpdate {
                partition_name: "boot".to_string(),
                new_partition_info: Some(PartitionInfo { size: Some(8192), hash: Some(vec![1, 2]) }),
                old_partition_info: None,
                operations: vec![
                    op(0, 0, Some(100), Some(vec![0xde, 0xad, 0x01]), &[1]),
                    op(1, 100, None, None, &[1, 5]),
                ],
            },
            PartitionUpdate {
                partition_name: "skipped".to_string(),
                new_partition_info: None,
                old_partition_info: None,
                operations: vec![op(0, 0, Some(1), None, &[1])],
            },
            PartitionUpdate {
                partition_name: "vendor".to_string(),
                new_partition_info: Some(PartitionInfo { size: None, hash: None }),
                old_partition_info: Some(PartitionInfo { size: Some(1), hash: None }),
                operations: vec![op(8, 200, Some(50), Some(vec![0xff]), &[])],
            },
        ],
    }
}

#[test]
fn summary_of_a_local_payload() {
    let m = manifest();
    let p = Payload::from_file("x");
    assert!(download_sizes_in_range(&m, &p));
    let s = part_manifest_of(&m, &p);
    assert!(!s.is_http);
    assert_eq!(s.block_size, Some(4096));
    let names: Vec<&str> = s.partitions.iter().map(|u| u.partition_name.as_str()).collect();
    assert_eq!(names, vec!["boot", "vendor"]);
    let boot = &s.partitions[0];
    assert!(!boot.incremental);
    assert_eq!(boot.download_size, None);
    let info = boot.new_partition_info.as_ref().unwrap();
    assert_eq!(info.size, Some(8192));
    assert_eq!(info.hash, Some(vec![1, 2]));
    assert_eq!(boot.operations.len(), 2);
    assert_eq!(boot.operations[0].sha_hash, "dead01");
    assert_eq!(boot.operations[0].data_length, Some(100));
    assert_eq!(boot.operations[1].sha_hash, "");
    assert_eq!(boot.operations[1].op_type, 1);
    assert_eq!(boot.operations[1].dst_extents.len(), 2);
    assert_eq!(boot.operations[1].dst_extents[1].num_blocks, Some(5));
    let vendor = &s.partitions[1];
    assert!(vendor.incremental);
    assert_eq!(vendor.operations[0].sha_hash, "ff");
    assert!(vendor.operations[0].dst_extents.is_empty());
}

#[test]
fn summary_of_a_remote_payload_counts_download_bytes() {
    let m = manifest();
    let p = Payload::from_url("http://h/p.zip");
    let s = part_manifest_of(&m, &p);
    assert!(s.is_http);
    assert_eq!(s.partitions[0].download_size, Some(100));
    assert_eq!(s.partitions[1].download_size, Some(50));
}

#[test]
fn download_sizes_that_overflow_are_detected() {
    let mut m = manifest();
    m.partitions[0].operations[1].data_length = Some(u64::MAX);
    assert!(!download_sizes_in_range(&m, &Payload::from_url("u")));
    assert!(download_sizes_in_range(&m, &Payload::from_file("f")));
    // a partition left out of the summary does not count
    let mut m = manifest();
    m.partitions[1].operations.push(op(0, 0, Some(u64::MAX), None, &[1]));
    assert!(download_sizes_in_range(&m, &Payload::from_url("u")));
}

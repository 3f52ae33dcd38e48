use payload_dumper::manifest::{PartManifest, UpdateInfo};
use payload_dumper::session::{effective_block_size, partition_at, ErrorLog, SessionError};

fn update(name: &str) -> UpdateInfo {
    UpdateInfo {
        partition_name: name.to_string(),
        new_partition_info: None,
        operations: vec![],
        incremental: false,
        download_size: None,
    }
}

#[test]
fn partitions_by_index() {
    let m = PartManifest { is_http: false, partitions: vec![update("a"), update("b")], block_size: None };
    assert_eq!(partition_at(&m, 1).unwrap().partition_name, "b");
    assert!(matches!(partition_at(&m, 2), Err(SessionError::NoPartition(2))));
    assert!(matches!(partition_at(&m, -1), Err(SessionError::NoPartition(-1))));
    assert_eq!(effective_block_size(&m), 4096);
    let m = PartManifest { is_http: false, partitions: vec![], block_size: Some(512) };
    assert_eq!(effective_block_size(&m), 512);
}

#[test]
fn errors_are_kept_by_task() {
    let mut log = ErrorLog::new();
    assert_eq!(log.message(3), "");
    log.record(3, "disk full".to_string());
    assert_eq!(log.message(3), "disk full");
    log.record(3, "again".to_string());
    assert_eq!(log.message(3), "again");
    // ids are kept by their low byte
    log.record(256 + 7, "wrapped".to_string());
    assert_eq!(log.message(7), "wrapped");
    assert_eq!(log.message(4), "");
}

use std::io::Write;

use sha2::Digest;

use payload_dumper::extract::{
    check_written, decode_operation, operation_kind, plan_in_range, plan_operation,
    verify_hash, Decoded, ExtractError, ExtractJob, JobAction, JobPhase, OperationKind, OperationPlan,
    Output,
};
use payload_dumper::manifest::{DstExtent, Operation};

fn op(off: Option<u64>, len: Option<u64>, blocks: Option<u64>, extents: bool, t: i32) -> Operation {
    Operation {
        data_offset: off,
        data_length: len,
        sha_hash: String::new(),
        op_type: t,
        dst_extents: if extents { vec![DstExtent { num_blocks: blocks }] } else { vec![] },
    }
}

#[test]
fn operation_kinds() {
    assert_eq!(operation_kind(0), OperationKind::Replace);
    assert_eq!(operation_kind(1), OperationKind::ReplaceBz);
    assert_eq!(operation_kind(8), OperationKind::ReplaceXz);
    assert_eq!(operation_kind(14), OperationKind::ReplaceZstd);
    assert_eq!(operation_kind(6), OperationKind::Zero);
    assert_eq!(operation_kind(4), OperationKind::Unsupported(4));
    assert_eq!(operation_kind(9), OperationKind::Unsupported(9));
    // numbers outside the defined types read as the default type
    assert_eq!(operation_kind(99), OperationKind::Replace);
    assert_eq!(operation_kind(-1), OperationKind::Replace);
}

#[test]
fn plans() {
    let o = op(Some(10), Some(20), Some(3), true, 1);
    assert_eq!(
        plan_operation(&o, 1000, 4096).ok(),
        Some(OperationPlan { kind: OperationKind::ReplaceBz, offset: 1010, data_len: 20, exp_size: 12288 })
    );
    assert!(matches!(plan_operation(&op(Some(1), Some(1), Some(1), false, 0), 0, 1), Err(ExtractError::InvalidOperation)));
    assert!(matches!(plan_operation(&op(None, Some(1), Some(1), true, 0), 0, 1), Err(ExtractError::InvalidOperation)));
    assert!(matches!(plan_operation(&op(Some(1), None, Some(1), true, 0), 0, 1), Err(ExtractError::InvalidOperation)));
    assert!(matches!(plan_operation(&op(Some(1), Some(1), None, true, 0), 0, 1), Err(ExtractError::InvalidOperation)));
    assert!(plan_in_range(&o, 1000, 4096));
    assert!(!plan_in_range(&op(Some(u64::MAX), Some(1), Some(1), true, 0), 1, 1));
    assert!(!plan_in_range(&op(Some(1), Some(1), Some(u64::MAX), true, 0), 0, 2));
    assert!(plan_in_range(&op(Some(1), Some(1), Some(u64::MAX), true, 0), 0, 1));
    // an operation refused before the arithmetic is in range
    assert!(plan_in_range(&op(Some(u64::MAX), Some(1), Some(1), false, 0), 1, 1));
    assert!(plan_in_range(&op(Some(1), None, Some(u64::MAX), true, 0), 0, 2));
    assert!(matches!(
        plan_operation(&op(Some(u64::MAX), Some(1), Some(1), false, 0), 1, 1),
        Err(ExtractError::InvalidOperation)
    ));
}

fn bytes(o: Decoded) -> Vec<u8> {
    match o {
        Decoded::Complete(Output::Bytes(v)) => v,
        _ => panic!("not complete bytes"),
    }
}

#[test]
fn decoding() {
    let data: Vec<u8> = (0..5000u32).map(|i| (i % 251) as u8).collect();
    assert_eq!(bytes(decode_operation(OperationKind::Replace, data.clone()).unwrap()), data);

    let mut bz = bzip2::write::BzEncoder::new(Vec::new(), bzip2::Compression::default());
    bz.write_all(&data).unwrap();
    let bz = bz.finish().unwrap();
    assert_eq!(bytes(decode_operation(OperationKind::ReplaceBz, bz).unwrap()), data);

    let mut xz = liblzma::write::XzEncoder::new(Vec::new(), 6);
    xz.write_all(&data).unwrap();
    let xz = xz.finish().unwrap();
    assert_eq!(bytes(decode_operation(OperationKind::ReplaceXz, xz).unwrap()), data);

    let zs = zstd::encode_all(&data[..], 3).unwrap();
    assert_eq!(bytes(decode_operation(OperationKind::ReplaceZstd, zs).unwrap()), data);

    for kind in [OperationKind::ReplaceBz, OperationKind::ReplaceXz, OperationKind::ReplaceZstd] {
        assert!(matches!(decode_operation(kind, data.clone()), Ok(Decoded::Broken(_, _))));
    }
    // a cut stream leaves what was decoded before the cut
    let mut big = bzip2::write::BzEncoder::new(Vec::new(), bzip2::Compression::new(1));
    let long: Vec<u8> = (0..400_000u32).map(|i| (i * 7 % 253) as u8).collect();
    big.write_all(&long).unwrap();
    let big = big.finish().unwrap();
    match decode_operation(OperationKind::ReplaceBz, big[..big.len() / 2].to_vec()) {
        Ok(Decoded::Broken(partial, _)) => {
            assert!(!partial.is_empty());
            assert!(partial.len() < long.len());
            assert_eq!(partial[..], long[..partial.len()]);
        }
        _ => panic!("expected a broken stream"),
    }
    assert!(matches!(decode_operation(OperationKind::Zero, data.clone()), Ok(Decoded::Complete(Output::Zeros))));
    assert!(matches!(decode_operation(OperationKind::Unsupported(3), data), Err(ExtractError::UnsupportedType(3))));
}

#[test]
fn sizes_and_hashes() {
    assert!(check_written(4096, 4096).is_ok());
    assert!(matches!(
        check_written(10, 4096),
        Err(ExtractError::SizeMismatch { written: 10, expected: 4096 })
    ));
    let good = "ba7816bf8f01cfea414140de5dae2223b00361a396177a9cb410ff61f20015ad".to_string();
    assert!(verify_hash(b"abc", &good).is_ok());
    match verify_hash(b"abd", &good) {
        Err(ExtractError::HashMismatch { computed, listed }) => {
            assert_eq!(listed, good);
            assert_ne!(computed, good);
            assert_eq!(computed.len(), 64);
        }
        _ => panic!("expected a mismatch"),
    }
    assert!(matches!(verify_hash(b"abc", &"BA78".to_string()), Err(ExtractError::HashMismatch { .. })));
}


/// Runs a job against the payload bytes `payload`; gives the image written,
/// the reports made, and the error it stopped with.
fn run(job: &mut ExtractJob, payload: &[u8], cancel_at: Option<usize>) -> (Vec<u8>, Vec<(usize, usize)>, Option<ExtractError>) {
    let mut image = Vec::new();
    let mut reports = Vec::new();
    let mut action = JobAction::Next;
    loop {
        action = match action {
            JobAction::Next => {
                assert!(job.next_plan_in_range());
                job.plan_next()
            }
            JobAction::Read { offset, len } => {
                job.on_blob(payload[offset as usize..(offset + len) as usize].to_vec())
            }
            JobAction::Write(Output::Bytes(d)) => {
                image.extend_from_slice(&d);
                job.on_written(d.len() as u64)
            }
            JobAction::Write(Output::Zeros) => panic!("zeros"),
            JobAction::Report { completed, total } => {
                reports.push((completed, total));
                job.on_reported(cancel_at != Some(completed))
            }
            JobAction::WriteThenFail(d, e) => {
                image.extend_from_slice(&d);
                return (image, reports, Some(e));
            }
            JobAction::Finish => return (image, reports, None),
            JobAction::Fail(e) => return (image, reports, Some(e)),
        };
    }
}

fn sha_hex(d: &[u8]) -> String {
    hex::encode(sha2::Sha256::digest(d))
}

fn job_ops(payload: &[u8]) -> Vec<Operation> {
    // two Replace operations of 4 bytes each, one block of 4 bytes apiece
    vec![
        Operation {
            data_offset: Some(0),
            data_length: Some(4),
            sha_hash: sha_hex(&payload[10..14]),
            op_type: 0,
            dst_extents: vec![DstExtent { num_blocks: Some(1) }],
        },
        Operation {
            data_offset: Some(4),
            data_length: Some(4),
            sha_hash: sha_hex(&payload[14..18]),
            op_type: 0,
            dst_extents: vec![DstExtent { num_blocks: Some(1) }],
        },
    ]
}

#[test]
fn a_job_writes_every_operation_in_order() {
    let payload: Vec<u8> = (0u8..32).collect();
    let mut job = ExtractJob::new(job_ops(&payload), 10, 4, true, true);
    let (image, reports, err) = run(&mut job, &payload, None);
    assert!(err.is_none());
    assert_eq!(image, payload[10..18].to_vec());
    assert_eq!(reports, vec![(1, 2), (2, 2)]);
    assert_eq!(job.phase(), JobPhase::Done);
}

#[test]
fn a_job_stops_at_the_first_failure() {
    let payload: Vec<u8> = (0u8..32).collect();
    // cancelled after the first report
    let mut job = ExtractJob::new(job_ops(&payload), 10, 4, false, true);
    let (image, _, err) = run(&mut job, &payload, Some(1));
    assert!(matches!(err, Some(ExtractError::Cancelled)));
    assert_eq!(image, payload[10..14].to_vec());
    // a wrong hash on the second operation, checked after it is written
    let mut ops = job_ops(&payload);
    ops[1].sha_hash = "00".to_string();
    let mut job = ExtractJob::new(ops, 10, 4, true, false);
    let (image, _, err) = run(&mut job, &payload, None);
    assert!(matches!(err, Some(ExtractError::HashMismatch { .. })));
    assert_eq!(image, payload[10..18].to_vec());
    // without verification the hash is not looked at
    let mut ops = job_ops(&payload);
    ops[1].sha_hash = "00".to_string();
    let mut job = ExtractJob::new(ops, 10, 4, false, false);
    assert!(run(&mut job, &payload, None).2.is_none());
    // a size that does not match the extent
    let mut job = ExtractJob::new(job_ops(&payload), 10, 8, false, false);
    let (image, _, err) = run(&mut job, &payload, None);
    assert!(matches!(err, Some(ExtractError::SizeMismatch { written: 4, expected: 8 })));
    assert_eq!(image, payload[10..14].to_vec());
    // an invalid operation
    let mut ops = job_ops(&payload);
    ops[0].data_length = None;
    let mut job = ExtractJob::new(ops, 10, 4, false, false);
    assert!(matches!(run(&mut job, &payload, None).2, Some(ExtractError::InvalidOperation)));
    // no operations: finished at once
    let mut job = ExtractJob::new(vec![], 10, 4, true, true);
    let (image, reports, err) = run(&mut job, &payload, None);
    assert!(image.is_empty() && reports.is_empty() && err.is_none());
}

#[test]
fn a_broken_blob_leaves_what_it_decoded_before_the_failure() {
    let long: Vec<u8> = (0..400_000u32).map(|i| (i * 7 % 253) as u8).collect();
    let mut enc = bzip2::write::BzEncoder::new(Vec::new(), bzip2::Compression::new(1));
    enc.write_all(&long).unwrap();
    let stream = enc.finish().unwrap();
    let cut = stream[..stream.len() / 2].to_vec();
    let ops = vec![Operation {
        data_offset: Some(0),
        data_length: Some(cut.len() as u64),
        sha_hash: String::new(),
        op_type: 1,
        dst_extents: vec![DstExtent { num_blocks: Some(100) }],
    }];
    let mut job = ExtractJob::new(ops, 0, 4096, false, true);
    let (image, reports, err) = run(&mut job, &cut, None);
    assert!(matches!(err, Some(ExtractError::DecodeFailed(_))));
    assert!(reports.is_empty());
    assert!(!image.is_empty() && image.len() < long.len());
    assert_eq!(image[..], long[..image.len()]);
}

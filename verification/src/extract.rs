//! The rules by which one install operation of a partition is extracted:
//! which blob it reads, how the blob is decoded, how many bytes it must
//! produce, and how its hash is checked.
use vstd::prelude::*;
use crate::digest::{hex_encode, hex_lower, sha256, sha256_digest};
use crate::manifest::{Operation, OperationView};

verus! {

/// Install operation types this dumper knows, by the numbers the manifest uses.
pub const TYPE_REPLACE: i32 = 0;
pub const TYPE_REPLACE_BZ: i32 = 1;
pub const TYPE_ZERO: i32 = 6;
pub const TYPE_REPLACE_XZ: i32 = 8;
pub const TYPE_REPLACE_ZSTD: i32 = 14;
/// The largest operation type number the manifest format defines.
pub const TYPE_MAX_KNOWN: i32 = 14;

/// How an operation's data is turned into partition bytes.
#[derive(Clone, Copy, Debug, PartialEq, Eq)]
pub enum OperationKind {
    /// The blob is written as it is.
    Replace,
    /// The blob is bzip2 data.
    ReplaceBz,
    /// The blob is xz data.
    ReplaceXz,
    /// The blob is zstd data.
    ReplaceZstd,
    /// The target is filled with zeros.
    Zero,
    /// A type this dumper cannot extract (a delta or copy operation); its number.
    Unsupported(i32),
}

/// The kind of an operation type number. A number outside the defined types
/// reads as `Replace`, the type's default.
pub open spec fn kind_of_spec(t: i32) -> OperationKind {
    if t == TYPE_REPLACE || t < 0 || t > TYPE_MAX_KNOWN {
        OperationKind::Replace
    } else if t == TYPE_REPLACE_BZ {
        OperationKind::ReplaceBz
    } else if t == TYPE_REPLACE_XZ {
        OperationKind::ReplaceXz
    } else if t == TYPE_REPLACE_ZSTD {
        OperationKind::ReplaceZstd
    } else if t == TYPE_ZERO {
        OperationKind::Zero
    } else {
        OperationKind::Unsupported(t)
    }
}

/// The kind of an operation type number.
pub fn operation_kind(t: i32) -> (k: OperationKind)
    ensures
        k == kind_of_spec(t),
{
    if t == TYPE_REPLACE || t < 0 || t > TYPE_MAX_KNOWN {
        OperationKind::Replace
    } else if t == TYPE_REPLACE_BZ {
        OperationKind::ReplaceBz
    } else if t == TYPE_REPLACE_XZ {
        OperationKind::ReplaceXz
    } else if t == TYPE_REPLACE_ZSTD {
        OperationKind::ReplaceZstd
    } else if t == TYPE_ZERO {
        OperationKind::Zero
    } else {
        OperationKind::Unsupported(t)
    }
}

/// `std::io::Error`, the error a decoder reports.
#[verifier::external_type_specification]
#[verifier::external_body]
pub struct ExIoError(std::io::Error);

/// Why an operation could not be extracted.
#[derive(Debug)]
pub enum ExtractError {
    /// The operation lacks a destination extent, a data offset, a data length
    /// or a block count.
    InvalidOperation,
    /// The operation's type cannot be extracted; its number.
    UnsupportedType(i32),
    /// The compressed blob did not decode; the decoder's error.
    DecodeFailed(std::io::Error),
    /// The decoded data has another length than the destination extent.
    SizeMismatch { written: u64, expected: u64 },
    /// The user stopped the extraction.
    Cancelled,
    /// The blob's hash differs from the manifest's: computed, then expected.
    HashMismatch { computed: String, listed: String },
}

/// Where an operation's blob is and what it must produce.
#[derive(Clone, Copy, Debug, PartialEq, Eq)]
pub struct OperationPlan {
    pub kind: OperationKind,
    /// Absolute offset of the blob in the payload.
    pub offset: u64,
    /// Length of the blob.
    pub data_len: u64,
    /// Number of bytes the operation must write.
    pub exp_size: u64,
}

/// Whether planning `op` stays within `u64` arithmetic: the blob offset is
/// summed once the operation has an extent, the expected size multiplied
/// once it also has a data offset and length.
pub open spec fn plan_fits(op: OperationView, data_offset_base: u64, block_size: u64) -> bool {
    op.dst_extents.len() > 0 ==> {
        &&& (op.data_offset matches Some(o) ==> o + data_offset_base <= u64::MAX)
        &&& (op.data_offset is Some && op.data_length is Some) ==> (
        op.dst_extents[0].num_blocks matches Some(n) ==> n * block_size <= u64::MAX)
    }
}

/// The plan of `op`, or why it is invalid. The fields are checked in the
/// order the extraction reads them: extent, offset, length, block count.
pub open spec fn plan_spec(op: OperationView, data_offset_base: u64, block_size: u64) -> Result<
    OperationPlan,
    ExtractError,
> {
    if op.dst_extents.len() == 0 {
        Err(ExtractError::InvalidOperation)
    } else {
        match (op.data_offset, op.data_length, op.dst_extents[0].num_blocks) {
            (Some(o), Some(l), Some(n)) => Ok(
                OperationPlan {
                    kind: kind_of_spec(op.op_type),
                    offset: (o + data_offset_base) as u64,
                    data_len: l,
                    exp_size: (n * block_size) as u64,
                },
            ),
            _ => Err(ExtractError::InvalidOperation),
        }
    }
}

/// A plan places the blob at the operation's data offset counted from the
/// data region, and sizes it by its data length and its first extent: an
/// operation with an extent, a data offset `o`, a data length `l` and a
/// block count `n` plans the blob at `o + data_offset_base`, `l` bytes long,
/// to write `n * block_size` bytes, with the kind its type names; an
/// operation that lacks one of them is invalid.
pub proof fn lemma_plan_places_blob(op: OperationView, data_offset_base: u64, block_size: u64)
    requires
        plan_fits(op, data_offset_base, block_size),
    ensures
        plan_spec(op, data_offset_base, block_size) is Ok <==> (op.dst_extents.len() > 0
            && op.data_offset is Some && op.data_length is Some
            && op.dst_extents[0].num_blocks is Some),
        plan_spec(op, data_offset_base, block_size) is Err ==> plan_spec(
            op,
            data_offset_base,
            block_size,
        ) == Err::<OperationPlan, ExtractError>(ExtractError::InvalidOperation),
        plan_spec(op, data_offset_base, block_size) matches Ok(p) ==> {
            &&& p.offset as int == op.data_offset->Some_0 + data_offset_base
            &&& p.data_len == op.data_length->Some_0
            &&& p.exp_size as int == op.dst_extents[0].num_blocks->Some_0 * block_size
            &&& p.kind == kind_of_spec(op.op_type)
        },
{
}

/// The kind of each operation type number: 0 stores its blob, 1, 8 and 14
/// hold it compressed with bzip2, xz and zstd, 6 writes zeros; the other
/// known types, 2 to 13, cannot be extracted, and a number outside the
/// known types reads as the default type, 0.
pub proof fn lemma_operation_kinds(t: i32)
    ensures
        t == 0 ==> kind_of_spec(t) == OperationKind::Replace,
        t == 1 ==> kind_of_spec(t) == OperationKind::ReplaceBz,
        t == 6 ==> kind_of_spec(t) == OperationKind::Zero,
        t == 8 ==> kind_of_spec(t) == OperationKind::ReplaceXz,
        t == 14 ==> kind_of_spec(t) == OperationKind::ReplaceZstd,
        2 <= t <= 13 && t != 6 && t != 8 ==> kind_of_spec(t) == OperationKind::Unsupported(t),
        t < 0 || t > 14 ==> kind_of_spec(t) == OperationKind::Replace,
{
}

/// Plans the extraction of `op`, whose blob offset counts from
/// `data_offset_base`, the start of the payload's data region.
pub fn plan_operation(op: &Operation, data_offset_base: u64, block_size: u64) -> (r: Result<
    OperationPlan,
    ExtractError,
>)
    requires
        plan_fits(op@, data_offset_base, block_size),
    ensures
        r == plan_spec(op@, data_offset_base, block_size),
{
    if op.dst_extents.len() == 0 {
        return Err(ExtractError::InvalidOperation);
    }
    let dst_extent = op.dst_extents[0];
    let offset = match op.data_offset {
        Some(o) => o + data_offset_base,
        None => return Err(ExtractError::InvalidOperation),
    };
    let data_len = match op.data_length {
        Some(l) => l,
        None => return Err(ExtractError::InvalidOperation),
    };
    let exp_size = match dst_extent.num_blocks {
        Some(n) => n * block_size,
        None => return Err(ExtractError::InvalidOperation),
    };
    Ok(OperationPlan { kind: operation_kind(op.op_type), offset, data_len, exp_size })
}

/// Whether `plan_operation` may be called on `op`: its arithmetic fits.
pub fn plan_in_range(op: &Operation, data_offset_base: u64, block_size: u64) -> (b: bool)
    ensures
        b == plan_fits(op@, data_offset_base, block_size),
{
    if op.dst_extents.len() == 0 {
        return true;
    }
    let offset_ok = match op.data_offset {
        Some(o) => o <= u64::MAX - data_offset_base,
        None => true,
    };
    let size_ok = if op.data_offset.is_some() && op.data_length.is_some() {
        match op.dst_extents[0].num_blocks {
            Some(n) => block_size == 0 || n <= u64::MAX / block_size,
            None => true,
        }
    } else {
        true
    };
    proof {
        if op.dst_extents@.len() > 0 {
            if let Some(n) = op.dst_extents@[0].num_blocks {
                if block_size > 0 {
                    lemma_mul_fits(n, block_size);
                }
            }
        }
    }
    offset_ok && size_ok
}

/// `n * b` fits in a `u64` exactly when `n <= u64::MAX / b`.
proof fn lemma_mul_fits(n: u64, b: u64)
    requires
        b > 0,
    ensures
        (n * b <= u64::MAX) == (n <= u64::MAX / b),
{
    let q = u64::MAX / b;
    assert(q * b <= u64::MAX) by (nonlinear_arith)
        requires
            q == u64::MAX / b,
            b > 0,
    ;
    assert(u64::MAX < (q + 1) * b) by (nonlinear_arith)
        requires
            q == u64::MAX / b,
            b > 0,
    ;
    if n <= q {
        assert(n * b <= q * b) by (nonlinear_arith)
            requires
                n <= q,
        ;
    } else {
        assert(n * b >= (q + 1) * b) by (nonlinear_arith)
            requires
                n >= q + 1,
        ;
    }
}

/// What a bzip2 decoder streaming `data` delivers: the bytes it hands out,
/// and whether it reached the end of its input without an error (when not,
/// the bytes are those it handed out before the error).
pub uninterp spec fn bzip2_output(data: Seq<u8>) -> (Seq<u8>, bool);

/// What an xz decoder streaming `data` delivers, as for `bzip2_output`.
pub uninterp spec fn xz_output(data: Seq<u8>) -> (Seq<u8>, bool);

/// What a zstd decoder streaming `data` delivers, as for `bzip2_output`;
/// a decoder that cannot be made delivers nothing and fails.
pub uninterp spec fn zstd_output(data: Seq<u8>) -> (Seq<u8>, bool);

/// `bzip2::bufread::BzDecoder` over `data`, copied to its end with
/// `std::io::copy` into a buffer, as the image file receives it: the bytes
/// delivered, and on a decoding error also that error. The bytes are named,
/// not described; of the error only that decoding failed is stated.
#[verifier::external_body]
fn bzip2_decompress(data: &[u8]) -> (r: (Vec<u8>, Option<std::io::Error>))
    ensures
        bzip2_output(data@) == (r.0@, r.1 is None),
{
    let mut out: Vec<u8> = Vec::new();
    let mut decoder = bzip2::bufread::BzDecoder::new(data);
    let copied = std::io::copy(&mut decoder, &mut std::io::Cursor::new(&mut out));
    (out, copied.err())
}

/// `liblzma::bufread::XzDecoder` over `data`, copied to its end with
/// `std::io::copy` into a buffer, as the image file receives it: the bytes
/// delivered, and on a decoding error also that error. The bytes are named,
/// not described; of the error only that decoding failed is stated.
#[verifier::external_body]
fn xz_decompress(data: &[u8]) -> (r: (Vec<u8>, Option<std::io::Error>))
    ensures
        xz_output(data@) == (r.0@, r.1 is None),
{
    let mut out: Vec<u8> = Vec::new();
    let mut decoder = liblzma::bufread::XzDecoder::new(data);
    let copied = std::io::copy(&mut decoder, &mut std::io::Cursor::new(&mut out));
    (out, copied.err())
}

/// `zstd::Decoder` over `data`, copied to its end with `std::io::copy` into
/// a buffer, as the image file receives it: the bytes delivered, and the
/// error when the decoder cannot be made or decoding fails. The bytes are
/// named, not described.
#[verifier::external_body]
fn zstd_decompress(data: &[u8]) -> (r: (Vec<u8>, Option<std::io::Error>))
    ensures
        zstd_output(data@) == (r.0@, r.1 is None),
{
    let mut out: Vec<u8> = Vec::new();
    match zstd::Decoder::new(data) {
        Ok(mut decoder) => {
            let copied = std::io::copy(&mut decoder, &mut std::io::Cursor::new(&mut out));
            (out, copied.err())
        },
        Err(e) => (out, Some(e)),
    }
}

/// What an operation writes to the partition image.
#[derive(Clone, Debug)]
pub enum Output {
    /// These bytes.
    Bytes(Vec<u8>),
    /// Zeros, as many as the sink takes.
    Zeros,
}

/// The value of an [`Output`]: the bytes, or none for zeros.
pub open spec fn output_view(o: Output) -> Option<Seq<u8>> {
    match o {
        Output::Bytes(v) => Some(v@),
        Output::Zeros => None,
    }
}

/// What decoding an operation's blob gives.
#[derive(Debug)]
pub enum Decoded {
    /// The whole output of the operation.
    Complete(Output),
    /// The decoder failed with this error after delivering these bytes,
    /// which reach the image before the failure.
    Broken(Vec<u8>, std::io::Error),
}

/// The decoder of a kind streaming `data`: the bytes it delivers and
/// whether it finishes.
pub open spec fn decoded_by(kind: OperationKind, data: Seq<u8>) -> (Seq<u8>, bool) {
    match kind {
        OperationKind::ReplaceBz => bzip2_output(data),
        OperationKind::ReplaceXz => xz_output(data),
        OperationKind::ReplaceZstd => zstd_output(data),
        _ => (data, true),
    }
}

/// Turns the blob `data` of an operation of kind `kind` into what it writes:
/// zeros, the blob itself, or what the blob decodes to; a decoder that fails
/// leaves what it delivered before failing.
pub fn decode_operation(kind: OperationKind, data: Vec<u8>) -> (r: Result<Decoded, ExtractError>)
    ensures
        match kind {
            OperationKind::Zero => r matches Ok(Decoded::Complete(Output::Zeros)),
            OperationKind::Unsupported(t) => (r matches Err(ExtractError::UnsupportedType(u)) && u == t),
            _ => {
                let (d, done) = decoded_by(kind, data@);
                &&& done ==> (r matches Ok(Decoded::Complete(o)) && output_view(o) == Some(d))
                &&& !done ==> (r matches Ok(Decoded::Broken(p, _)) && p@ == d)
            },
        },
{
    let decoded = match kind {
        OperationKind::Replace => return Ok(Decoded::Complete(Output::Bytes(data))),
        OperationKind::ReplaceBz => bzip2_decompress(data.as_slice()),
        OperationKind::ReplaceXz => xz_decompress(data.as_slice()),
        OperationKind::ReplaceZstd => zstd_decompress(data.as_slice()),
        OperationKind::Zero => return Ok(Decoded::Complete(Output::Zeros)),
        OperationKind::Unsupported(t) => return Err(ExtractError::UnsupportedType(t)),
    };
    match decoded {
        (v, None) => Ok(Decoded::Complete(Output::Bytes(v))),
        (v, Some(e)) => Ok(Decoded::Broken(v, e)),
    }
}

/// Checks that an operation wrote as many bytes as its extent holds.
pub fn check_written(written: u64, expected: u64) -> (r: Result<(), ExtractError>)
    ensures
        written == expected ==> r is Ok,
        written != expected ==> (r matches Err(ExtractError::SizeMismatch { written: w, expected: e })
            && w == written && e == expected),
{
    if written != expected {
        Err(ExtractError::SizeMismatch { written, expected })
    } else {
        Ok(())
    }
}

/// Checks a blob against the hex SHA-256 the manifest gives for it.
pub fn verify_hash(data: &[u8], expected: &String) -> (r: Result<(), ExtractError>)
    ensures
        hex_lower(sha256(data@)) == expected@ ==> r is Ok,
        hex_lower(sha256(data@)) != expected@ ==> (r matches Err(
            ExtractError::HashMismatch { computed: a, listed: e },
        ) && a@ == hex_lower(sha256(data@)) && e@ == expected@),
{
    let digest = sha256_digest(data);
    let actual = hex_encode(digest.as_slice());
    if actual != *expected {
        Err(ExtractError::HashMismatch { computed: actual, listed: expected.clone() })
    } else {
        Ok(())
    }
}

// ---------------------------------------------------------------------------
// A whole partition, operation by operation.
// ---------------------------------------------------------------------------

/// Where the extraction of a partition stands.
#[derive(Clone, Copy, Debug, PartialEq, Eq)]
pub enum JobPhase {
    /// The next operation is to be planned.
    Ready,
    /// Waiting for the blob of the current operation, planned so.
    AwaitBlob(OperationPlan),
    /// Waiting for the number of bytes the current operation wrote; it must
    /// write this many.
    AwaitWrite(u64),
    /// Waiting for whether to go on after a progress report.
    AwaitReport,
    /// The extraction is over.
    Done,
}

/// What the caller does next for an extraction.
#[derive(Debug)]
pub enum JobAction {
    /// Read `len` bytes of the payload at `offset`, and hand them to `on_blob`.
    Read { offset: u64, len: u64 },
    /// Write this to the partition image, and hand the count to `on_written`.
    Write(Output),
    /// Write these bytes to the partition image, then stop with this error.
    WriteThenFail(Vec<u8>, ExtractError),
    /// Report that `completed` of `total` operations are done, and hand
    /// whether to go on to `on_reported`.
    Report { completed: usize, total: usize },
    /// Go on with the next operation: call `plan_next`.
    Next,
    /// Every operation is done: flush the image.
    Finish,
    /// Stop with this error.
    Fail(ExtractError),
}

/// The value of a [`JobAction`], without the errors' details.
pub enum Act {
    Read(u64, u64),
    /// Bytes to write, or none for an endless run of zeros.
    Write(Option<Seq<u8>>),
    WriteThenFail(Seq<u8>),
    Report(nat, nat),
    Next,
    Finish,
    Fail,
}

/// The value of an action.
pub open spec fn act_of(a: JobAction) -> Act {
    match a {
        JobAction::Read { offset, len } => Act::Read(offset, len),
        JobAction::Write(o) => Act::Write(output_view(o)),
        JobAction::WriteThenFail(b, _) => Act::WriteThenFail(b@),
        JobAction::Report { completed, total } => Act::Report(completed as nat, total as nat),
        JobAction::Next => Act::Next,
        JobAction::Finish => Act::Finish,
        JobAction::Fail(_) => Act::Fail,
    }
}

/// The value of an extraction: its operations and settings, the index of
/// the current operation, where it stands, and the blob kept for the hash
/// check.
pub struct JobView {
    pub ops: Seq<OperationView>,
    pub base: u64,
    pub block_size: u64,
    pub verify: bool,
    pub report: bool,
    pub index: nat,
    pub phase: JobPhase,
    pub blob: Option<Seq<u8>>,
}

/// Planning the current operation of `j`: done when none is left, else a
/// read of its blob, or a failure when it is invalid.
pub open spec fn plan_next_spec(j: JobView) -> (JobView, Act) {
    if j.index >= j.ops.len() {
        (JobView { phase: JobPhase::Done, blob: None, ..j }, Act::Finish)
    } else {
        match plan_spec(j.ops[j.index as int], j.base, j.block_size) {
            Ok(p) => (
                JobView { phase: JobPhase::AwaitBlob(p), blob: None, ..j },
                Act::Read(p.offset, p.data_len),
            ),
            Err(_) => (JobView { phase: JobPhase::Done, blob: None, ..j }, Act::Fail),
        }
    }
}

/// Taking the blob `data` of the current operation of `j`, planned as `p`.
pub open spec fn on_blob_spec(j: JobView, p: OperationPlan, data: Seq<u8>) -> (JobView, Act) {
    let kept = if j.verify {
        Some(data)
    } else {
        None
    };
    match p.kind {
        OperationKind::Zero => (
            JobView { phase: JobPhase::AwaitWrite(p.exp_size), blob: kept, ..j },
            Act::Write(None),
        ),
        OperationKind::Unsupported(_) => (JobView { phase: JobPhase::Done, blob: kept, ..j }, Act::Fail),
        _ => {
            let (d, done) = decoded_by(p.kind, data);
            if done {
                (
                    JobView { phase: JobPhase::AwaitWrite(p.exp_size), blob: kept, ..j },
                    Act::Write(Some(d)),
                )
            } else {
                (JobView { phase: JobPhase::Done, blob: kept, ..j }, Act::WriteThenFail(d))
            }
        },
    }
}

/// Finishing the current operation of `j`: its kept blob is checked against
/// its hash, and the job moves to the next operation.
pub open spec fn finish_op_spec(j: JobView) -> (JobView, Act) {
    match j.blob {
        Some(b) => if hex_lower(sha256(b)) != j.ops[j.index as int].sha_hash {
            (JobView { phase: JobPhase::Done, blob: None, ..j }, Act::Fail)
        } else {
            (JobView { phase: JobPhase::Ready, blob: None, index: j.index + 1, ..j }, Act::Next)
        },
        None => (JobView { phase: JobPhase::Ready, blob: None, index: j.index + 1, ..j }, Act::Next),
    }
}

/// Taking the count `written` the current operation of `j` wrote, which
/// must be `expected`.
pub open spec fn on_written_spec(j: JobView, expected: u64, written: u64) -> (JobView, Act) {
    if written != expected {
        (JobView { phase: JobPhase::Done, ..j }, Act::Fail)
    } else if j.report {
        (JobView { phase: JobPhase::AwaitReport, ..j }, Act::Report(j.index + 1, j.ops.len()))
    } else {
        finish_op_spec(j)
    }
}

/// Taking whether to go on after a progress report.
pub open spec fn on_reported_spec(j: JobView, go_on: bool) -> (JobView, Act) {
    if !go_on {
        (JobView { phase: JobPhase::Done, ..j }, Act::Fail)
    } else {
        finish_op_spec(j)
    }
}

/// The extraction of one partition: its operations, in order, each read,
/// decoded, written, counted and, when asked, checked against its hash; the
/// first failure ends it.
pub struct ExtractJob {
    operations: Vec<Operation>,
    data_offset_base: u64,
    block_size: u64,
    verify: bool,
    report: bool,
    index: usize,
    phase: JobPhase,
    blob: Option<Vec<u8>>,
}

impl ExtractJob {
    /// The value of this job.
    pub closed spec fn job_view(&self) -> JobView {
        JobView {
            ops: self.operations@.map_values(|o: Operation| o@),
            base: self.data_offset_base,
            block_size: self.block_size,
            verify: self.verify,
            report: self.report,
            index: self.index as nat,
            phase: self.phase,
            blob: match self.blob {
                Some(b) => Some(b@),
                None => None,
            },
        }
    }

    /// The internal consistency of the job.
    pub closed spec fn wf(&self) -> bool {
        &&& self.index <= self.operations@.len()
        &&& (self.phase is AwaitBlob || self.phase is AwaitWrite || self.phase is AwaitReport)
            ==> self.index < self.operations@.len()
        &&& self.blob is Some ==> self.verify
    }

    /// Whether planning the current operation stays within `u64` arithmetic.
    pub open spec fn next_plan_fits(&self) -> bool {
        let j = self.job_view();
        j.index < j.ops.len() ==> plan_fits(j.ops[j.index as int], j.base, j.block_size)
    }

    /// The extraction of `operations`, whose blobs are placed from
    /// `data_offset_base` on, in blocks of `block_size` bytes; blobs are
    /// checked against their hashes when `verify`, and progress is reported
    /// when `report`.
    pub fn new(
        operations: Vec<Operation>,
        data_offset_base: u64,
        block_size: u64,
        verify: bool,
        report: bool,
    ) -> (j: Self)
        ensures
            j.wf(),
            j.job_view() == (JobView {
                ops: operations@.map_values(|o: Operation| o@),
                base: data_offset_base,
                block_size,
                verify,
                report,
                index: 0,
                phase: JobPhase::Ready,
                blob: None,
            }),
    {
        ExtractJob {
            operations,
            data_offset_base,
            block_size,
            verify,
            report,
            index: 0,
            phase: JobPhase::Ready,
            blob: None,
        }
    }

    /// Where the extraction stands.
    pub fn phase(&self) -> (p: JobPhase)
        ensures
            p == self.job_view().phase,
    {
        self.phase
    }

    /// Whether `plan_next` may be called: planning the current operation
    /// stays within `u64` arithmetic.
    pub fn next_plan_in_range(&self) -> (b: bool)
        requires
            self.wf(),
        ensures
            b == self.next_plan_fits(),
    {
        if self.index < self.operations.len() {
            proof {
                assert(self.job_view().ops[self.index as int] == self.operations@[self.index as int]@);
            }
            plan_in_range(&self.operations[self.index], self.data_offset_base, self.block_size)
        } else {
            true
        }
    }

    /// Starts the current operation: asks for its blob, or fails when it is
    /// invalid; finishes when no operation is left.
    pub fn plan_next(&mut self) -> (a: JobAction)
        requires
            old(self).wf(),
            old(self).job_view().phase == JobPhase::Ready,
            old(self).next_plan_fits(),
        ensures
            final(self).wf(),
            (final(self).job_view(), act_of(a)) == plan_next_spec(old(self).job_view()),
            a matches JobAction::Fail(e) ==> e matches ExtractError::InvalidOperation,
    {
        self.blob = None;
        if self.index == self.operations.len() {
            self.phase = JobPhase::Done;
            return JobAction::Finish;
        }
        proof {
            assert(self.job_view().ops[self.index as int] == self.operations@[self.index as int]@);
        }
        match plan_operation(&self.operations[self.index], self.data_offset_base, self.block_size) {
            Ok(p) => {
                self.phase = JobPhase::AwaitBlob(p);
                JobAction::Read { offset: p.offset, len: p.data_len }
            },
            Err(e) => {
                self.phase = JobPhase::Done;
                JobAction::Fail(e)
            },
        }
    }

    /// Takes the blob of the current operation: keeps it when hashes are
    /// checked, and asks to write what it decodes to; when the decoder fails,
    /// asks to write what it delivered and stop; fails when the operation's
    /// type cannot be extracted.
    pub fn on_blob(&mut self, data: Vec<u8>) -> (a: JobAction)
        requires
            old(self).wf(),
            old(self).job_view().phase is AwaitBlob,
        ensures
            final(self).wf(),
            (final(self).job_view(), act_of(a)) == on_blob_spec(
                old(self).job_view(),
                old(self).job_view().phase->AwaitBlob_0,
                data@,
            ),
            a matches JobAction::Fail(e) ==> (e matches ExtractError::UnsupportedType(t) && old(
                self,
            ).job_view().phase->AwaitBlob_0.kind == OperationKind::Unsupported(t)),
            a matches JobAction::WriteThenFail(_, e) ==> e is DecodeFailed,
    {
        let p = match self.phase {
            JobPhase::AwaitBlob(p) => p,
            _ => {
                proof {
                    assert(false);
                }
                return JobAction::Next;
            },
        };
        self.blob = if self.verify {
            Some(crate::manifest::copy_bytes(&data))
        } else {
            None
        };
        match decode_operation(p.kind, data) {
            Ok(Decoded::Complete(o)) => {
                self.phase = JobPhase::AwaitWrite(p.exp_size);
                JobAction::Write(o)
            },
            Ok(Decoded::Broken(partial, e)) => {
                self.phase = JobPhase::Done;
                JobAction::WriteThenFail(partial, ExtractError::DecodeFailed(e))
            },
            Err(e) => {
                self.phase = JobPhase::Done;
                JobAction::Fail(e)
            },
        }
    }

    /// Finishes the current operation: checks its blob against its hash
    /// when asked, then moves on to the next one.
    fn finish_operation(&mut self) -> (a: JobAction)
        requires
            old(self).wf(),
            old(self).job_view().index < old(self).job_view().ops.len(),
        ensures
            final(self).wf(),
            (final(self).job_view(), act_of(a)) == finish_op_spec(old(self).job_view()),
            a matches JobAction::Fail(e) ==> (e matches ExtractError::HashMismatch {
                computed: c,
                listed: l,
            } && c@ == hex_lower(sha256(old(self).job_view().blob->Some_0)) && l@ == old(
                self,
            ).job_view().ops[old(self).job_view().index as int].sha_hash),
    {
        let _count = self.operations.len();
        let blob = self.blob.take();
        match blob {
            Some(b) => {
                proof {
                    assert(self.job_view().ops[self.index as int]
                        == self.operations@[self.index as int]@);
                }
                match verify_hash(b.as_slice(), &self.operations[self.index].sha_hash) {
                    Ok(()) => {
                        self.index = self.index + 1;
                        self.phase = JobPhase::Ready;
                        JobAction::Next
                    },
                    Err(e) => {
                        self.phase = JobPhase::Done;
                        JobAction::Fail(e)
                    },
                }
            },
            None => {
                self.index = self.index + 1;
                self.phase = JobPhase::Ready;
                JobAction::Next
            },
        }
    }

    /// Takes the number of bytes the current operation wrote: fails when it
    /// is not what the operation's extent holds; else reports progress when
    /// asked, or finishes the operation.
    pub fn on_written(&mut self, written: u64) -> (a: JobAction)
        requires
            old(self).wf(),
            old(self).job_view().phase is AwaitWrite,
        ensures
            final(self).wf(),
            (final(self).job_view(), act_of(a)) == on_written_spec(
                old(self).job_view(),
                old(self).job_view().phase->AwaitWrite_0,
                written,
            ),
            written != old(self).job_view().phase->AwaitWrite_0 ==> (a matches JobAction::Fail(
                ExtractError::SizeMismatch { written: w, expected: e },
            ) && w == written && e == old(self).job_view().phase->AwaitWrite_0),
            written == old(self).job_view().phase->AwaitWrite_0 ==> (a matches JobAction::Fail(e)
                ==> (e matches ExtractError::HashMismatch { computed: c, listed: l } && c@
                == hex_lower(sha256(old(self).job_view().blob->Some_0)) && l@ == old(
                self,
            ).job_view().ops[old(self).job_view().index as int].sha_hash)),
    {
        let expected = match self.phase {
            JobPhase::AwaitWrite(e) => e,
            _ => {
                proof {
                    assert(false);
                }
                return JobAction::Next;
            },
        };
        if let Err(e) = check_written(written, expected) {
            self.phase = JobPhase::Done;
            return JobAction::Fail(e);
        }
        let _count = self.operations.len();
        if self.report {
            self.phase = JobPhase::AwaitReport;
            return JobAction::Report { completed: self.index + 1, total: self.operations.len() };
        }
        self.finish_operation()
    }

    /// Takes whether to go on after a progress report: fails as cancelled
    /// when not, else finishes the operation.
    pub fn on_reported(&mut self, go_on: bool) -> (a: JobAction)
        requires
            old(self).wf(),
            old(self).job_view().phase is AwaitReport,
        ensures
            final(self).wf(),
            (final(self).job_view(), act_of(a)) == on_reported_spec(old(self).job_view(), go_on),
            !go_on ==> a matches JobAction::Fail(ExtractError::Cancelled),
            go_on ==> (a matches JobAction::Fail(e) ==> (e matches ExtractError::HashMismatch {
                computed: c,
                listed: l,
            } && c@ == hex_lower(sha256(old(self).job_view().blob->Some_0)) && l@ == old(
                self,
            ).job_view().ops[old(self).job_view().index as int].sha_hash)),
    {
        if !go_on {
            self.phase = JobPhase::Done;
            return JobAction::Fail(ExtractError::Cancelled);
        }
        self.finish_operation()
    }
}

/// The extraction `j`, from the action `a`, run against the payload bytes
/// `payload`: each read is answered with the payload's bytes, each write
/// is taken whole and appended to `image`, each report is answered "go on".
/// Gives the image and whether the extraction finished without failing; none
/// when `fuel` steps do not suffice, a read runs past the payload's end, an
/// operation writes endless zeros, or a write is longer than a `u64` counts.
pub open spec fn run_from(j: JobView, a: Act, payload: Seq<u8>, image: Seq<u8>, fuel: nat) -> Option<
    (Seq<u8>, bool),
>
    decreases fuel,
{
    if fuel == 0 {
        None
    } else {
        match a {
            Act::Next => {
                let (j2, a2) = plan_next_spec(j);
                run_from(j2, a2, payload, image, (fuel - 1) as nat)
            },
            Act::Read(off, len) => if off + len <= payload.len() {
                let (j2, a2) = on_blob_spec(
                    j,
                    j.phase->AwaitBlob_0,
                    payload.subrange(off as int, off + len),
                );
                run_from(j2, a2, payload, image, (fuel - 1) as nat)
            } else {
                None
            },
            Act::Write(Some(d)) => if d.len() <= u64::MAX {
                let (j2, a2) = on_written_spec(j, j.phase->AwaitWrite_0, d.len() as u64);
                run_from(j2, a2, payload, image + d, (fuel - 1) as nat)
            } else {
                None
            },
            Act::Write(None) => None,
            Act::WriteThenFail(d) => Some((image + d, false)),
            Act::Report(_, _) => {
                let (j2, a2) = on_reported_spec(j, true);
                run_from(j2, a2, payload, image, (fuel - 1) as nat)
            },
            Act::Finish => Some((image, true)),
            Act::Fail => Some((image, false)),
        }
    }
}

/// What extracting the operations `ops` from the `i`-th on writes, against
/// the payload bytes `payload`: the concatenation of what each operation's
/// blob decodes to; none when an operation is invalid, its blob runs past
/// the payload, it writes zeros or has a type that cannot be extracted, its
/// decoder fails, its output is not as long as its extent, or (when
/// `verify`) its blob's hash is not the listed one.
pub open spec fn extracted(
    ops: Seq<OperationView>,
    base: u64,
    block_size: u64,
    verify: bool,
    payload: Seq<u8>,
    i: nat,
) -> Option<Seq<u8>>
    decreases ops.len() - i,
{
    if i >= ops.len() {
        Some(Seq::empty())
    } else {
        match plan_spec(ops[i as int], base, block_size) {
            Err(_) => None,
            Ok(p) => if p.offset + p.data_len > payload.len() {
                None
            } else {
                let blob = payload.subrange(p.offset as int, p.offset + p.data_len);
                let (d, done) = decoded_by(p.kind, blob);
                if p.kind is Zero || p.kind is Unsupported || !done || d.len() != p.exp_size || (
                verify && hex_lower(sha256(blob)) != ops[i as int].sha_hash) {
                    None
                } else {
                    match extracted(ops, base, block_size, verify, payload, i + 1) {
                        Some(rest) => Some(d + rest),
                        None => None,
                    }
                }
            },
        }
    }
}

/// A whole extraction: run from a ready job against the payload's bytes, it
/// finishes without failing exactly when every remaining operation extracts,
/// and then the image it wrote is what they decode to, in order, each as
/// long as its extent; enough steps are four per operation and two more.
pub proof fn lemma_run_writes_extracted(j: JobView, payload: Seq<u8>, image: Seq<u8>, fuel: nat)
    requires
        j.phase == JobPhase::Ready,
        j.blob is None,
        j.index <= j.ops.len(),
    ensures
        extracted(j.ops, j.base, j.block_size, j.verify, payload, j.index) matches Some(rest)
            ==> (fuel >= 4 * (j.ops.len() - j.index) + 2 ==> run_from(
            j,
            Act::Next,
            payload,
            image,
            fuel,
        ) == Some((image + rest, true))),
        run_from(j, Act::Next, payload, image, fuel) matches Some((img, true)) ==> (extracted(
            j.ops,
            j.base,
            j.block_size,
            j.verify,
            payload,
            j.index,
        ) matches Some(rest) && img == image + rest),
    decreases j.ops.len() - j.index,
{
    let ex = extracted(j.ops, j.base, j.block_size, j.verify, payload, j.index);
    if fuel == 0 {
        return;
    }
    let (j1, a1) = plan_next_spec(j);
    assert(run_from(j, Act::Next, payload, image, fuel) == run_from(j1, a1, payload, image, (fuel - 1) as nat));
    if j.index >= j.ops.len() {
        assert(a1 == Act::Finish);
        assert(image + Seq::<u8>::empty() =~= image);
        return;
    }
    let i = j.index;
    match plan_spec(j.ops[i as int], j.base, j.block_size) {
        Err(_) => {},
        Ok(p) => {
            let f1 = (fuel - 1) as nat;
            if f1 == 0 || p.offset + p.data_len > payload.len() {
                return;
            }
            let blob = payload.subrange(p.offset as int, p.offset + p.data_len);
            let (j2, a2) = on_blob_spec(j1, p, blob);
            assert(run_from(j1, a1, payload, image, f1) == run_from(j2, a2, payload, image, (f1 - 1) as nat));
            let (d, done) = decoded_by(p.kind, blob);
            if p.kind is Zero || p.kind is Unsupported || !done {
                return;
            }
            assert(a2 == Act::Write(Some(d)));
            let f2 = (f1 - 1) as nat;
            if f2 == 0 || d.len() > u64::MAX {
                return;
            }
            let (j3, a3) = on_written_spec(j2, p.exp_size, d.len() as u64);
            let image2 = image + d;
            assert(run_from(j2, a2, payload, image, f2) == run_from(j3, a3, payload, image2, (f2 - 1) as nat));
            if d.len() != p.exp_size {
                assert(a3 == Act::Fail);
                return;
            }
            let f3 = (f2 - 1) as nat;
            let (j4, a4, f4) = if j.report {
                if f3 == 0 {
                    return;
                }
                let (j4, a4) = on_reported_spec(j3, true);
                assert(run_from(j3, a3, payload, image2, f3) == run_from(j4, a4, payload, image2, (f3 - 1) as nat));
                (j4, a4, (f3 - 1) as nat)
            } else {
                (j3, a3, f3)
            };
            assert((j4, a4) == finish_op_spec(j2));
            if j.verify && hex_lower(sha256(blob)) != j.ops[i as int].sha_hash {
                assert(a4 == Act::Fail);
                return;
            }
            assert(a4 == Act::Next);
            assert(j4 == JobView { phase: JobPhase::Ready, blob: None, index: i + 1, ..j });
            lemma_run_writes_extracted(j4, payload, image2, f4);
            let next = extracted(j.ops, j.base, j.block_size, j.verify, payload, i + 1);
            if let Some(rest) = next {
                assert(image2 + rest =~= image + (d + rest));
            }
        },
    }
}

} // verus!

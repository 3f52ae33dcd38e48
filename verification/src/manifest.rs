//! The update manifest as far as this dumper reads it, and the summary of it
//! (`PartManifest`) handed to the user interface.
use vstd::prelude::*;
use crate::digest::{hex_encode, hex_lower};
use crate::payload::Payload;

verus! {

// ---------------------------------------------------------------------------
// The update manifest (the fields of `DeltaArchiveManifest` the dumper reads).
// ---------------------------------------------------------------------------

/// A run of blocks in a partition.
#[derive(Clone, Copy, Debug, PartialEq, Eq)]
pub struct Extent {
    pub start_block: Option<u64>,
    pub num_blocks: Option<u64>,
}

/// One operation that writes part of a partition.
#[derive(Clone, Debug)]
pub struct InstallOperation {
    /// The operation's numeric type, as the manifest stores it.
    pub op_type: i32,
    pub data_offset: Option<u64>,
    pub data_length: Option<u64>,
    pub dst_extents: Vec<Extent>,
    pub data_sha256_hash: Option<Vec<u8>>,
}

/// Size and hash of a partition image.
#[derive(Clone, Debug)]
pub struct PartitionInfo {
    pub size: Option<u64>,
    pub hash: Option<Vec<u8>>,
}

/// The update of one partition.
#[derive(Clone, Debug)]
pub struct PartitionUpdate {
    pub partition_name: String,
    pub new_partition_info: Option<PartitionInfo>,
    pub old_partition_info: Option<PartitionInfo>,
    pub operations: Vec<InstallOperation>,
}

/// The update manifest.
#[derive(Clone, Debug)]
pub struct DeltaArchiveManifest {
    pub block_size: Option<u32>,
    pub partitions: Vec<PartitionUpdate>,
}

/// Mathematical value of an [`InstallOperation`].
pub struct InstallOperationView {
    pub op_type: i32,
    pub data_offset: Option<u64>,
    pub data_length: Option<u64>,
    pub dst_extents: Seq<Extent>,
    pub data_sha256_hash: Option<Seq<u8>>,
}

/// Mathematical value of a [`PartitionInfo`].
pub struct PartitionInfoView {
    pub size: Option<u64>,
    pub hash: Option<Seq<u8>>,
}

/// Mathematical value of a [`PartitionUpdate`].
pub struct PartitionUpdateView {
    pub partition_name: Seq<char>,
    pub new_partition_info: Option<PartitionInfoView>,
    pub old_partition_info: Option<PartitionInfoView>,
    pub operations: Seq<InstallOperationView>,
}

/// Mathematical value of a [`DeltaArchiveManifest`].
pub struct DeltaArchiveManifestView {
    pub block_size: Option<u32>,
    pub partitions: Seq<PartitionUpdateView>,
}

/// The value of optional bytes.
pub open spec fn opt_bytes_view(b: Option<Vec<u8>>) -> Option<Seq<u8>> {
    match b {
        Some(v) => Some(v@),
        None => None,
    }
}

impl View for InstallOperation {
    type V = InstallOperationView;

    open spec fn view(&self) -> InstallOperationView {
        InstallOperationView {
            op_type: self.op_type,
            data_offset: self.data_offset,
            data_length: self.data_length,
            dst_extents: self.dst_extents@,
            data_sha256_hash: opt_bytes_view(self.data_sha256_hash),
        }
    }
}

impl View for PartitionInfo {
    type V = PartitionInfoView;

    open spec fn view(&self) -> PartitionInfoView {
        PartitionInfoView { size: self.size, hash: opt_bytes_view(self.hash) }
    }
}

/// The value of an optional partition info.
pub open spec fn opt_info_view(i: Option<PartitionInfo>) -> Option<PartitionInfoView> {
    match i {
        Some(v) => Some(v@),
        None => None,
    }
}

impl View for PartitionUpdate {
    type V = PartitionUpdateView;

    open spec fn view(&self) -> PartitionUpdateView {
        PartitionUpdateView {
            partition_name: self.partition_name@,
            new_partition_info: opt_info_view(self.new_partition_info),
            old_partition_info: opt_info_view(self.old_partition_info),
            operations: self.operations@.map_values(|o: InstallOperation| o@),
        }
    }
}

impl View for DeltaArchiveManifest {
    type V = DeltaArchiveManifestView;

    open spec fn view(&self) -> DeltaArchiveManifestView {
        DeltaArchiveManifestView {
            block_size: self.block_size,
            partitions: self.partitions@.map_values(|p: PartitionUpdate| p@),
        }
    }
}

// ---------------------------------------------------------------------------
// The summary handed to the user interface.
// ---------------------------------------------------------------------------

/// A destination extent, by its length only.
#[derive(Clone, Copy, Debug, PartialEq, Eq)]
pub struct DstExtent {
    pub num_blocks: Option<u64>,
}

/// An operation as the summary shows it: its data blob, hex hash and type.
#[derive(Clone, Debug)]
pub struct Operation {
    pub data_offset: Option<u64>,
    pub data_length: Option<u64>,
    /// Lower-case hex of the SHA-256 of the operation's data blob.
    pub sha_hash: String,
    pub op_type: i32,
    pub dst_extents: Vec<DstExtent>,
}

/// Size and hash of a partition image, as the summary shows them.
#[derive(Clone, Debug)]
pub struct PartInfo {
    pub size: Option<u64>,
    pub hash: Option<Vec<u8>>,
}

/// One partition of the summary.
#[derive(Clone, Debug)]
pub struct UpdateInfo {
    pub partition_name: String,
    pub new_partition_info: Option<PartInfo>,
    pub operations: Vec<Operation>,
    /// Whether the update is a delta against an older image.
    pub incremental: bool,
    /// Bytes to download for this partition, for payloads read over HTTP.
    pub download_size: Option<u64>,
}

/// The summary of a manifest.
#[derive(Clone, Debug)]
pub struct PartManifest {
    pub is_http: bool,
    pub partitions: Vec<UpdateInfo>,
    pub block_size: Option<u32>,
}

/// Mathematical value of an [`Operation`].
pub struct OperationView {
    pub data_offset: Option<u64>,
    pub data_length: Option<u64>,
    pub sha_hash: Seq<char>,
    pub op_type: i32,
    pub dst_extents: Seq<DstExtent>,
}

/// Mathematical value of a [`PartInfo`].
pub struct PartInfoView {
    pub size: Option<u64>,
    pub hash: Option<Seq<u8>>,
}

/// Mathematical value of an [`UpdateInfo`].
pub struct UpdateInfoView {
    pub partition_name: Seq<char>,
    pub new_partition_info: Option<PartInfoView>,
    pub operations: Seq<OperationView>,
    pub incremental: bool,
    pub download_size: Option<u64>,
}

/// Mathematical value of a [`PartManifest`].
pub struct PartManifestView {
    pub is_http: bool,
    pub partitions: Seq<UpdateInfoView>,
    pub block_size: Option<u32>,
}

impl View for Operation {
    type V = OperationView;

    open spec fn view(&self) -> OperationView {
        OperationView {
            data_offset: self.data_offset,
            data_length: self.data_length,
            sha_hash: self.sha_hash@,
            op_type: self.op_type,
            dst_extents: self.dst_extents@,
        }
    }
}

impl View for PartInfo {
    type V = PartInfoView;

    open spec fn view(&self) -> PartInfoView {
        PartInfoView { size: self.size, hash: opt_bytes_view(self.hash) }
    }
}

/// The value of an optional summary info.
pub open spec fn opt_part_info_view(i: Option<PartInfo>) -> Option<PartInfoView> {
    match i {
        Some(v) => Some(v@),
        None => None,
    }
}

impl View for UpdateInfo {
    type V = UpdateInfoView;

    open spec fn view(&self) -> UpdateInfoView {
        UpdateInfoView {
            partition_name: self.partition_name@,
            new_partition_info: opt_part_info_view(self.new_partition_info),
            operations: self.operations@.map_values(|o: Operation| o@),
            incremental: self.incremental,
            download_size: self.download_size,
        }
    }
}

impl View for PartManifest {
    type V = PartManifestView;

    open spec fn view(&self) -> PartManifestView {
        PartManifestView {
            is_http: self.is_http,
            partitions: self.partitions@.map_values(|u: UpdateInfo| u@),
            block_size: self.block_size,
        }
    }
}

// ---------------------------------------------------------------------------
// From manifest to summary.
// ---------------------------------------------------------------------------

/// The bytes of an operation's data hash; none when the manifest omits it.
pub open spec fn hash_bytes(op: InstallOperationView) -> Seq<u8> {
    match op.data_sha256_hash {
        Some(h) => h,
        None => Seq::empty(),
    }
}

/// The extent as the summary shows it.
pub open spec fn summarize_extent(e: Extent) -> DstExtent {
    DstExtent { num_blocks: e.num_blocks }
}

/// The operation as the summary shows it.
pub open spec fn summarize_operation(op: InstallOperationView) -> OperationView {
    OperationView {
        data_offset: op.data_offset,
        data_length: op.data_length,
        sha_hash: hex_lower(hash_bytes(op)),
        op_type: op.op_type,
        dst_extents: op.dst_extents.map_values(|e: Extent| summarize_extent(e)),
    }
}

/// Length of an operation's data blob; zero when the manifest omits it.
pub open spec fn data_length_or_zero(op: InstallOperationView) -> nat {
    match op.data_length {
        Some(l) => l as nat,
        None => 0,
    }
}

/// Sum of the data lengths of `ops`.
pub open spec fn total_data_length(ops: Seq<InstallOperationView>) -> nat
    decreases ops.len(),
{
    if ops.len() == 0 {
        0
    } else {
        total_data_length(ops.drop_last()) + data_length_or_zero(ops.last())
    }
}

/// The partition as the summary shows it: none for a partition without new
/// image info, which the summary leaves out.
pub open spec fn summarize_partition(p: PartitionUpdateView, remote: bool) -> Option<UpdateInfoView> {
    match p.new_partition_info {
        None => None,
        Some(info) => Some(
            UpdateInfoView {
                partition_name: p.partition_name,
                new_partition_info: Some(PartInfoView { size: info.size, hash: info.hash }),
                operations: p.operations.map_values(|o: InstallOperationView| summarize_operation(o)),
                incremental: p.old_partition_info is Some,
                download_size: if remote {
                    Some(total_data_length(p.operations) as u64)
                } else {
                    None
                },
            },
        ),
    }
}

/// The summaries of `ps`, in order, leaving out those without new image info.
pub open spec fn summarize_partitions(ps: Seq<PartitionUpdateView>, remote: bool) -> Seq<UpdateInfoView>
    decreases ps.len(),
{
    if ps.len() == 0 {
        Seq::empty()
    } else {
        let rest = summarize_partitions(ps.drop_last(), remote);
        match summarize_partition(ps.last(), remote) {
            Some(u) => rest.push(u),
            None => rest,
        }
    }
}

/// The summary of manifest `m` for a payload read over HTTP when `remote`.
pub open spec fn part_manifest_spec(m: DeltaArchiveManifestView, remote: bool) -> PartManifestView {
    PartManifestView {
        is_http: remote,
        partitions: summarize_partitions(m.partitions, remote),
        block_size: m.block_size,
    }
}

/// Whether every download size the summary of `m` holds fits in a `u64`.
pub open spec fn download_sizes_fit(m: DeltaArchiveManifestView, remote: bool) -> bool {
    remote ==> forall|i: int|
        0 <= i < m.partitions.len() && (#[trigger] m.partitions[i]).new_partition_info is Some
            ==> total_data_length(m.partitions[i].operations) <= u64::MAX
}

/// A prefix of the operations has no larger total than all of them.
pub proof fn lemma_total_data_length_prefix(ops: Seq<InstallOperationView>, j: int)
    requires
        0 <= j <= ops.len(),
    ensures
        total_data_length(ops.take(j)) <= total_data_length(ops),
    decreases ops.len(),
{
    if j < ops.len() {
        assert(ops.drop_last().take(j) =~= ops.take(j));
        lemma_total_data_length_prefix(ops.drop_last(), j);
    } else {
        assert(ops.take(j) =~= ops);
    }
}

/// Copies a byte vector.
pub fn copy_bytes(v: &Vec<u8>) -> (r: Vec<u8>)
    ensures
        r@ == v@,
{
    let mut r: Vec<u8> = Vec::new();
    let mut i: usize = 0;
    while i < v.len()
        invariant
            i <= v@.len(),
            r@ == v@.take(i as int),
        decreases v@.len() - i,
    {
        r.push(v[i]);
        i = i + 1;
        proof {
            assert(r@ =~= v@.take(i as int));
        }
    }
    proof {
        assert(v@.take(v@.len() as int) =~= v@);
    }
    r
}

/// Copies optional bytes.
pub fn copy_opt_bytes(v: &Option<Vec<u8>>) -> (r: Option<Vec<u8>>)
    ensures
        opt_bytes_view(r) == opt_bytes_view(*v),
{
    match v {
        Some(b) => Some(copy_bytes(b)),
        None => None,
    }
}

/// The summary of one operation.
pub fn summarize_operation_exec(op: &InstallOperation) -> (r: Operation)
    ensures
        r@ == summarize_operation(op@),
{
    let mut extents: Vec<DstExtent> = Vec::new();
    let mut i: usize = 0;
    while i < op.dst_extents.len()
        invariant
            i <= op.dst_extents@.len(),
            extents@ =~= op.dst_extents@.take(i as int).map_values(|e: Extent| summarize_extent(e)),
        decreases op.dst_extents@.len() - i,
    {
        extents.push(DstExtent { num_blocks: op.dst_extents[i].num_blocks });
        i = i + 1;
        proof {
            assert(extents@ =~= op.dst_extents@.take(i as int).map_values(
                |e: Extent| summarize_extent(e),
            ));
        }
    }
    proof {
        assert(op.dst_extents@.take(op.dst_extents@.len() as int) =~= op.dst_extents@);
    }
    let sha_hash = match &op.data_sha256_hash {
        Some(h) => hex_encode(h.as_slice()),
        None => {
            let empty: Vec<u8> = Vec::new();
            hex_encode(empty.as_slice())
        },
    };
    Operation {
        data_offset: op.data_offset,
        data_length: op.data_length,
        sha_hash,
        op_type: op.op_type,
        dst_extents: extents,
    }
}

/// Sum of the data lengths of `ops`, missing lengths counting as zero.
pub fn total_data_length_exec(ops: &Vec<InstallOperation>) -> (n: u64)
    requires
        total_data_length(ops@.map_values(|o: InstallOperation| o@)) <= u64::MAX,
    ensures
        n == total_data_length(ops@.map_values(|o: InstallOperation| o@)),
{
    let ghost views = ops@.map_values(|o: InstallOperation| o@);
    let mut acc: u64 = 0;
    let mut i: usize = 0;
    while i < ops.len()
        invariant
            i <= ops@.len(),
            views == ops@.map_values(|o: InstallOperation| o@),
            total_data_length(views) <= u64::MAX,
            acc == total_data_length(views.take(i as int)),
        decreases ops@.len() - i,
    {
        proof {
            assert(views.take(i + 1).drop_last() =~= views.take(i as int));
            lemma_total_data_length_prefix(views, i + 1);
        }
        let len = match ops[i].data_length {
            Some(l) => l,
            None => 0,
        };
        acc = acc + len;
        i = i + 1;
    }
    proof {
        assert(views.take(ops@.len() as int) =~= views);
    }
    acc
}

/// The summary of one partition, or none when it has no new image info.
pub fn summarize_partition_exec(p: &PartitionUpdate, remote: bool) -> (r: Option<UpdateInfo>)
    requires
        remote && p.new_partition_info is Some ==> total_data_length(
            p@.operations,
        ) <= u64::MAX,
    ensures
        match r {
            Some(u) => summarize_partition(p@, remote) == Some(u@),
            None => summarize_partition(p@, remote) is None,
        },
{
    let info = match &p.new_partition_info {
        Some(info) => PartInfo { size: info.size, hash: copy_opt_bytes(&info.hash) },
        None => return None,
    };
    let mut operations: Vec<Operation> = Vec::new();
    let mut i: usize = 0;
    while i < p.operations.len()
        invariant
            i <= p.operations@.len(),
            operations@.len() == i,
            operations@.map_values(|o: Operation| o@) =~= p@.operations.take(i as int).map_values(
                |o: InstallOperationView| summarize_operation(o),
            ),
        decreases p.operations@.len() - i,
    {
        let op = summarize_operation_exec(&p.operations[i]);
        let ghost prev = operations@;
        proof {
            assert(p@.operations[i as int] == p.operations@[i as int]@);
        }
        operations.push(op);
        i = i + 1;
        proof {
            let a = operations@.map_values(|o: Operation| o@);
            let b = p@.operations.take(i as int).map_values(
                |o: InstallOperationView| summarize_operation(o),
            );
            let pa = prev.map_values(|o: Operation| o@);
            let pb = p@.operations.take(i - 1).map_values(
                |o: InstallOperationView| summarize_operation(o),
            );
            assert forall|k: int| 0 <= k < i implies a[k] == b[k] by {
                if k < i - 1 {
                    assert(pa[k] == pb[k]);
                    assert(operations@[k] == prev[k]);
                }
            }
            assert(a =~= b);
        }
    }
    proof {
        assert(p@.operations.take(p.operations@.len() as int) =~= p@.operations);
    }
    let download_size = if remote {
        Some(total_data_length_exec(&p.operations))
    } else {
        None
    };
    let r = UpdateInfo {
        partition_name: p.partition_name.clone(),
        new_partition_info: Some(info),
        operations,
        incremental: p.old_partition_info.is_some(),
        download_size,
    };
    proof {
        assert(r@.operations =~= p@.operations.map_values(
            |o: InstallOperationView| summarize_operation(o),
        ));
    }
    Some(r)
}

/// Whether every download size of the summary of `manifest` fits in a `u64`.
pub fn download_sizes_in_range(manifest: &DeltaArchiveManifest, payload: &Payload) -> (b: bool)
    ensures
        b == download_sizes_fit(manifest@, payload.is_url()),
{
    if !payload.is_remote() {
        return true;
    }
    let mut i: usize = 0;
    while i < manifest.partitions.len()
        invariant
            payload.is_url(),
            i <= manifest.partitions@.len(),
            forall|k: int|
                0 <= k < i && (#[trigger] manifest@.partitions[k]).new_partition_info is Some
                    ==> total_data_length(manifest@.partitions[k].operations) <= u64::MAX,
        decreases manifest.partitions@.len() - i,
    {
        let p = &manifest.partitions[i];
        if p.new_partition_info.is_some() {
            if !total_fits(&p.operations) {
                proof {
                    assert(manifest@.partitions[i as int] == p@);
                }
                return false;
            }
        }
        proof {
            assert(manifest@.partitions[i as int] == p@);
        }
        i = i + 1;
    }
    true
}

/// Whether the data lengths of `ops` sum to at most `u64::MAX`.
pub fn total_fits(ops: &Vec<InstallOperation>) -> (b: bool)
    ensures
        b == (total_data_length(ops@.map_values(|o: InstallOperation| o@)) <= u64::MAX),
{
    let ghost views = ops@.map_values(|o: InstallOperation| o@);
    let mut acc: u64 = 0;
    let mut i: usize = 0;
    while i < ops.len()
        invariant
            i <= ops@.len(),
            views == ops@.map_values(|o: InstallOperation| o@),
            acc == total_data_length(views.take(i as int)),
        decreases ops@.len() - i,
    {
        proof {
            assert(views.take(i + 1).drop_last() =~= views.take(i as int));
        }
        let len = match ops[i].data_length {
            Some(l) => l,
            None => 0,
        };
        if acc > u64::MAX - len {
            proof {
                lemma_total_data_length_prefix(views, i + 1);
            }
            return false;
        }
        acc = acc + len;
        i = i + 1;
    }
    proof {
        assert(views.take(ops@.len() as int) =~= views);
    }
    true
}

/// The summary of `manifest` for `payload`: whether the payload is read over
/// HTTP, the partitions that carry new image info, in manifest order, each
/// with its operations, and for payloads read over HTTP the number of bytes
/// to download.
pub fn part_manifest_of(manifest: &DeltaArchiveManifest, payload: &Payload) -> (r: PartManifest)
    requires
        download_sizes_fit(manifest@, payload.is_url()),
    ensures
        r@ == part_manifest_spec(manifest@, payload.is_url()),
{
    let remote = payload.is_remote();
    let ghost ps = manifest@.partitions;
    let mut partitions: Vec<UpdateInfo> = Vec::new();
    let mut i: usize = 0;
    while i < manifest.partitions.len()
        invariant
            i <= manifest.partitions@.len(),
            ps == manifest@.partitions,
            remote == payload.is_url(),
            download_sizes_fit(manifest@, remote),
            partitions@.map_values(|u: UpdateInfo| u@) =~= summarize_partitions(ps.take(i as int), remote),
        decreases manifest.partitions@.len() - i,
    {
        let p = &manifest.partitions[i];
        proof {
            assert(ps[i as int] == p@);
            assert(ps.take(i + 1).drop_last() =~= ps.take(i as int));
            assert(ps.take(i + 1).last() == p@);
        }
        match summarize_partition_exec(p, remote) {
            Some(u) => {
                partitions.push(u);
            },
            None => {},
        }
        i = i + 1;
        proof {
            assert(partitions@.map_values(|u: UpdateInfo| u@) =~= summarize_partitions(ps.take(i as int), remote));
        }
    }
    proof {
        assert(ps.take(manifest.partitions@.len() as int) =~= ps);
    }
    PartManifest { is_http: remote, partitions, block_size: manifest.block_size }
}

/// Number of partitions of `ps` that have new image info.
pub open spec fn kept_count(ps: Seq<PartitionUpdateView>) -> nat
    decreases ps.len(),
{
    if ps.len() == 0 {
        0
    } else {
        kept_count(ps.drop_last()) + if ps.last().new_partition_info is Some {
            1nat
        } else {
            0nat
        }
    }
}

/// The summaries number the partitions with new image info.
proof fn lemma_summarize_partitions_len(ps: Seq<PartitionUpdateView>, remote: bool)
    ensures
        summarize_partitions(ps, remote).len() == kept_count(ps),
    decreases ps.len(),
{
    if ps.len() > 0 {
        lemma_summarize_partitions_len(ps.drop_last(), remote);
    }
}

/// The partition at `i`, which has new image info, is summed up at the
/// place given by the number of such partitions before it.
proof fn lemma_summarize_partitions_index(ps: Seq<PartitionUpdateView>, remote: bool, i: int)
    requires
        0 <= i < ps.len(),
        ps[i].new_partition_info is Some,
    ensures
        kept_count(ps.take(i)) < summarize_partitions(ps, remote).len(),
        summarize_partitions(ps, remote)[kept_count(ps.take(i)) as int] == summarize_partition(
            ps[i],
            remote,
        )->Some_0,
    decreases ps.len(),
{
    let q = ps.drop_last();
    lemma_summarize_partitions_len(q, remote);
    if i < ps.len() - 1 {
        assert(q.take(i) =~= ps.take(i));
        lemma_summarize_partitions_index(q, remote, i);
    } else {
        assert(ps.take(i) =~= q);
    }
}

/// The summary shows each partition that has new image info, in order and
/// with nothing else: the `i`th partition of the manifest, when it has new
/// image info, is shown after as many partitions as have new image info
/// before it. It is shown with its name, its new image's size and hash
/// (whatever its old image), as incremental exactly when it has old image
/// info, with the download size of its blobs when read over HTTP, and with
/// its operations in order, each at the blob location, type and extents the
/// manifest gives it and with the lower-case hex of its hash.
pub proof fn lemma_summary_shows_partition(m: DeltaArchiveManifestView, remote: bool, i: int)
    requires
        0 <= i < m.partitions.len(),
        m.partitions[i].new_partition_info is Some,
    ensures
        ({
            let s = part_manifest_spec(m, remote);
            let p = m.partitions[i];
            let k = kept_count(m.partitions.take(i)) as int;
            let u = s.partitions[k];
            &&& s.is_http == remote
            &&& s.block_size == m.block_size
            &&& s.partitions.len() == kept_count(m.partitions)
            &&& 0 <= k < s.partitions.len()
            &&& u.partition_name == p.partition_name
            &&& u.new_partition_info == Some(
                PartInfoView {
                    size: p.new_partition_info->Some_0.size,
                    hash: p.new_partition_info->Some_0.hash,
                },
            )
            &&& u.incremental == (p.old_partition_info is Some)
            &&& u.download_size == (if remote {
                Some(total_data_length(p.operations) as u64)
            } else {
                None
            })
            &&& u.operations.len() == p.operations.len()
            &&& forall|j: int|
                0 <= j < p.operations.len() ==> {
                    &&& (#[trigger] u.operations[j]).data_offset == p.operations[j].data_offset
                    &&& u.operations[j].data_length == p.operations[j].data_length
                    &&& u.operations[j].op_type == p.operations[j].op_type
                    &&& u.operations[j].sha_hash == hex_lower(
                        match p.operations[j].data_sha256_hash {
                            Some(h) => h,
                            None => Seq::empty(),
                        },
                    )
                    &&& u.operations[j].dst_extents.len() == p.operations[j].dst_extents.len()
                    &&& forall|e: int|
                        0 <= e < p.operations[j].dst_extents.len() ==> (
                        #[trigger] u.operations[j].dst_extents[e]).num_blocks
                            == p.operations[j].dst_extents[e].num_blocks
                }
        }),
{
    lemma_summarize_partitions_len(m.partitions, remote);
    lemma_summarize_partitions_index(m.partitions, remote, i);
}

} // verus!

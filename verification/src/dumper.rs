//! The payload dumper's memory of what it has read: the header, the
//! metadata signature and the manifest, each read once and kept. A caller
//! that owns the byte stream asks which bytes to read, reads them, and hands
//! them back.
use vstd::prelude::*;
use crate::constants::{BUF_SIZE, HEADER_SIZE};
use crate::header::{header_from_bytes_spec, HeaderError, PayloadHeader};
use crate::manifest::{
    copy_bytes, download_sizes_fit, part_manifest_of, part_manifest_spec, DeltaArchiveManifest,
    DeltaArchiveManifestView, PartManifest, PartManifestView,
};
use crate::payload::Payload;

verus! {

/// Bytes to read from the payload.
#[derive(Clone, Copy, Debug, PartialEq, Eq)]
pub enum ReadRequest {
    /// `len` bytes from `offset`.
    At { offset: u64, len: usize },
    /// `len` bytes from wherever the stream stands.
    Next { len: usize },
}

/// Where the manifest's bytes come from.
#[derive(Clone, Copy, Debug, PartialEq, Eq)]
pub enum ManifestSource {
    /// The manifest is already decoded: its bytes are its encoding.
    Decoded,
    /// The manifest is read from the stream: this request.
    Read(ReadRequest),
}

/// What a dumper knows: its payload and what it has read of it. The reader's
/// buffer size is not part of it.
pub struct DumperState {
    pub payload: Payload,
    pub header: Option<PayloadHeader>,
    pub manifest: Option<DeltaArchiveManifestView>,
    pub signatures: Option<Seq<u8>>,
}

/// What a dumper for `payload` knows before it reads anything.
pub open spec fn fresh_state(payload: Payload) -> DumperState {
    DumperState { payload, header: None, manifest: None, signatures: None }
}

/// What to read for the header in state `s`.
pub open spec fn header_request_of(s: DumperState) -> Option<ReadRequest> {
    match s.header {
        Some(_) => None,
        None => Some(ReadRequest::At { offset: 0, len: HEADER_SIZE }),
    }
}

/// The header `get_header` gives in state `s` for the bytes `bytes`, and
/// the state after it.
pub open spec fn get_header_of(s: DumperState, bytes: Seq<u8>) -> (
    DumperState,
    Result<PayloadHeader, HeaderError>,
) {
    match s.header {
        Some(h) => (s, Ok(h)),
        None => match header_from_bytes_spec(bytes) {
            Ok(h) => (DumperState { header: Some(h), ..s }, Ok(h)),
            Err(e) => (s, Err(e)),
        },
    }
}

/// What to read for the signature in state `s`, whose header is known.
pub open spec fn signatures_request_of(s: DumperState) -> Option<ReadRequest> {
    match s.signatures {
        Some(_) => None,
        None => Some(
            ReadRequest::At {
                offset: (HEADER_SIZE + s.header->Some_0.manifest_len) as u64,
                len: s.header->Some_0.signature_len as usize,
            },
        ),
    }
}

/// The signature `get_signatures_bytes` gives in state `s` for the bytes
/// `bytes`, and the state after it.
pub open spec fn get_signatures_of(s: DumperState, bytes: Seq<u8>) -> (DumperState, Seq<u8>) {
    match s.signatures {
        Some(sig) => (s, sig),
        None => (DumperState { signatures: Some(bytes), ..s }, bytes),
    }
}

/// Where the manifest's bytes come from in state `s`, whose header is known.
pub open spec fn manifest_source_of(s: DumperState) -> ManifestSource {
    match s.manifest {
        Some(_) => ManifestSource::Decoded,
        None => ManifestSource::Read(
            ReadRequest::Next { len: s.header->Some_0.manifest_len as usize },
        ),
    }
}

/// The manifest `get_manifest` gives in state `s` for the decoded manifest
/// `decoded`, and the state after it.
pub open spec fn get_manifest_of(s: DumperState, decoded: DeltaArchiveManifestView) -> (
    DumperState,
    DeltaArchiveManifestView,
) {
    match s.manifest {
        Some(m) => (s, m),
        None => (DumperState { manifest: Some(decoded), ..s }, decoded),
    }
}

/// The summary `get_part_manifest` gives in state `s`, whose manifest is known.
pub open spec fn summary_of(s: DumperState) -> PartManifestView {
    part_manifest_spec(s.manifest->Some_0, s.payload.is_url())
}

/// A payload being dumped, and what has been read of it.
pub struct PayloadDumper {
    payload: Payload,
    buf_size: usize,
    header: Option<PayloadHeader>,
    manifest: Option<DeltaArchiveManifest>,
    signatures: Option<Vec<u8>>,
}

impl PayloadDumper {
    /// What this dumper knows.
    pub open spec fn state(&self) -> DumperState {
        DumperState {
            payload: self.payload_spec(),
            header: self.header_spec(),
            manifest: self.manifest_spec(),
            signatures: self.signatures_spec(),
        }
    }

    /// The payload.
    pub closed spec fn payload_spec(&self) -> Payload {
        self.payload
    }

    /// The buffer size of the payload's reader.
    pub closed spec fn buf_size_spec(&self) -> usize {
        self.buf_size
    }

    /// The header, once read.
    pub closed spec fn header_spec(&self) -> Option<PayloadHeader> {
        self.header
    }

    /// The manifest, once decoded.
    pub closed spec fn manifest_spec(&self) -> Option<DeltaArchiveManifestView> {
        match self.manifest {
            Some(m) => Some(m@),
            None => None,
        }
    }

    /// The metadata signature, once read.
    pub closed spec fn signatures_spec(&self) -> Option<Seq<u8>> {
        match self.signatures {
            Some(s) => Some(s@),
            None => None,
        }
    }

    /// A dumper for `payload` that has read nothing yet, with the default
    /// reader buffer size.
    pub fn new(payload: Payload) -> (d: Self)
        ensures
            d.payload_spec() == payload,
            d.buf_size_spec() == BUF_SIZE,
            d.state() == fresh_state(payload),
            d.header_spec() is None,
            d.manifest_spec() is None,
            d.signatures_spec() is None,
    {
        Self::with_buf_size(payload, BUF_SIZE)
    }

    /// A dumper for `payload` that has read nothing yet, whose reader
    /// buffers `buf_size` bytes.
    pub fn with_buf_size(payload: Payload, buf_size: usize) -> (d: Self)
        ensures
            d.payload_spec() == payload,
            d.buf_size_spec() == buf_size,
            d.state() == fresh_state(payload),
            d.header_spec() is None,
            d.manifest_spec() is None,
            d.signatures_spec() is None,
    {
        PayloadDumper { payload, buf_size, header: None, manifest: None, signatures: None }
    }

    /// The payload.
    pub fn payload(&self) -> (p: &Payload)
        ensures
            *p == self.payload_spec(),
    {
        &self.payload
    }

    /// The buffer size of the payload's reader.
    pub fn buf_size(&self) -> (n: usize)
        ensures
            n == self.buf_size_spec(),
    {
        self.buf_size
    }

    /// The header, when it has been read.
    pub fn cached_header(&self) -> (h: Option<PayloadHeader>)
        ensures
            h == self.header_spec(),
    {
        self.header
    }

    /// What to read for the header: nothing once it is known, else its
    /// bytes at the start of the payload.
    pub fn header_request(&self) -> (r: Option<ReadRequest>)
        ensures
            r == header_request_of(self.state()),
            self.header_spec() is Some ==> r is None,
            self.header_spec() is None ==> r == Some(ReadRequest::At { offset: 0, len: HEADER_SIZE }),
    {
        match self.header {
            Some(_) => None,
            None => Some(ReadRequest::At { offset: 0, len: HEADER_SIZE }),
        }
    }

    /// The header: the one already read, or the one `bytes` (read as
    /// `header_request` asks) decode to, which is then kept.
    pub fn get_header(&mut self, bytes: &[u8]) -> (r: Result<PayloadHeader, HeaderError>)
        ensures
            (final(self).state(), r) == get_header_of(old(self).state(), bytes@),
            old(self).header_spec() matches Some(h) ==> r == Ok::<PayloadHeader, HeaderError>(h)
                && final(self).header_spec() == old(self).header_spec(),
            old(self).header_spec() is None ==> r == header_from_bytes_spec(bytes@) && (
            final(self).header_spec() == match r {
                Ok(h) => Some(h),
                Err(_) => None::<PayloadHeader>,
            }),
            final(self).payload_spec() == old(self).payload_spec(),
            final(self).buf_size_spec() == old(self).buf_size_spec(),
            final(self).manifest_spec() == old(self).manifest_spec(),
            final(self).signatures_spec() == old(self).signatures_spec(),
    {
        if let Some(header) = self.header {
            return Ok(header);
        }
        let header = PayloadHeader::from_bytes(bytes)?;
        self.header = Some(header);
        Ok(header)
    }

    /// What to read for the metadata signature: nothing once it is known,
    /// else `signature_len` bytes where the manifest ends.
    pub fn signatures_request(&self) -> (r: Option<ReadRequest>)
        requires
            self.header_spec() matches Some(h) && HEADER_SIZE + h.manifest_len <= u64::MAX,
        ensures
            r == signatures_request_of(self.state()),
            self.signatures_spec() is Some ==> r is None,
            self.signatures_spec() is None ==> r == Some(
                ReadRequest::At {
                    offset: (HEADER_SIZE + self.header_spec()->Some_0.manifest_len) as u64,
                    len: self.header_spec()->Some_0.signature_len as usize,
                },
            ),
    {
        if self.signatures.is_some() {
            return None;
        }
        let header = self.header.unwrap();
        Some(ReadRequest::At { offset: header.signature_offset(), len: header.signature_len as usize })
    }

    /// The metadata signature: the one already read, or `bytes` (read as
    /// `signatures_request` asks), which are then kept.
    pub fn get_signatures_bytes(&mut self, bytes: Vec<u8>) -> (r: Vec<u8>)
        ensures
            (final(self).state(), r@) == get_signatures_of(old(self).state(), bytes@),
            old(self).signatures_spec() matches Some(s) ==> r@ == s && final(self).signatures_spec()
                == old(self).signatures_spec(),
            old(self).signatures_spec() is None ==> r@ == bytes@ && final(self).signatures_spec()
                == Some(bytes@),
            final(self).payload_spec() == old(self).payload_spec(),
            final(self).buf_size_spec() == old(self).buf_size_spec(),
            final(self).header_spec() == old(self).header_spec(),
            final(self).manifest_spec() == old(self).manifest_spec(),
    {
        if let Some(signatures) = &self.signatures {
            return copy_bytes(signatures);
        }
        let r = copy_bytes(&bytes);
        self.signatures = Some(bytes);
        r
    }

    /// Where the manifest's bytes come from: the decoded manifest when there
    /// is one, else `manifest_len` bytes read from where the stream stands,
    /// which is just after the header when the header was the last read.
    pub fn get_manifest_bytes(&self) -> (r: ManifestSource)
        requires
            self.header_spec() is Some,
        ensures
            r == manifest_source_of(self.state()),
            self.manifest_spec() is Some ==> r == ManifestSource::Decoded,
            self.manifest_spec() is None ==> r == ManifestSource::Read(
                ReadRequest::Next { len: self.header_spec()->Some_0.manifest_len as usize },
            ),
    {
        if self.manifest.is_some() {
            return ManifestSource::Decoded;
        }
        let header = self.header.unwrap();
        ManifestSource::Read(ReadRequest::Next { len: header.manifest_len as usize })
    }

    /// The manifest: the one already decoded, or else `decoded` (decoded
    /// from the bytes `get_manifest_bytes` named), which is then kept.
    pub fn get_manifest(&mut self, decoded: DeltaArchiveManifest) -> (r: &DeltaArchiveManifest)
        ensures
            (final(self).state(), r@) == get_manifest_of(old(self).state(), decoded@),
            old(self).manifest_spec() matches Some(m) ==> r@ == m && final(self).manifest_spec()
                == old(self).manifest_spec(),
            old(self).manifest_spec() is None ==> r@ == decoded@ && final(self).manifest_spec()
                == Some(decoded@),
            final(self).payload_spec() == old(self).payload_spec(),
            final(self).buf_size_spec() == old(self).buf_size_spec(),
            final(self).header_spec() == old(self).header_spec(),
            final(self).signatures_spec() == old(self).signatures_spec(),
    {
        if self.manifest.is_none() {
            self.manifest = Some(decoded);
        }
        self.manifest.as_ref().unwrap()
    }

    /// The manifest, when it has been decoded.
    pub fn manifest(&self) -> (r: Option<&DeltaArchiveManifest>)
        ensures
            match r {
                Some(m) => self.manifest_spec() == Some(m@),
                None => self.manifest_spec() is None,
            },
    {
        self.manifest.as_ref()
    }

    /// The summary handed to the user interface, marked as read over HTTP
    /// exactly when the payload is a URL. It is made from the manifest
    /// already decoded; when there is none, from `fetched`, the outcome of
    /// reading and decoding the manifest: a manifest is kept and summed up,
    /// an error is passed on and nothing is kept.
    pub fn get_part_manifest<E>(&mut self, fetched: Result<DeltaArchiveManifest, E>) -> (r: Result<
        PartManifest,
        E,
    >)
        requires
            match old(self).manifest_spec() {
                Some(m) => download_sizes_fit(m, old(self).payload_spec().is_url()),
                None => fetched is Ok ==> download_sizes_fit(
                    fetched->Ok_0@,
                    old(self).payload_spec().is_url(),
                ),
            },
        ensures
            (final(self).state(), summary_result_view(r)) == get_part_manifest_of(
                old(self).state(),
                fetched_view(fetched),
            ),
    {
        if self.manifest.is_none() {
            match fetched {
                Ok(d) => {
                    self.manifest = Some(d);
                },
                Err(e) => {
                    return Err(e);
                },
            }
        }
        Ok(part_manifest_of(self.manifest.as_ref().unwrap(), &self.payload))
    }
}

/// The outcome of fetching a manifest, by value.
pub open spec fn fetched_view<E>(f: Result<DeltaArchiveManifest, E>) -> Result<
    DeltaArchiveManifestView,
    E,
> {
    match f {
        Ok(m) => Ok(m@),
        Err(e) => Err(e),
    }
}

/// A summary or an error, by value.
pub open spec fn summary_result_view<E>(r: Result<PartManifest, E>) -> Result<PartManifestView, E> {
    match r {
        Ok(p) => Ok(p@),
        Err(e) => Err(e),
    }
}

/// The state and the answer of `get_part_manifest` in state `s`, when
/// fetching the manifest gives `fetched`.
pub open spec fn get_part_manifest_of<E>(
    s: DumperState,
    fetched: Result<DeltaArchiveManifestView, E>,
) -> (DumperState, Result<PartManifestView, E>) {
    match s.manifest {
        Some(_) => (s, Ok(summary_of(s))),
        None => match fetched {
            Ok(d) => {
                let s2 = get_manifest_of(s, d).0;
                (s2, Ok(summary_of(s2)))
            },
            Err(e) => (s, Err(e)),
        },
    }
}

/// The summary fails exactly when fetching the manifest fails, with the same
/// error, and leaves the state as it was; once it succeeds, the manifest is
/// kept, and every later call gives the same summary, whatever a later
/// fetch would give. (Fetching succeeds once a manifest is decoded: it gives
/// the kept one.)
pub proof fn lemma_part_manifest_errors_and_cache<E>(
    s: DumperState,
    fetched: Result<DeltaArchiveManifestView, E>,
    later: Result<DeltaArchiveManifestView, E>,
)
    requires
        s.manifest is Some ==> fetched is Ok,
    ensures
        forall|e: E| #[trigger] get_part_manifest_of(s, fetched).1 == Err::<PartManifestView, E>(e)
            <==> fetched == Err::<DeltaArchiveManifestView, E>(e),
        fetched is Err ==> get_part_manifest_of(s, fetched).0 == s,
        get_part_manifest_of(s, fetched).1 is Ok ==> get_part_manifest_of(
            get_part_manifest_of(s, fetched).0,
            later,
        ) == get_part_manifest_of(s, fetched),
{
}

/// The reader's buffer size changes no answer: two dumpers that know the
/// same (as `new` and `with_buf_size` of one payload do, whatever the
/// buffer size) ask for the same bytes, give the same results for the same
/// bytes, and know the same afterwards; their summaries are equal.
pub proof fn lemma_buffer_size_only_buffers(
    d1: PayloadDumper,
    d2: PayloadDumper,
    bytes: Seq<u8>,
    decoded: DeltaArchiveManifestView,
)
    requires
        d1.state() == d2.state(),
    ensures
        header_request_of(d1.state()) == header_request_of(d2.state()),
        get_header_of(d1.state(), bytes) == get_header_of(d2.state(), bytes),
        signatures_request_of(d1.state()) == signatures_request_of(d2.state()),
        get_signatures_of(d1.state(), bytes) == get_signatures_of(d2.state(), bytes),
        manifest_source_of(d1.state()) == manifest_source_of(d2.state()),
        get_manifest_of(d1.state(), decoded) == get_manifest_of(d2.state(), decoded),
        summary_of(d1.state()) == summary_of(d2.state()),
{
}

/// Once the manifest is decoded, its summary stays the same: a later
/// `get_manifest` keeps the decoded manifest, whatever it is handed, so the
/// summary after it equals the summary before it.
pub proof fn lemma_summary_stable(s: DumperState, decoded: DeltaArchiveManifestView)
    requires
        s.manifest is Some,
    ensures
        get_manifest_of(s, decoded).0 == s,
        summary_of(get_manifest_of(s, decoded).0) == summary_of(s),
{
}

} // verus!

//! The fixed 24-byte header at the start of a payload: magic `CrAU`,
//! a big-endian `u64` format version, the big-endian `u64` length of the
//! manifest and the big-endian `u32` length of the metadata signature.
use vstd::prelude::*;
use crate::bytes::{
    be_bytes, be_value, lemma_be_roundtrip, lemma_be_value_bound, lemma_pow256_values, read_be,
};
use crate::constants::{payload_magic, BRILLO_MAJOR_PAYLOAD_VERSION, HEADER_SIZE};

verus! {

/// The decoded payload header.
#[derive(Clone, Copy, Debug, PartialEq, Eq)]
pub struct PayloadHeader {
    pub version: u64,
    pub manifest_len: u64,
    pub signature_len: u32,
}

/// Why a header could not be decoded.
#[derive(Clone, Copy, Debug, PartialEq, Eq)]
pub enum HeaderError {
    /// The buffer ended before the field being read.
    UnexpectedEof,
    /// The first four bytes are not `CrAU`; they are given.
    InvalidMagic(u8, u8, u8, u8),
    /// The version field is not the supported major version.
    UnsupportedVersion,
}

/// What decoding `b` as a payload header gives. Fields are read in order,
/// so a short buffer fails at the first field it cannot hold.
pub open spec fn header_from_bytes_spec(b: Seq<u8>) -> Result<PayloadHeader, HeaderError> {
    if b.len() < 4 {
        Err(HeaderError::UnexpectedEof)
    } else if b.subrange(0, 4) != payload_magic() {
        Err(HeaderError::InvalidMagic(b[0], b[1], b[2], b[3]))
    } else if b.len() < 12 {
        Err(HeaderError::UnexpectedEof)
    } else if be_value(b.subrange(4, 12)) != BRILLO_MAJOR_PAYLOAD_VERSION {
        Err(HeaderError::UnsupportedVersion)
    } else if b.len() < 24 {
        Err(HeaderError::UnexpectedEof)
    } else {
        Ok(
            PayloadHeader {
                version: BRILLO_MAJOR_PAYLOAD_VERSION,
                manifest_len: be_value(b.subrange(12, 20)) as u64,
                signature_len: be_value(b.subrange(20, 24)) as u32,
            },
        )
    }
}

impl PayloadHeader {
    /// Whether the manifest and signature offsets of this header fit in a `u64`.
    pub open spec fn offsets_fit(&self) -> bool {
        HEADER_SIZE + self.manifest_len + self.signature_len <= u64::MAX
    }

    /// Decodes a header from the start of `buffer`.
    pub fn from_bytes(buffer: &[u8]) -> (r: Result<PayloadHeader, HeaderError>)
        ensures
            r == header_from_bytes_spec(buffer@),
    {
        let len = buffer.len();
        if len < 4 {
            return Err(HeaderError::UnexpectedEof);
        }
        let magic_ok = buffer[0] == 0x43u8 && buffer[1] == 0x72u8 && buffer[2] == 0x41u8
            && buffer[3] == 0x55u8;
        proof {
            let m = buffer@.subrange(0, 4);
            assert(magic_ok <==> m =~= payload_magic());
        }
        if !magic_ok {
            return Err(HeaderError::InvalidMagic(buffer[0], buffer[1], buffer[2], buffer[3]));
        }
        if len < 12 {
            return Err(HeaderError::UnexpectedEof);
        }
        let version = read_be(buffer, 4, 8);
        if version != BRILLO_MAJOR_PAYLOAD_VERSION {
            return Err(HeaderError::UnsupportedVersion);
        }
        if len < 24 {
            return Err(HeaderError::UnexpectedEof);
        }
        let manifest_len = read_be(buffer, 12, 8);
        let signature_len = read_be(buffer, 20, 4);
        proof {
            lemma_pow256_values();
            lemma_be_value_bound(buffer@.subrange(20, 24));
        }
        Ok(PayloadHeader { version, manifest_len, signature_len: signature_len as u32 })
    }

    /// Size in bytes of the header.
    pub fn size() -> (n: usize)
        ensures
            n == HEADER_SIZE,
    {
        HEADER_SIZE
    }

    /// Offset of the metadata signature: it follows the header and the manifest.
    pub fn signature_offset(&self) -> (off: u64)
        requires
            HEADER_SIZE + self.manifest_len <= u64::MAX,
        ensures
            off == HEADER_SIZE + self.manifest_len,
    {
        Self::size() as u64 + self.manifest_len
    }

    /// Offset of the operation data blobs: they follow the signature.
    pub fn data_offset(&self) -> (off: u64)
        requires
            self.offsets_fit(),
        ensures
            off == HEADER_SIZE + self.manifest_len + self.signature_len,
    {
        self.signature_len as u64 + self.signature_offset()
    }

    /// Whether `signature_offset` and `data_offset` can be computed for this header.
    pub fn offsets_in_range(&self) -> (b: bool)
        ensures
            b == self.offsets_fit(),
    {
        self.manifest_len <= u64::MAX - 24 - self.signature_len as u64
    }
}

/// A header decodes from its first 24 bytes alone: what follows them
/// does not change the result.
pub proof fn lemma_header_reads_only_prefix(b: Seq<u8>, rest: Seq<u8>)
    requires
        b.len() >= HEADER_SIZE,
    ensures
        header_from_bytes_spec(b + rest) == header_from_bytes_spec(b),
{
    let c = b + rest;
    assert(c.subrange(0, 4) =~= b.subrange(0, 4));
    assert(c.subrange(4, 12) =~= b.subrange(4, 12));
    assert(c.subrange(12, 20) =~= b.subrange(12, 20));
    assert(c.subrange(20, 24) =~= b.subrange(20, 24));
}

/// The regions of a payload come in order: header, manifest, signature, data.
pub proof fn lemma_header_layout_ordered(h: PayloadHeader)
    requires
        h.offsets_fit(),
    ensures
        HEADER_SIZE <= HEADER_SIZE + h.manifest_len <= HEADER_SIZE + h.manifest_len
            + h.signature_len,
{
}

/// Every header that decodes carries the supported version.
pub proof fn lemma_decoded_header_version(b: Seq<u8>)
    requires
        header_from_bytes_spec(b) is Ok,
    ensures
        header_from_bytes_spec(b)->Ok_0.version == BRILLO_MAJOR_PAYLOAD_VERSION,
        b.len() >= HEADER_SIZE,
        b.subrange(0, 4) == payload_magic(),
{
}

/// The 24 bytes of a header of the supported version with the given lengths.
pub open spec fn header_bytes(manifest_len: u64, signature_len: u32) -> Seq<u8> {
    payload_magic() + be_bytes(BRILLO_MAJOR_PAYLOAD_VERSION as nat, 8) + be_bytes(
        manifest_len as nat,
        8,
    ) + be_bytes(signature_len as nat, 4)
}

/// Decoding the bytes of a header gives that header back.
pub proof fn lemma_header_roundtrip(manifest_len: u64, signature_len: u32)
    ensures
        header_bytes(manifest_len, signature_len).len() == HEADER_SIZE,
        header_from_bytes_spec(header_bytes(manifest_len, signature_len)) == Ok::<
            PayloadHeader,
            HeaderError,
        >(
            PayloadHeader {
                version: BRILLO_MAJOR_PAYLOAD_VERSION,
                manifest_len,
                signature_len,
            },
        ),
{
    lemma_pow256_values();
    lemma_be_roundtrip(BRILLO_MAJOR_PAYLOAD_VERSION as nat, 8);
    lemma_be_roundtrip(manifest_len as nat, 8);
    lemma_be_roundtrip(signature_len as nat, 4);
    let m = payload_magic();
    let v = be_bytes(BRILLO_MAJOR_PAYLOAD_VERSION as nat, 8);
    let a = be_bytes(manifest_len as nat, 8);
    let s = be_bytes(signature_len as nat, 4);
    let b = header_bytes(manifest_len, signature_len);
    assert(b.subrange(0, 4) =~= m);
    assert(b.subrange(4, 12) =~= v);
    assert(b.subrange(12, 20) =~= a);
    assert(b.subrange(20, 24) =~= s);
}

} // verus!

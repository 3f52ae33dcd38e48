//! Locating `payload.bin` inside an OTA ZIP archive: the end-of-central-
//! directory record (classic or ZIP64), the central directory entry of
//! `payload.bin`, and its local file header. Each step works on bytes that
//! the caller has read from the archive at the place the previous step named.
use vstd::prelude::*;
use crate::bytes::{le_value, read_le, lemma_le_value_bound, lemma_pow256_values};
use crate::constants::zip_magic;

verus! {

/// Length of the classic end-of-central-directory record.
pub const EOCD_LEN: usize = 22;
/// How far from the end the end-of-central-directory record is searched for.
pub const MAX_SEARCH_LEN: usize = 65557;
/// The smallest archive that can hold an end-of-central-directory record.
pub const MIN_ZIP_SIZE: usize = 22;
/// Length of the ZIP64 end-of-central-directory locator.
pub const LOC64_LEN: usize = 20;
/// Length of the ZIP64 end-of-central-directory record as read here.
pub const EOCD64_LEN: usize = 56;
/// Length of the fixed part of a central directory entry.
pub const CD_ENTRY_LEN: usize = 46;
/// Length of the fixed part of a local file header.
pub const LOCAL_HEADER_LEN: usize = 30;

/// Why `payload.bin` could not be located.
#[derive(Clone, Copy, Debug, PartialEq, Eq)]
pub enum ZipError {
    /// The archive's size is not known.
    FileSizeUnknown,
    /// The archive is shorter than an end record.
    TooSmall,
    /// No end record whose comment ends the archive.
    EocdNotFound,
    /// A ZIP64 archive whose end record leaves no room for the locator.
    NoRoomForZip64Locator,
    /// The locator before a ZIP64 end record lacks its signature.
    Zip64LocatorNotFound,
    /// The ZIP64 end record lacks its signature.
    Zip64EocdNotFound,
    /// The ZIP64 central directory would start before the archive.
    CdSizeTooLarge,
    /// The central directory ends before an entry's fixed part.
    CdEntryOutOfBounds,
    /// A central directory entry lacks its signature.
    InvalidCdSignature,
    /// An entry's name runs past the central directory.
    FileNameOutOfBounds,
    /// `payload.bin` is stored compressed.
    PayloadCompressed,
    /// The ZIP64 extra block of `payload.bin` is too short for its offset.
    Zip64ExtraTooSmall,
    /// `payload.bin` has no ZIP64 extra block.
    Zip64ExtraNotFound,
    /// An entry runs past the central directory.
    EntryOverflows,
    /// The local header of `payload.bin` lacks its signature.
    InvalidLocalHeader,
}

/// Whether `s[pos..pos + 4]` holds the signature `P K c d`.
pub open spec fn sig_at(s: Seq<u8>, pos: int, c: u8, d: u8) -> bool {
    &&& 0 <= pos
    &&& pos + 4 <= s.len()
    &&& s[pos] == 0x50u8
    &&& s[pos + 1] == 0x4bu8
    &&& s[pos + 2] == c
    &&& s[pos + 3] == d
}

/// The little-endian number in `s[pos..pos + n]`.
pub open spec fn le_at(s: Seq<u8>, pos: int, n: int) -> nat {
    le_value(s.subrange(pos, pos + n))
}

/// `a - b`, or zero when `b > a`.
pub open spec fn sat_sub(a: int, b: int) -> int {
    if a >= b {
        a - b
    } else {
        0
    }
}

/// Checks the signature `P K c d` at `s[pos..pos + 4]`.
fn has_sig(s: &[u8], pos: usize, c: u8, d: u8) -> (b: bool)
    requires
        pos + 4 <= s@.len(),
    ensures
        b == sig_at(s@, pos as int, c, d),
{
    s[pos] == 0x50u8 && s[pos + 1] == 0x4bu8 && s[pos + 2] == c && s[pos + 3] == d
}

/// Reads a little-endian number of `n <= 8` bytes at `s[pos..]`, as `u64`.
fn le(s: &[u8], pos: usize, n: usize) -> (v: u64)
    requires
        n <= 8,
        pos + n <= s@.len(),
    ensures
        v == le_at(s@, pos as int, n as int),
{
    read_le(s, pos, n)
}

/// Whether `head`, the first bytes of a payload file, start a ZIP archive.
pub fn is_zip(head: &[u8]) -> (b: bool)
    ensures
        b == (head@.len() >= 4 && head@.subrange(0, 4) == zip_magic()),
{
    if head.len() < 4 {
        return false;
    }
    let b = has_sig(head, 0, 0x03u8, 0x04u8);
    proof {
        assert(b == (head@.subrange(0, 4) =~= zip_magic()));
    }
    b
}

// ---------------------------------------------------------------------------
// Step 1: the window at the end of the archive to search.
// ---------------------------------------------------------------------------

/// The start and length of the window at the end of an archive of
/// `file_size` bytes in which the end-of-central-directory record is sought.
pub fn search_window(file_size: Option<u64>) -> (r: Result<(u64, u64), ZipError>)
    ensures
        match file_size {
            None => r == Err::<(u64, u64), ZipError>(ZipError::FileSizeUnknown),
            Some(n) => if n < MIN_ZIP_SIZE {
                r == Err::<(u64, u64), ZipError>(ZipError::TooSmall)
            } else {
                r matches Ok((start, len)) && len == (if n < MAX_SEARCH_LEN { n } else {
                    MAX_SEARCH_LEN as u64
                }) && start == n - len
            },
        },
{
    let file_size = match file_size {
        Some(n) => n,
        None => return Err(ZipError::FileSizeUnknown),
    };
    if file_size < MIN_ZIP_SIZE as u64 {
        return Err(ZipError::TooSmall);
    }
    let scan_len = if file_size < MAX_SEARCH_LEN as u64 {
        file_size
    } else {
        MAX_SEARCH_LEN as u64
    };
    Ok((file_size - scan_len, scan_len))
}

// ---------------------------------------------------------------------------
// Step 2: the end-of-central-directory record in that window.
// ---------------------------------------------------------------------------

/// Whether a classic end-of-central-directory record starts at `buf[i]`:
/// its signature is there, and its comment length is exactly the number of
/// archive bytes that follow the record.
pub open spec fn is_eocd_at(buf: Seq<u8>, i: int, file_size: int, start: int) -> bool {
    &&& sig_at(buf, i, 0x05u8, 0x06u8)
    &&& i + EOCD_LEN <= buf.len()
    &&& le_at(buf, i + 20, 2) == sat_sub(file_size, start + i + EOCD_LEN)
}

/// The last record start at or before `k`, searching backwards.
pub open spec fn last_eocd_from(buf: Seq<u8>, k: int, file_size: int, start: int) -> Option<int>
    decreases k + 1,
{
    if k < 0 {
        None
    } else if is_eocd_at(buf, k, file_size, start) {
        Some(k)
    } else {
        last_eocd_from(buf, k - 1, file_size, start)
    }
}

/// A found record start is a record start, at or before where the search began.
pub proof fn lemma_last_eocd_is_eocd(buf: Seq<u8>, k: int, file_size: int, start: int)
    ensures
        last_eocd_from(buf, k, file_size, start) matches Some(i) ==> 0 <= i <= k && is_eocd_at(
            buf,
            i,
            file_size,
            start,
        ),
    decreases k + 1,
{
    if k >= 0 && !is_eocd_at(buf, k, file_size, start) {
        lemma_last_eocd_is_eocd(buf, k - 1, file_size, start);
    }
}

/// The position of the end-of-central-directory record in the window `buf`
/// read at `start` from an archive of `file_size` bytes: the last position
/// that holds one.
pub open spec fn find_eocd_spec(buf: Seq<u8>, file_size: int, start: int) -> Result<int, ZipError> {
    match last_eocd_from(buf, buf.len() - EOCD_LEN, file_size, start) {
        Some(i) => Ok(i),
        None => Err(ZipError::EocdNotFound),
    }
}

/// The backward search finds the last record start at or before `k`, and
/// finds none only when there is none.
proof fn lemma_last_eocd_is_last(buf: Seq<u8>, k: int, file_size: int, start: int)
    ensures
        match last_eocd_from(buf, k, file_size, start) {
            Some(i) => forall|j: int| i < j <= k ==> !#[trigger] is_eocd_at(buf, j, file_size, start),
            None => forall|j: int| 0 <= j <= k ==> !#[trigger] is_eocd_at(buf, j, file_size, start),
        },
    decreases k + 1,
{
    if k >= 0 && !is_eocd_at(buf, k, file_size, start) {
        lemma_last_eocd_is_last(buf, k - 1, file_size, start);
    }
}

/// The two-byte little-endian number at `buf[p..p + 2]`.
proof fn lemma_le_two(buf: Seq<u8>, p: int)
    requires
        0 <= p,
        p + 2 <= buf.len(),
    ensures
        le_at(buf, p, 2) == buf[p] + 256 * buf[p + 1],
{
    let s = buf.subrange(p, p + 2);
    reveal_with_fuel(le_value, 3);
    assert(s.drop_first().drop_first().len() == 0);
    assert(s[0] == buf[p] && s.drop_first()[0] == buf[p + 1]);
}

/// The end record is sought by its place in the archive: in the window
/// `buf` read at offset `start` up to the end of an archive of `file_size`
/// bytes, the search gives the last position `i` that holds `P K 5 6` and
/// whose two-byte comment length, at `i + 20`, is the number of archive
/// bytes after the record, `file_size - (start + i + 22)`; it fails with
/// `EocdNotFound` exactly when no position does.
pub proof fn lemma_eocd_search_by_archive_position(buf: Seq<u8>, file_size: int, start: int)
    requires
        buf.len() >= EOCD_LEN,
        0 <= start,
        start + buf.len() == file_size,
    ensures
        match find_eocd_spec(buf, file_size, start) {
            Ok(i) => {
                &&& 0 <= i
                &&& i + 22 <= buf.len()
                &&& buf[i] == 0x50u8 && buf[i + 1] == 0x4bu8 && buf[i + 2] == 0x05u8 && buf[i + 3]
                    == 0x06u8
                &&& buf[i + 20] + 256 * buf[i + 21] == file_size - (start + i + 22)
                &&& forall|j: int|
                    #![trigger buf[j + 20]]
                    i < j && j + 22 <= buf.len() ==> !(buf[j] == 0x50u8 && buf[j + 1] == 0x4bu8
                        && buf[j + 2] == 0x05u8 && buf[j + 3] == 0x06u8 && buf[j + 20] + 256
                        * buf[j + 21] == file_size - (start + j + 22))
            },
            Err(e) => {
                &&& e == ZipError::EocdNotFound
                &&& forall|j: int|
                    #![trigger buf[j + 20]]
                    0 <= j && j + 22 <= buf.len() ==> !(buf[j] == 0x50u8 && buf[j + 1] == 0x4bu8
                        && buf[j + 2] == 0x05u8 && buf[j + 3] == 0x06u8 && buf[j + 20] + 256
                        * buf[j + 21] == file_size - (start + j + 22))
            },
        },
{
    let k = buf.len() - EOCD_LEN;
    lemma_last_eocd_is_eocd(buf, k, file_size, start);
    lemma_last_eocd_is_last(buf, k, file_size, start);
    assert forall|j: int|
        #![trigger buf[j + 20]]
        #![trigger is_eocd_at(buf, j, file_size, start)]
        0 <= j && j + 22 <= buf.len() implies (is_eocd_at(
        buf,
        j,
        file_size,
        start,
    ) <==> (buf[j] == 0x50u8 && buf[j + 1] == 0x4bu8 && buf[j + 2] == 0x05u8 && buf[j + 3]
        == 0x06u8 && buf[j + 20] + 256 * buf[j + 21] == file_size - (start + j + 22))) by {
        lemma_le_two(buf, j + 20);
    }
}

/// An archive that ends with an end record without comment: the search over
/// the window at its end, read from any offset, finds that record in the
/// window's last 22 bytes.
pub proof fn lemma_eocd_at_archive_end_found(buf: Seq<u8>, file_size: int, start: int)
    requires
        buf.len() >= EOCD_LEN,
        0 <= start,
        start + buf.len() == file_size,
        buf[buf.len() - 22] == 0x50u8,
        buf[buf.len() - 21] == 0x4bu8,
        buf[buf.len() - 20] == 0x05u8,
        buf[buf.len() - 19] == 0x06u8,
        buf[buf.len() - 2] == 0u8,
        buf[buf.len() - 1] == 0u8,
    ensures
        find_eocd_spec(buf, file_size, start) == Ok::<int, ZipError>(buf.len() - 22),
{
    lemma_eocd_search_by_archive_position(buf, file_size, start);
    let j = buf.len() - 22;
    assert(buf[j + 20] + 256 * buf[j + 21] == file_size - (start + j + 22));
}

/// Finds the end-of-central-directory record in the window `buf`, read at
/// offset `start` of an archive of `file_size` bytes.
pub fn find_eocd(buf: &[u8], file_size: u64, start: u64) -> (r: Result<usize, ZipError>)
    requires
        buf@.len() >= EOCD_LEN,
        start + buf@.len() <= u64::MAX,
    ensures
        match r {
            Ok(p) => find_eocd_spec(buf@, file_size as int, start as int) == Ok::<int, ZipError>(
                p as int,
            ) && p + EOCD_LEN <= buf@.len(),
            Err(e) => find_eocd_spec(buf@, file_size as int, start as int) == Err::<int, ZipError>(
                e,
            ),
        },
{
    proof {
        lemma_last_eocd_is_eocd(buf@, buf@.len() - EOCD_LEN, file_size as int, start as int);
    }
    let len = buf.len();
    let hi = len - EOCD_LEN;
    let mut k: usize = hi + 1;
    while k > 0
        invariant
            len == buf@.len(),
            len >= EOCD_LEN,
            hi == len - EOCD_LEN,
            k <= hi + 1,
            start + len <= u64::MAX,
            last_eocd_from(buf@, hi as int, file_size as int, start as int) == last_eocd_from(
                buf@,
                k - 1,
                file_size as int,
                start as int,
            ),
        decreases k,
    {
        let i = k - 1;
        let comment_len = le(buf, i + 20, 2);
        let consumed = start + i as u64 + EOCD_LEN as u64;
        let trailing = if file_size >= consumed {
            file_size - consumed
        } else {
            0
        };
        if has_sig(buf, i, 0x05u8, 0x06u8) && trailing == comment_len {
            return Ok(i);
        }
        k = i;
    }
    Err(ZipError::EocdNotFound)
}

// ---------------------------------------------------------------------------
// Step 3: where the central directory is, from the classic record.
// ---------------------------------------------------------------------------

/// Where the central directory is, as the end record gives it.
#[derive(Clone, Copy, Debug, PartialEq, Eq)]
pub enum CdLocation {
    /// The classic record gives offset and size.
    Direct { cd_offset: u64, cd_size: u64 },
    /// The archive is ZIP64: the ZIP64 end record, at this offset, gives them.
    Zip64 { eocd64_offset: u64 },
}

/// What the classic end record at `buf[pos]` says of the central directory.
pub open spec fn locate_cd_spec(buf: Seq<u8>, pos: int) -> Result<CdLocation, ZipError> {
    if le_at(buf, pos + 16, 4) == 0xFFFF_FFFF {
        if pos < LOC64_LEN {
            Err(ZipError::NoRoomForZip64Locator)
        } else if !sig_at(buf, pos - LOC64_LEN, 0x06u8, 0x07u8) {
            Err(ZipError::Zip64LocatorNotFound)
        } else {
            Ok(CdLocation::Zip64 { eocd64_offset: le_at(buf, pos - LOC64_LEN + 8, 8) as u64 })
        }
    } else {
        Ok(
            CdLocation::Direct {
                cd_offset: le_at(buf, pos + 16, 4) as u64,
                cd_size: le_at(buf, pos + 12, 4) as u64,
            },
        )
    }
}

/// Reads the classic end record at `buf[pos]`.
pub fn locate_central_directory(buf: &[u8], pos: usize) -> (r: Result<CdLocation, ZipError>)
    requires
        pos + EOCD_LEN <= buf@.len(),
    ensures
        r == locate_cd_spec(buf@, pos as int),
{
    let _n = buf.len();
    let cd_offset32 = le(buf, pos + 16, 4);
    if cd_offset32 == 0xFFFF_FFFFu64 {
        if pos < LOC64_LEN {
            return Err(ZipError::NoRoomForZip64Locator);
        }
        let loc = pos - LOC64_LEN;
        if !has_sig(buf, loc, 0x06u8, 0x07u8) {
            return Err(ZipError::Zip64LocatorNotFound);
        }
        let eocd64_offset = le(buf, loc + 8, 8);
        Ok(CdLocation::Zip64 { eocd64_offset })
    } else {
        let cd_size = le(buf, pos + 12, 4);
        Ok(CdLocation::Direct { cd_offset: cd_offset32, cd_size })
    }
}

// ---------------------------------------------------------------------------
// Step 4: where the central directory is, from the ZIP64 record.
// ---------------------------------------------------------------------------

/// What the ZIP64 end record `rec`, read at `eocd64_offset`, says of the
/// central directory: its size, and that it ends where the record begins.
pub open spec fn zip64_cd_spec(rec: Seq<u8>, eocd64_offset: int) -> Result<(u64, u64), ZipError> {
    if !sig_at(rec, 0, 0x06u8, 0x06u8) {
        Err(ZipError::Zip64EocdNotFound)
    } else if le_at(rec, 40, 8) > eocd64_offset {
        Err(ZipError::CdSizeTooLarge)
    } else {
        Ok(((eocd64_offset - le_at(rec, 40, 8)) as u64, le_at(rec, 40, 8) as u64))
    }
}

/// Reads the ZIP64 end record `rec`, read at `eocd64_offset`; gives the
/// central directory's offset and size.
pub fn zip64_central_directory(rec: &[u8], eocd64_offset: u64) -> (r: Result<(u64, u64), ZipError>)
    requires
        rec@.len() == EOCD64_LEN,
    ensures
        r == zip64_cd_spec(rec@, eocd64_offset as int),
{
    if !has_sig(rec, 0, 0x06u8, 0x06u8) {
        return Err(ZipError::Zip64EocdNotFound);
    }
    let cd_size = le(rec, 40, 8);
    if cd_size > eocd64_offset {
        return Err(ZipError::CdSizeTooLarge);
    }
    Ok((eocd64_offset - cd_size, cd_size))
}

// ---------------------------------------------------------------------------
// Step 5: the central directory entry of `payload.bin`.
// ---------------------------------------------------------------------------

/// Whether `s[from..to]` is the name `payload.bin`.
pub open spec fn is_payload_name(s: Seq<u8>, from: int, to: int) -> bool {
    s.subrange(from, to) == seq![
        0x70u8, 0x61u8, 0x79u8, 0x6cu8, 0x6fu8, 0x61u8, 0x64u8, 0x2eu8, 0x62u8, 0x69u8, 0x6eu8,
    ]
}

/// What the ZIP64 extended-information extra field in `extra`, scanned from
/// `i`, gives as the local header offset.
pub open spec fn zip64_offset_from(extra: Seq<u8>, i: int) -> Result<u64, ZipError>
    decreases extra.len() - i,
{
    if i < 0 || i + 4 > extra.len() {
        Err(ZipError::Zip64ExtraNotFound)
    } else {
        let id = le_at(extra, i, 2);
        let size = le_at(extra, i + 2, 2);
        if i + 4 + size > extra.len() {
            Err(ZipError::Zip64ExtraNotFound)
        } else if id == 1 {
            if size >= 24 {
                Ok(le_at(extra, i + 4 + 16, 8) as u64)
            } else {
                Err(ZipError::Zip64ExtraTooSmall)
            }
        } else {
            zip64_offset_from(extra, i + 4 + size)
        }
    }
}

/// Finds the local header offset in the extra fields `extra` of an entry
/// whose 32-bit offset field is saturated.
pub fn parse_zip64_lhdr_offset(extra: &[u8]) -> (r: Result<u64, ZipError>)
    ensures
        r == zip64_offset_from(extra@, 0),
{
    let len = extra.len();
    let mut i: usize = 0;
    proof {
        lemma_pow256_values();
    }
    while len >= 4 && i <= len - 4
        invariant
            len == extra@.len(),
            i <= len,
            zip64_offset_from(extra@, 0) == zip64_offset_from(extra@, i as int),
            crate::bytes::pow256(2) == 0x1_0000,
            crate::bytes::pow256(8) == 0x1_0000_0000_0000_0000,
        decreases len - i,
    {
        let id = le(extra, i, 2);
        let size64 = le(extra, i + 2, 2);
        proof {
            lemma_le_value_bound(extra@.subrange(i + 2, i + 4));
        }
        let size = size64 as usize;
        let j = i + 4;
        if size > len - j {
            return Err(ZipError::Zip64ExtraNotFound);
        }
        if id == 1 {
            if size >= 24 {
                return Ok(le(extra, j + 16, 8));
            }
            return Err(ZipError::Zip64ExtraTooSmall);
        }
        i = j + size;
    }
    Err(ZipError::Zip64ExtraNotFound)
}

/// The local header offset that the entry at `cd[pos]`, named
/// `payload.bin` and ending its name at `name_end`, gives.
pub open spec fn entry_lhdr_offset(cd: Seq<u8>, pos: int, name_end: int) -> Result<u64, ZipError> {
    if le_at(cd, pos + 42, 4) == 0xFFFF_FFFF {
        let extra_end = if name_end + le_at(cd, pos + 30, 2) < cd.len() {
            name_end + le_at(cd, pos + 30, 2)
        } else {
            cd.len() as int
        };
        zip64_offset_from(cd.subrange(name_end, extra_end), 0)
    } else {
        Ok(le_at(cd, pos + 42, 4) as u64)
    }
}

/// What scanning the central directory `cd` from the entry at `pos` gives:
/// the local header offset of `payload.bin`, or why it is not found.
pub open spec fn scan_cd_from(cd: Seq<u8>, pos: int) -> Result<u64, ZipError>
    decreases cd.len() - pos,
{
    if pos < 0 || pos + CD_ENTRY_LEN > cd.len() {
        Err(ZipError::CdEntryOutOfBounds)
    } else if !sig_at(cd, pos, 0x01u8, 0x02u8) {
        Err(ZipError::InvalidCdSignature)
    } else {
        let name_len = le_at(cd, pos + 28, 2);
        let extra_len = le_at(cd, pos + 30, 2);
        let comment_len = le_at(cd, pos + 32, 2);
        let name_end = pos + CD_ENTRY_LEN + name_len;
        if name_end > cd.len() {
            Err(ZipError::FileNameOutOfBounds)
        } else if is_payload_name(cd, pos + CD_ENTRY_LEN, name_end) {
            if le_at(cd, pos + 10, 2) != 0 {
                Err(ZipError::PayloadCompressed)
            } else {
                entry_lhdr_offset(cd, pos, name_end)
            }
        } else {
            let next = pos + CD_ENTRY_LEN + name_len + extra_len + comment_len;
            if next > cd.len() {
                Err(ZipError::EntryOverflows)
            } else {
                scan_cd_from(cd, next)
            }
        }
    }
}

/// Checks whether `cd[from..from + 11]` is the name `payload.bin`.
fn payload_name_at(cd: &[u8], from: usize, to: usize) -> (b: bool)
    requires
        from <= to <= cd@.len(),
    ensures
        b == is_payload_name(cd@, from as int, to as int),
{
    if to - from != 11 {
        proof {
            assert(cd@.subrange(from as int, to as int).len() != 11);
        }
        return false;
    }
    let b = cd[from] == 0x70u8 && cd[from + 1] == 0x61u8 && cd[from + 2] == 0x79u8 && cd[from
        + 3] == 0x6cu8 && cd[from + 4] == 0x6fu8 && cd[from + 5] == 0x61u8 && cd[from + 6]
        == 0x64u8 && cd[from + 7] == 0x2eu8 && cd[from + 8] == 0x62u8 && cd[from + 9] == 0x69u8
        && cd[from + 10] == 0x6eu8;
    proof {
        let name = seq![
            0x70u8, 0x61u8, 0x79u8, 0x6cu8, 0x6fu8, 0x61u8, 0x64u8, 0x2eu8, 0x62u8, 0x69u8, 0x6eu8,
        ];
        let sub = cd@.subrange(from as int, to as int);
        if b {
            assert(sub =~= name);
        } else {
            assert(exists|k: int| 0 <= k < 11 && #[trigger] sub[k] != name[k]) by {
                if sub[0] != name[0] {
                    assert(sub[0] != name[0]);
                } else if sub[1] != name[1] {
                    assert(sub[1] != name[1]);
                } else if sub[2] != name[2] {
                    assert(sub[2] != name[2]);
                } else if sub[3] != name[3] {
                    assert(sub[3] != name[3]);
                } else if sub[4] != name[4] {
                    assert(sub[4] != name[4]);
                } else if sub[5] != name[5] {
                    assert(sub[5] != name[5]);
                } else if sub[6] != name[6] {
                    assert(sub[6] != name[6]);
                } else if sub[7] != name[7] {
                    assert(sub[7] != name[7]);
                } else if sub[8] != name[8] {
                    assert(sub[8] != name[8]);
                } else if sub[9] != name[9] {
                    assert(sub[9] != name[9]);
                } else {
                    assert(sub[10] != name[10]);
                }
            }
        }
    }
    b
}

/// Scans the central directory `cd` for the entry of `payload.bin`; gives
/// the offset of its local file header.
pub fn find_payload_entry(cd: &[u8]) -> (r: Result<u64, ZipError>)
    ensures
        r == scan_cd_from(cd@, 0),
{
    let len = cd.len();
    let mut pos: usize = 0;
    proof {
        lemma_pow256_values();
    }
    loop
        invariant
            len == cd@.len(),
            pos <= len,
            scan_cd_from(cd@, 0) == scan_cd_from(cd@, pos as int),
            crate::bytes::pow256(2) == 0x1_0000,
        decreases len - pos,
    {
        if len < CD_ENTRY_LEN || pos > len - CD_ENTRY_LEN {
            return Err(ZipError::CdEntryOutOfBounds);
        }
        if !has_sig(cd, pos, 0x01u8, 0x02u8) {
            return Err(ZipError::InvalidCdSignature);
        }
        let compression = le(cd, pos + 10, 2);
        let name64 = le(cd, pos + 28, 2);
        let extra64 = le(cd, pos + 30, 2);
        let comment64 = le(cd, pos + 32, 2);
        let lhdr_off_raw = le(cd, pos + 42, 4);
        proof {
            lemma_le_value_bound(cd@.subrange(pos + 28, pos + 30));
            lemma_le_value_bound(cd@.subrange(pos + 30, pos + 32));
            lemma_le_value_bound(cd@.subrange(pos + 32, pos + 34));
        }
        let file_name_len = name64 as usize;
        let extra_len = extra64 as usize;
        let comment_len = comment64 as usize;
        let name_start = pos + CD_ENTRY_LEN;
        if file_name_len > len - name_start {
            return Err(ZipError::FileNameOutOfBounds);
        }
        let name_end = name_start + file_name_len;
        if payload_name_at(cd, name_start, name_end) {
            if compression != 0 {
                return Err(ZipError::PayloadCompressed);
            }
            if lhdr_off_raw == 0xFFFF_FFFFu64 {
                let extra_end = if extra_len < len - name_end {
                    name_end + extra_len
                } else {
                    len
                };
                let extra = slice_of(cd, name_end, extra_end);
                return parse_zip64_lhdr_offset(extra);
            }
            return Ok(lhdr_off_raw);
        }
        let rest = file_name_len + extra_len + comment_len;
        if rest > len - name_start {
            return Err(ZipError::EntryOverflows);
        }
        pos = name_start + rest;
    }
}

/// The bytes `s[from..to]`.
fn slice_of(s: &[u8], from: usize, to: usize) -> (r: &[u8])
    requires
        from <= to <= s@.len(),
    ensures
        r@ == s@.subrange(from as int, to as int),
{
    vstd::slice::slice_subrange(s, from, to)
}

// ---------------------------------------------------------------------------
// Step 6: where the data of `payload.bin` starts.
// ---------------------------------------------------------------------------

/// Where the data of the entry whose local header `lhdr` was read at
/// `lhdr_off` starts: after the header, its name and its extra field.
pub open spec fn data_start_spec(lhdr: Seq<u8>, lhdr_off: int) -> Result<u64, ZipError> {
    if !sig_at(lhdr, 0, 0x03u8, 0x04u8) {
        Err(ZipError::InvalidLocalHeader)
    } else {
        Ok((lhdr_off + LOCAL_HEADER_LEN + le_at(lhdr, 26, 2) + le_at(lhdr, 28, 2)) as u64)
    }
}

/// Whether the data start of the local header `lhdr` at `lhdr_off` fits a `u64`.
pub open spec fn data_start_fits(lhdr: Seq<u8>, lhdr_off: int) -> bool {
    lhdr_off + LOCAL_HEADER_LEN + le_at(lhdr, 26, 2) + le_at(lhdr, 28, 2) <= u64::MAX
}

/// Reads the local file header `lhdr`, read at `lhdr_off`; gives where the
/// entry's data starts.
pub fn local_data_start(lhdr: &[u8], lhdr_off: u64) -> (r: Result<u64, ZipError>)
    requires
        lhdr@.len() == LOCAL_HEADER_LEN,
        data_start_fits(lhdr@, lhdr_off as int),
    ensures
        r == data_start_spec(lhdr@, lhdr_off as int),
{
    if !has_sig(lhdr, 0, 0x03u8, 0x04u8) {
        return Err(ZipError::InvalidLocalHeader);
    }
    let name_len = le(lhdr, 26, 2);
    let extra_len = le(lhdr, 28, 2);
    Ok(lhdr_off + LOCAL_HEADER_LEN as u64 + name_len + extra_len)
}

/// Whether `local_data_start` may be called on `lhdr` and `lhdr_off`.
pub fn local_data_start_in_range(lhdr: &[u8], lhdr_off: u64) -> (b: bool)
    requires
        lhdr@.len() == LOCAL_HEADER_LEN,
    ensures
        b == data_start_fits(lhdr@, lhdr_off as int),
{
    let name_len = le(lhdr, 26, 2);
    let extra_len = le(lhdr, 28, 2);
    proof {
        lemma_pow256_values();
        lemma_le_value_bound(lhdr@.subrange(26, 28));
        lemma_le_value_bound(lhdr@.subrange(28, 30));
    }
    lhdr_off <= u64::MAX - LOCAL_HEADER_LEN as u64 - name_len - extra_len
}

// ---------------------------------------------------------------------------
// The steps together.
// ---------------------------------------------------------------------------

/// How far the search for `payload.bin` has come.
#[derive(Clone, Copy, Debug, PartialEq, Eq)]
pub enum ZipStage {
    /// The archive's size is not known yet.
    NeedSize,
    /// Waiting for the `len` bytes at `start` of an archive of `file_size` bytes.
    Window { file_size: u64, start: u64, len: u64 },
    /// Waiting for the ZIP64 end record at `offset`.
    Eocd64 { offset: u64 },
    /// Waiting for the central directory: `size` bytes at `offset`.
    CentralDirectory { offset: u64, size: u64 },
    /// Waiting for the local file header of `payload.bin` at `offset`.
    LocalHeader { offset: u64 },
    /// The data of `payload.bin` starts at this offset.
    Found(u64),
    /// The archive does not hold a usable `payload.bin`.
    Failed(ZipError),
}

/// The bytes a stage waits for: offset and length.
pub open spec fn zip_request(stage: ZipStage) -> Option<(u64, u64)> {
    match stage {
        ZipStage::Window { start, len, .. } => Some((start, len)),
        ZipStage::Eocd64 { offset } => Some((offset, EOCD64_LEN as u64)),
        ZipStage::CentralDirectory { offset, size } => Some((offset, size)),
        ZipStage::LocalHeader { offset } => Some((offset, LOCAL_HEADER_LEN as u64)),
        _ => None,
    }
}

/// The stage once the archive's size is known.
pub open spec fn zip_begin_spec(file_size: Option<u64>) -> ZipStage {
    match file_size {
        None => ZipStage::Failed(ZipError::FileSizeUnknown),
        Some(n) => if n < MIN_ZIP_SIZE {
            ZipStage::Failed(ZipError::TooSmall)
        } else {
            let len = if n < MAX_SEARCH_LEN {
                n
            } else {
                MAX_SEARCH_LEN as u64
            };
            ZipStage::Window { file_size: n, start: (n - len) as u64, len }
        },
    }
}

/// The stage after the bytes `data` that `stage` waited for arrive.
pub open spec fn zip_feed_spec(stage: ZipStage, data: Seq<u8>) -> ZipStage {
    match stage {
        ZipStage::Window { file_size, start, .. } => match find_eocd_spec(
            data,
            file_size as int,
            start as int,
        ) {
            Err(e) => ZipStage::Failed(e),
            Ok(pos) => match locate_cd_spec(data, pos) {
                Err(e) => ZipStage::Failed(e),
                Ok(CdLocation::Direct { cd_offset, cd_size }) => ZipStage::CentralDirectory {
                    offset: cd_offset,
                    size: cd_size,
                },
                Ok(CdLocation::Zip64 { eocd64_offset }) => ZipStage::Eocd64 { offset: eocd64_offset },
            },
        },
        ZipStage::Eocd64 { offset } => match zip64_cd_spec(data, offset as int) {
            Err(e) => ZipStage::Failed(e),
            Ok((o, n)) => ZipStage::CentralDirectory { offset: o, size: n },
        },
        ZipStage::CentralDirectory { .. } => match scan_cd_from(data, 0) {
            Err(e) => ZipStage::Failed(e),
            Ok(o) => ZipStage::LocalHeader { offset: o },
        },
        ZipStage::LocalHeader { offset } => match data_start_spec(data, offset as int) {
            Err(e) => ZipStage::Failed(e),
            Ok(o) => ZipStage::Found(o),
        },
        _ => stage,
    }
}

/// Whether the bytes `data` can be fed to `stage`: they are as many as it
/// waits for, and the local header's data start fits a `u64`.
pub open spec fn zip_feed_ok(stage: ZipStage, data: Seq<u8>) -> bool {
    &&& zip_request(stage) matches Some((_, len)) && data.len() == len
    &&& stage matches ZipStage::LocalHeader { offset } ==> data_start_fits(data, offset as int)
}

/// The internal consistency of a stage.
pub open spec fn zip_stage_wf(stage: ZipStage) -> bool {
    stage matches ZipStage::Window { file_size, start, len } ==> len >= EOCD_LEN && start + len
        == file_size
}

/// Locates the data of `payload.bin` in a ZIP archive, step by step: the
/// caller reads the bytes `request` names and feeds them back.
pub struct ZipReader {
    stage: ZipStage,
}

impl ZipReader {
    /// The current stage.
    pub closed spec fn stage(&self) -> ZipStage {
        self.stage
    }

    /// A search that has not started.
    pub fn new() -> (z: Self)
        ensures
            z.stage() == ZipStage::NeedSize,
    {
        ZipReader { stage: ZipStage::NeedSize }
    }

    /// Starts the search in an archive of `file_size` bytes.
    pub fn begin(&mut self, file_size: Option<u64>)
        requires
            old(self).stage() == ZipStage::NeedSize,
        ensures
            final(self).stage() == zip_begin_spec(file_size),
            zip_stage_wf(final(self).stage()),
    {
        self.stage = match search_window(file_size) {
            Ok((start, len)) => ZipStage::Window { file_size: start + len, start, len },
            Err(e) => ZipStage::Failed(e),
        };
    }

    /// The bytes to read next, as offset and length; none when the search is over.
    pub fn request(&self) -> (r: Option<(u64, u64)>)
        ensures
            r == zip_request(self.stage()),
    {
        match self.stage {
            ZipStage::Window { start, len, .. } => Some((start, len)),
            ZipStage::Eocd64 { offset } => Some((offset, EOCD64_LEN as u64)),
            ZipStage::CentralDirectory { offset, size } => Some((offset, size)),
            ZipStage::LocalHeader { offset } => Some((offset, LOCAL_HEADER_LEN as u64)),
            _ => None,
        }
    }

    /// Whether `feed` may take `data`: the local header's data start fits.
    pub fn feed_in_range(&self, data: &[u8]) -> (b: bool)
        requires
            zip_request(self.stage()) matches Some((_, len)) && data@.len() == len,
        ensures
            b == zip_feed_ok(self.stage(), data@),
    {
        match self.stage {
            ZipStage::LocalHeader { offset } => local_data_start_in_range(data, offset),
            _ => true,
        }
    }

    /// Takes the bytes that `request` named.
    pub fn feed(&mut self, data: &[u8])
        requires
            zip_stage_wf(old(self).stage()),
            zip_feed_ok(old(self).stage(), data@),
        ensures
            final(self).stage() == zip_feed_spec(old(self).stage(), data@),
            zip_stage_wf(final(self).stage()),
    {
        self.stage = match self.stage {
            ZipStage::Window { file_size, start, .. } => match find_eocd(data, file_size, start) {
                Err(e) => ZipStage::Failed(e),
                Ok(pos) => match locate_central_directory(data, pos) {
                    Err(e) => ZipStage::Failed(e),
                    Ok(CdLocation::Direct { cd_offset, cd_size }) => ZipStage::CentralDirectory {
                        offset: cd_offset,
                        size: cd_size,
                    },
                    Ok(CdLocation::Zip64 { eocd64_offset }) => ZipStage::Eocd64 {
                        offset: eocd64_offset,
                    },
                },
            },
            ZipStage::Eocd64 { offset } => match zip64_central_directory(data, offset) {
                Err(e) => ZipStage::Failed(e),
                Ok((o, n)) => ZipStage::CentralDirectory { offset: o, size: n },
            },
            ZipStage::CentralDirectory { .. } => match find_payload_entry(data) {
                Err(e) => ZipStage::Failed(e),
                Ok(o) => ZipStage::LocalHeader { offset: o },
            },
            ZipStage::LocalHeader { offset } => match local_data_start(data, offset) {
                Err(e) => ZipStage::Failed(e),
                Ok(o) => ZipStage::Found(o),
            },
            s => s,
        };
    }

    /// The result of the search, once it is over.
    pub fn outcome(&self) -> (r: Option<Result<u64, ZipError>>)
        ensures
            r == match self.stage() {
                ZipStage::Found(o) => Some(Ok::<u64, ZipError>(o)),
                ZipStage::Failed(e) => Some(Err::<u64, ZipError>(e)),
                _ => None::<Result<u64, ZipError>>,
            },
    {
        match self.stage {
            ZipStage::Found(o) => Some(Ok(o)),
            ZipStage::Failed(e) => Some(Err(e)),
            _ => None,
        }
    }
}

/// The bytes `file[off..off + len]`, or none when they run past its end.
pub open spec fn read_at(file: Seq<u8>, off: u64, len: u64) -> Option<Seq<u8>> {
    if off + len <= file.len() {
        Some(file.subrange(off as int, off + len))
    } else {
        None
    }
}

/// The search run against `file`, each request answered with its bytes, for
/// at most `fuel` reads; none when a read runs past the end of `file`.
pub open spec fn zip_run(file: Seq<u8>, stage: ZipStage, fuel: nat) -> Option<ZipStage>
    decreases fuel,
{
    match zip_request(stage) {
        None => Some(stage),
        Some((off, len)) => if fuel == 0 {
            Some(stage)
        } else {
            match read_at(file, off, len) {
                None => None,
                Some(data) => zip_run(file, zip_feed_spec(stage, data), (fuel - 1) as nat),
            }
        },
    }
}

/// Where the data of `payload.bin` starts in the ZIP archive `file`, by the
/// format: the last end record in the final 65557 bytes whose comment ends
/// the archive, the central directory it (or its ZIP64 record) names, the
/// entry of `payload.bin` in it, and the local header that entry names.
/// None when one of these lies past the end of `file`.
pub open spec fn payload_offset_spec(file: Seq<u8>) -> Option<Result<u64, ZipError>> {
    let n = file.len();
    if n < MIN_ZIP_SIZE {
        Some(Err(ZipError::TooSmall))
    } else {
        let len = if n < MAX_SEARCH_LEN {
            n
        } else {
            MAX_SEARCH_LEN as nat
        };
        let window = file.subrange(n - len, n as int);
        match find_eocd_spec(window, n as int, n - len) {
            Err(e) => Some(Err(e)),
            Ok(pos) => match locate_cd_spec(window, pos) {
                Err(e) => Some(Err(e)),
                Ok(loc) => {
                    let cd_at: Option<Result<(u64, u64), ZipError>> = match loc {
                        CdLocation::Direct { cd_offset, cd_size } => Some(Ok((cd_offset, cd_size))),
                        CdLocation::Zip64 { eocd64_offset } => match read_at(
                            file,
                            eocd64_offset,
                            EOCD64_LEN as u64,
                        ) {
                            None => None,
                            Some(rec) => Some(zip64_cd_spec(rec, eocd64_offset as int)),
                        },
                    };
                    match cd_at {
                        None => None,
                        Some(Err(e)) => Some(Err(e)),
                        Some(Ok((cd_offset, cd_size))) => match read_at(file, cd_offset, cd_size) {
                            None => None,
                            Some(cd) => match scan_cd_from(cd, 0) {
                                Err(e) => Some(Err(e)),
                                Ok(lhdr_off) => match read_at(
                                    file,
                                    lhdr_off,
                                    LOCAL_HEADER_LEN as u64,
                                ) {
                                    None => None,
                                    Some(lhdr) => Some(data_start_spec(lhdr, lhdr_off as int)),
                                },
                            },
                        },
                    }
                },
            },
        }
    }
}

/// The stage a step result leads to, for a result that ends the search.
pub open spec fn final_stage(r: Result<u64, ZipError>) -> ZipStage {
    match r {
        Ok(o) => ZipStage::Found(o),
        Err(e) => ZipStage::Failed(e),
    }
}

/// A search that is over stays where it is.
proof fn lemma_zip_run_terminal(file: Seq<u8>, stage: ZipStage, fuel: nat)
    requires
        zip_request(stage) is None,
    ensures
        zip_run(file, stage, fuel) == Some(stage),
{
}

/// The last step: from the local header.
proof fn lemma_zip_run_local(file: Seq<u8>, off: u64, fuel: nat)
    requires
        fuel >= 1,
    ensures
        zip_run(file, ZipStage::LocalHeader { offset: off }, fuel) == match read_at(
            file,
            off,
            LOCAL_HEADER_LEN as u64,
        ) {
            None => None::<ZipStage>,
            Some(l) => Some(final_stage(data_start_spec(l, off as int))),
        },
{
    let s = ZipStage::LocalHeader { offset: off };
    if let Some(l) = read_at(file, off, LOCAL_HEADER_LEN as u64) {
        let t = zip_feed_spec(s, l);
        assert(t == final_stage(data_start_spec(l, off as int)));
        lemma_zip_run_terminal(file, t, (fuel - 1) as nat);
    }
}

/// The steps from the central directory on.
proof fn lemma_zip_run_cd(file: Seq<u8>, off: u64, size: u64, fuel: nat)
    requires
        fuel >= 2,
    ensures
        zip_run(file, ZipStage::CentralDirectory { offset: off, size }, fuel) == match read_at(
            file,
            off,
            size,
        ) {
            None => None::<ZipStage>,
            Some(cd) => match scan_cd_from(cd, 0) {
                Err(e) => Some(ZipStage::Failed(e)),
                Ok(lhdr_off) => match read_at(file, lhdr_off, LOCAL_HEADER_LEN as u64) {
                    None => None::<ZipStage>,
                    Some(l) => Some(final_stage(data_start_spec(l, lhdr_off as int))),
                },
            },
        },
{
    let s = ZipStage::CentralDirectory { offset: off, size };
    if let Some(cd) = read_at(file, off, size) {
        let t = zip_feed_spec(s, cd);
        match scan_cd_from(cd, 0) {
            Err(e) => {
                lemma_zip_run_terminal(file, t, (fuel - 1) as nat);
            },
            Ok(lhdr_off) => {
                lemma_zip_run_local(file, lhdr_off, (fuel - 1) as nat);
            },
        }
    }
}

/// The steps from the central directory's location on.
proof fn lemma_zip_run_located(file: Seq<u8>, loc: CdLocation, fuel: nat)
    requires
        fuel >= 3,
    ensures
        ({
            let stage = match loc {
                CdLocation::Direct { cd_offset, cd_size } => ZipStage::CentralDirectory {
                    offset: cd_offset,
                    size: cd_size,
                },
                CdLocation::Zip64 { eocd64_offset } => ZipStage::Eocd64 { offset: eocd64_offset },
            };
            let cd_at: Option<Result<(u64, u64), ZipError>> = match loc {
                CdLocation::Direct { cd_offset, cd_size } => Some(Ok((cd_offset, cd_size))),
                CdLocation::Zip64 { eocd64_offset } => match read_at(
                    file,
                    eocd64_offset,
                    EOCD64_LEN as u64,
                ) {
                    None => None,
                    Some(rec) => Some(zip64_cd_spec(rec, eocd64_offset as int)),
                },
            };
            zip_run(file, stage, fuel) == match cd_at {
                None => None::<ZipStage>,
                Some(Err(e)) => Some(ZipStage::Failed(e)),
                Some(Ok((cd_offset, cd_size))) => match read_at(file, cd_offset, cd_size) {
                    None => None::<ZipStage>,
                    Some(cd) => match scan_cd_from(cd, 0) {
                        Err(e) => Some(ZipStage::Failed(e)),
                        Ok(lhdr_off) => match read_at(file, lhdr_off, LOCAL_HEADER_LEN as u64) {
                            None => None::<ZipStage>,
                            Some(l) => Some(final_stage(data_start_spec(l, lhdr_off as int))),
                        },
                    },
                },
            }
        }),
{
    match loc {
        CdLocation::Direct { cd_offset, cd_size } => {
            lemma_zip_run_cd(file, cd_offset, cd_size, fuel);
        },
        CdLocation::Zip64 { eocd64_offset } => {
            let s = ZipStage::Eocd64 { offset: eocd64_offset };
            if let Some(rec) = read_at(file, eocd64_offset, EOCD64_LEN as u64) {
                let t = zip_feed_spec(s, rec);
                match zip64_cd_spec(rec, eocd64_offset as int) {
                    Err(e) => {
                        lemma_zip_run_terminal(file, t, (fuel - 1) as nat);
                    },
                    Ok((o, n)) => {
                        lemma_zip_run_cd(file, o, n, (fuel - 1) as nat);
                    },
                }
            }
        },
    }
}

/// Fed the bytes of an archive, the search ends within four reads where
/// the format puts the data of `payload.bin`, or with the format's reason
/// why there is none; it stops early exactly when a read runs past the end.
pub proof fn lemma_zip_reader_follows_format(file: Seq<u8>)
    requires
        file.len() <= u64::MAX,
    ensures
        zip_run(file, zip_begin_spec(Some(file.len() as u64)), 4) == match payload_offset_spec(file) {
            None => None::<ZipStage>,
            Some(r) => Some(final_stage(r)),
        },
{
    let n = file.len();
    let s0 = zip_begin_spec(Some(n as u64));
    if n < MIN_ZIP_SIZE {
        lemma_zip_run_terminal(file, s0, 4);
    } else {
        let len: u64 = if n < MAX_SEARCH_LEN {
            n as u64
        } else {
            MAX_SEARCH_LEN as u64
        };
        let start = (n - len) as u64;
        let window = file.subrange(n - len, n as int);
        assert(s0 == ZipStage::Window { file_size: n as u64, start, len });
        assert(read_at(file, start, len) == Some(window));
        let s1 = zip_feed_spec(s0, window);
        assert(zip_run(file, s0, 4) == zip_run(file, s1, 3));
        match find_eocd_spec(window, n as int, n - len) {
            Err(e) => {
                lemma_zip_run_terminal(file, s1, 3);
            },
            Ok(pos) => match locate_cd_spec(window, pos) {
                Err(e) => {
                    lemma_zip_run_terminal(file, s1, 3);
                },
                Ok(loc) => {
                    lemma_zip_run_located(file, loc, 3);
                },
            },
        }
    }
}

} // verus!

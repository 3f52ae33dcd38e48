//! The state of a payload read over HTTP with range requests: which byte the
//! connection delivers next, the chunk held in memory, reconnect attempts,
//! and the decisions taken on what the connection reports. The HTTP
//! exchange itself is done by the caller, which reports its outcome here.
use vstd::prelude::*;
use crate::constants::MAX_RETRIES;

verus! {

/// The kinds of I/O errors a connection can report.
#[derive(Clone, Copy, Debug, PartialEq, Eq)]
pub enum IoErrorKind {
    TimedOut,
    UnexpectedEof,
    ConnectionReset,
    ConnectionAborted,
    BrokenPipe,
    Interrupted,
    /// Any other kind.
    Other,
}

/// Whether an error of kind `kind` is worth a reconnect.
pub open spec fn is_retryable_spec(kind: IoErrorKind) -> bool {
    kind != IoErrorKind::Other
}

/// Whether a read that failed with `kind` is retried after reconnecting:
/// timeouts, early ends, reset, aborted and broken connections, interrupts.
pub fn is_retryable(kind: IoErrorKind) -> (b: bool)
    ensures
        b == is_retryable_spec(kind),
{
    match kind {
        IoErrorKind::TimedOut | IoErrorKind::UnexpectedEof | IoErrorKind::ConnectionReset
        | IoErrorKind::ConnectionAborted | IoErrorKind::BrokenPipe | IoErrorKind::Interrupted => true,
        IoErrorKind::Other => false,
    }
}

/// Why a remote read failed.
#[derive(Clone, Copy, Debug, PartialEq, Eq)]
pub enum RemoteError {
    /// The server answered with this status, neither 200 nor 206.
    HttpStatus(u16),
    /// A range was asked for and the server sent the whole body.
    RangeNotSupported,
    /// The `Content-Range` header is not text.
    BadContentRange,
    /// The `Content-Length` header is not text.
    BadContentLength,
    /// The connection failed more often than allowed.
    MaxRetriesExceeded,
    /// A seek went before the start of the payload.
    NegativeOffset,
    /// A seek from the end of a payload of unknown length.
    UnknownLength,
}

/// The value of an HTTP header, when the response carries it.
#[derive(Clone, Debug)]
pub enum HeaderText {
    /// The header's value, all visible ASCII.
    Text(Vec<u8>),
    /// The header's value holds bytes that are not visible ASCII.
    NotText,
}

/// Where a seek goes.
#[derive(Clone, Copy, Debug, PartialEq, Eq)]
pub enum SeekTarget {
    Start(u64),
    End(i64),
    Current(i64),
}

/// One step of a read into a caller's buffer.
#[derive(Clone, Copy, Debug, PartialEq, Eq)]
pub enum ReadStep {
    /// The read is over: the buffer is full, or the payload has ended.
    Done,
    /// The held chunk is used up: the caller refills it, then steps again.
    Refill,
    /// Bytes were copied; this many of the caller's buffer are now filled.
    Copied(usize),
}

/// What to do when the response body ends.
#[derive(Clone, Copy, Debug, PartialEq, Eq)]
pub enum BodyEnd {
    /// The whole payload has been received.
    Eof,
    /// The body ended early: reconnect.
    Reconnect,
}

/// The value of a [`RemoteCursor`]: its fields, with the held chunk as bytes.
pub struct CursorModel {
    pub offset: u64,
    pub total_size: Option<u64>,
    pub chunk: Seq<u8>,
    pub buffer_start: u64,
    pub buffer_pos: usize,
    pub buffer_len: usize,
    pub retries: usize,
    pub eof: bool,
    pub connected: bool,
}

/// Offset in the payload of the next byte a read from `m` gives.
pub open spec fn model_next_byte(m: CursorModel) -> int {
    if m.buffer_pos < m.buffer_len {
        m.buffer_start + m.buffer_pos
    } else {
        m.offset as int
    }
}

/// One read step from `m` into `out`, of which `written` bytes are filled:
/// the new state, the new buffer and the step.
pub open spec fn read_step_spec(m: CursorModel, out: Seq<u8>, written: nat) -> (
    CursorModel,
    Seq<u8>,
    ReadStep,
) {
    let available = m.buffer_len - m.buffer_pos;
    if written >= out.len() || m.eof {
        (m, out, ReadStep::Done)
    } else if available <= 0 {
        (m, out, ReadStep::Refill)
    } else {
        let k = if available < out.len() - written {
            available
        } else {
            out.len() - written
        };
        (
            CursorModel { buffer_pos: (m.buffer_pos + k) as usize, ..m },
            out.subrange(0, written as int) + m.chunk.subrange(
                m.buffer_pos as int,
                m.buffer_pos + k,
            ) + out.subrange(written + k, out.len() as int),
            ReadStep::Copied((written + k) as usize),
        )
    }
}

/// The state after the chunk `data` arrives in state `m`.
pub open spec fn on_chunk_spec(m: CursorModel, data: Seq<u8>) -> CursorModel {
    CursorModel {
        buffer_start: m.offset,
        chunk: data,
        buffer_pos: 0,
        buffer_len: data.len() as usize,
        offset: (m.offset + data.len()) as u64,
        retries: 0,
        ..m
    }
}

/// The state and decision after the body ends in state `m`.
pub open spec fn on_body_end_spec(m: CursorModel) -> (CursorModel, BodyEnd) {
    if m.total_size matches Some(t) && m.offset >= t {
        (CursorModel { eof: true, ..m }, BodyEnd::Eof)
    } else {
        (m, BodyEnd::Reconnect)
    }
}

/// The chunk a server that holds the payload `file` sends in state `m`,
/// when it sends at most `size` bytes at a time: the bytes from the
/// cursor's offset on.
pub open spec fn served_chunk(m: CursorModel, file: Seq<u8>, size: nat) -> Seq<u8> {
    let end = if m.offset + size < file.len() {
        m.offset + size
    } else {
        file.len() as int
    };
    file.subrange(m.offset as int, end)
}

/// A read into `out` from state `m`, stepped at most `fuel` times, against a
/// server that holds `file` and sends chunks of at most `size` bytes: each
/// `Refill` is answered with the next chunk, or with the end of the body
/// once the offset has reached the end of `file`. Gives the buffer and the
/// number of its bytes filled when the read is done, or `None` when the
/// fuel runs out or the body end calls for a reconnect.
pub open spec fn read_run(
    m: CursorModel,
    file: Seq<u8>,
    size: nat,
    out: Seq<u8>,
    written: nat,
    fuel: nat,
) -> Option<(Seq<u8>, nat)>
    decreases fuel,
{
    if fuel == 0 {
        None
    } else {
        let (m2, out2, step) = read_step_spec(m, out, written);
        match step {
            ReadStep::Done => Some((out, written)),
            ReadStep::Copied(w) => read_run(m2, file, size, out2, w as nat, (fuel - 1) as nat),
            ReadStep::Refill => if m.offset >= file.len() {
                let (m3, end) = on_body_end_spec(m);
                match end {
                    BodyEnd::Eof => read_run(m3, file, size, out, written, (fuel - 1) as nat),
                    BodyEnd::Reconnect => None,
                }
            } else {
                read_run(
                    on_chunk_spec(m, served_chunk(m, file, size)),
                    file,
                    size,
                    out,
                    written,
                    (fuel - 1) as nat,
                )
            },
        }
    }
}

/// Whether `m` is a state from which a read gives the bytes of `file`: the
/// server has said the length of `file`, the payload has not ended, the
/// held bytes are those of `file` at their place, and the offset follows
/// the held bytes while some are unread.
pub open spec fn read_ready(m: CursorModel, file: Seq<u8>) -> bool {
    &&& m.buffer_pos <= m.buffer_len
    &&& m.buffer_len <= m.chunk.len()
    &&& m.buffer_start + m.buffer_len <= file.len()
    &&& m.chunk.subrange(0, m.buffer_len as int) == file.subrange(
        m.buffer_start as int,
        m.buffer_start + m.buffer_len,
    )
    &&& file.len() <= u64::MAX
    &&& m.total_size == Some(file.len() as u64)
    &&& !m.eof
    &&& m.offset <= file.len()
    &&& m.buffer_pos < m.buffer_len ==> m.offset == m.buffer_start + m.buffer_len
}

/// How many bytes a read into `out`, of which `written` are filled, gives
/// from state `m`: as many as fit, and no more than `file` has left.
pub open spec fn read_len(m: CursorModel, file: Seq<u8>, out: Seq<u8>, written: nat) -> int {
    let room = out.len() - written;
    let left = file.len() - model_next_byte(m);
    if room < left {
        room
    } else {
        left
    }
}

/// A whole read from a ready state fills the caller's buffer, from
/// `written` on, with the payload's bytes from the read position on: as many
/// as fit, or all that are left, and leaves the rest of the buffer alone.
#[verifier::rlimit(25)]
pub proof fn lemma_read_run_delivers(
    m: CursorModel,
    file: Seq<u8>,
    size: nat,
    out: Seq<u8>,
    written: nat,
    fuel: nat,
)
    requires
        read_ready(m, file),
        0 < size <= usize::MAX,
        written <= out.len(),
        out.len() <= usize::MAX,
        fuel >= 2 * read_len(m, file, out, written) + if m.buffer_pos < m.buffer_len {
            2int
        } else {
            3int
        },
    ensures
        ({
            let p = model_next_byte(m);
            let n = read_len(m, file, out, written);
            read_run(m, file, size, out, written, fuel) == Some(
                (
                    out.subrange(0, written as int) + file.subrange(p, p + n) + out.subrange(
                        written + n,
                        out.len() as int,
                    ),
                    (written + n) as nat,
                ),
            )
        }),
    decreases fuel,
{
    let p = model_next_byte(m);
    let n = read_len(m, file, out, written);
    let available = m.buffer_len - m.buffer_pos;
    if written >= out.len() {
        assert(out.subrange(0, written as int) + file.subrange(p, p) + out.subrange(
            written as int,
            out.len() as int,
        ) =~= out);
    } else if available <= 0 {
        if m.offset >= file.len() {
            let (m3, end) = on_body_end_spec(m);
            assert(read_run(m3, file, size, out, written, (fuel - 2) as nat + 1) == Some(
                (out, written),
            ));
            assert(out.subrange(0, written as int) + file.subrange(p, p) + out.subrange(
                written as int,
                out.len() as int,
            ) =~= out);
        } else {
            let data = served_chunk(m, file, size);
            let m2 = on_chunk_spec(m, data);
            assert(data.len() > 0 && data.len() <= size);
            assert(m2.chunk.subrange(0, m2.buffer_len as int) =~= file.subrange(
                m2.buffer_start as int,
                m2.buffer_start + m2.buffer_len,
            ));
            lemma_read_run_delivers(m2, file, size, out, written, (fuel - 1) as nat);
        }
    } else {
        let k = if available < out.len() - written {
            available
        } else {
            out.len() - written
        };
        let m2 = CursorModel { buffer_pos: (m.buffer_pos + k) as usize, ..m };
        lemma_ready_held(m, file, k);
        let out2 = out.subrange(0, written as int) + file.subrange(p, p + k) + out.subrange(
            written + k,
            out.len() as int,
        );
        assert(read_step_spec(m, out, written) == (m2, out2, ReadStep::Copied((written + k) as usize)));
        lemma_read_run_delivers(m2, file, size, out2, (written + k) as nat, (fuel - 1) as nat);
        lemma_splice_twice(out, file, written as int, k, p, n);
    }
}

/// The held bytes of a ready state are the bytes of the payload at the
/// read position.
proof fn lemma_ready_held(m: CursorModel, file: Seq<u8>, k: int)
    requires
        read_ready(m, file),
        0 < k,
        m.buffer_pos + k <= m.buffer_len,
    ensures
        m.chunk.subrange(m.buffer_pos as int, m.buffer_pos + k) == file.subrange(
            model_next_byte(m),
            model_next_byte(m) + k,
        ),
{
    let p = model_next_byte(m);
    let a = m.chunk.subrange(0, m.buffer_len as int);
    let b = file.subrange(m.buffer_start as int, m.buffer_start + m.buffer_len);
    let x = m.chunk.subrange(m.buffer_pos as int, m.buffer_pos + k);
    let y = file.subrange(p, p + k);
    assert forall|j: int| 0 <= j < k implies #[trigger] x[j] == y[j] by {
        assert(x[j] == a[m.buffer_pos + j]);
        assert(y[j] == b[m.buffer_pos + j]);
    }
    assert(x =~= y);
}

/// Writing `k` bytes of `file` at `w`, then the next `n - k` at `w + k`, is
/// writing `n` bytes at `w`.
proof fn lemma_splice_twice(out: Seq<u8>, file: Seq<u8>, w: int, k: int, p: int, n: int)
    requires
        0 <= w,
        0 <= k <= n,
        w + n <= out.len(),
        0 <= p,
        p + n <= file.len(),
    ensures
        ({
            let out2 = out.subrange(0, w) + file.subrange(p, p + k) + out.subrange(
                w + k,
                out.len() as int,
            );
            out2.subrange(0, w + k) + file.subrange(p + k, p + n) + out2.subrange(
                w + n,
                out2.len() as int,
            ) == out.subrange(0, w) + file.subrange(p, p + n) + out.subrange(w + n, out.len() as int)
        }),
{
    let out2 = out.subrange(0, w) + file.subrange(p, p + k) + out.subrange(w + k, out.len() as int);
    let lhs = out2.subrange(0, w + k) + file.subrange(p + k, p + n) + out2.subrange(
        w + n,
        out2.len() as int,
    );
    let rhs = out.subrange(0, w) + file.subrange(p, p + n) + out.subrange(w + n, out.len() as int);
    assert(lhs.len() == rhs.len());
    assert forall|i: int| 0 <= i < lhs.len() implies #[trigger] lhs[i] == rhs[i] by {
        if i < w {
        } else if i < w + k {
        } else if i < w + n {
        } else {
        }
    }
    assert(lhs =~= rhs);
}

/// The state of a remote payload read.
pub struct RemoteCursor {
    /// Offset of the next byte the connection delivers.
    pub offset: u64,
    /// Length of the payload, once the server has said it.
    pub total_size: Option<u64>,
    /// The chunk last received.
    pub buffer: Vec<u8>,
    /// Offset of `buffer[0]` in the payload.
    pub buffer_start: u64,
    /// Next unread position in `buffer`.
    pub buffer_pos: usize,
    /// Number of valid bytes in `buffer`.
    pub buffer_len: usize,
    /// Reconnects since the last chunk arrived.
    pub retries: usize,
    /// Whether the whole payload has been received.
    pub eof: bool,
    /// Whether a response body is open.
    pub connected: bool,
}

impl RemoteCursor {
    /// The value of this cursor.
    pub open spec fn model(&self) -> CursorModel {
        CursorModel {
            offset: self.offset,
            total_size: self.total_size,
            chunk: self.buffer@,
            buffer_start: self.buffer_start,
            buffer_pos: self.buffer_pos,
            buffer_len: self.buffer_len,
            retries: self.retries,
            eof: self.eof,
            connected: self.connected,
        }
    }

    /// The bytes of the chunk held in memory.
    pub open spec fn chunk(&self) -> Seq<u8> {
        self.buffer@
    }

    /// The internal consistency of the state.
    pub open spec fn wf(&self) -> bool {
        &&& self.buffer_pos <= self.buffer_len
        &&& self.buffer_len <= self.chunk().len()
        &&& self.buffer_start + self.buffer_len <= u64::MAX
    }

    /// Offset in the payload of the next byte a read gives.
    pub open spec fn next_byte(&self) -> int {
        if self.buffer_pos < self.buffer_len {
            self.buffer_start + self.buffer_pos
        } else {
            self.offset as int
        }
    }

    /// Whether the held chunk is the part of the payload `file` that the
    /// cursor says it is: the valid bytes of the chunk are the bytes of
    /// `file` from `buffer_start` on.
    pub open spec fn holds_file(&self, file: Seq<u8>) -> bool {
        &&& self.buffer_start + self.buffer_len <= file.len()
        &&& self.buffer_len <= self.buffer@.len()
        &&& self.buffer@.subrange(0, self.buffer_len as int) == file.subrange(
            self.buffer_start as int,
            self.buffer_start + self.buffer_len,
        )
    }

    /// Number of held bytes not yet read.
    pub open spec fn available(&self) -> int {
        self.buffer_len - self.buffer_pos
    }

    /// A cursor at the start of the payload, not yet connected.
    pub fn new() -> (c: Self)
        ensures
            c.wf(),
            c.offset == 0,
            c.total_size is None,
            c.buffer_start == 0,
            c.buffer_pos == 0,
            c.buffer_len == 0,
            c.retries == 0,
            !c.eof,
            !c.connected,
            c.chunk().len() == 0,
    {
        RemoteCursor {
            offset: 0,
            total_size: None,
            buffer: Vec::new(),
            buffer_start: 0,
            buffer_pos: 0,
            buffer_len: 0,
            retries: 0,
            eof: false,
            connected: false,
        }
    }

    /// The length of the payload, when known.
    pub fn len(&self) -> (n: Option<u64>)
        ensures
            n == self.total_size,
    {
        self.total_size
    }

    /// The offset a request should ask the body from, when it is not the start.
    pub fn range_start(&self) -> (r: Option<u64>)
        ensures
            r == (if self.offset > 0 {
                Some(self.offset)
            } else {
                None::<u64>
            }),
    {
        if self.offset > 0 {
            Some(self.offset)
        } else {
            None
        }
    }

    /// Judges the status of a response to a request from `offset`: 200 or
    /// 206, and 206 when a range was asked for.
    pub fn check_status(&self, status: u16) -> (r: Result<(), RemoteError>)
        ensures
            status != 200 && status != 206 ==> r == Err::<(), RemoteError>(
                RemoteError::HttpStatus(status),
            ),
            (status == 200 || status == 206) && self.offset > 0 && status != 206 ==> r == Err::<
                (),
                RemoteError,
            >(RemoteError::RangeNotSupported),
            (status == 206 || (status == 200 && self.offset == 0)) ==> r is Ok,
    {
        if status != 200 && status != 206 {
            return Err(RemoteError::HttpStatus(status));
        }
        if self.offset > 0 && status != 206 {
            return Err(RemoteError::RangeNotSupported);
        }
        Ok(())
    }

    /// Records an accepted response: the payload length its headers give,
    /// and an empty chunk. `Content-Range` takes precedence over
    /// `Content-Length`; a value that is not a number leaves the length as it was.
    pub fn on_connected(
        &mut self,
        content_range: Option<HeaderText>,
        content_length: Option<HeaderText>,
    ) -> (r: Result<(), RemoteError>)
        requires
            old(self).wf(),
        ensures
            final(self).wf(),
            match content_range {
                Some(HeaderText::NotText) => r == Err::<(), RemoteError>(
                    RemoteError::BadContentRange,
                ) && *final(self) == *old(self),
                Some(HeaderText::Text(t)) => r is Ok && final(self).total_size == (
                match parse_u64_spec(second_field(t@)) {
                    Some(v) => Some(v),
                    None => old(self).total_size,
                }),
                None => match content_length {
                    Some(HeaderText::NotText) => r == Err::<(), RemoteError>(
                        RemoteError::BadContentLength,
                    ) && *final(self) == *old(self),
                    Some(HeaderText::Text(t)) => r is Ok && final(self).total_size == (
                    match parse_u64_spec(t@) {
                        Some(v) => Some(v),
                        None => old(self).total_size,
                    }),
                    None => r is Ok && final(self).total_size == old(self).total_size,
                },
            },
            forall|f: Seq<u8>| #[trigger] old(self).holds_file(f) ==> final(self).holds_file(f),
            r is Ok ==> final(self).connected && final(self).buffer_pos == 0
                && final(self).buffer_len == 0 && final(self).offset == old(self).offset
                && final(self).buffer_start == old(self).buffer_start && final(self).retries == old(
                self,
            ).retries && final(self).eof == old(self).eof,
    {
        match content_range {
            Some(HeaderText::NotText) => return Err(RemoteError::BadContentRange),
            Some(HeaderText::Text(t)) => {
                if let Some(v) = parse_u64(second_field_of(t.as_slice())) {
                    self.total_size = Some(v);
                }
            },
            None => match content_length {
                Some(HeaderText::NotText) => return Err(RemoteError::BadContentLength),
                Some(HeaderText::Text(t)) => {
                    if let Some(v) = parse_u64(t.as_slice()) {
                        self.total_size = Some(v);
                    }
                },
                None => {},
            },
        }
        self.connected = true;
        self.buffer_pos = 0;
        self.buffer_len = 0;
        proof {
            assert forall|f: Seq<u8>| #[trigger] old(self).holds_file(f) implies self.holds_file(f) by {
                assert(self.buffer@.subrange(0, 0) =~= f.subrange(
                    self.buffer_start as int,
                    self.buffer_start as int,
                ));
            }
        }
        Ok(())
    }

    /// Records a chunk of the body that the connection delivered.
    pub fn on_chunk(&mut self, data: Vec<u8>)
        requires
            old(self).wf(),
            data@.len() > 0,
            old(self).offset + data@.len() <= u64::MAX,
        ensures
            final(self).wf(),
            final(self).chunk() == data@,
            final(self).buffer_start == old(self).offset,
            final(self).buffer_pos == 0,
            final(self).buffer_len == data@.len(),
            final(self).offset == old(self).offset + data@.len(),
            final(self).retries == 0,
            final(self).total_size == old(self).total_size,
            final(self).eof == old(self).eof,
            final(self).connected == old(self).connected,
            final(self).model() == on_chunk_spec(old(self).model(), data@),
            forall|f: Seq<u8>|
                old(self).offset + data@.len() <= f.len() && #[trigger] f.subrange(
                    old(self).offset as int,
                    old(self).offset + data@.len(),
                ) == data@ ==> final(self).holds_file(f),
    {
        let n = data.len();
        let ghost d = data@;
        self.buffer_start = self.offset;
        self.buffer = data;
        self.buffer_pos = 0;
        self.buffer_len = n;
        self.offset = self.offset + n as u64;
        self.retries = 0;
        proof {
            assert(self.buffer@.subrange(0, n as int) =~= d);
        }
    }

    /// Decides what an empty read from the body means: the end of the
    /// payload when its length is known and reached, else a lost connection.
    pub fn on_body_end(&mut self) -> (r: BodyEnd)
        requires
            old(self).wf(),
        ensures
            final(self).wf(),
            (old(self).total_size matches Some(t) && old(self).offset >= t) ==> r == BodyEnd::Eof
                && final(self).eof && *final(self) == (RemoteCursor { eof: true, ..*old(self) }),
            !(old(self).total_size matches Some(t) && old(self).offset >= t) ==> r
                == BodyEnd::Reconnect && *final(self) == *old(self),
            (final(self).model(), r) == on_body_end_spec(old(self).model()),
            forall|f: Seq<u8>| #[trigger] old(self).holds_file(f) ==> final(self).holds_file(f),
    {
        if let Some(total) = self.total_size {
            if self.offset >= total {
                self.eof = true;
                return BodyEnd::Eof;
            }
        }
        BodyEnd::Reconnect
    }

    /// Drops the connection before a reconnect; gives the delay to wait, in
    /// milliseconds, or fails after too many attempts in a row.
    pub fn begin_retry(&mut self) -> (r: Result<u64, RemoteError>)
        requires
            old(self).wf(),
            old(self).retries < usize::MAX,
        ensures
            final(self).wf(),
            *final(self) == (RemoteCursor {
                connected: false,
                retries: (old(self).retries + 1) as usize,
                ..*old(self)
            }),
            forall|f: Seq<u8>| #[trigger] old(self).holds_file(f) ==> final(self).holds_file(f),
            final(self).retries > MAX_RETRIES ==> r == Err::<u64, RemoteError>(
                RemoteError::MaxRetriesExceeded,
            ),
            final(self).retries <= MAX_RETRIES ==> r == Ok::<u64, RemoteError>(
                (5000 * final(self).retries) as u64,
            ),
    {
        self.connected = false;
        self.retries = self.retries + 1;
        if self.retries > MAX_RETRIES {
            return Err(RemoteError::MaxRetriesExceeded);
        }
        Ok(5000 * self.retries as u64)
    }

    /// One step of reading into `out`, of which the first `written` bytes
    /// are already filled: copies held bytes, asks for a refill when none
    /// are held, or ends the read when `out` is full or the payload has ended.
    pub fn read_step(&mut self, out: &mut Vec<u8>, written: usize) -> (r: ReadStep)
        requires
            old(self).wf(),
            written <= old(out)@.len(),
        ensures
            final(self).wf(),
            final(out)@.len() == old(out)@.len(),
            (final(self).model(), final(out)@, r) == read_step_spec(
                old(self).model(),
                old(out)@,
                written as nat,
            ),
            (written == old(out)@.len() || old(self).eof) ==> r == ReadStep::Done
                && *final(self) == *old(self) && final(out)@ == old(out)@,
            (written < old(out)@.len() && !old(self).eof && old(self).available() == 0) ==> r
                == ReadStep::Refill && *final(self) == *old(self) && final(out)@ == old(out)@,
            (written < old(out)@.len() && !old(self).eof && old(self).available() > 0) ==> {
                let k = if old(self).available() < old(out)@.len() - written {
                    old(self).available()
                } else {
                    old(out)@.len() - written
                };
                &&& r == ReadStep::Copied((written + k) as usize)
                &&& final(out)@ == old(out)@.subrange(0, written as int) + old(self).chunk().subrange(
                    old(self).buffer_pos as int,
                    old(self).buffer_pos + k,
                ) + old(out)@.subrange(written + k, old(out)@.len() as int)
                &&& final(self).buffer_pos == old(self).buffer_pos + k
                &&& *final(self) == (RemoteCursor { buffer_pos: final(self).buffer_pos, ..*old(self) })
                &&& forall|f: Seq<u8>| #[trigger] old(self).holds_file(f) ==> final(self).holds_file(f)
                    && final(out)@.subrange(written as int, written + k) == f.subrange(
                    old(self).next_byte(),
                    old(self).next_byte() + k,
                )
            },
    {
        let len = out.len();
        if written == len || self.eof {
            return ReadStep::Done;
        }
        let available = self.buffer_len - self.buffer_pos;
        if available == 0 {
            return ReadStep::Refill;
        }
        let remaining = len - written;
        let to_copy = if available < remaining {
            available
        } else {
            remaining
        };
        let ghost out0 = out@;
        let ghost pos0 = self.buffer_pos;
        let mut i: usize = 0;
        while i < to_copy
            invariant
                0 <= i <= to_copy,
                written < len,
                out0.len() == len,
                to_copy <= len - written,
                len == out@.len(),
                pos0 == self.buffer_pos,
                self.buffer_pos + to_copy <= self.buffer_len,
                self.buffer_len <= self.buffer@.len(),
                out@ == out0.subrange(0, written as int) + self.buffer@.subrange(
                    pos0 as int,
                    pos0 + i,
                ) + out0.subrange(written + i, len as int),
            decreases to_copy - i,
        {
            let b = self.buffer[self.buffer_pos + i];
            let ghost before = out@;
            out.set(written + i, b);
            i = i + 1;
            proof {
                assert(b == self.buffer@[pos0 + i - 1]);
                assert(out@ == before.update(written + i - 1, b));
                assert(out@ =~= out0.subrange(0, written as int) + self.buffer@.subrange(
                    pos0 as int,
                    pos0 + i,
                ) + out0.subrange(written + i, len as int));
            }
        }
        let ghost old_self = *self;
        self.buffer_pos = self.buffer_pos + to_copy;
        proof {
            assert forall|f: Seq<u8>| #[trigger] old_self.holds_file(f) implies self.holds_file(f)
                && out@.subrange(written as int, written + to_copy) == f.subrange(
                old_self.next_byte(),
                old_self.next_byte() + to_copy,
            ) by {
                lemma_held_bytes(old_self, f, to_copy as int);
                assert(out@.subrange(written as int, written + to_copy) =~= self.buffer@.subrange(
                    pos0 as int,
                    pos0 + to_copy,
                ));
            }
        }
        ReadStep::Copied(written + to_copy)
    }

    /// Whether a seek to `target` stays within the arithmetic of its
    /// offsets: the end-relative sum fits an `i64`, the current-relative one
    /// a `u64`, and a backwards distance has an absolute value.
    pub open spec fn seek_fits(&self, target: SeekTarget) -> bool {
        match target {
            SeekTarget::Start(_) => true,
            SeekTarget::End(o) => match self.total_size {
                Some(t) => i64::MIN <= (t as i64) + o <= i64::MAX,
                None => true,
            },
            SeekTarget::Current(o) => if o >= 0 {
                self.buffer_start + self.buffer_pos + o <= u64::MAX
            } else {
                o != i64::MIN
            },
        }
    }

    /// The payload offset a seek to `target` goes to, or why it cannot.
    pub open spec fn seek_offset(&self, target: SeekTarget) -> Result<u64, RemoteError> {
        let current = self.buffer_start + self.buffer_pos;
        match target {
            SeekTarget::Start(o) => Ok(o),
            SeekTarget::End(o) => match self.total_size {
                Some(t) => if (t as i64) + o < 0 {
                    Err(RemoteError::NegativeOffset)
                } else {
                    Ok(((t as i64) + o) as u64)
                },
                None => Err(RemoteError::UnknownLength),
            },
            SeekTarget::Current(o) => if o >= 0 {
                Ok((current + o) as u64)
            } else if current >= -o {
                Ok((current + o) as u64)
            } else {
                Err(RemoteError::NegativeOffset)
            },
        }
    }

    /// Whether `seek` may be called with `target`.
    pub fn seek_in_range(&self, target: SeekTarget) -> (b: bool)
        requires
            self.wf(),
        ensures
            b == self.seek_fits(target),
    {
        match target {
            SeekTarget::Start(_) => true,
            SeekTarget::End(o) => match self.total_size {
                Some(t) => {
                    let ti = t as i64;
                    if o >= 0 {
                        ti <= i64::MAX - o
                    } else {
                        ti >= i64::MIN - o
                    }
                },
                None => true,
            },
            SeekTarget::Current(o) => if o >= 0 {
                self.buffer_pos as u64 <= u64::MAX - self.buffer_start
                    && o as u64 <= u64::MAX - self.buffer_start - self.buffer_pos as u64
            } else {
                o != i64::MIN
            },
        }
    }

    /// Moves the read position. Within the held chunk only the position
    /// changes; elsewhere the connection is dropped and the next read asks
    /// the server for the body from the new offset.
    pub fn seek(&mut self, target: SeekTarget) -> (r: Result<u64, RemoteError>)
        requires
            old(self).wf(),
            old(self).seek_fits(target),
        ensures
            final(self).wf(),
            match old(self).seek_offset(target) {
                Err(e) => r == Err::<u64, RemoteError>(e) && *final(self) == *old(self),
                Ok(n) => {
                    &&& r == Ok::<u64, RemoteError>(n)
                    &&& final(self).next_byte() == n
                    &&& forall|f: Seq<u8>| #[trigger] old(self).holds_file(f) ==> final(self).holds_file(f)
                    &&& if old(self).buffer_start <= n < old(self).buffer_start + old(self).buffer_len {
                        *final(self) == (RemoteCursor {
                            buffer_pos: (n - old(self).buffer_start) as usize,
                            ..*old(self)
                        })
                    } else {
                        *final(self) == (RemoteCursor {
                            connected: false,
                            offset: n,
                            buffer_pos: 0,
                            buffer_len: 0,
                            eof: false,
                            ..*old(self)
                        })
                    }
                },
            },
    {
        let current = self.buffer_start + self.buffer_pos as u64;
        let new_offset: u64 = match target {
            SeekTarget::Start(o) => o,
            SeekTarget::End(o) => match self.total_size {
                Some(t) => {
                    let sum = t as i64 + o;
                    if sum < 0 {
                        return Err(RemoteError::NegativeOffset);
                    }
                    sum as u64
                },
                None => return Err(RemoteError::UnknownLength),
            },
            SeekTarget::Current(o) => if o >= 0 {
                current + o as u64
            } else {
                let back = (-o) as u64;
                if current >= back {
                    current - back
                } else {
                    return Err(RemoteError::NegativeOffset);
                }
            },
        };
        if self.buffer_start <= new_offset && new_offset < self.buffer_start
            + self.buffer_len as u64 {
            self.buffer_pos = (new_offset - self.buffer_start) as usize;
            return Ok(new_offset);
        }
        self.connected = false;
        self.offset = new_offset;
        self.buffer_pos = 0;
        self.buffer_len = 0;
        self.eof = false;
        proof {
            assert forall|f: Seq<u8>| #[trigger] old(self).holds_file(f) implies self.holds_file(f) by {
                assert(self.buffer@.subrange(0, 0) =~= f.subrange(
                    self.buffer_start as int,
                    self.buffer_start as int,
                ));
            }
        }
        Ok(new_offset)
    }
}

/// A seek goes where its target says, counted in payload bytes: from the
/// start, to exactly the given offset; from the end of a payload of known
/// length `t` (one that an `i64` holds), to `t + o` unless that is negative; from the read position
/// `c`, to `c + o` unless that is negative. A negative place is refused, as
/// is an end-relative seek of a payload of unknown length; nothing else is.
pub proof fn lemma_seek_goes_to_target(c: RemoteCursor, target: SeekTarget)
    requires
        c.wf(),
        c.seek_fits(target),
    ensures
        target matches SeekTarget::Start(o) ==> c.seek_offset(target) == Ok::<u64, RemoteError>(
            o,
        ),
        target matches SeekTarget::End(o) ==> c.total_size is None ==> c.seek_offset(target)
            == Err::<u64, RemoteError>(RemoteError::UnknownLength),
        target matches SeekTarget::End(o) ==> c.total_size matches Some(t) ==> t <= i64::MAX ==> (
        if t + o < 0 {
            c.seek_offset(target) == Err::<u64, RemoteError>(RemoteError::NegativeOffset)
        } else {
            c.seek_offset(target) matches Ok(n) && n == t + o
        }),
        target matches SeekTarget::Current(o) ==> (if c.buffer_start + c.buffer_pos + o < 0 {
            c.seek_offset(target) == Err::<u64, RemoteError>(RemoteError::NegativeOffset)
        } else {
            c.seek_offset(target) matches Ok(n) && n == c.buffer_start + c.buffer_pos + o
        }),
{
    match target {
        SeekTarget::End(o) => {
            if let Some(t) = c.total_size {
                if t <= i64::MAX {
                    assert((t as i64) == t) by (bit_vector)
                        requires
                            t <= i64::MAX,
                    ;
                }
            }
        },
        _ => {},
    }
}

/// The held bytes from the read position on are the payload's bytes from
/// the next byte on.
pub proof fn lemma_held_bytes(c: RemoteCursor, f: Seq<u8>, k: int)
    requires
        c.holds_file(f),
        c.buffer_pos + k <= c.buffer_len,
        0 < k,
    ensures
        c.chunk().subrange(c.buffer_pos as int, c.buffer_pos + k) == f.subrange(
            c.next_byte(),
            c.next_byte() + k,
        ),
{
    assert(c.next_byte() == c.buffer_start + c.buffer_pos);
    let a = c.chunk().subrange(0, c.buffer_len as int);
    let b = f.subrange(c.buffer_start as int, c.buffer_start + c.buffer_len);
    let x = c.chunk().subrange(c.buffer_pos as int, c.buffer_pos + k);
    let y = f.subrange(c.next_byte(), c.next_byte() + k);
    assert forall|j: int| 0 <= j < k implies #[trigger] x[j] == y[j] by {
        assert(x[j] == a[c.buffer_pos + j]);
        assert(y[j] == b[c.buffer_pos + j]);
    }
    assert(c.chunk().subrange(c.buffer_pos as int, c.buffer_pos + k) =~= f.subrange(
        c.next_byte(),
        c.next_byte() + k,
    ));
}

// ---------------------------------------------------------------------------
// Header values.
// ---------------------------------------------------------------------------

/// Whether `c` is an ASCII decimal digit.
pub open spec fn is_digit(c: u8) -> bool {
    0x30 <= c <= 0x39
}

/// The number written by the decimal digits `s`.
pub open spec fn decimal_value(s: Seq<u8>) -> nat
    decreases s.len(),
{
    if s.len() == 0 {
        0
    } else {
        decimal_value(s.drop_last()) * 10 + (s.last() - 0x30) as nat
    }
}

/// Whether every byte of `s` is a decimal digit.
pub open spec fn all_digits(s: Seq<u8>) -> bool {
    forall|i: int| 0 <= i < s.len() ==> is_digit(#[trigger] s[i])
}

/// `s` without one leading `+`.
pub open spec fn unsigned_digits(s: Seq<u8>) -> Seq<u8> {
    if s.len() > 0 && s[0] == 0x2bu8 {
        s.drop_first()
    } else {
        s
    }
}

/// What `str::parse::<u64>` gives for the text `s`: an optional `+`, then
/// one or more decimal digits whose value fits a `u64`.
pub open spec fn parse_u64_spec(s: Seq<u8>) -> Option<u64> {
    let digits = unsigned_digits(s);
    if digits.len() > 0 && all_digits(digits) && decimal_value(digits) <= u64::MAX {
        Some(decimal_value(digits) as u64)
    } else {
        None
    }
}

/// Position of the first `/` in `s` at or after `i`, or `s.len()` when none.
pub open spec fn slash_from(s: Seq<u8>, i: int) -> int
    decreases s.len() - i,
{
    if i < 0 || i >= s.len() {
        s.len() as int
    } else if s[i] == 0x2fu8 {
        i
    } else {
        slash_from(s, i + 1)
    }
}

/// The second `/`-separated field of `s`, or nothing when `s` has no `/`.
pub open spec fn second_field(s: Seq<u8>) -> Seq<u8> {
    let i = slash_from(s, 0);
    if i >= s.len() {
        Seq::empty()
    } else {
        let rest = s.subrange(i + 1, s.len() as int);
        rest.subrange(0, slash_from(rest, 0))
    }
}

/// Parses decimal text as `str::parse::<u64>` does.
pub fn parse_u64(s: &[u8]) -> (r: Option<u64>)
    ensures
        r == parse_u64_spec(s@),
{
    let len = s.len();
    let start: usize = if len > 0 && s[0] == 0x2bu8 {
        1
    } else {
        0
    };
    let ghost digits = unsigned_digits(s@);
    proof {
        assert(digits =~= s@.subrange(start as int, len as int));
    }
    if start == len {
        return None;
    }
    let mut v: u64 = 0;
    let mut i: usize = start;
    while i < len
        invariant
            start <= i <= len,
            len == s@.len(),
            digits == s@.subrange(start as int, len as int),
            digits == unsigned_digits(s@),
            forall|k: int| start <= k < i ==> is_digit(#[trigger] s@[k]),
            v == decimal_value(s@.subrange(start as int, i as int)),
        decreases len - i,
    {
        let c = s[i];
        proof {
            assert(s@.subrange(start as int, i + 1).drop_last() =~= s@.subrange(start as int, i as int));
        }
        if c < 0x30u8 || c > 0x39u8 {
            proof {
                assert(digits[i - start] == c);
                assert(!is_digit(digits[i - start]));
                assert(!all_digits(digits));
            }
            return None;
        }
        let d = (c - 0x30u8) as u64;
        if v > (u64::MAX - d) / 10 {
            proof {
                let p = s@.subrange(start as int, i + 1);
                assert(p.drop_last() =~= s@.subrange(start as int, i as int));
                assert(decimal_value(p) == v * 10 + d);
                assert(v * 10 + d > u64::MAX) by (nonlinear_arith)
                    requires
                        v > (u64::MAX - d) / 10,
                        d <= 9,
                ;
                assert(digits.subrange(0, i - start + 1) =~= p);
                if all_digits(digits) {
                    lemma_decimal_prefix_bound(digits, (i - start) as int + 1);
                    assert(decimal_value(digits) > u64::MAX);
                }
            }
            return None;
        }
        v = v * 10 + d;
        i = i + 1;
    }
    proof {
        assert(s@.subrange(start as int, len as int) =~= digits);
        assert forall|k: int| 0 <= k < digits.len() implies is_digit(#[trigger] digits[k]) by {
            assert(digits[k] == s@[start + k]);
        }
        assert(all_digits(digits));
    }
    Some(v)
}

/// A prefix of decimal digits writes a number no larger than the whole.
pub proof fn lemma_decimal_prefix_bound(s: Seq<u8>, n: int)
    requires
        0 <= n <= s.len(),
        all_digits(s),
    ensures
        decimal_value(s.subrange(0, n)) <= decimal_value(s),
    decreases s.len(),
{
    if n < s.len() {
        assert(s.drop_last().subrange(0, n) =~= s.subrange(0, n));
        lemma_decimal_prefix_bound(s.drop_last(), n);
    } else {
        assert(s.subrange(0, n) =~= s);
    }
}

/// Position of the first `/` in `s` at or after `from`, or `s.len()`.
fn find_slash(s: &[u8], from: usize) -> (r: usize)
    requires
        from <= s@.len(),
    ensures
        r == slash_from(s@, from as int),
        from <= r <= s@.len(),
{
    let len = s.len();
    let mut i = from;
    while i < len && s[i] != 0x2fu8
        invariant
            from <= i <= len == s@.len(),
            slash_from(s@, from as int) == slash_from(s@, i as int),
        decreases len - i,
    {
        i = i + 1;
    }
    i
}

/// `slash_from` of a suffix, in the suffix's own positions.
proof fn lemma_slash_from_shift(s: Seq<u8>, start: int, i: int)
    requires
        0 <= start <= i <= s.len(),
    ensures
        slash_from(s.subrange(start, s.len() as int), i - start) == slash_from(s, i) - start,
    decreases s.len() - i,
{
    if i < s.len() {
        lemma_slash_from_shift(s, start, i + 1);
    }
}

/// The second `/`-separated field of `s`.
pub fn second_field_of(s: &[u8]) -> (r: &[u8])
    ensures
        r@ == second_field(s@),
{
    let len = s.len();
    let i = find_slash(s, 0);
    if i == len {
        return vstd::slice::slice_subrange(s, 0, 0);
    }
    let j = find_slash(s, i + 1);
    proof {
        lemma_slash_from_shift(s@, i + 1, i + 1);
        assert(s@.subrange(i + 1, len as int).subrange(0, j - (i + 1)) =~= s@.subrange(
            i + 1,
            j as int,
        ));
    }
    vstd::slice::slice_subrange(s, i + 1, j)
}

} // verus!

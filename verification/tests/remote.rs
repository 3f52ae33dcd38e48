use payload_dumper::remote::{
    is_retryable, parse_u64, second_field_of, BodyEnd, HeaderText, IoErrorKind, ReadStep,
    RemoteCursor, RemoteError, SeekTarget,
};

fn connected(total: u64) -> RemoteCursor {
    let mut c = RemoteCursor::new();
    c.on_connected(None, Some(HeaderText::Text(total.to_string().into_bytes())))
        .unwrap();
    c
}

/// Reads `len` bytes, serving refills from `file` as a connection would.
fn read(c: &mut RemoteCursor, file: &[u8], len: usize) -> Vec<u8> {
    let mut out = vec![0u8; len];
    let mut written = 0;
    loop {
        match c.read_step(&mut out, written) {
            ReadStep::Done => break,
            ReadStep::Copied(n) => written = n,
            ReadStep::Refill => {
                let off = c.offset as usize;
                if off >= file.len() {
                    assert_eq!(c.on_body_end(), BodyEnd::Eof);
                } else {
                    let end = (off + 3).min(file.len());
                    c.on_chunk(file[off..end].to_vec());
                }
            }
        }
    }
    out.truncate(written);
    out
}

#[test]
fn retryable_kinds() {
    assert!(is_retryable(IoErrorKind::TimedOut));
    assert!(is_retryable(IoErrorKind::UnexpectedEof));
    assert!(is_retryable(IoErrorKind::ConnectionReset));
    assert!(is_retryable(IoErrorKind::ConnectionAborted));
    assert!(is_retryable(IoErrorKind::BrokenPipe));
    assert!(is_retryable(IoErrorKind::Interrupted));
    assert!(!is_retryable(IoErrorKind::Other));
}

#[test]
fn decimal_parsing_follows_str_parse() {
    for s in ["0", "12", "+12", "007", "18446744073709551615"] {
        assert_eq!(parse_u64(s.as_bytes()), s.parse::<u64>().ok(), "{s}");
    }
    for s in ["", "+", "-1", "1a", " 1", "18446744073709551616", "99999999999999999999"] {
        assert_eq!(parse_u64(s.as_bytes()), None, "{s}");
        assert!(s.parse::<u64>().is_err());
    }
}

#[test]
fn second_field_is_the_total_of_a_content_range() {
    assert_eq!(second_field_of(b"bytes 0-99/1234"), b"1234");
    assert_eq!(second_field_of(b"a/b/c"), b"b");
    assert_eq!(second_field_of(b"abc"), b"");
    assert_eq!(second_field_of(b"x/"), b"");
}

#[test]
fn headers_give_the_total_size() {
    let mut c = RemoteCursor::new();
    c.on_connected(
        Some(HeaderText::Text(b"bytes 10-19/500".to_vec())),
        Some(HeaderText::Text(b"10".to_vec())),
    )
    .unwrap();
    assert_eq!(c.len(), Some(500));
    assert!(c.connected);
    let mut c = RemoteCursor::new();
    c.on_connected(None, Some(HeaderText::Text(b"42".to_vec()))).unwrap();
    assert_eq!(c.len(), Some(42));
    let mut c = RemoteCursor::new();
    c.on_connected(Some(HeaderText::Text(b"bytes */x".to_vec())), None).unwrap();
    assert_eq!(c.len(), None);
    let mut c = RemoteCursor::new();
    assert_eq!(
        c.on_connected(Some(HeaderText::NotText), None),
        Err(RemoteError::BadContentRange)
    );
    assert_eq!(
        c.on_connected(None, Some(HeaderText::NotText)),
        Err(RemoteError::BadContentLength)
    );
    assert!(!c.connected);
}

#[test]
fn status_checks() {
    let mut c = RemoteCursor::new();
    assert_eq!(c.check_status(200), Ok(()));
    assert_eq!(c.check_status(206), Ok(()));
    assert_eq!(c.check_status(404), Err(RemoteError::HttpStatus(404)));
    assert_eq!(c.range_start(), None);
    c.seek(SeekTarget::Start(10)).unwrap();
    assert_eq!(c.range_start(), Some(10));
    assert_eq!(c.check_status(200), Err(RemoteError::RangeNotSupported));
    assert_eq!(c.check_status(206), Ok(()));
}

#[test]
fn reads_deliver_the_payload_bytes() {
    let file: Vec<u8> = (0u8..20).collect();
    let mut c = connected(20);
    assert_eq!(read(&mut c, &file, 7), file[0..7].to_vec());
    assert_eq!(read(&mut c, &file, 5), file[7..12].to_vec());
    // past the end, a read gives what is left
    assert_eq!(read(&mut c, &file, 100), file[12..20].to_vec());
    assert!(c.eof);
    assert_eq!(read(&mut c, &file, 4), Vec::<u8>::new());
}

#[test]
fn seeks_inside_and_outside_the_held_chunk() {
    let file: Vec<u8> = (100u8..140).collect();
    let mut c = connected(40);
    assert_eq!(read(&mut c, &file, 2), file[0..2].to_vec());
    // the held chunk is bytes 0..3; seeking to 1 stays inside it
    assert_eq!(c.seek(SeekTarget::Start(1)), Ok(1));
    assert!(c.connected);
    assert_eq!(c.buffer_pos, 1);
    assert_eq!(read(&mut c, &file, 4), file[1..5].to_vec());
    // a far seek drops the connection and restarts there
    assert_eq!(c.seek(SeekTarget::Start(30)), Ok(30));
    assert!(!c.connected);
    assert_eq!(c.offset, 30);
    assert_eq!(read(&mut c, &file, 4), file[30..34].to_vec());
    assert_eq!(c.seek(SeekTarget::End(-5)), Ok(35));
    assert_eq!(read(&mut c, &file, 5), file[35..40].to_vec());
    assert_eq!(c.seek(SeekTarget::Current(-3)), Ok(37));
    assert_eq!(c.seek(SeekTarget::End(-50)), Err(RemoteError::NegativeOffset));
    let mut u = RemoteCursor::new();
    assert_eq!(u.seek(SeekTarget::End(0)), Err(RemoteError::UnknownLength));
    assert_eq!(u.seek(SeekTarget::Current(-1)), Err(RemoteError::NegativeOffset));
    assert!(u.seek_in_range(SeekTarget::Current(5)));
    assert!(!u.seek_in_range(SeekTarget::Current(i64::MIN)));
}

#[test]
fn reconnects_are_limited() {
    let mut c = connected(10);
    assert_eq!(c.begin_retry(), Ok(5000));
    assert!(!c.connected);
    assert_eq!(c.begin_retry(), Ok(10000));
    assert_eq!(c.begin_retry(), Ok(15000));
    assert_eq!(c.begin_retry(), Err(RemoteError::MaxRetriesExceeded));
    // a chunk clears the count
    c.on_chunk(vec![1, 2, 3]);
    assert_eq!(c.retries, 0);
}

#[test]
fn an_early_end_of_body_asks_for_a_reconnect() {
    let mut c = connected(10);
    assert_eq!(c.on_body_end(), BodyEnd::Reconnect);
    assert!(!c.eof);
    let mut u = RemoteCursor::new();
    assert_eq!(u.on_body_end(), BodyEnd::Reconnect);
    c.on_chunk(vec![0; 10]);
    assert_eq!(c.on_body_end(), BodyEnd::Eof);
    assert!(c.eof);
}

use payload_dumper::payload::{Payload, PayloadTypeError};

#[test]
fn payload_kinds() {
    assert!(matches!(Payload::from_file("/a/b.zip"), Payload::File(p) if p == "/a/b.zip"));
    assert!(matches!(Payload::from_url("http://x/y"), Payload::Url(u) if u == "http://x/y"));
    assert!(matches!(Payload::from_type(0, "p"), Ok(Payload::File(p)) if p == "p"));
    assert!(matches!(Payload::from_type(1, "u"), Ok(Payload::Url(u)) if u == "u"));
    assert!(matches!(Payload::from_type(2, "u"), Err(PayloadTypeError::UnknownType)));
    assert!(Payload::from_url("u").is_remote());
    assert!(!Payload::from_file("f").is_remote());
}

use mysql_protocol::error::{Error, ErrorKind};

#[test]
fn new_keeps_kind_and_description_and_has_no_cause() {
    let e = Error::new(ErrorKind::InvalidPacket, "bad packet");
    assert_eq!(ErrorKind::InvalidPacket, e.kind());
    assert_eq!("bad packet", e.description());
    assert_eq!(None, e.cause());
}

#[test]
fn with_cause_keeps_the_cause() {
    let e = Error::with_cause(ErrorKind::Other, "read failed", "broken pipe");
    assert_eq!(ErrorKind::Other, e.kind());
    assert_eq!("read failed", e.description());
    assert_eq!(Some("broken pipe"), e.cause());
}

#[test]
fn unsupported_protocol_errors_with_equal_fields_are_equal() {
    let a = Error::new(ErrorKind::UnsupportedProtocol { required: 10, requested: 9 }, "first text");
    let b =
        Error::new(ErrorKind::UnsupportedProtocol { required: 10, requested: 9 }, "second text");
    assert!(a == b);
    assert!(b == a);
}

#[test]
fn unsupported_protocol_errors_with_other_fields_differ() {
    let a = Error::new(ErrorKind::UnsupportedProtocol { required: 10, requested: 9 }, "text");
    let b = Error::new(ErrorKind::UnsupportedProtocol { required: 10, requested: 8 }, "text");
    let c = Error::new(ErrorKind::UnsupportedProtocol { required: 11, requested: 9 }, "text");
    assert!(a != b);
    assert!(a != c);
}

#[test]
fn other_errors_are_never_equal() {
    let a = Error::new(ErrorKind::Other, "same text");
    let b = Error::new(ErrorKind::Other, "same text");
    assert!(a != b);
    assert!(b != a);
    assert!(a != a);
}

#[test]
fn other_error_differs_from_every_kind() {
    let other = Error::with_cause(ErrorKind::Other, "io", "cause");
    let reset = Error::new(ErrorKind::ConnectionReset, "io");
    assert!(other != reset);
    assert!(reset != other);
}

#[test]
fn errors_are_compared_by_kind_alone() {
    let a = Error::new(ErrorKind::ProtocolError, "one");
    let b = Error::with_cause(ErrorKind::ProtocolError, "two", "because");
    let c = Error::new(ErrorKind::InvalidPacket, "one");
    assert!(a == b);
    assert!(a != c);
}

#[test]
fn every_kind_but_other_equals_itself() {
    let kinds = [
        ErrorKind::ConnectionReset,
        ErrorKind::DataIncomplete,
        ErrorKind::InvalidPacket,
        ErrorKind::NotSupported,
        ErrorKind::ProtocolError,
        ErrorKind::ServerIncapable,
        ErrorKind::ClientIncapable,
        ErrorKind::UnsupportedProtocol { required: 10, requested: 11 },
    ];
    for kind in kinds {
        assert!(Error::new(kind, "a") == Error::new(kind, "b"));
    }
}

#[test]
fn duplicate_keeps_everything() {
    let e = Error::with_cause(ErrorKind::ConnectionReset, "gone", "eof");
    let copy = e.duplicate();
    assert_eq!(ErrorKind::ConnectionReset, copy.kind());
    assert_eq!("gone", copy.description());
    assert_eq!(Some("eof"), copy.cause());
    let plain = Error::new(ErrorKind::InvalidPacket, "bad").duplicate();
    assert_eq!(None, plain.cause());
}

#[test]
fn with_kind_changes_the_kind_alone() {
    let e = Error::with_cause(ErrorKind::ConnectionReset, "gone", "eof").with_kind(ErrorKind::Other);
    assert_eq!(ErrorKind::Other, e.kind());
    assert_eq!("gone", e.description());
    assert_eq!(Some("eof"), e.cause());
}

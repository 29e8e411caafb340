use mysql_common::constants::CapabilityFlags as CrateCapabilityFlags;
use mysql_common::constants::StatusFlags as CrateStatusFlags;
use mysql_protocol::flags::{
    CapabilityFlags, StatusFlags, CAPABILITY_MASK, CLIENT_CAN_HANDLE_EXPIRED_PASSWORDS,
    CLIENT_COMPRESS, CLIENT_CONNECT_ATTRS, CLIENT_CONNECT_WITH_DB, CLIENT_DEPRECATE_EOF,
    CLIENT_FOUND_ROWS, CLIENT_IGNORE_SIGPIPE, CLIENT_IGNORE_SPACE, CLIENT_INTERACTIVE,
    CLIENT_LOCAL_FILES, CLIENT_LONG_FLAG, CLIENT_LONG_PASSWORD, CLIENT_MULTI_RESULTS,
    CLIENT_MULTI_STATEMENTS, CLIENT_NO_SCHEMA, CLIENT_ODBC, CLIENT_PLUGIN_AUTH,
    CLIENT_PLUGIN_AUTH_LENENC_CLIENT_DATA, CLIENT_PROGRESS_OBSOLETE, CLIENT_PROTOCOL_41,
    CLIENT_PS_MULTI_RESULTS, CLIENT_REMEMBER_OPTIONS, CLIENT_RESERVED, CLIENT_SECURE_CONNECTION,
    CLIENT_SESSION_TRACK, CLIENT_SSL, CLIENT_SSL_VERIFY_SERVER_CERT, CLIENT_TRANSACTIONS,
    SERVER_MORE_RESULTS_EXISTS, SERVER_PS_OUT_PARAMS, SERVER_QUERY_WAS_SLOW,
    SERVER_SESSION_STATE_CHANGED, SERVER_STATUS_AUTOCOMMIT, SERVER_STATUS_CURSOR_EXISTS,
    SERVER_STATUS_DB_DROPPED, SERVER_STATUS_IN_TRANS, SERVER_STATUS_IN_TRANS_READONLY,
    SERVER_STATUS_LAST_ROW_SENT, SERVER_STATUS_METADATA_CHANGED,
    SERVER_STATUS_NO_BACKSLASH_ESCAPES, SERVER_STATUS_NO_GOOD_INDEX_USED,
    SERVER_STATUS_NO_INDEX_USED, STATUS_MASK, UTF8MB4_GENERAL_CI,
};

#[test]
fn capability_bits_are_those_of_mysql_common() {
    assert_eq!(CrateCapabilityFlags::CLIENT_LONG_PASSWORD.bits(), CLIENT_LONG_PASSWORD);
    assert_eq!(CrateCapabilityFlags::CLIENT_FOUND_ROWS.bits(), CLIENT_FOUND_ROWS);
    assert_eq!(CrateCapabilityFlags::CLIENT_LONG_FLAG.bits(), CLIENT_LONG_FLAG);
    assert_eq!(CrateCapabilityFlags::CLIENT_CONNECT_WITH_DB.bits(), CLIENT_CONNECT_WITH_DB);
    assert_eq!(CrateCapabilityFlags::CLIENT_NO_SCHEMA.bits(), CLIENT_NO_SCHEMA);
    assert_eq!(CrateCapabilityFlags::CLIENT_COMPRESS.bits(), CLIENT_COMPRESS);
    assert_eq!(CrateCapabilityFlags::CLIENT_ODBC.bits(), CLIENT_ODBC);
    assert_eq!(CrateCapabilityFlags::CLIENT_LOCAL_FILES.bits(), CLIENT_LOCAL_FILES);
    assert_eq!(CrateCapabilityFlags::CLIENT_IGNORE_SPACE.bits(), CLIENT_IGNORE_SPACE);
    assert_eq!(CrateCapabilityFlags::CLIENT_PROTOCOL_41.bits(), CLIENT_PROTOCOL_41);
    assert_eq!(CrateCapabilityFlags::CLIENT_INTERACTIVE.bits(), CLIENT_INTERACTIVE);
    assert_eq!(CrateCapabilityFlags::CLIENT_SSL.bits(), CLIENT_SSL);
    assert_eq!(CrateCapabilityFlags::CLIENT_IGNORE_SIGPIPE.bits(), CLIENT_IGNORE_SIGPIPE);
    assert_eq!(CrateCapabilityFlags::CLIENT_TRANSACTIONS.bits(), CLIENT_TRANSACTIONS);
    assert_eq!(CrateCapabilityFlags::CLIENT_RESERVED.bits(), CLIENT_RESERVED);
    assert_eq!(CrateCapabilityFlags::CLIENT_SECURE_CONNECTION.bits(), CLIENT_SECURE_CONNECTION);
    assert_eq!(CrateCapabilityFlags::CLIENT_MULTI_STATEMENTS.bits(), CLIENT_MULTI_STATEMENTS);
    assert_eq!(CrateCapabilityFlags::CLIENT_MULTI_RESULTS.bits(), CLIENT_MULTI_RESULTS);
    assert_eq!(CrateCapabilityFlags::CLIENT_PS_MULTI_RESULTS.bits(), CLIENT_PS_MULTI_RESULTS);
    assert_eq!(CrateCapabilityFlags::CLIENT_PLUGIN_AUTH.bits(), CLIENT_PLUGIN_AUTH);
    assert_eq!(CrateCapabilityFlags::CLIENT_CONNECT_ATTRS.bits(), CLIENT_CONNECT_ATTRS);
    assert_eq!(
        CrateCapabilityFlags::CLIENT_PLUGIN_AUTH_LENENC_CLIENT_DATA.bits(),
        CLIENT_PLUGIN_AUTH_LENENC_CLIENT_DATA
    );
    assert_eq!(
        CrateCapabilityFlags::CLIENT_CAN_HANDLE_EXPIRED_PASSWORDS.bits(),
        CLIENT_CAN_HANDLE_EXPIRED_PASSWORDS
    );
    assert_eq!(CrateCapabilityFlags::CLIENT_SESSION_TRACK.bits(), CLIENT_SESSION_TRACK);
    assert_eq!(CrateCapabilityFlags::CLIENT_DEPRECATE_EOF.bits(), CLIENT_DEPRECATE_EOF);
    assert_eq!(CrateCapabilityFlags::CLIENT_PROGRESS_OBSOLETE.bits(), CLIENT_PROGRESS_OBSOLETE);
    assert_eq!(
        CrateCapabilityFlags::CLIENT_SSL_VERIFY_SERVER_CERT.bits(),
        CLIENT_SSL_VERIFY_SERVER_CERT
    );
    assert_eq!(CrateCapabilityFlags::CLIENT_REMEMBER_OPTIONS.bits(), CLIENT_REMEMBER_OPTIONS);
    assert_eq!(CrateCapabilityFlags::all().bits(), CAPABILITY_MASK);
}

#[test]
fn status_bits_are_those_of_mysql_common() {
    assert_eq!(CrateStatusFlags::SERVER_STATUS_IN_TRANS.bits(), SERVER_STATUS_IN_TRANS);
    assert_eq!(CrateStatusFlags::SERVER_STATUS_AUTOCOMMIT.bits(), SERVER_STATUS_AUTOCOMMIT);
    assert_eq!(CrateStatusFlags::SERVER_MORE_RESULTS_EXISTS.bits(), SERVER_MORE_RESULTS_EXISTS);
    assert_eq!(
        CrateStatusFlags::SERVER_STATUS_NO_GOOD_INDEX_USED.bits(),
        SERVER_STATUS_NO_GOOD_INDEX_USED
    );
    assert_eq!(CrateStatusFlags::SERVER_STATUS_NO_INDEX_USED.bits(), SERVER_STATUS_NO_INDEX_USED);
    assert_eq!(CrateStatusFlags::SERVER_STATUS_CURSOR_EXISTS.bits(), SERVER_STATUS_CURSOR_EXISTS);
    assert_eq!(CrateStatusFlags::SERVER_STATUS_LAST_ROW_SENT.bits(), SERVER_STATUS_LAST_ROW_SENT);
    assert_eq!(CrateStatusFlags::SERVER_STATUS_DB_DROPPED.bits(), SERVER_STATUS_DB_DROPPED);
    assert_eq!(
        CrateStatusFlags::SERVER_STATUS_NO_BACKSLASH_ESCAPES.bits(),
        SERVER_STATUS_NO_BACKSLASH_ESCAPES
    );
    assert_eq!(
        CrateStatusFlags::SERVER_STATUS_METADATA_CHANGED.bits(),
        SERVER_STATUS_METADATA_CHANGED
    );
    assert_eq!(CrateStatusFlags::SERVER_QUERY_WAS_SLOW.bits(), SERVER_QUERY_WAS_SLOW);
    assert_eq!(CrateStatusFlags::SERVER_PS_OUT_PARAMS.bits(), SERVER_PS_OUT_PARAMS);
    assert_eq!(
        CrateStatusFlags::SERVER_STATUS_IN_TRANS_READONLY.bits(),
        SERVER_STATUS_IN_TRANS_READONLY
    );
    assert_eq!(CrateStatusFlags::SERVER_SESSION_STATE_CHANGED.bits(), SERVER_SESSION_STATE_CHANGED);
    assert_eq!(CrateStatusFlags::all().bits(), STATUS_MASK);
}

#[test]
fn collation_is_that_of_mysql_common() {
    assert_eq!(mysql_common::constants::UTF8MB4_GENERAL_CI, UTF8MB4_GENERAL_CI as u16);
    assert_eq!(45, UTF8MB4_GENERAL_CI);
}

#[test]
fn capability_bits_without_a_name_are_dropped() {
    assert_eq!(0xC1FF_FFFF, CapabilityFlags::from_bits_truncate(0xC7FF_FFFF).bits());
    assert_eq!(0xE1FF_FFFF, CapabilityFlags::from_bits_truncate(0xFFFF_FFFF).bits());
    assert_eq!(0, CapabilityFlags::from_bits_truncate(0x1E00_0000).bits());
    assert_eq!(0x81be_a205, CapabilityFlags::from_bits_truncate(0x81be_a205).bits());
}

#[test]
fn status_bits_without_a_name_are_dropped() {
    assert_eq!(0x7FFB, StatusFlags::from_bits_truncate(0xFFFF).bits());
    assert_eq!(0, StatusFlags::from_bits_truncate(0x8004).bits());
    assert_eq!(0x0002, StatusFlags::from_bits_truncate(0x0002).bits());
}

#[test]
fn empty_sets_hold_no_bits() {
    assert_eq!(0, CapabilityFlags::empty().bits());
    assert_eq!(0, StatusFlags::empty().bits());
    assert!(!CapabilityFlags::empty().contains(CLIENT_PROTOCOL_41));
    assert!(CapabilityFlags::empty().contains(0));
}

#[test]
fn contains_needs_every_bit_of_the_mask() {
    let flags = CapabilityFlags::from_bits_truncate(CLIENT_PROTOCOL_41 | CLIENT_SSL);
    assert!(flags.contains(CLIENT_PROTOCOL_41));
    assert!(flags.contains(CLIENT_SSL));
    assert!(flags.contains(CLIENT_PROTOCOL_41 | CLIENT_SSL));
    assert!(!flags.contains(CLIENT_PROTOCOL_41 | CLIENT_PLUGIN_AUTH));
    assert!(!flags.contains(CLIENT_PLUGIN_AUTH));
    let status = StatusFlags::from_bits_truncate(SERVER_STATUS_AUTOCOMMIT);
    assert!(status.contains(SERVER_STATUS_AUTOCOMMIT));
    assert!(!status.contains(SERVER_SESSION_STATE_CHANGED));
}

#[test]
fn union_and_intersection_work_on_bits() {
    let a = CapabilityFlags::from_bits_truncate(CLIENT_PROTOCOL_41 | CLIENT_SSL);
    let b = CapabilityFlags::from_bits_truncate(CLIENT_SSL | CLIENT_PLUGIN_AUTH);
    assert_eq!(CLIENT_PROTOCOL_41 | CLIENT_SSL | CLIENT_PLUGIN_AUTH, a.union(b).bits());
    assert_eq!(CLIENT_SSL, a.intersection(b).bits());
    assert_eq!(a, a.union(a));
    assert_eq!(CapabilityFlags::empty(), a.intersection(CapabilityFlags::empty()));
}

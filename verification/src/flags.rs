//! The capability and status flag sets that client and server exchange.
//!
//! A flag set is held as its bits. The names and values of the bits are
//! those of the `mysql_common` crate, which also decides which bits of a
//! raw value are kept.

use vstd::prelude::*;

verus! {

/// The improved version of the old password authentication is used.
pub const CLIENT_LONG_PASSWORD: u32 = 0x0000_0001;

/// Rows found are reported in place of rows affected.
pub const CLIENT_FOUND_ROWS: u32 = 0x0000_0002;

/// Column definitions carry longer flags.
pub const CLIENT_LONG_FLAG: u32 = 0x0000_0004;

/// A database can be named on connect.
pub const CLIENT_CONNECT_WITH_DB: u32 = 0x0000_0008;

/// Names of the form `database.table.column` are not allowed.
pub const CLIENT_NO_SCHEMA: u32 = 0x0000_0010;

/// The compression protocol is supported.
pub const CLIENT_COMPRESS: u32 = 0x0000_0020;

/// The client is an ODBC client.
pub const CLIENT_ODBC: u32 = 0x0000_0040;

/// `LOAD DATA LOCAL` can be used.
pub const CLIENT_LOCAL_FILES: u32 = 0x0000_0080;

/// Spaces before an opening bracket are ignored.
pub const CLIENT_IGNORE_SPACE: u32 = 0x0000_0100;

/// The 4.1 protocol is spoken.
pub const CLIENT_PROTOCOL_41: u32 = 0x0000_0200;

/// The client is interactive.
pub const CLIENT_INTERACTIVE: u32 = 0x0000_0400;

/// The connection switches to SSL after the handshake.
pub const CLIENT_SSL: u32 = 0x0000_0800;

/// Network failures raise no signal.
pub const CLIENT_IGNORE_SIGPIPE: u32 = 0x0000_1000;

/// Transactions are known.
pub const CLIENT_TRANSACTIONS: u32 = 0x0000_2000;

/// Reserved.
pub const CLIENT_RESERVED: u32 = 0x0000_4000;

/// The 4.1 authentication is supported.
pub const CLIENT_SECURE_CONNECTION: u32 = 0x0000_8000;

/// One query can hold more than one statement.
pub const CLIENT_MULTI_STATEMENTS: u32 = 0x0001_0000;

/// One query can have more than one result set.
pub const CLIENT_MULTI_RESULTS: u32 = 0x0002_0000;

/// One prepared statement can have more than one result set.
pub const CLIENT_PS_MULTI_RESULTS: u32 = 0x0004_0000;

/// Authentication plugins are supported.
pub const CLIENT_PLUGIN_AUTH: u32 = 0x0008_0000;

/// Connection attributes can be sent.
pub const CLIENT_CONNECT_ATTRS: u32 = 0x0010_0000;

/// Authentication data is sent length-encoded.
pub const CLIENT_PLUGIN_AUTH_LENENC_CLIENT_DATA: u32 = 0x0020_0000;

/// Expired passwords can be handled.
pub const CLIENT_CAN_HANDLE_EXPIRED_PASSWORDS: u32 = 0x0040_0000;

/// Changes of the session state are reported in OK packets.
pub const CLIENT_SESSION_TRACK: u32 = 0x0080_0000;

/// OK packets take the place of EOF packets.
pub const CLIENT_DEPRECATE_EOF: u32 = 0x0100_0000;

/// Progress is reported in ERR packets.
pub const CLIENT_PROGRESS_OBSOLETE: u32 = 0x2000_0000;

/// The certificate of the server is verified.
pub const CLIENT_SSL_VERIFY_SERVER_CERT: u32 = 0x4000_0000;

/// Options are kept after a connect that failed.
pub const CLIENT_REMEMBER_OPTIONS: u32 = 0x8000_0000;

/// Every capability bit that has a name.
pub const CAPABILITY_MASK: u32 = 0xE1FF_FFFF;

/// A transaction is open.
pub const SERVER_STATUS_IN_TRANS: u16 = 0x0001;

/// Autocommit is on.
pub const SERVER_STATUS_AUTOCOMMIT: u16 = 0x0002;

/// Another result follows.
pub const SERVER_MORE_RESULTS_EXISTS: u16 = 0x0008;

/// No good index was used.
pub const SERVER_STATUS_NO_GOOD_INDEX_USED: u16 = 0x0010;

/// No index was used.
pub const SERVER_STATUS_NO_INDEX_USED: u16 = 0x0020;

/// A read-only cursor was opened for the query.
pub const SERVER_STATUS_CURSOR_EXISTS: u16 = 0x0040;

/// The cursor is exhausted.
pub const SERVER_STATUS_LAST_ROW_SENT: u16 = 0x0080;

/// A database was dropped.
pub const SERVER_STATUS_DB_DROPPED: u16 = 0x0100;

/// Backslashes do not escape.
pub const SERVER_STATUS_NO_BACKSLASH_ESCAPES: u16 = 0x0200;

/// The metadata of a prepared statement has changed.
pub const SERVER_STATUS_METADATA_CHANGED: u16 = 0x0400;

/// The query was slow.
pub const SERVER_QUERY_WAS_SLOW: u16 = 0x0800;

/// The result set holds output parameters.
pub const SERVER_PS_OUT_PARAMS: u16 = 0x1000;

/// The open transaction only reads.
pub const SERVER_STATUS_IN_TRANS_READONLY: u16 = 0x2000;

/// The session state has changed.
pub const SERVER_SESSION_STATE_CHANGED: u16 = 0x4000;

/// Every status bit that has a name.
pub const STATUS_MASK: u16 = 0x7FFB;

/// The collation that the client asks for: `utf8mb4_general_ci`.
pub const UTF8MB4_GENERAL_CI: u8 = 45;

/// Whether every bit of `mask` is set in `bits`.
pub open spec fn has_capability(bits: u32, mask: u32) -> bool {
    bits & mask == mask
}

/// Whether every bit of `mask` is set in `bits`.
pub open spec fn has_status(bits: u16, mask: u16) -> bool {
    bits & mask == mask
}

/// `CapabilityFlags::from_bits_truncate` of `mysql_common`, read back with
/// `bits`: the bits that the crate has a name for are kept, the others are
/// dropped.
#[verifier::external_body]
fn known_capability_bits(bits: u32) -> (known: u32)
    ensures
        known == bits & CAPABILITY_MASK,
{
    mysql_common::constants::CapabilityFlags::from_bits_truncate(bits).bits()
}

/// `StatusFlags::from_bits_truncate` of `mysql_common`, read back with
/// `bits`: the bits that the crate has a name for are kept, the others are
/// dropped.
#[verifier::external_body]
fn known_status_bits(bits: u16) -> (known: u16)
    ensures
        known == bits & STATUS_MASK,
{
    mysql_common::constants::StatusFlags::from_bits_truncate(bits).bits()
}

/// The mask of the named capability bits is the union of the named bits.
pub proof fn lemma_capability_mask()
    ensures
        CAPABILITY_MASK == CLIENT_LONG_PASSWORD | CLIENT_FOUND_ROWS | CLIENT_LONG_FLAG
            | CLIENT_CONNECT_WITH_DB | CLIENT_NO_SCHEMA | CLIENT_COMPRESS | CLIENT_ODBC
            | CLIENT_LOCAL_FILES | CLIENT_IGNORE_SPACE | CLIENT_PROTOCOL_41 | CLIENT_INTERACTIVE
            | CLIENT_SSL | CLIENT_IGNORE_SIGPIPE | CLIENT_TRANSACTIONS | CLIENT_RESERVED
            | CLIENT_SECURE_CONNECTION | CLIENT_MULTI_STATEMENTS | CLIENT_MULTI_RESULTS
            | CLIENT_PS_MULTI_RESULTS | CLIENT_PLUGIN_AUTH | CLIENT_CONNECT_ATTRS
            | CLIENT_PLUGIN_AUTH_LENENC_CLIENT_DATA | CLIENT_CAN_HANDLE_EXPIRED_PASSWORDS
            | CLIENT_SESSION_TRACK | CLIENT_DEPRECATE_EOF | CLIENT_PROGRESS_OBSOLETE
            | CLIENT_SSL_VERIFY_SERVER_CERT | CLIENT_REMEMBER_OPTIONS,
{
    assert(0xE1FF_FFFFu32 == 0x0000_0001u32 | 0x0000_0002u32 | 0x0000_0004u32 | 0x0000_0008u32
        | 0x0000_0010u32 | 0x0000_0020u32 | 0x0000_0040u32 | 0x0000_0080u32 | 0x0000_0100u32
        | 0x0000_0200u32 | 0x0000_0400u32 | 0x0000_0800u32 | 0x0000_1000u32 | 0x0000_2000u32
        | 0x0000_4000u32 | 0x0000_8000u32 | 0x0001_0000u32 | 0x0002_0000u32 | 0x0004_0000u32
        | 0x0008_0000u32 | 0x0010_0000u32 | 0x0020_0000u32 | 0x0040_0000u32 | 0x0080_0000u32
        | 0x0100_0000u32 | 0x2000_0000u32 | 0x4000_0000u32 | 0x8000_0000u32) by (bit_vector);
}

/// The mask of the named status bits is the union of the named bits.
pub proof fn lemma_status_mask()
    ensures
        STATUS_MASK == SERVER_STATUS_IN_TRANS | SERVER_STATUS_AUTOCOMMIT
            | SERVER_MORE_RESULTS_EXISTS | SERVER_STATUS_NO_GOOD_INDEX_USED
            | SERVER_STATUS_NO_INDEX_USED | SERVER_STATUS_CURSOR_EXISTS
            | SERVER_STATUS_LAST_ROW_SENT | SERVER_STATUS_DB_DROPPED
            | SERVER_STATUS_NO_BACKSLASH_ESCAPES | SERVER_STATUS_METADATA_CHANGED
            | SERVER_QUERY_WAS_SLOW | SERVER_PS_OUT_PARAMS | SERVER_STATUS_IN_TRANS_READONLY
            | SERVER_SESSION_STATE_CHANGED,
{
    assert(0x7FFBu16 == 0x0001u16 | 0x0002u16 | 0x0008u16 | 0x0010u16 | 0x0020u16 | 0x0040u16
        | 0x0080u16 | 0x0100u16 | 0x0200u16 | 0x0400u16 | 0x0800u16 | 0x1000u16 | 0x2000u16
        | 0x4000u16) by (bit_vector);
}

/// A set of capability bits, all of them named.
#[derive(Copy, Clone, Debug, PartialEq, Eq, Structural)]
pub struct CapabilityFlags {
    bits: u32,
}

impl View for CapabilityFlags {
    type V = u32;

    closed spec fn view(&self) -> u32 {
        self.bits
    }
}

impl CapabilityFlags {
    /// A set holds named bits only.
    #[verifier::type_invariant]
    spec fn only_named_bits(self) -> bool {
        self.bits & !CAPABILITY_MASK == 0
    }

    /// The set without any capability.
    pub fn empty() -> (flags: CapabilityFlags)
        ensures
            flags@ == 0,
    {
        assert(0u32 & !0xE1FF_FFFFu32 == 0) by (bit_vector);
        CapabilityFlags { bits: 0 }
    }

    /// The named bits among `bits`; bits without a name are dropped.
    pub fn from_bits_truncate(bits: u32) -> (flags: CapabilityFlags)
        ensures
            flags@ == bits & CAPABILITY_MASK,
    {
        let known = known_capability_bits(bits);
        assert((bits & 0xE1FF_FFFFu32) & !0xE1FF_FFFFu32 == 0) by (bit_vector);
        CapabilityFlags { bits: known }
    }

    /// The bits of the set; none of them is without a name.
    pub fn bits(&self) -> (bits: u32)
        ensures
            bits == self@,
            bits & !CAPABILITY_MASK == 0,
    {
        proof {
            use_type_invariant(self);
        }
        self.bits
    }

    /// Whether every bit of `mask` is in the set.
    pub fn contains(&self, mask: u32) -> (found: bool)
        ensures
            found == has_capability(self@, mask),
    {
        self.bits & mask == mask
    }

    /// The capabilities that are in either set.
    pub fn union(self, other: CapabilityFlags) -> (flags: CapabilityFlags)
        ensures
            flags@ == self@ | other@,
    {
        proof {
            use_type_invariant(self);
            use_type_invariant(other);
        }
        let a = self.bits;
        let b = other.bits;
        assert((a | b) & !0xE1FF_FFFFu32 == 0) by (bit_vector)
            requires
                a & !0xE1FF_FFFFu32 == 0,
                b & !0xE1FF_FFFFu32 == 0,
        ;
        CapabilityFlags { bits: a | b }
    }

    /// The capabilities that are in both sets.
    pub fn intersection(self, other: CapabilityFlags) -> (flags: CapabilityFlags)
        ensures
            flags@ == self@ & other@,
    {
        proof {
            use_type_invariant(self);
        }
        let a = self.bits;
        let b = other.bits;
        assert((a & b) & !0xE1FF_FFFFu32 == 0) by (bit_vector)
            requires
                a & !0xE1FF_FFFFu32 == 0,
        ;
        CapabilityFlags { bits: a & b }
    }
}

/// A set of server status bits, all of them named.
#[derive(Copy, Clone, Debug, PartialEq, Eq, Structural)]
pub struct StatusFlags {
    bits: u16,
}

impl View for StatusFlags {
    type V = u16;

    closed spec fn view(&self) -> u16 {
        self.bits
    }
}

impl StatusFlags {
    /// A set holds named bits only.
    #[verifier::type_invariant]
    spec fn only_named_bits(self) -> bool {
        self.bits & !STATUS_MASK == 0
    }

    /// The set without any status bit.
    pub fn empty() -> (flags: StatusFlags)
        ensures
            flags@ == 0,
    {
        assert(0u16 & !0x7FFBu16 == 0) by (bit_vector);
        StatusFlags { bits: 0 }
    }

    /// The named bits among `bits`; bits without a name are dropped.
    pub fn from_bits_truncate(bits: u16) -> (flags: StatusFlags)
        ensures
            flags@ == bits & STATUS_MASK,
    {
        let known = known_status_bits(bits);
        assert((bits & 0x7FFBu16) & !0x7FFBu16 == 0) by (bit_vector);
        StatusFlags { bits: known }
    }

    /// The bits of the set; none of them is without a name.
    pub fn bits(&self) -> (bits: u16)
        ensures
            bits == self@,
            bits & !STATUS_MASK == 0,
    {
        proof {
            use_type_invariant(self);
        }
        self.bits
    }

    /// Whether every bit of `mask` is in the set.
    pub fn contains(&self, mask: u16) -> (found: bool)
        ensures
            found == has_status(self@, mask),
    {
        self.bits & mask == mask
    }
}

/// What kind of session state a server reports as changed.
#[allow(non_camel_case_types)]
#[derive(Copy, Clone, Debug, PartialEq, Eq, Structural)]
pub enum SessionStateType {
    SESSION_TRACK_SYSTEM_VARIABLES,
    SESSION_TRACK_SCHEMA,
    SESSION_TRACK_STATE_CHANGE,
    SESSION_TRACK_GTIDS,
}

} // verus!

//! The generic replies of a server: the OK and the ERR packet.

use vstd::prelude::*;
use vstd::slice::{slice_subrange, slice_to_vec};
use vstd::utf8::{decode_utf8, valid_utf8};

use crate::error::{outcome, Error, ErrorKind};
use crate::flags::{
    has_capability, has_status, CapabilityFlags, SessionStateType, StatusFlags,
    CLIENT_PROTOCOL_41, CLIENT_SESSION_TRACK, CLIENT_TRANSACTIONS, SERVER_SESSION_STATE_CHANGED,
    STATUS_MASK,
};
use crate::packet::utils::{
    parse_fixed_bytes, parse_lenenc_bytes, parse_lenenc_int, parse_lenenc_string,
    parse_null_terminated, parse_u16, read_matches, string_from_utf8, BufReadMySqlExt,
    PacketReader, ReadMySqlExt,
};
use crate::packet::Packet;

verus! {

/// The reply to a command that succeeded.
#[derive(Debug)]
pub struct OkPacket {
    pub affected_rows: u64,
    pub last_insert_id: u64,
    pub status_flags: StatusFlags,
    pub warnings: u16,
    pub info: String,
    pub session_state_info: Option<(SessionStateType, Vec<u8>)>,
}

/// An OK packet as plain values.
pub struct OkPacketView {
    pub affected_rows: u64,
    pub last_insert_id: u64,
    pub status_flags: u16,
    pub warnings: u16,
    pub info: Seq<char>,
    pub session_state_info: Option<(SessionStateType, Seq<u8>)>,
}

impl View for OkPacket {
    type V = OkPacketView;

    open spec fn view(&self) -> OkPacketView {
        OkPacketView {
            affected_rows: self.affected_rows,
            last_insert_id: self.last_insert_id,
            status_flags: self.status_flags@,
            warnings: self.warnings,
            info: self.info@,
            session_state_info: session_state_view(self.session_state_info),
        }
    }
}

/// A session state change that may be there, as plain values.
pub open spec fn session_state_view(state: Option<(SessionStateType, Vec<u8>)>) -> Option<
    (SessionStateType, Seq<u8>),
> {
    match state {
        Some((kind, data)) => Some((kind, data@)),
        None => None,
    }
}

/// The status flags of an OK packet: two bytes, of which the named bits
/// count, where protocol 4.1 or transactions are in force; else no bytes
/// and no flags.
pub open spec fn parse_ok_status(input: Seq<u8>, capabilities: u32) -> Option<(u16, nat)> {
    if has_capability(capabilities, CLIENT_PROTOCOL_41) || has_capability(
        capabilities,
        CLIENT_TRANSACTIONS,
    ) {
        match parse_u16(input) {
            Some((bits, used)) => Some((bits & STATUS_MASK, used)),
            None => None,
        }
    } else {
        Some((0u16, 0nat))
    }
}

/// The warning count of an OK packet: two bytes where protocol 4.1 is in
/// force; else no bytes and no warnings.
pub open spec fn parse_ok_warnings(input: Seq<u8>, capabilities: u32) -> Option<(u16, nat)> {
    if has_capability(capabilities, CLIENT_PROTOCOL_41) {
        parse_u16(input)
    } else {
        Some((0u16, 0nat))
    }
}

/// The kind of session state that a tag byte stands for.
pub open spec fn session_state_type(tag: u8) -> Option<SessionStateType> {
    if tag == 0 {
        Some(SessionStateType::SESSION_TRACK_SYSTEM_VARIABLES)
    } else if tag == 1 {
        Some(SessionStateType::SESSION_TRACK_SCHEMA)
    } else if tag == 2 {
        Some(SessionStateType::SESSION_TRACK_STATE_CHANGE)
    } else if tag == 3 {
        Some(SessionStateType::SESSION_TRACK_GTIDS)
    } else {
        None
    }
}

/// The session state change that `changes` report: a known tag byte, then
/// the data. Anything else breaks the protocol.
pub open spec fn parse_session_state(changes: Seq<u8>) -> Result<
    (SessionStateType, Seq<u8>),
    ErrorKind,
> {
    if changes.len() == 0 {
        Err(ErrorKind::ProtocolError)
    } else {
        match session_state_type(changes[0]) {
            Some(kind) => Ok((kind, changes.skip(1))),
            None => Err(ErrorKind::ProtocolError),
        }
    }
}

/// The end of an OK packet: the info text and the session state change.
///
/// With session tracking in force the info is a length-encoded string, and
/// a length-encoded block of changes follows it where the status flags
/// announce one. Without, the info is the rest of the payload up to a zero
/// byte or the end.
pub open spec fn parse_ok_info(input: Seq<u8>, capabilities: u32, status: u16) -> Result<
    (Seq<char>, Option<(SessionStateType, Seq<u8>)>),
    ErrorKind,
> {
    if has_capability(capabilities, CLIENT_SESSION_TRACK) {
        match parse_lenenc_string(input) {
            Some((info, used)) => if has_status(status, SERVER_SESSION_STATE_CHANGED) {
                match parse_lenenc_bytes(input.skip(used as int)) {
                    Some((changes, _)) => match parse_session_state(changes) {
                        Ok(state) => Ok((info, Some(state))),
                        Err(kind) => Err(kind),
                    },
                    None => Err(ErrorKind::InvalidPacket),
                }
            } else {
                Ok((info, None))
            },
            None => Err(ErrorKind::InvalidPacket),
        }
    } else {
        match parse_null_terminated(input, true) {
            Some((info, _)) => Ok((info, None)),
            None => Err(ErrorKind::InvalidPacket),
        }
    }
}

/// An OK packet after its header byte: two length-encoded integers, the
/// status flags, the warning count, and the end.
pub open spec fn parse_ok_body(input: Seq<u8>, capabilities: u32) -> Result<
    OkPacketView,
    ErrorKind,
> {
    match parse_lenenc_int(input) {
        Some((affected_rows, n1)) => {
            let input = input.skip(n1 as int);
            match parse_lenenc_int(input) {
                Some((last_insert_id, n2)) => {
                    let input = input.skip(n2 as int);
                    match parse_ok_status(input, capabilities) {
                        Some((status_flags, n3)) => {
                            let input = input.skip(n3 as int);
                            match parse_ok_warnings(input, capabilities) {
                                Some((warnings, n4)) => {
                                    let input = input.skip(n4 as int);
                                    match parse_ok_info(input, capabilities, status_flags) {
                                        Ok((info, session_state_info)) => Ok(
                                            OkPacketView {
                                                affected_rows,
                                                last_insert_id,
                                                status_flags,
                                                warnings,
                                                info,
                                                session_state_info,
                                            },
                                        ),
                                        Err(kind) => Err(kind),
                                    }
                                },
                                None => Err(ErrorKind::InvalidPacket),
                            }
                        },
                        None => Err(ErrorKind::InvalidPacket),
                    }
                },
                None => Err(ErrorKind::InvalidPacket),
            }
        },
        None => Err(ErrorKind::InvalidPacket),
    }
}

/// What a payload parses to as an OK packet: a header byte `0x00` or
/// `0xFE`, then the body.
pub open spec fn parse_ok_packet(payload: Seq<u8>, capabilities: u32) -> Result<
    OkPacketView,
    ErrorKind,
> {
    if payload.len() == 0 || (payload[0] != 0x00 && payload[0] != 0xFE) {
        Err(ErrorKind::InvalidPacket)
    } else {
        parse_ok_body(payload.skip(1), capabilities)
    }
}

/// Reads the status flags of an OK packet.
fn read_ok_status(reader: &mut PacketReader, capabilities: CapabilityFlags) -> (r: Result<
    StatusFlags,
    Error,
>)
    ensures
        read_matches(
            old(reader).remaining(),
            parse_ok_status(old(reader).remaining(), capabilities@),
            outcome(r),
            final(reader).remaining(),
        ),
{
    if capabilities.contains(CLIENT_PROTOCOL_41) || capabilities.contains(CLIENT_TRANSACTIONS) {
        let bits = reader.read_u16()?;
        Ok(StatusFlags::from_bits_truncate(bits))
    } else {
        assert(reader.remaining().skip(0) =~= reader.remaining());
        Ok(StatusFlags::empty())
    }
}

/// Reads the warning count of an OK packet.
fn read_ok_warnings(reader: &mut PacketReader, capabilities: CapabilityFlags) -> (r: Result<
    u16,
    Error,
>)
    ensures
        read_matches(
            old(reader).remaining(),
            parse_ok_warnings(old(reader).remaining(), capabilities@),
            outcome(r),
            final(reader).remaining(),
        ),
{
    if capabilities.contains(CLIENT_PROTOCOL_41) {
        reader.read_u16()
    } else {
        assert(reader.remaining().skip(0) =~= reader.remaining());
        Ok(0)
    }
}

/// Tells the kind of a session state change from its tag and splits off
/// its data.
fn read_session_state(changes: Vec<u8>) -> (r: Result<(SessionStateType, Vec<u8>), Error>)
    ensures
        match r {
            Ok((kind, data)) => parse_session_state(changes@) == Ok::<
                (SessionStateType, Seq<u8>),
                ErrorKind,
            >((kind, data@)),
            Err(e) => parse_session_state(changes@) == Err::<
                (SessionStateType, Seq<u8>),
                ErrorKind,
            >(e.kind()),
        },
{
    if changes.len() == 0 {
        return Err(
            Error::new(
                ErrorKind::ProtocolError,
                "no session state changes, despite flag being set",
            ),
        );
    }
    let tag = changes[0];
    let kind = if tag == 0 {
        SessionStateType::SESSION_TRACK_SYSTEM_VARIABLES
    } else if tag == 1 {
        SessionStateType::SESSION_TRACK_SCHEMA
    } else if tag == 2 {
        SessionStateType::SESSION_TRACK_STATE_CHANGE
    } else if tag == 3 {
        SessionStateType::SESSION_TRACK_GTIDS
    } else {
        return Err(Error::new(ErrorKind::ProtocolError, "unknown session state type"));
    };
    let data = slice_to_vec(slice_subrange(changes.as_slice(), 1, changes.len()));
    assert(data@ =~= changes@.skip(1));
    Ok((kind, data))
}

/// Reads the info text and the session state change of an OK packet.
fn read_ok_info(
    reader: &mut PacketReader,
    capabilities: CapabilityFlags,
    status: StatusFlags,
) -> (r: Result<(String, Option<(SessionStateType, Vec<u8>)>), Error>)
    ensures
        match r {
            Ok((info, state)) => parse_ok_info(old(reader).remaining(), capabilities@, status@)
                == Ok::<(Seq<char>, Option<(SessionStateType, Seq<u8>)>), ErrorKind>(
                (info@, session_state_view(state)),
            ),
            Err(e) => parse_ok_info(old(reader).remaining(), capabilities@, status@) == Err::<
                (Seq<char>, Option<(SessionStateType, Seq<u8>)>),
                ErrorKind,
            >(e.kind()),
        },
{
    if capabilities.contains(CLIENT_SESSION_TRACK) {
        let info = reader.read_lenenc_string()?;
        if status.contains(SERVER_SESSION_STATE_CHANGED) {
            let changes = reader.read_lenenc_bytes()?;
            let state = read_session_state(changes)?;
            Ok((info, Some(state)))
        } else {
            Ok((info, None))
        }
    } else {
        let info = reader.read_string(true)?;
        Ok((info, None))
    }
}

impl Packet for OkPacket {
    open spec fn parse(payload: Seq<u8>, capabilities: u32) -> Result<OkPacketView, ErrorKind> {
        parse_ok_packet(payload, capabilities)
    }

    /// An OK packet is only ever received.
    open spec fn serialize(message: OkPacketView, capabilities: u32) -> Result<
        Seq<u8>,
        ErrorKind,
    > {
        Err(ErrorKind::NotSupported)
    }

    proof fn lemma_parse_is_decided(payload: Seq<u8>, capabilities: u32) {
    }

    fn read(payload: &[u8], capabilities: CapabilityFlags) -> (r: Result<OkPacket, Error>) {
        let mut reader = PacketReader::new(payload);
        let header = reader.read_u8()?;
        if header != 0x00 && header != 0xFE {
            return Err(
                Error::new(ErrorKind::InvalidPacket, "OK_Packet should start with 0x00 or 0xFE"),
            );
        }
        let affected_rows = reader.read_lenenc_int()?;
        let last_insert_id = reader.read_lenenc_int()?;
        let status_flags = read_ok_status(&mut reader, capabilities)?;
        let warnings = read_ok_warnings(&mut reader, capabilities)?;
        let (info, session_state_info) = read_ok_info(&mut reader, capabilities, status_flags)?;
        Ok(
            OkPacket {
                affected_rows,
                last_insert_id,
                status_flags,
                warnings,
                info,
                session_state_info,
            },
        )
    }

    fn write(&self, buf: &mut Vec<u8>, capabilities: CapabilityFlags) -> (r: Result<(), Error>) {
        Err(Error::new(ErrorKind::NotSupported, "writing OK packets"))
    }

    fn size_hint(&self) -> (hint: Option<usize>)
        ensures
            hint is None,
    {
        None
    }
}

/// The reply to a command that failed.
#[derive(Debug)]
pub struct ErrPacket {
    pub error_code: u16,
    pub sql_state: Vec<u8>,
    pub error_message: String,
}

/// An ERR packet as plain values.
pub struct ErrPacketView {
    pub error_code: u16,
    pub sql_state: Seq<u8>,
    pub error_message: Seq<char>,
}

impl View for ErrPacket {
    type V = ErrPacketView;

    open spec fn view(&self) -> ErrPacketView {
        ErrPacketView {
            error_code: self.error_code,
            sql_state: self.sql_state@,
            error_message: self.error_message@,
        }
    }
}

/// The SQL state of an ERR packet: six bytes where protocol 4.1 is in
/// force; else no bytes.
pub open spec fn parse_err_sql_state(input: Seq<u8>, capabilities: u32) -> Option<
    (Seq<u8>, nat),
> {
    if has_capability(capabilities, CLIENT_PROTOCOL_41) {
        parse_fixed_bytes(input, 6)
    } else {
        Some((Seq::empty(), 0nat))
    }
}

/// What a payload parses to as an ERR packet: the header byte `0xFF`, an
/// error code of two bytes, the SQL state, and the message, which is all
/// that is left and has to be valid UTF-8.
pub open spec fn parse_err_packet(payload: Seq<u8>, capabilities: u32) -> Result<
    ErrPacketView,
    ErrorKind,
> {
    if payload.len() == 0 || payload[0] != 0xFF {
        Err(ErrorKind::InvalidPacket)
    } else {
        let input = payload.skip(1);
        match parse_u16(input) {
            Some((error_code, n1)) => {
                let input = input.skip(n1 as int);
                match parse_err_sql_state(input, capabilities) {
                    Some((sql_state, n2)) => {
                        let message = input.skip(n2 as int);
                        if valid_utf8(message) {
                            Ok(
                                ErrPacketView {
                                    error_code,
                                    sql_state,
                                    error_message: decode_utf8(message),
                                },
                            )
                        } else {
                            Err(ErrorKind::ProtocolError)
                        }
                    },
                    None => Err(ErrorKind::InvalidPacket),
                }
            },
            None => Err(ErrorKind::InvalidPacket),
        }
    }
}

impl Packet for ErrPacket {
    open spec fn parse(payload: Seq<u8>, capabilities: u32) -> Result<ErrPacketView, ErrorKind> {
        parse_err_packet(payload, capabilities)
    }

    /// An ERR packet is only ever received.
    open spec fn serialize(message: ErrPacketView, capabilities: u32) -> Result<
        Seq<u8>,
        ErrorKind,
    > {
        Err(ErrorKind::NotSupported)
    }

    proof fn lemma_parse_is_decided(payload: Seq<u8>, capabilities: u32) {
    }

    fn read(payload: &[u8], capabilities: CapabilityFlags) -> (r: Result<ErrPacket, Error>) {
        let mut reader = PacketReader::new(payload);
        let header = reader.read_u8()?;
        if header != 0xFF {
            return Err(Error::new(ErrorKind::InvalidPacket, "ERR_Packet should start with 0xFF"));
        }
        let error_code = reader.read_u16()?;
        let sql_state = if capabilities.contains(CLIENT_PROTOCOL_41) {
            reader.read_bytes(6)?
        } else {
            assert(reader.remaining().skip(0) =~= reader.remaining());
            Vec::new()
        };
        let message = reader.read_to_end();
        match string_from_utf8(message) {
            Some(error_message) => Ok(ErrPacket { error_code, sql_state, error_message }),
            None => Err(Error::new(ErrorKind::ProtocolError, "string is not valid utf-8")),
        }
    }

    fn write(&self, buf: &mut Vec<u8>, capabilities: CapabilityFlags) -> (r: Result<(), Error>) {
        Err(Error::new(ErrorKind::NotSupported, "writing ERR packets"))
    }

    fn size_hint(&self) -> (hint: Option<usize>)
        ensures
            hint is None,
    {
        None
    }
}

/// Either generic reply, told apart by the first byte of the payload.
#[derive(Debug)]
pub enum OkOrErrPacket {
    OkP(OkPacket),
    ErrP(ErrPacket),
}

/// Either generic reply as plain values.
pub enum OkOrErrPacketView {
    OkP(OkPacketView),
    ErrP(ErrPacketView),
}

impl View for OkOrErrPacket {
    type V = OkOrErrPacketView;

    open spec fn view(&self) -> OkOrErrPacketView {
        match self {
            OkOrErrPacket::OkP(ok) => OkOrErrPacketView::OkP(ok@),
            OkOrErrPacket::ErrP(err) => OkOrErrPacketView::ErrP(err@),
        }
    }
}

/// What a payload parses to as a generic reply: an OK packet where it
/// starts with `0x00` or `0xFE`, an ERR packet where it starts with `0xFF`.
/// An empty payload or another first byte breaks the protocol.
pub open spec fn parse_ok_or_err_packet(payload: Seq<u8>, capabilities: u32) -> Result<
    OkOrErrPacketView,
    ErrorKind,
> {
    if payload.len() == 0 {
        Err(ErrorKind::ProtocolError)
    } else if payload[0] == 0x00 || payload[0] == 0xFE {
        match parse_ok_packet(payload, capabilities) {
            Ok(ok) => Ok(OkOrErrPacketView::OkP(ok)),
            Err(kind) => Err(kind),
        }
    } else if payload[0] == 0xFF {
        match parse_err_packet(payload, capabilities) {
            Ok(err) => Ok(OkOrErrPacketView::ErrP(err)),
            Err(kind) => Err(kind),
        }
    } else {
        Err(ErrorKind::ProtocolError)
    }
}

impl Packet for OkOrErrPacket {
    open spec fn parse(payload: Seq<u8>, capabilities: u32) -> Result<
        OkOrErrPacketView,
        ErrorKind,
    > {
        parse_ok_or_err_packet(payload, capabilities)
    }

    /// A generic reply is only ever received.
    open spec fn serialize(message: OkOrErrPacketView, capabilities: u32) -> Result<
        Seq<u8>,
        ErrorKind,
    > {
        Err(ErrorKind::NotSupported)
    }

    proof fn lemma_parse_is_decided(payload: Seq<u8>, capabilities: u32) {
    }

    fn read(payload: &[u8], capabilities: CapabilityFlags) -> (r: Result<OkOrErrPacket, Error>) {
        if payload.len() == 0 {
            Err(Error::new(ErrorKind::ProtocolError, "packet is empty"))
        } else if payload[0] == 0x00 || payload[0] == 0xFE {
            Ok(OkOrErrPacket::OkP(OkPacket::read(payload, capabilities)?))
        } else if payload[0] == 0xFF {
            Ok(OkOrErrPacket::ErrP(ErrPacket::read(payload, capabilities)?))
        } else {
            Err(
                Error::new(
                    ErrorKind::ProtocolError,
                    "expected either an OK_Packet or an Err_Packet",
                ),
            )
        }
    }

    fn write(&self, buf: &mut Vec<u8>, capabilities: CapabilityFlags) -> (r: Result<(), Error>) {
        Err(Error::new(ErrorKind::NotSupported, "writing generic replies"))
    }

    fn size_hint(&self) -> (hint: Option<usize>)
        ensures
            hint is None,
    {
        None
    }
}

} // verus!

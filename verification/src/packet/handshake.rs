//! The two packets of the handshake: the greeting of the server and the
//! response of the client.

use vstd::prelude::*;

use crate::error::{outcome, Error, ErrorKind};
use crate::flags::{
    has_capability, CapabilityFlags, StatusFlags, CAPABILITY_MASK, CLIENT_CONNECT_ATTRS,
    CLIENT_CONNECT_WITH_DB, CLIENT_PLUGIN_AUTH, CLIENT_PLUGIN_AUTH_LENENC_CLIENT_DATA,
    CLIENT_SECURE_CONNECTION, STATUS_MASK,
};
use crate::packet::utils::{
    le_bytes, le_value, lemma_le_bytes_len, lemma_le_value_bound, lemma_le_value_of_bytes,
    lemma_pow256_values,
    lenenc_bytes, lenenc_int_bytes, lenenc_string_bytes, null_terminated_bytes,
    parse_null_terminated, write_bytes, write_fixed_uint, BufReadMySqlExt, PacketReader,
    ReadMySqlExt, WriteMySqlExt,
};
use crate::packet::Packet;

verus! {

/// The greeting that a server sends first.
#[derive(Debug)]
pub struct Handshake {
    pub protocol_version: u8,
    pub server_version: String,
    pub connection_id: u32,
    pub auth_plugin_data: Vec<u8>,
    pub capability_flags: CapabilityFlags,
    pub character_set: u8,
    pub status_flags: StatusFlags,
    pub auth_plugin_name: String,
}

/// A greeting as plain values.
pub struct HandshakeView {
    pub protocol_version: u8,
    pub server_version: Seq<char>,
    pub connection_id: u32,
    pub auth_plugin_data: Seq<u8>,
    pub capability_flags: u32,
    pub character_set: u8,
    pub status_flags: u16,
    pub auth_plugin_name: Seq<char>,
}

impl View for Handshake {
    type V = HandshakeView;

    open spec fn view(&self) -> HandshakeView {
        HandshakeView {
            protocol_version: self.protocol_version,
            server_version: self.server_version@,
            connection_id: self.connection_id,
            auth_plugin_data: self.auth_plugin_data@,
            capability_flags: self.capability_flags@,
            character_set: self.character_set,
            status_flags: self.status_flags@,
            auth_plugin_name: self.auth_plugin_name@,
        }
    }
}

/// What the optional region of a greeting holds.
pub struct HandshakeExtension {
    pub character_set: u8,
    pub status_flags: u16,
    pub capability_flags_upper: u16,
    pub auth_plugin_data_part_2: Seq<u8>,
}

/// The length of the second part of the plugin data, from the length that
/// the greeting announces for all of it: nine less, but at least twelve.
pub open spec fn auth_plugin_data_part_2_len(auth_plugin_data_len: u8) -> nat {
    if auth_plugin_data_len >= 21 {
        (auth_plugin_data_len - 9) as nat
    } else {
        12
    }
}

/// The optional region of a greeting and its length.
///
/// It holds the character set (1 byte), the status flags (2), the upper
/// capability flags (2), the length of the plugin data (1), ten reserved
/// bytes, the second part of the plugin data and one filler byte.
pub open spec fn parse_handshake_extension(input: Seq<u8>) -> Option<(HandshakeExtension, nat)> {
    if input.len() < 16 {
        None
    } else {
        let part_2_len = auth_plugin_data_part_2_len(input[5]);
        if input.len() < 16 + part_2_len + 1 {
            None
        } else {
            Some(
                (
                    HandshakeExtension {
                        character_set: input[0],
                        status_flags: le_value(input.subrange(1, 3)) as u16,
                        capability_flags_upper: le_value(input.subrange(3, 5)) as u16,
                        auth_plugin_data_part_2: input.subrange(16, (16 + part_2_len) as int),
                    },
                    (16 + part_2_len + 1) as nat,
                ),
            )
        }
    }
}

/// A greeting without the optional region holds nothing for its fields.
pub open spec fn no_handshake_extension() -> HandshakeExtension {
    HandshakeExtension {
        character_set: 0,
        status_flags: 0,
        capability_flags_upper: 0,
        auth_plugin_data_part_2: Seq::empty(),
    }
}

/// What a payload parses to as a greeting.
///
/// The layout is: protocol version (1 byte), server version
/// (null-terminated), connection id (4), first part of the plugin data (8),
/// a filler byte, lower capability flags (2); then, if any byte is left,
/// the optional region; then the plugin name, which a zero byte or the end
/// of the payload ends. Of the flags only the named bits count.
pub open spec fn parse_handshake(payload: Seq<u8>) -> Result<HandshakeView, ErrorKind> {
    if payload.len() == 0 {
        Err(ErrorKind::InvalidPacket)
    } else {
        match parse_null_terminated(payload.skip(1), false) {
            Some((server_version, used)) => {
                let fixed = payload.skip((1 + used) as int);
                if fixed.len() < 15 {
                    Err(ErrorKind::InvalidPacket)
                } else {
                    let rest = fixed.skip(15);
                    let extension = if rest.len() == 0 {
                        Some((no_handshake_extension(), 0nat))
                    } else {
                        parse_handshake_extension(rest)
                    };
                    match extension {
                        Some((ext, ext_len)) => match parse_null_terminated(
                            rest.skip(ext_len as int),
                            true,
                        ) {
                            Some((auth_plugin_name, _)) => Ok(
                                HandshakeView {
                                    protocol_version: payload[0],
                                    server_version,
                                    connection_id: le_value(fixed.subrange(0, 4)) as u32,
                                    auth_plugin_data: fixed.subrange(4, 12)
                                        + ext.auth_plugin_data_part_2,
                                    capability_flags: ((le_value(fixed.subrange(13, 15)) as u32) | (
                                    (ext.capability_flags_upper as u32) << 16))
                                        & CAPABILITY_MASK,
                                    character_set: ext.character_set,
                                    status_flags: ext.status_flags & STATUS_MASK,
                                    auth_plugin_name,
                                },
                            ),
                            None => Err(ErrorKind::InvalidPacket),
                        },
                        None => Err(ErrorKind::InvalidPacket),
                    }
                }
            },
            None => Err(ErrorKind::InvalidPacket),
        }
    }
}

/// The optional region of a greeting as it was read.
struct ExtensionFields {
    character_set: u8,
    status_flags: u16,
    capability_flags_upper: u16,
    auth_plugin_data_part_2: Vec<u8>,
}

impl View for ExtensionFields {
    type V = HandshakeExtension;

    closed spec fn view(&self) -> HandshakeExtension {
        HandshakeExtension {
            character_set: self.character_set,
            status_flags: self.status_flags,
            capability_flags_upper: self.capability_flags_upper,
            auth_plugin_data_part_2: self.auth_plugin_data_part_2@,
        }
    }
}

/// Reads the optional region of a greeting.
fn read_handshake_extension(reader: &mut PacketReader) -> (r: Result<ExtensionFields, Error>)
    ensures
        match parse_handshake_extension(old(reader).remaining()) {
            Some((extension, used)) => outcome(r) == Ok::<HandshakeExtension, ErrorKind>(
                extension,
            ) && final(reader).remaining() == old(reader).remaining().skip(used as int),
            None => outcome(r) == Err::<HandshakeExtension, ErrorKind>(ErrorKind::InvalidPacket),
        },
{
    let ghost input = reader.remaining();
    let character_set = reader.read_u8()?;
    let status_flags = reader.read_u16()?;
    let capability_flags_upper = reader.read_u16()?;
    let auth_plugin_data_len = reader.read_u8()?;
    let _reserved = reader.read_bytes(10)?;
    assert(reader.remaining() =~= input.skip(16));
    proof {
        assert(input.skip(1).subrange(0, 2) =~= input.subrange(1, 3));
        assert(input.skip(1).skip(2).subrange(0, 2) =~= input.subrange(3, 5));
        lemma_le_value_bound(input.subrange(1, 3));
        lemma_le_value_bound(input.subrange(3, 5));
        lemma_pow256_values();
        assert(auth_plugin_data_len == input[5]);
    }
    let part_2_len: usize = if auth_plugin_data_len >= 21 {
        (auth_plugin_data_len - 9) as usize
    } else {
        12
    };
    let auth_plugin_data_part_2 = reader.read_bytes(part_2_len)?;
    assert(auth_plugin_data_part_2@ =~= input.subrange(16, 16 + part_2_len));
    let _filler = reader.read_u8()?;
    assert(reader.remaining() =~= input.skip(16 + part_2_len + 1));
    Ok(
        ExtensionFields {
            character_set,
            status_flags,
            capability_flags_upper,
            auth_plugin_data_part_2,
        },
    )
}

impl Packet for Handshake {
    open spec fn parse(payload: Seq<u8>, capabilities: u32) -> Result<HandshakeView, ErrorKind> {
        parse_handshake(payload)
    }

    /// A greeting is only ever received.
    open spec fn serialize(message: HandshakeView, capabilities: u32) -> Result<
        Seq<u8>,
        ErrorKind,
    > {
        Err(ErrorKind::NotSupported)
    }

    proof fn lemma_parse_is_decided(payload: Seq<u8>, capabilities: u32) {
    }

    fn read(payload: &[u8], capabilities: CapabilityFlags) -> (r: Result<Handshake, Error>) {
        let mut reader = PacketReader::new(payload);
        let protocol_version = reader.read_u8()?;
        let server_version = reader.read_string(false)?;
        let ghost fixed = reader.remaining();
        let connection_id = reader.read_u32()?;
        let mut auth_plugin_data = reader.read_bytes(8)?;
        let _filler = reader.read_u8()?;
        let lower = reader.read_u16()?;
        let ghost rest = reader.remaining();
        proof {
            let used = match parse_null_terminated(payload@.skip(1), false) {
                Some((_, used)) => used,
                None => 0,
            };
            assert(payload@.skip((1 + used) as int) =~= fixed);
            assert(rest =~= fixed.skip(15));
            assert(fixed.skip(4).subrange(0, 8) =~= fixed.subrange(4, 12));
            assert(fixed.skip(4).skip(8).skip(1).subrange(0, 2) =~= fixed.subrange(13, 15));
            lemma_le_value_bound(fixed.subrange(0, 4));
            lemma_le_value_bound(fixed.subrange(13, 15));
            lemma_pow256_values();
        }
        let fields = if reader.remaining_len() == 0 {
            assert(rest.skip(0) =~= rest);
            ExtensionFields {
                character_set: 0,
                status_flags: 0,
                capability_flags_upper: 0,
                auth_plugin_data_part_2: Vec::new(),
            }
        } else {
            read_handshake_extension(&mut reader)?
        };
        let auth_plugin_name = reader.read_string(true)?;
        write_bytes(&mut auth_plugin_data, fields.auth_plugin_data_part_2.as_slice());
        let bits = (lower as u32) | ((fields.capability_flags_upper as u32) << 16);
        Ok(
            Handshake {
                protocol_version,
                server_version,
                connection_id,
                auth_plugin_data,
                capability_flags: CapabilityFlags::from_bits_truncate(bits),
                character_set: fields.character_set,
                status_flags: StatusFlags::from_bits_truncate(fields.status_flags),
                auth_plugin_name,
            },
        )
    }

    fn write(&self, buf: &mut Vec<u8>, capabilities: CapabilityFlags) -> (r: Result<(), Error>) {
        Err(Error::new(ErrorKind::NotSupported, "writing handshake packets"))
    }

    fn size_hint(&self) -> (hint: Option<usize>)
        ensures
            hint is None,
    {
        None
    }
}

/// The response with which a client answers the greeting.
#[derive(Debug)]
pub struct HandshakeResponse {
    pub capability_flags: CapabilityFlags,
    pub max_packet_size: u32,
    pub character_set: u8,
    pub username: String,
    pub auth_response: Vec<u8>,
    pub initial_database: Option<String>,
    pub auth_plugin_name: String,
    pub attributes: Vec<(String, String)>,
}

/// A response as plain values.
pub struct HandshakeResponseView {
    pub capability_flags: u32,
    pub max_packet_size: u32,
    pub character_set: u8,
    pub username: Seq<char>,
    pub auth_response: Seq<u8>,
    pub initial_database: Option<Seq<char>>,
    pub auth_plugin_name: Seq<char>,
    pub attributes: Seq<(Seq<char>, Seq<char>)>,
}

/// Connection attributes as plain values, in their order.
pub open spec fn attributes_view(attributes: Seq<(String, String)>) -> Seq<
    (Seq<char>, Seq<char>),
> {
    attributes.map_values(|pair: (String, String)| (pair.0@, pair.1@))
}

impl View for HandshakeResponse {
    type V = HandshakeResponseView;

    open spec fn view(&self) -> HandshakeResponseView {
        HandshakeResponseView {
            capability_flags: self.capability_flags@,
            max_packet_size: self.max_packet_size,
            character_set: self.character_set,
            username: self.username@,
            auth_response: self.auth_response@,
            initial_database: match self.initial_database {
                Some(name) => Some(name@),
                None => None,
            },
            auth_plugin_name: self.auth_plugin_name@,
            attributes: attributes_view(self.attributes@),
        }
    }
}

/// The capabilities that a response announces: its own, and the one to
/// connect with a database wherever it names a database.
pub open spec fn response_capabilities(response: HandshakeResponseView) -> u32 {
    if response.initial_database is Some {
        response.capability_flags | CLIENT_CONNECT_WITH_DB
    } else {
        response.capability_flags
    }
}

/// The start of a response: the capabilities (4 bytes), the largest packet
/// size (4), the character set (1), 23 zero bytes, and the user name with
/// its terminator.
pub open spec fn response_head(response: HandshakeResponseView) -> Seq<u8> {
    le_bytes(response_capabilities(response) as nat, 4) + le_bytes(
        response.max_packet_size as nat,
        4,
    ) + seq![response.character_set] + Seq::new(23, |i: int| 0u8) + null_terminated_bytes(
        response.username,
    )
}

/// The authentication data of a response: length-encoded where the
/// capabilities allow that, else behind one byte of length where the
/// connection is secure, which at most 255 bytes can have, else ended by a
/// zero byte.
pub open spec fn response_auth(response: HandshakeResponseView) -> Result<Seq<u8>, ErrorKind> {
    if has_capability(response.capability_flags, CLIENT_PLUGIN_AUTH_LENENC_CLIENT_DATA) {
        Ok(lenenc_bytes(response.auth_response))
    } else if has_capability(response.capability_flags, CLIENT_SECURE_CONNECTION) {
        if response.auth_response.len() > 255 {
            Err(ErrorKind::InvalidPacket)
        } else {
            Ok(seq![response.auth_response.len() as u8] + response.auth_response)
        }
    } else {
        Ok(response.auth_response + seq![0u8])
    }
}

/// The database field of a response: the name with its terminator, where
/// the response names a database.
pub open spec fn response_database(response: HandshakeResponseView) -> Seq<u8> {
    match response.initial_database {
        Some(name) => null_terminated_bytes(name),
        None => Seq::empty(),
    }
}

/// The plugin field of a response: the name with its terminator, where the
/// capabilities hold plugin authentication.
pub open spec fn response_plugin(response: HandshakeResponseView) -> Seq<u8> {
    if has_capability(response_capabilities(response), CLIENT_PLUGIN_AUTH) {
        null_terminated_bytes(response.auth_plugin_name)
    } else {
        Seq::empty()
    }
}

/// Keys and values, each as a length-encoded string, in their order.
pub open spec fn attribute_pairs_bytes(attributes: Seq<(Seq<char>, Seq<char>)>) -> Seq<u8>
    decreases attributes.len(),
{
    if attributes.len() == 0 {
        Seq::empty()
    } else {
        attribute_pairs_bytes(attributes.drop_last()) + lenenc_string_bytes(attributes.last().0)
            + lenenc_string_bytes(attributes.last().1)
    }
}

/// The attribute field of a response: the number of attributes as a
/// length-encoded integer and the pairs, where the capabilities hold
/// connection attributes.
pub open spec fn response_attributes(response: HandshakeResponseView) -> Seq<u8> {
    if has_capability(response_capabilities(response), CLIENT_CONNECT_ATTRS) {
        lenenc_int_bytes(response.attributes.len() as u64) + attribute_pairs_bytes(
            response.attributes,
        )
    } else {
        Seq::empty()
    }
}

/// The payload of a response: head, authentication data, database, plugin
/// and attributes. It exists unless the authentication data cannot be
/// written.
pub open spec fn serialize_handshake_response(response: HandshakeResponseView) -> Result<
    Seq<u8>,
    ErrorKind,
> {
    match response_auth(response) {
        Ok(auth) => Ok(
            response_head(response) + auth + response_database(response) + response_plugin(
                response,
            ) + response_attributes(response),
        ),
        Err(kind) => Err(kind),
    }
}

/// A response that names a database announces the capability to connect
/// with one, whether or not its own capabilities hold it, and carries the
/// name with its terminator right behind the authentication data.
pub proof fn lemma_response_with_database(response: HandshakeResponseView)
    requires
        response.initial_database is Some,
        serialize_handshake_response(response) is Ok,
    ensures
        ({
            let payload = serialize_handshake_response(response)->Ok_0;
            let at = response_head(response).len() + response_auth(response)->Ok_0.len();
            let field = null_terminated_bytes(response.initial_database->0);
            &&& payload.len() >= at + field.len()
            &&& has_capability(le_value(payload.subrange(0, 4)) as u32, CLIENT_CONNECT_WITH_DB)
            &&& payload.subrange(at as int, (at + field.len()) as int) == field
        }),
{
    let payload = serialize_handshake_response(response)->Ok_0;
    let capabilities = response_capabilities(response);
    let own = response.capability_flags;
    let field = null_terminated_bytes(response.initial_database->0);
    let head = response_head(response);
    let auth = response_auth(response)->Ok_0;
    lemma_le_bytes_len(capabilities as nat, 4);
    lemma_pow256_values();
    lemma_le_value_of_bytes(capabilities as nat, 4);
    assert(payload.subrange(0, 4) =~= le_bytes(capabilities as nat, 4));
    assert((own | 0x0000_0008u32) & 0x0000_0008u32 == 0x0000_0008u32) by (bit_vector);
    let at = (head.len() + auth.len()) as int;
    assert(payload.subrange(at, at + field.len()) =~= field);
}

/// Parts that are appended one after the other follow the start as one
/// piece.
proof fn lemma_parts_in_a_row(
    start: Seq<u8>,
    a: Seq<u8>,
    b: Seq<u8>,
    c: Seq<u8>,
    d: Seq<u8>,
    e: Seq<u8>,
)
    ensures
        start + a + b + c + d + e == start + (a + b + c + d + e),
{
    assert(start + a + b + c + d + e =~= start + (a + b + c + d + e));
}

impl HandshakeResponse {
    /// Appends the start of the response.
    fn write_head(&self, buf: &mut Vec<u8>)
        ensures
            final(buf)@ == old(buf)@ + response_head(self@),
    {
        let capabilities = self.announced();
        proof {
            lemma_pow256_values();
        }
        write_fixed_uint(buf, capabilities.bits() as u64, 4);
        write_fixed_uint(buf, self.max_packet_size as u64, 4);
        buf.push(self.character_set);
        let ghost before_zeros = buf@;
        let mut i: usize = 0;
        while i < 23
            invariant
                i <= 23,
                buf@ == before_zeros + Seq::new(i as nat, |i: int| 0u8),
            decreases 23 - i,
        {
            buf.push(0);
            i = i + 1;
            assert(buf@ =~= before_zeros + Seq::new(i as nat, |i: int| 0u8));
        }
        let _ = buf.write_string(self.username.as_str());
        assert(buf@ =~= old(buf)@ + response_head(self@));
    }

    /// Appends the authentication data of the response, which has to be
    /// writable.
    fn write_auth(&self, buf: &mut Vec<u8>)
        requires
            response_auth(self@) is Ok,
        ensures
            final(buf)@ == old(buf)@ + response_auth(self@)->Ok_0,
    {
        if self.capability_flags.contains(CLIENT_PLUGIN_AUTH_LENENC_CLIENT_DATA) {
            let _ = buf.write_lenenc_bytes(self.auth_response.as_slice());
        } else if self.capability_flags.contains(CLIENT_SECURE_CONNECTION) {
            buf.push(self.auth_response.len() as u8);
            write_bytes(buf, self.auth_response.as_slice());
            assert(buf@ =~= old(buf)@ + response_auth(self@)->Ok_0);
        } else {
            write_bytes(buf, self.auth_response.as_slice());
            buf.push(0);
            assert(buf@ =~= old(buf)@ + response_auth(self@)->Ok_0);
        }
    }

    /// The capabilities that the response announces.
    fn announced(&self) -> (capabilities: CapabilityFlags)
        ensures
            capabilities@ == response_capabilities(self@),
    {
        proof {
            assert(0x0000_0008u32 & 0xE1FF_FFFFu32 == 0x0000_0008u32) by (bit_vector);
        }
        match &self.initial_database {
            Some(_) => self.capability_flags.union(
                CapabilityFlags::from_bits_truncate(CLIENT_CONNECT_WITH_DB),
            ),
            None => self.capability_flags,
        }
    }

    /// Appends the database field of the response.
    fn write_database(&self, buf: &mut Vec<u8>)
        ensures
            final(buf)@ == old(buf)@ + response_database(self@),
    {
        match &self.initial_database {
            Some(name) => {
                let _ = buf.write_string(name.as_str());
            },
            None => {
                assert(buf@ =~= old(buf)@ + response_database(self@));
            },
        }
    }

    /// Appends the plugin field of the response.
    fn write_plugin(&self, buf: &mut Vec<u8>)
        ensures
            final(buf)@ == old(buf)@ + response_plugin(self@),
    {
        if self.announced().contains(CLIENT_PLUGIN_AUTH) {
            let _ = buf.write_string(self.auth_plugin_name.as_str());
        } else {
            assert(buf@ =~= old(buf)@ + response_plugin(self@));
        }
    }

    /// Appends the attribute field of the response.
    fn write_attributes(&self, buf: &mut Vec<u8>)
        ensures
            final(buf)@ == old(buf)@ + response_attributes(self@),
    {
        if !self.announced().contains(CLIENT_CONNECT_ATTRS) {
            assert(buf@ =~= old(buf)@ + response_attributes(self@));
            return ;
        }
        let count = self.attributes.len();
        let _ = buf.write_lenenc_int(count as u64);
        let ghost start = buf@;
        let ghost all = self@.attributes;
        let mut i: usize = 0;
        while i < count
            invariant
                i <= count,
                count == self.attributes@.len(),
                all == attributes_view(self.attributes@),
                buf@ == start + attribute_pairs_bytes(all.subrange(0, i as int)),
            decreases count - i,
        {
            let pair = &self.attributes[i];
            let _ = buf.write_lenenc_string(pair.0.as_str());
            let _ = buf.write_lenenc_string(pair.1.as_str());
            proof {
                let done = all.subrange(0, i + 1);
                assert(done.drop_last() =~= all.subrange(0, i as int));
                assert(done.last() == all[i as int]);
            }
            i = i + 1;
        }
        assert(all.subrange(0, count as int) =~= all);
        assert(buf@ =~= old(buf)@ + response_attributes(self@));
    }
}

impl Packet for HandshakeResponse {
    /// A response is only ever sent.
    open spec fn parse(payload: Seq<u8>, capabilities: u32) -> Result<
        HandshakeResponseView,
        ErrorKind,
    > {
        Err(ErrorKind::NotSupported)
    }

    open spec fn serialize(message: HandshakeResponseView, capabilities: u32) -> Result<
        Seq<u8>,
        ErrorKind,
    > {
        serialize_handshake_response(message)
    }

    proof fn lemma_parse_is_decided(payload: Seq<u8>, capabilities: u32) {
    }

    fn read(payload: &[u8], capabilities: CapabilityFlags) -> (r: Result<
        HandshakeResponse,
        Error,
    >) {
        Err(Error::new(ErrorKind::NotSupported, "reading handshake response packets"))
    }

    fn write(&self, buf: &mut Vec<u8>, capabilities: CapabilityFlags) -> (r: Result<(), Error>) {
        let lenenc = self.capability_flags.contains(CLIENT_PLUGIN_AUTH_LENENC_CLIENT_DATA);
        let secure = self.capability_flags.contains(CLIENT_SECURE_CONNECTION);
        if !lenenc && secure && self.auth_response.len() > 255 {
            return Err(
                Error::new(
                    ErrorKind::InvalidPacket,
                    "cannot encode auth response unless CLIENT_PLUGIN_AUTH_LENENC_CLIENT_DATA is set",
                ),
            );
        }
        let ghost head = response_head(self@);
        let ghost auth = response_auth(self@)->Ok_0;
        let ghost database = response_database(self@);
        let ghost plugin = response_plugin(self@);
        let ghost attributes = response_attributes(self@);
        self.write_head(buf);
        self.write_auth(buf);
        self.write_database(buf);
        self.write_plugin(buf);
        self.write_attributes(buf);
        proof {
            lemma_parts_in_a_row(old(buf)@, head, auth, database, plugin, attributes);
        }
        Ok(())
    }

    fn size_hint(&self) -> (hint: Option<usize>)
        ensures
            hint is None,
    {
        None
    }
}

} // verus!

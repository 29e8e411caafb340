//! The connection: the handshake that a client goes through with a server,
//! step by step, on top of the packet transport.
//!
//! The connection does no I/O. Whoever owns the stream calls `connect`,
//! does what the returned action asks for, and calls `connect` again with
//! what came of it, until the handshake is done or has failed.

use vstd::prelude::*;
use vstd::string::StringExecFns;

use crate::conn::auth::{plugin_of_name, plugin_response, AuthPlugin, AuthPluginView};
use crate::conn::transport::{received_view, Transport, TransportView};
use crate::error::{optional_outcome, outcome, Error, ErrorKind};
use crate::flags::{
    has_capability, CapabilityFlags, StatusFlags, CLIENT_CONNECT_ATTRS, CLIENT_LOCAL_FILES,
    CLIENT_LONG_PASSWORD, CLIENT_MULTI_RESULTS, CLIENT_MULTI_STATEMENTS, CLIENT_PLUGIN_AUTH,
    CLIENT_PROTOCOL_41, CLIENT_PS_MULTI_RESULTS, CLIENT_SECURE_CONNECTION, CLIENT_TRANSACTIONS,
    UTF8MB4_GENERAL_CI,
};
use crate::opts::{ConnectionOptions, ConnectionOptionsView};
use crate::packet::handshake::{
    attributes_view, Handshake, HandshakeResponse, HandshakeResponseView, HandshakeView,
};
use crate::packet::Packet;

pub mod auth;
pub mod stream;
pub mod transport;

verus! {

/// The protocol version that the client speaks.
pub const PROTOCOL_VERSION: u8 = 10;

/// The largest packet that the client announces to take.
pub const MAX_PACKET_SIZE: u32 = 0x100_0000;

/// The capabilities that the client always supports.
pub const CLIENT_BASE_CAPABILITIES: u32 = CLIENT_PROTOCOL_41 | CLIENT_SECURE_CONNECTION
    | CLIENT_LONG_PASSWORD | CLIENT_TRANSACTIONS | CLIENT_LOCAL_FILES | CLIENT_MULTI_STATEMENTS
    | CLIENT_MULTI_RESULTS | CLIENT_PS_MULTI_RESULTS | CLIENT_PLUGIN_AUTH | CLIENT_CONNECT_ATTRS;

/// The name of the user where the options set none.
pub open spec fn default_username() -> Seq<char> {
    "root"@
}

/// How far the handshake has come.
#[derive(Copy, Clone, Debug, PartialEq, Eq, Structural)]
pub enum ConnectionPhase {
    /// Nothing has happened yet.
    Unconnected,
    /// The greeting of the server is awaited.
    AwaitingGreeting,
    /// The response was made, and the answer of the server is awaited.
    NegotiatingAuth,
    /// The handshake is done.
    Established,
    /// The handshake has failed for good.
    Failed(ErrorKind),
}

/// What the owner of the stream has to do before the next step.
#[derive(Debug)]
pub enum ConnectAction {
    /// Read from the stream and hand over what was read.
    Read,
    /// Write these bytes to the stream.
    Write(Vec<u8>),
    /// Nothing: the handshake is done.
    Done,
}

/// An action as plain values.
pub enum ConnectActionView {
    Read,
    Write(Seq<u8>),
    Done,
}

impl View for ConnectAction {
    type V = ConnectActionView;

    open spec fn view(&self) -> ConnectActionView {
        match self {
            ConnectAction::Read => ConnectActionView::Read,
            ConnectAction::Write(frame) => ConnectActionView::Write(frame@),
            ConnectAction::Done => ConnectActionView::Done,
        }
    }
}

/// What a connection has learned from the greeting.
#[derive(Debug)]
pub struct ConnectionState {
    capability_flags: CapabilityFlags,
    status_flags: StatusFlags,
    connection_id: usize,
    character_set: u8,
    server_version: String,
}

/// What a connection has learned from the greeting, as plain values.
pub struct ConnectionStateView {
    pub capability_flags: u32,
    pub status_flags: u16,
    pub connection_id: usize,
    pub character_set: u8,
    pub server_version: Seq<char>,
}

impl ConnectionStateView {
    /// What is known before the greeting: nothing.
    pub open spec fn start() -> ConnectionStateView {
        ConnectionStateView {
            capability_flags: 0,
            status_flags: 0,
            connection_id: 0,
            character_set: 0,
            server_version: Seq::empty(),
        }
    }
}

impl View for ConnectionState {
    type V = ConnectionStateView;

    closed spec fn view(&self) -> ConnectionStateView {
        ConnectionStateView {
            capability_flags: self.capability_flags@,
            status_flags: self.status_flags@,
            connection_id: self.connection_id,
            character_set: self.character_set,
            server_version: self.server_version@,
        }
    }
}

/// A connection as plain values.
pub struct ConnectionView {
    pub transport: TransportView,
    pub opts: ConnectionOptionsView,
    pub state: ConnectionStateView,
    pub phase: ConnectionPhase,
}

/// The capabilities that the client supports under `opts`: the fixed ones
/// and those that the options ask for.
pub open spec fn client_capabilities(opts: ConnectionOptionsView) -> u32 {
    CLIENT_BASE_CAPABILITIES | opts.capabilities()
}

/// What a greeting seeds a connection with. The capabilities in force are
/// those that both sides have.
pub open spec fn seeded_state(
    opts: ConnectionOptionsView,
    greeting: HandshakeView,
) -> ConnectionStateView {
    ConnectionStateView {
        capability_flags: greeting.capability_flags & client_capabilities(opts),
        status_flags: greeting.status_flags,
        connection_id: greeting.connection_id as usize,
        character_set: greeting.character_set,
        server_version: greeting.server_version,
    }
}

/// The response to a greeting under `opts`, with the authentication data
/// that the plugin gave.
pub open spec fn response_to(
    opts: ConnectionOptionsView,
    greeting: HandshakeView,
    auth_response: Seq<u8>,
) -> HandshakeResponseView {
    HandshakeResponseView {
        capability_flags: greeting.capability_flags & client_capabilities(opts),
        max_packet_size: MAX_PACKET_SIZE,
        character_set: UTF8MB4_GENERAL_CI,
        username: match opts.username {
            Some(name) => name,
            None => default_username(),
        },
        auth_response,
        initial_database: opts.initial_database,
        auth_plugin_name: greeting.auth_plugin_name,
        attributes: Seq::empty(),
    }
}

/// What a greeting leads to: the state of the connection after it, and the
/// response to send or the reason why there is none.
///
/// A protocol version other than 10 and a server without protocol 4.1 are
/// refused, and leave the state as it was. Else the greeting seeds the
/// state. A plugin that the client does not know is refused; the known one
/// gives the authentication data for the response.
pub open spec fn negotiate(
    opts: ConnectionOptionsView,
    state: ConnectionStateView,
    greeting: HandshakeView,
) -> (ConnectionStateView, Result<HandshakeResponseView, ErrorKind>) {
    if greeting.protocol_version != PROTOCOL_VERSION {
        (
            state,
            Err(
                ErrorKind::UnsupportedProtocol {
                    required: PROTOCOL_VERSION,
                    requested: greeting.protocol_version,
                },
            ),
        )
    } else if !has_capability(greeting.capability_flags, CLIENT_PROTOCOL_41) {
        (state, Err(ErrorKind::ProtocolError))
    } else {
        let seeded = seeded_state(opts, greeting);
        match plugin_of_name(greeting.auth_plugin_name) {
            AuthPluginView::Unknown(_) => (seeded, Err(ErrorKind::ClientIncapable)),
            AuthPluginView::CachingSha2Password => match plugin_response(opts.password) {
                Ok(auth_response) => (seeded, Ok(response_to(opts, greeting, auth_response))),
                Err(kind) => (seeded, Err(kind)),
            },
        }
    }
}

impl ConnectionView {
    /// A connection that has not begun.
    pub open spec fn start(opts: ConnectionOptionsView) -> ConnectionView {
        ConnectionView {
            transport: TransportView::start(),
            opts,
            state: ConnectionStateView::start(),
            phase: ConnectionPhase::Unconnected,
        }
    }

    /// The connection after a failure of `kind`, with what it had come to.
    pub open spec fn failed(self, kind: ErrorKind) -> (
        ConnectionView,
        Result<ConnectActionView, ErrorKind>,
    ) {
        (ConnectionView { phase: ConnectionPhase::Failed(kind), ..self }, Err(kind))
    }

    /// Whether the handshake is over, for better or worse.
    pub open spec fn is_over(self) -> bool {
        self.phase is Established || self.phase is Failed
    }

    /// The connection after its stream failed: the handshake fails with it,
    /// unless it is over.
    pub open spec fn stream_failed(self) -> ConnectionView {
        if self.is_over() {
            self
        } else {
            ConnectionView { phase: ConnectionPhase::Failed(ErrorKind::Other), ..self }
        }
    }

    /// The step on a greeting that was read.
    pub open spec fn greeted(self, greeting: HandshakeView) -> (
        ConnectionView,
        Result<ConnectActionView, ErrorKind>,
    ) {
        let (state, response) = negotiate(self.opts, self.state, greeting);
        let seeded = ConnectionView { state, ..self };
        match response {
            Ok(response) => {
                let (transport, frame) = seeded.transport.write::<HandshakeResponse>(
                    response,
                    state.capability_flags,
                );
                match frame {
                    Ok(bytes) => (
                        ConnectionView {
                            transport,
                            phase: ConnectionPhase::NegotiatingAuth,
                            ..seeded
                        },
                        Ok(ConnectActionView::Write(bytes)),
                    ),
                    Err(kind) => (ConnectionView { transport, ..seeded }).failed(kind),
                }
            },
            Err(kind) => seeded.failed(kind),
        }
    }

    /// One step of the handshake, after `received` arrived from the
    /// stream: nothing at the start and after a write, no bytes once the
    /// stream is closed.
    ///
    /// Before the greeting has arrived whole, the step asks for a read.
    /// The greeting is answered with the response to write, or refused. A
    /// stream that closes before the greeting breaks the protocol. After
    /// the response the step asks for reads until one more frame has
    /// arrived or the stream was closed cleanly: then the handshake is
    /// done, and stays so. Every failure is final: each later step fails in
    /// the same way.
    pub open spec fn connect(self, received: Option<Seq<u8>>) -> (
        ConnectionView,
        Result<ConnectActionView, ErrorKind>,
    ) {
        match self.phase {
            ConnectionPhase::Failed(kind) => (self, Err(kind)),
            ConnectionPhase::Established => (self, Ok(ConnectActionView::Done)),
            ConnectionPhase::NegotiatingAuth => {
                let (transport, answer) = self.transport.read::<Vec<u8>>(
                    received,
                    self.state.capability_flags,
                );
                let read = ConnectionView { transport, ..self };
                match answer {
                    Ok(_) => (
                        ConnectionView { phase: ConnectionPhase::Established, ..read },
                        Ok(ConnectActionView::Done),
                    ),
                    Err(ErrorKind::DataIncomplete) => (read, Ok(ConnectActionView::Read)),
                    Err(kind) => read.failed(kind),
                }
            },
            _ => {
                let (transport, greeting) = self.transport.read::<Handshake>(
                    received,
                    self.state.capability_flags,
                );
                let read = ConnectionView {
                    transport,
                    phase: ConnectionPhase::AwaitingGreeting,
                    ..self
                };
                match greeting {
                    Ok(Some(greeting)) => read.greeted(greeting),
                    Ok(None) => read.failed(ErrorKind::ProtocolError),
                    Err(ErrorKind::DataIncomplete) => (read, Ok(ConnectActionView::Read)),
                    Err(kind) => read.failed(kind),
                }
            },
        }
    }
}

/// A connection to a server: its framing state, its options, and what the
/// handshake has come to.
#[derive(Debug)]
pub struct Connection {
    transport: Transport,
    opts: ConnectionOptions,
    state: ConnectionState,
    phase: ConnectionPhase,
    failure: Option<Error>,
}

impl View for Connection {
    type V = ConnectionView;

    closed spec fn view(&self) -> ConnectionView {
        ConnectionView {
            transport: self.transport@,
            opts: self.opts@,
            state: self.state@,
            phase: self.phase,
        }
    }
}

impl Connection {
    /// A connection that has not begun, with `opts` or with nothing set.
    pub fn new(opts: Option<ConnectionOptions>) -> (connection: Connection)
        ensures
            connection@ == ConnectionView::start(
                match opts {
                    Some(opts) => opts@,
                    None => ConnectionOptionsView::unset(),
                },
            ),
    {
        Connection {
            transport: Transport::new(),
            opts: match opts {
                Some(opts) => opts,
                None => ConnectionOptions::default(),
            },
            state: ConnectionState {
                capability_flags: CapabilityFlags::empty(),
                status_flags: StatusFlags::empty(),
                connection_id: 0,
                character_set: 0,
                server_version: String::new(),
            },
            phase: ConnectionPhase::Unconnected,
            failure: None,
        }
    }

    /// The attributes that the client tells of itself: none.
    fn get_connect_attrs(&self) -> (attributes: Vec<(String, String)>)
        ensures
            attributes@.len() == 0,
    {
        Vec::new()
    }

    /// The capabilities that the client supports under its options.
    pub fn get_client_caps(&self) -> (caps: CapabilityFlags)
        ensures
            caps@ == client_capabilities(self@.opts),
    {
        let asked = self.opts.get_capabilities();
        let base = CapabilityFlags::from_bits_truncate(CLIENT_BASE_CAPABILITIES);
        proof {
            assert(0x0000_0200u32 | 0x0000_8000u32 | 0x0000_0001u32 | 0x0000_2000u32
                | 0x0000_0080u32 | 0x0001_0000u32 | 0x0002_0000u32 | 0x0004_0000u32
                | 0x0008_0000u32 | 0x0010_0000u32 == 0x001F_A281u32) by (bit_vector);
            assert(0x001F_A281u32 & 0xE1FF_FFFFu32 == 0x001F_A281u32) by (bit_vector);
        }
        base.union(asked)
    }

    /// Takes in the greeting of the server: checks it, seeds the state of
    /// the connection with it and makes the response.
    pub fn handle_greeting(&mut self, greeting: Handshake) -> (r: Result<HandshakeResponse, Error>)
        ensures
            (final(self)@.state, outcome(r)) == negotiate(
                old(self)@.opts,
                old(self)@.state,
                greeting@,
            ),
            final(self)@ == (ConnectionView { state: final(self)@.state, ..old(self)@ }),
    {
        if greeting.protocol_version != PROTOCOL_VERSION {
            return Err(
                Error::new(
                    ErrorKind::UnsupportedProtocol {
                        required: PROTOCOL_VERSION,
                        requested: greeting.protocol_version,
                    },
                    "server requested a protocol version other than 10",
                ),
            );
        }
        if !greeting.capability_flags.contains(CLIENT_PROTOCOL_41) {
            return Err(Error::new(ErrorKind::ProtocolError, "server must use protocol 4.1"));
        }
        let effective = greeting.capability_flags.intersection(self.get_client_caps());
        self.state.capability_flags = effective;
        self.state.status_flags = greeting.status_flags;
        self.state.connection_id = greeting.connection_id as usize;
        self.state.character_set = greeting.character_set;
        self.state.server_version = greeting.server_version;
        let auth_plugin = AuthPlugin::from_name(greeting.auth_plugin_name.as_str());
        match &auth_plugin {
            AuthPlugin::Unknown(_) => {
                return Err(
                    Error::new(
                        ErrorKind::ClientIncapable,
                        "the client is incapable of using the auth plugin of the server",
                    ),
                );
            },
            AuthPlugin::CachingSha2Password => {},
        }
        let auth_data = auth_plugin.generate_response(
            self.opts.password(),
            greeting.auth_plugin_data.as_slice(),
        )?;
        let username = match self.opts.username() {
            Some(name) => String::from_str(name),
            None => String::from_str("root"),
        };
        let initial_database = match self.opts.initial_database() {
            Some(name) => Some(String::from_str(name)),
            None => None,
        };
        let attributes = self.get_connect_attrs();
        assert(attributes_view(attributes@) =~= Seq::empty());
        Ok(
            HandshakeResponse {
                capability_flags: effective,
                max_packet_size: MAX_PACKET_SIZE,
                character_set: UTF8MB4_GENERAL_CI,
                username,
                auth_response: auth_data,
                initial_database,
                auth_plugin_name: String::from_str(auth_plugin.name()),
                attributes,
            },
        )
    }

    /// Records a failure, after which the handshake cannot go on.
    fn fail(&mut self, e: Error) -> (r: Result<ConnectAction, Error>)
        ensures
            (final(self)@, outcome(r)) == old(self)@.failed(e.kind()),
    {
        self.phase = ConnectionPhase::Failed(e.kind());
        self.failure = Some(e.duplicate());
        Err(e)
    }

    /// The step on a greeting that was read.
    fn greeted(&mut self, greeting: Handshake) -> (r: Result<ConnectAction, Error>)
        ensures
            (final(self)@, outcome(r)) == old(self)@.greeted(greeting@),
    {
        let response = match self.handle_greeting(greeting) {
            Ok(response) => response,
            Err(e) => {
                return self.fail(e);
            },
        };
        match self.transport.write_packet(response, self.state.capability_flags) {
            Ok(frame) => {
                self.phase = ConnectionPhase::NegotiatingAuth;
                Ok(ConnectAction::Write(frame))
            },
            Err(e) => self.fail(e),
        }
    }

    /// One step of the handshake. `received` is what came of the last
    /// action: nothing at the start and after a write, what was read after
    /// a read, and no bytes once the stream is closed.
    pub fn connect(&mut self, received: Option<&[u8]>) -> (r: Result<ConnectAction, Error>)
        requires
            received matches Some(chunk) ==> old(self)@.transport.buffer.len() + chunk@.len()
                <= isize::MAX,
        ensures
            (final(self)@, outcome(r)) == old(self)@.connect(received_view(received)),
    {
        match self.phase {
            ConnectionPhase::Failed(kind) => Err(
                match &self.failure {
                    Some(e) => e.duplicate().with_kind(kind),
                    None => Error::new(kind, "the handshake has failed before"),
                },
            ),
            ConnectionPhase::Established => Ok(ConnectAction::Done),
            ConnectionPhase::NegotiatingAuth => {
                match self.transport.read_packet::<Vec<u8>>(
                    received,
                    self.state.capability_flags,
                ) {
                    Ok(_) => {
                        self.phase = ConnectionPhase::Established;
                        Ok(ConnectAction::Done)
                    },
                    Err(e) => match e.kind() {
                        ErrorKind::DataIncomplete => Ok(ConnectAction::Read),
                        _ => self.fail(e),
                    },
                }
            },
            _ => {
                self.phase = ConnectionPhase::AwaitingGreeting;
                match self.transport.read_packet::<Handshake>(
                    received,
                    self.state.capability_flags,
                ) {
                    Ok(Some(greeting)) => self.greeted(greeting),
                    Ok(None) => self.fail(
                        Error::new(ErrorKind::ProtocolError, "expected a handshake packet"),
                    ),
                    Err(e) => match e.kind() {
                        ErrorKind::DataIncomplete => Ok(ConnectAction::Read),
                        _ => self.fail(e),
                    },
                }
            },
        }
    }
}

impl Connection {
    /// How far the handshake has come.
    pub fn phase(&self) -> (phase: ConnectionPhase)
        ensures
            phase == self@.phase,
    {
        self.phase
    }

    /// The capabilities in force: those that both sides have.
    pub fn capability_flags(&self) -> (flags: CapabilityFlags)
        ensures
            flags@ == self@.state.capability_flags,
    {
        self.state.capability_flags
    }

    /// The status flags that the server sent in its greeting.
    pub fn status_flags(&self) -> (flags: StatusFlags)
        ensures
            flags@ == self@.state.status_flags,
    {
        self.state.status_flags
    }

    /// The id that the server gave to the connection.
    pub fn connection_id(&self) -> (id: usize)
        ensures
            id == self@.state.connection_id,
    {
        self.state.connection_id
    }

    /// The character set that the server sent in its greeting.
    pub fn character_set(&self) -> (character_set: u8)
        ensures
            character_set == self@.state.character_set,
    {
        self.state.character_set
    }

    /// The version that the server gave of itself.
    pub fn server_version(&self) -> (version: &str)
        ensures
            version@ == self@.state.server_version,
    {
        self.state.server_version.as_str()
    }

    /// The number of bytes that arrived and belong to no frame taken so
    /// far.
    pub fn buffered_len(&self) -> (len: usize)
        ensures
            len == self@.transport.buffer.len(),
    {
        self.transport.buffered_len()
    }

    /// Records that the stream has failed, with the text of the failure:
    /// the handshake fails with it, unless it is over. The error to hand
    /// on is returned.
    pub fn stream_failed(&mut self, cause: &str) -> (e: Error)
        ensures
            final(self)@ == old(self)@.stream_failed(),
            e.kind() == ErrorKind::Other,
            e.spec_cause() == Some(cause@),
    {
        match self.phase {
            ConnectionPhase::Established => {},
            ConnectionPhase::Failed(_) => {},
            _ => {
                self.phase = ConnectionPhase::Failed(ErrorKind::Other);
                self.failure = Some(
                    Error::with_cause(ErrorKind::Other, "the stream failed", cause),
                );
            },
        }
        Error::with_cause(ErrorKind::Other, "the stream failed", cause)
    }

    /// One turn of reading the next message under the capabilities in
    /// force, as `Transport::read_packet` has it.
    pub fn read_packet<P: Packet>(&mut self, received: Option<&[u8]>) -> (r: Result<
        Option<P>,
        Error,
    >)
        requires
            received matches Some(chunk) ==> old(self)@.transport.buffer.len() + chunk@.len()
                <= isize::MAX,
        ensures
            (final(self)@.transport, optional_outcome(r)) == old(self)@.transport.read::<P>(
                received_view(received),
                old(self)@.state.capability_flags,
            ),
            final(self)@ == (ConnectionView { transport: final(self)@.transport, ..old(self)@ }),
    {
        self.transport.read_packet::<P>(received, self.state.capability_flags)
    }

    /// Reads the next message if its frame has arrived whole, and gives
    /// none if it has not.
    pub fn parse_packet<P: Packet>(&mut self) -> (r: Result<Option<P>, Error>)
        ensures
            final(self)@ == (ConnectionView {
                transport: old(self)@.transport.read::<P>(
                    None,
                    old(self)@.state.capability_flags,
                ).0,
                ..old(self)@
            }),
            match r {
                Ok(Some(message)) => old(self)@.transport.read::<P>(
                    None,
                    old(self)@.state.capability_flags,
                ).1 == Ok::<Option<P::V>, ErrorKind>(Some(message@)),
                Ok(None) => old(self)@.transport.read::<P>(
                    None,
                    old(self)@.state.capability_flags,
                ).1 == Err::<Option<P::V>, ErrorKind>(ErrorKind::DataIncomplete),
                Err(e) => e.kind() != ErrorKind::DataIncomplete && old(self)@.transport.read::<P>(
                    None,
                    old(self)@.state.capability_flags,
                ).1 == Err::<Option<P::V>, ErrorKind>(e.kind()),
            },
    {
        match self.transport.read_packet::<P>(None, self.state.capability_flags) {
            Ok(Some(message)) => Ok(Some(message)),
            Ok(None) => Ok(None),
            Err(e) => match e.kind() {
                ErrorKind::DataIncomplete => Ok(None),
                _ => Err(e),
            },
        }
    }

    /// Makes the frame that carries `packet` under the capabilities in
    /// force, as `Transport::write_packet` has it.
    pub fn write_packet<P: Packet>(&mut self, packet: P) -> (r: Result<Vec<u8>, Error>)
        ensures
            (final(self)@.transport, outcome(r)) == old(self)@.transport.write::<P>(
                packet@,
                old(self)@.state.capability_flags,
            ),
            final(self)@ == (ConnectionView { transport: final(self)@.transport, ..old(self)@ }),
    {
        self.transport.write_packet(packet, self.state.capability_flags)
    }
}

/// A handshake that is over stays as it is: a done one stays done, and a
/// failed one fails every later step in the same way.
pub proof fn lemma_over_is_final(connection: ConnectionView, received: Option<Seq<u8>>)
    requires
        connection.is_over(),
    ensures
        connection.connect(received).0 == connection,
        connection.phase is Established ==> connection.connect(received).1 == Ok::<
            ConnectActionView,
            ErrorKind,
        >(ConnectActionView::Done),
        connection.phase matches ConnectionPhase::Failed(kind) ==> connection.connect(received).1
            == Err::<ConnectActionView, ErrorKind>(kind),
{
}

/// No step of the handshake hands the need for more bytes to its caller
/// as a failure: it asks for a read instead.
pub proof fn lemma_connect_asks_for_reads(connection: ConnectionView, received: Option<Seq<u8>>)
    requires
        connection.phase != ConnectionPhase::Failed(ErrorKind::DataIncomplete),
    ensures
        connection.connect(received).1 != Err::<ConnectActionView, ErrorKind>(
            ErrorKind::DataIncomplete,
        ),
        connection.connect(received).0.phase != ConnectionPhase::Failed(ErrorKind::DataIncomplete),
{
}

/// A step fails exactly when it leaves the handshake failed, and with the
/// kind that the failure is recorded with.
pub proof fn lemma_failure_is_recorded(connection: ConnectionView, received: Option<Seq<u8>>)
    ensures
        connection.connect(received).1 matches Err(kind) ==> connection.connect(received).0.phase
            == ConnectionPhase::Failed(kind),
        connection.connect(received).1 is Ok ==> !(connection.connect(received).0.phase is Failed),
{
}

} // verus!

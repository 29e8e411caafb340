//! The packet transport: frames taken out of the bytes of a stream as they
//! arrive, and frames made for what is sent.
//!
//! The transport does no I/O. Whoever owns the stream reads from it and
//! hands over what was read; what the transport returns for sending has to
//! be written to the stream in one piece.

use bytes::BytesMut;
use vstd::prelude::*;
use vstd::slice::{slice_subrange, slice_to_vec};

use crate::error::{optional_outcome, outcome, Error, ErrorKind};
use crate::flags::CapabilityFlags;
use crate::packet::utils::{lemma_pow256_values, write_bytes, write_fixed_uint};
use crate::packet::{
    frame_bytes, frame_header, frame_length, frame_payload, frame_sequence_id, has_frame, Packet,
    PAYLOAD_LEN_LIMIT,
};

verus! {

/// The capacity that the accumulation buffer starts with.
pub const BUFFER_SIZE: usize = 4096;

/// `BytesMut` of `bytes`: a buffer of bytes that grows at its end and is
/// emptied from its front. Of a value nothing is known but what `buffered`
/// says that it holds.
#[verifier::external_type_specification]
#[verifier::external_body]
pub struct ExBytesMut(BytesMut);

/// The bytes that a buffer holds, in their order.
pub uninterp spec fn buffered(buffer: BytesMut) -> Seq<u8>;

/// `BytesMut::with_capacity` of `bytes`: a buffer that holds no bytes. The
/// call panics where the capacity is more than `isize::MAX`.
#[verifier::external_body]
fn buffer_with_capacity(capacity: usize) -> (buffer: BytesMut)
    requires
        capacity <= isize::MAX,
    ensures
        buffered(buffer) == Seq::<u8>::empty(),
{
    BytesMut::with_capacity(capacity)
}

/// `BytesMut::as_ref` of `bytes`: the bytes that the buffer holds, as a
/// slice.
#[verifier::external_body]
fn buffer_bytes(buffer: &BytesMut) -> (bytes: &[u8])
    ensures
        bytes@ == buffered(*buffer),
{
    buffer.as_ref()
}

/// `BytesMut::extend_from_slice` of `bytes`: the buffer holds what it held
/// and then the bytes of `extend`. The call panics where it cannot count the
/// room that it needs, which a new length of at most `isize::MAX` rules out.
#[verifier::external_body]
fn buffer_extend_from_slice(buffer: &mut BytesMut, extend: &[u8])
    requires
        buffered(*old(buffer)).len() + extend@.len() <= isize::MAX,
    ensures
        buffered(*final(buffer)) == buffered(*old(buffer)) + extend@,
{
    buffer.extend_from_slice(extend)
}

/// `BytesMut::split_to` of `bytes`: the first `at` bytes leave the buffer
/// and are returned, the others stay. The call panics where `at` is more
/// than the buffer holds.
#[verifier::external_body]
fn buffer_split_to(buffer: &mut BytesMut, at: usize) -> (front: BytesMut)
    requires
        at <= buffered(*old(buffer)).len(),
    ensures
        buffered(front) == buffered(*old(buffer)).subrange(0, at as int),
        buffered(*final(buffer)) == buffered(*old(buffer)).skip(at as int),
{
    buffer.split_to(at)
}

/// The number that follows `sequence_id`: one more, and 0 after 255.
pub open spec fn next_sequence_id(sequence_id: u8) -> u8 {
    if sequence_id == 255 {
        0
    } else {
        (sequence_id + 1) as u8
    }
}

/// What arrived from the stream, as plain values.
pub open spec fn received_view(received: Option<&[u8]>) -> Option<Seq<u8>> {
    match received {
        Some(chunk) => Some(chunk@),
        None => None,
    }
}

/// A payload that may be there, as plain values.
pub open spec fn payload_view(payload: Option<Vec<u8>>) -> Option<Seq<u8>> {
    match payload {
        Some(bytes) => Some(bytes@),
        None => None,
    }
}

/// The state of a transport as plain values.
pub struct TransportView {
    /// The bytes that arrived and belong to no frame taken so far.
    pub buffer: Seq<u8>,
    /// The payload of the frame that was taken and not consumed yet.
    pub packet: Option<Seq<u8>>,
    /// The sequence number that the next frame to arrive has to carry.
    pub sequence_id: u8,
    /// The sequence number that the next frame to send will carry.
    pub write_sequence_id: u8,
}

impl TransportView {
    /// The state of a transport that has seen nothing yet.
    pub open spec fn start() -> TransportView {
        TransportView { buffer: Seq::empty(), packet: None, sequence_id: 0, write_sequence_id: 0 }
    }

    /// Taking the next frame without consuming it.
    ///
    /// A frame that was taken before is handed out again. Else a whole
    /// frame at the front of the buffer leaves the buffer and is kept, if
    /// it carries the expected sequence number; if it carries another one
    /// the protocol is broken and nothing changes. Without a whole frame
    /// there is no payload and nothing changes.
    pub open spec fn peek(self) -> (TransportView, Result<Option<Seq<u8>>, ErrorKind>) {
        if self.packet is Some {
            (self, Ok(self.packet))
        } else if !has_frame(self.buffer) {
            (self, Ok(None))
        } else if frame_sequence_id(self.buffer) != self.sequence_id {
            (self, Err(ErrorKind::ProtocolError))
        } else {
            (
                TransportView {
                    buffer: self.buffer.skip((4 + frame_length(self.buffer)) as int),
                    packet: Some(frame_payload(self.buffer)),
                    ..self
                },
                Ok(Some(frame_payload(self.buffer))),
            )
        }
    }

    /// Consuming the frame that was taken: it is dropped, and the expected
    /// sequence number moves on. Without such a frame nothing changes.
    pub open spec fn consume(self) -> TransportView {
        if self.packet is Some {
            TransportView {
                packet: None,
                sequence_id: next_sequence_id(self.sequence_id),
                ..self
            }
        } else {
            self
        }
    }

    /// Taking in what arrived from the stream: it is added at the end of
    /// the buffer.
    pub open spec fn receive(self, received: Option<Seq<u8>>) -> TransportView {
        match received {
            Some(chunk) => TransportView { buffer: self.buffer + chunk, ..self },
            None => self,
        }
    }

    /// One turn of waiting for a frame, after `received` arrived from the
    /// stream; an empty `received` says that the stream is closed.
    ///
    /// What arrived is taken in, and the next frame is taken if it is whole.
    /// If it is not, a closed stream ends the wait: cleanly where nothing
    /// is left in the buffer, with `ConnectionReset` where a part of a
    /// frame is. An open stream has the wait go on: `DataIncomplete` asks
    /// for another read.
    pub open spec fn fill(self, received: Option<Seq<u8>>) -> (
        TransportView,
        Result<Option<Seq<u8>>, ErrorKind>,
    ) {
        let (next, taken) = self.receive(received).peek();
        match taken {
            Ok(None) => if received matches Some(chunk) && chunk.len() == 0 {
                if next.buffer.len() == 0 {
                    (next, Ok(None))
                } else {
                    (next, Err(ErrorKind::ConnectionReset))
                }
            } else {
                (next, Err(ErrorKind::DataIncomplete))
            },
            _ => (next, taken),
        }
    }

    /// One turn of reading a message: a turn of waiting for a frame, and
    /// then the parse of its payload. A payload that parses is consumed; one
    /// that does not stays taken.
    pub open spec fn read<P: Packet>(self, received: Option<Seq<u8>>, capabilities: u32) -> (
        TransportView,
        Result<Option<P::V>, ErrorKind>,
    ) {
        let (next, taken) = self.fill(received);
        match taken {
            Ok(Some(payload)) => match P::parse(payload, capabilities) {
                Ok(message) => (next.consume(), Ok(Some(message))),
                Err(kind) => (next, Err(kind)),
            },
            Ok(None) => (next, Ok(None)),
            Err(kind) => (next, Err(kind)),
        }
    }

    /// Making the frame for a message to send: its payload behind a header
    /// with the next sequence number of the sending side, which then moves
    /// on. A message that cannot be written, or whose payload is too long
    /// for a frame, changes nothing.
    pub open spec fn write<P: Packet>(self, message: P::V, capabilities: u32) -> (
        TransportView,
        Result<Seq<u8>, ErrorKind>,
    ) {
        match P::serialize(message, capabilities) {
            Ok(payload) => if payload.len() < PAYLOAD_LEN_LIMIT {
                (
                    TransportView {
                        write_sequence_id: next_sequence_id(self.write_sequence_id),
                        ..self
                    },
                    Ok(frame_bytes(self.write_sequence_id, payload)),
                )
            } else {
                (self, Err(ErrorKind::InvalidPacket))
            },
            Err(kind) => (self, Err(kind)),
        }
    }
}

/// The framing state of one connection: what arrived and was not taken
/// yet, the frame that was taken last, and the sequence numbers of both
/// directions.
#[derive(Debug)]
pub struct Transport {
    buffer: BytesMut,
    packet: Option<Vec<u8>>,
    sequence_id: u8,
    write_sequence_id: u8,
}

impl View for Transport {
    type V = TransportView;

    closed spec fn view(&self) -> TransportView {
        TransportView {
            buffer: buffered(self.buffer),
            packet: payload_view(self.packet),
            sequence_id: self.sequence_id,
            write_sequence_id: self.write_sequence_id,
        }
    }
}

impl Transport {
    /// A transport that has seen nothing yet.
    pub fn new() -> (transport: Transport)
        ensures
            transport@ == TransportView::start(),
    {
        Transport {
            buffer: buffer_with_capacity(BUFFER_SIZE),
            packet: None,
            sequence_id: 0,
            write_sequence_id: 0,
        }
    }

    /// The number of bytes in the buffer.
    pub fn buffered_len(&self) -> (len: usize)
        ensures
            len == self@.buffer.len(),
    {
        buffer_bytes(&self.buffer).len()
    }

    /// Takes the next frame without consuming it, if it has arrived whole.
    pub fn get_next_packet(&mut self) -> (r: Result<Option<Vec<u8>>, Error>)
        ensures
            (final(self)@, optional_outcome(r)) == old(self)@.peek(),
    {
        match &self.packet {
            Some(payload) => {
                return Ok(Some(slice_to_vec(payload.as_slice())));
            },
            None => {},
        }
        let (payload_len, sequence_id) = match frame_header(buffer_bytes(&self.buffer)) {
            Some(header) => header,
            None => {
                return Ok(None);
            },
        };
        self.check_sequence_id(sequence_id)?;
        let frame = buffer_split_to(&mut self.buffer, 4 + payload_len);
        let payload = slice_to_vec(slice_subrange(buffer_bytes(&frame), 4, 4 + payload_len));
        assert(payload@ =~= frame_payload(old(self)@.buffer));
        let copy = slice_to_vec(payload.as_slice());
        self.packet = Some(payload);
        Ok(Some(copy))
    }

    /// Holds the sequence number of a frame that arrived against the one
    /// that is expected.
    fn check_sequence_id(&self, received_sequence_id: u8) -> (r: Result<(), Error>)
        ensures
            match r {
                Ok(()) => received_sequence_id == self@.sequence_id,
                Err(e) => received_sequence_id != self@.sequence_id && e.kind()
                    == ErrorKind::ProtocolError,
            },
    {
        if self.sequence_id != received_sequence_id {
            Err(Error::new(ErrorKind::ProtocolError, "messages out of sequence"))
        } else {
            Ok(())
        }
    }

    /// The sequence number for the next frame to send; the one after it
    /// comes next.
    fn next_sequence_id(&mut self) -> (id: u8)
        ensures
            id == old(self)@.write_sequence_id,
            final(self)@ == (TransportView {
                write_sequence_id: next_sequence_id(old(self)@.write_sequence_id),
                ..old(self)@
            }),
    {
        let next = self.write_sequence_id;
        self.write_sequence_id = self.write_sequence_id.wrapping_add(1);
        next
    }

    /// Consumes the frame that was taken last, without reading it.
    pub fn next_packet(&mut self)
        ensures
            final(self)@ == old(self)@.consume(),
    {
        if self.packet.is_some() {
            self.packet = None;
            self.sequence_id = self.sequence_id.wrapping_add(1);
        }
    }

    /// One turn of waiting for the next frame. `received` is what the last
    /// read from the stream gave: nothing before the first read, no bytes
    /// once the stream is closed.
    ///
    /// The payload of the frame is returned as soon as it is whole. `None`
    /// says that the stream was closed with nothing left over. An error of
    /// kind `DataIncomplete` asks for another read and another turn.
    pub fn fill_packet_buffer(&mut self, received: Option<&[u8]>) -> (r: Result<
        Option<Vec<u8>>,
        Error,
    >)
        requires
            received matches Some(chunk) ==> old(self)@.buffer.len() + chunk@.len() <= isize::MAX,
        ensures
            (final(self)@, optional_outcome(r)) == old(self)@.fill(received_view(received)),
    {
        let closed = match received {
            Some(chunk) => {
                buffer_extend_from_slice(&mut self.buffer, chunk);
                chunk.len() == 0
            },
            None => false,
        };
        match self.get_next_packet()? {
            Some(payload) => Ok(Some(payload)),
            None => if !closed {
                Err(Error::new(ErrorKind::DataIncomplete, "more bytes are needed"))
            } else if buffer_bytes(&self.buffer).len() == 0 {
                Ok(None)
            } else {
                Err(Error::new(ErrorKind::ConnectionReset, "connection reset by peer"))
            },
        }
    }

    /// One turn of waiting for the next frame, which is not consumed:
    /// until it is, every turn returns the same payload.
    pub fn peek_packet(&mut self, received: Option<&[u8]>) -> (r: Result<Option<Vec<u8>>, Error>)
        requires
            received matches Some(chunk) ==> old(self)@.buffer.len() + chunk@.len() <= isize::MAX,
        ensures
            (final(self)@, optional_outcome(r)) == old(self)@.fill(received_view(received)),
    {
        self.fill_packet_buffer(received)
    }

    /// One turn of reading the next message: waits for its frame, parses
    /// the payload and consumes the frame.
    pub fn read_packet<P: Packet>(
        &mut self,
        received: Option<&[u8]>,
        capabilities: CapabilityFlags,
    ) -> (r: Result<Option<P>, Error>)
        requires
            received matches Some(chunk) ==> old(self)@.buffer.len() + chunk@.len() <= isize::MAX,
        ensures
            (final(self)@, optional_outcome(r)) == old(self)@.read::<P>(
                received_view(received),
                capabilities@,
            ),
    {
        match self.fill_packet_buffer(received)? {
            Some(payload) => {
                let message = P::read(payload.as_slice(), capabilities)?;
                self.next_packet();
                Ok(Some(message))
            },
            None => Ok(None),
        }
    }

    /// Makes the frame that carries `packet`. The frame has to be written
    /// to the stream whole before the next one is made.
    pub fn write_packet<P: Packet>(&mut self, packet: P, capabilities: CapabilityFlags) -> (r:
        Result<Vec<u8>, Error>)
        ensures
            (final(self)@, outcome(r)) == old(self)@.write::<P>(packet@, capabilities@),
    {
        let mut output: Vec<u8> = match packet.size_hint() {
            Some(hint) => Vec::with_capacity(hint),
            None => Vec::new(),
        };
        packet.write(&mut output, capabilities)?;
        if output.len() >= PAYLOAD_LEN_LIMIT {
            return Err(Error::new(ErrorKind::InvalidPacket, "payload is too long for a frame"));
        }
        let mut frame: Vec<u8> = Vec::new();
        proof {
            lemma_pow256_values();
        }
        write_fixed_uint(&mut frame, output.len() as u64, 3);
        let sequence_id = self.next_sequence_id();
        frame.push(sequence_id);
        write_bytes(&mut frame, output.as_slice());
        assert(frame@ =~= frame_bytes(sequence_id, output@));
        Ok(frame)
    }
}

} // verus!

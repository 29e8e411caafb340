//! The packet model: how a message is parsed from the payload of a frame
//! and written back into one, under the capabilities in force.

use vstd::prelude::*;
use vstd::slice::{slice_subrange, slice_to_vec};

use crate::error::{outcome, Error, ErrorKind};
use crate::flags::CapabilityFlags;
use crate::packet::utils::{
    le_bytes, le_read_uint, le_value, lemma_le_bytes_len, lemma_le_value_bound,
    lemma_le_value_of_bytes, lemma_pow256_values, write_bytes, PacketReader, ReadMySqlExt,
};

pub mod generic;
pub mod handshake;
pub mod utils;

pub use handshake::{Handshake, HandshakeResponse};

verus! {

/// A payload has fewer bytes than this: its length is sent in three bytes.
pub const PAYLOAD_LEN_LIMIT: usize = 0x100_0000;

/// The length that the header at the front of `buffer` announces for its
/// payload.
pub open spec fn frame_length(buffer: Seq<u8>) -> nat {
    le_value(buffer.subrange(0, 3))
}

/// Whether `buffer` starts with a whole frame: a header of four bytes and
/// as many bytes of payload as the header announces.
pub open spec fn has_frame(buffer: Seq<u8>) -> bool {
    buffer.len() >= 4 && buffer.len() >= 4 + frame_length(buffer)
}

/// The sequence number in the header at the front of `buffer`.
pub open spec fn frame_sequence_id(buffer: Seq<u8>) -> u8 {
    buffer[3]
}

/// The payload of the frame at the front of `buffer`.
pub open spec fn frame_payload(buffer: Seq<u8>) -> Seq<u8> {
    buffer.subrange(4, (4 + frame_length(buffer)) as int)
}

/// The frame that carries `payload` under `sequence_id`: the length of the
/// payload in three bytes, least significant first, the sequence number,
/// and the payload.
pub open spec fn frame_bytes(sequence_id: u8, payload: Seq<u8>) -> Seq<u8> {
    le_bytes(payload.len(), 3) + seq![sequence_id] + payload
}

/// A frame is read back from its bytes, whatever follows them.
pub proof fn lemma_frame_round_trip(sequence_id: u8, payload: Seq<u8>, rest: Seq<u8>)
    requires
        payload.len() < PAYLOAD_LEN_LIMIT,
    ensures
        frame_bytes(sequence_id, payload).len() == 4 + payload.len(),
        has_frame(frame_bytes(sequence_id, payload) + rest),
        frame_length(frame_bytes(sequence_id, payload) + rest) == payload.len(),
        frame_sequence_id(frame_bytes(sequence_id, payload) + rest) == sequence_id,
        frame_payload(frame_bytes(sequence_id, payload) + rest) == payload,
        (frame_bytes(sequence_id, payload) + rest).skip((4 + payload.len()) as int) == rest,
{
    let frame = frame_bytes(sequence_id, payload);
    let buffer = frame + rest;
    lemma_le_bytes_len(payload.len(), 3);
    lemma_pow256_values();
    lemma_le_value_of_bytes(payload.len(), 3);
    assert(buffer.subrange(0, 3) =~= le_bytes(payload.len(), 3));
    assert(buffer[3] == sequence_id);
    assert(buffer.subrange(4, (4 + payload.len()) as int) =~= payload);
    assert(buffer.skip((4 + payload.len()) as int) =~= rest);
}

/// The length of the payload and the sequence number of the frame at the
/// front of `buffer`, if the frame is there whole.
pub fn frame_header(buffer: &[u8]) -> (header: Option<(usize, u8)>)
    ensures
        match header {
            Some((length, sequence_id)) => has_frame(buffer@) && length == frame_length(buffer@)
                && sequence_id == frame_sequence_id(buffer@) && length < PAYLOAD_LEN_LIMIT,
            None => !has_frame(buffer@),
        },
{
    if buffer.len() < 4 {
        return None;
    }
    let length = le_read_uint(buffer, 3) as usize;
    proof {
        lemma_le_value_bound(buffer@.subrange(0, 3));
        lemma_pow256_values();
    }
    if buffer.len() - 4 < length {
        return None;
    }
    Some((length, buffer[3]))
}

/// A message of the protocol. Which fields a payload holds depends on the
/// capabilities that client and server agreed on, so these are handed to
/// every parse and every write.
pub trait Packet: Sized + View {
    /// What `payload` parses to under `capabilities`.
    spec fn parse(payload: Seq<u8>, capabilities: u32) -> Result<Self::V, ErrorKind>;

    /// The payload that `message` is written as under `capabilities`.
    spec fn serialize(message: Self::V, capabilities: u32) -> Result<Seq<u8>, ErrorKind>;

    /// No parse asks for more bytes: a payload is whole.
    proof fn lemma_parse_is_decided(payload: Seq<u8>, capabilities: u32)
        ensures
            Self::parse(payload, capabilities) != Err::<Self::V, ErrorKind>(
                ErrorKind::DataIncomplete,
            ),
    ;

    /// Parses a message from the whole of `payload`.
    fn read(payload: &[u8], capabilities: CapabilityFlags) -> (r: Result<Self, Error>)
        ensures
            outcome(r) == Self::parse(payload@, capabilities@),
    ;

    /// Appends the payload of the message to `buf`, or fails and leaves
    /// `buf` as it was.
    fn write(&self, buf: &mut Vec<u8>, capabilities: CapabilityFlags) -> (r: Result<(), Error>)
        ensures
            match r {
                Ok(()) => Self::serialize(self@, capabilities@) matches Ok(bytes) && final(buf)@
                    == old(buf)@ + bytes,
                Err(e) => Self::serialize(self@, capabilities@) == Err::<Seq<u8>, ErrorKind>(
                    e.kind(),
                ) && final(buf)@ == old(buf)@,
            },
    ;

    /// The length of the payload, where it is known before writing.
    fn size_hint(&self) -> (hint: Option<usize>)
        ensures
            hint matches Some(n) ==> forall|capabilities: u32|
                (#[trigger] Self::serialize(self@, capabilities)) is Ok ==> Self::serialize(
                    self@,
                    capabilities,
                )->Ok_0.len() == n,
    ;
}

/// The untyped message: the payload itself, copied as it stands.
impl Packet for Vec<u8> {
    open spec fn parse(payload: Seq<u8>, capabilities: u32) -> Result<Seq<u8>, ErrorKind> {
        Ok(payload)
    }

    open spec fn serialize(message: Seq<u8>, capabilities: u32) -> Result<Seq<u8>, ErrorKind> {
        Ok(message)
    }

    proof fn lemma_parse_is_decided(payload: Seq<u8>, capabilities: u32) {
    }

    fn read(payload: &[u8], capabilities: CapabilityFlags) -> (r: Result<Vec<u8>, Error>) {
        Ok(slice_to_vec(payload))
    }

    fn write(&self, buf: &mut Vec<u8>, capabilities: CapabilityFlags) -> (r: Result<(), Error>) {
        write_bytes(buf, self.as_slice());
        Ok(())
    }

    fn size_hint(&self) -> (hint: Option<usize>)
        ensures
            hint == Some(self@.len() as usize),
    {
        Some(self.len())
    }
}

/// What the frame at the front of `buffer` parses to: the message, the
/// sequence number of the frame, and the number of bytes that the frame
/// takes. Without a whole frame more bytes are needed.
pub open spec fn try_parse<P: Packet>(buffer: Seq<u8>, capabilities: u32) -> Result<
    (P::V, u8, nat),
    ErrorKind,
> {
    if !has_frame(buffer) {
        Err(ErrorKind::DataIncomplete)
    } else {
        match P::parse(frame_payload(buffer), capabilities) {
            Ok(message) => Ok(
                (message, frame_sequence_id(buffer), (4 + frame_length(buffer)) as nat),
            ),
            Err(kind) => Err(kind),
        }
    }
}

/// Reads the message in the frame at the cursor, which may have more frames
/// and a part of one behind it. A message that was read is handed out with
/// the sequence number of its frame as it stands, which is left to the
/// caller to hold against the expected one, and the cursor moves behind the
/// frame. Without a whole frame, and where the payload does not parse, the
/// cursor stays.
pub fn try_read<P: Packet>(buffer: &mut PacketReader, capabilities: CapabilityFlags) -> (r: Result<
    (P, u8),
    Error,
>)
    ensures
        match try_parse::<P>(old(buffer).remaining(), capabilities@) {
            Ok((message, sequence_id, used)) => outcome(r) == Ok::<(P::V, u8), ErrorKind>(
                (message, sequence_id),
            ) && final(buffer).remaining() == old(buffer).remaining().skip(used as int),
            Err(kind) => outcome(r) == Err::<(P::V, u8), ErrorKind>(kind)
                && final(buffer).remaining() == old(buffer).remaining(),
        },
{
    let rest = buffer.rest();
    match frame_header(rest) {
        Some((length, sequence_id)) => {
            let message = P::read(slice_subrange(rest, 4, 4 + length), capabilities)?;
            buffer.advance(4 + length);
            Ok((message, sequence_id))
        },
        None => Err(Error::new(ErrorKind::DataIncomplete, "more bytes are needed")),
    }
}

} // verus!

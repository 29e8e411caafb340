//! What reading from a stream gives, whatever the pieces it arrives in.
//!
//! A stream is taken as the chunks that it will deliver, one for each
//! read, each holding at least one byte; after the last chunk it is
//! closed. Reading a message takes turns of `read` until one of them does
//! not ask for more bytes.

use vstd::prelude::*;

use crate::conn::transport::{next_sequence_id, TransportView};
use crate::error::ErrorKind;
use crate::packet::{
    frame_bytes, frame_length, frame_payload, frame_sequence_id, has_frame, lemma_frame_round_trip,
    Packet, PAYLOAD_LEN_LIMIT,
};

verus! {

/// The bytes of `chunks` in a row.
pub open spec fn joined(chunks: Seq<Seq<u8>>) -> Seq<u8>
    decreases chunks.len(),
{
    if chunks.len() == 0 {
        Seq::empty()
    } else {
        chunks[0] + joined(chunks.drop_first())
    }
}

/// Whether every chunk holds a byte.
pub open spec fn all_nonempty(chunks: Seq<Seq<u8>>) -> bool {
    forall|i: int| 0 <= i < chunks.len() ==> (#[trigger] chunks[i]).len() > 0
}

/// The frames that carry `payloads` one after the other, numbered from
/// `sequence_id` on.
pub open spec fn frames_bytes(sequence_id: u8, payloads: Seq<Seq<u8>>) -> Seq<u8>
    decreases payloads.len(),
{
    if payloads.len() == 0 {
        Seq::empty()
    } else {
        frame_bytes(sequence_id, payloads[0]) + frames_bytes(
            next_sequence_id(sequence_id),
            payloads.drop_first(),
        )
    }
}

/// Reading one message from a stream that will deliver `pending` and then
/// be closed, after `received` arrived: the state after it, the chunks that
/// were not asked for, and the outcome.
pub open spec fn read_from_stream<P: Packet>(
    state: TransportView,
    received: Option<Seq<u8>>,
    pending: Seq<Seq<u8>>,
    capabilities: u32,
) -> (TransportView, Seq<Seq<u8>>, Result<Option<P::V>, ErrorKind>)
    decreases pending.len(),
{
    let (next, outcome) = state.read::<P>(received, capabilities);
    if outcome == Err::<Option<P::V>, ErrorKind>(ErrorKind::DataIncomplete) {
        if pending.len() == 0 {
            let (last, outcome) = next.read::<P>(Some(Seq::empty()), capabilities);
            (last, pending, outcome)
        } else {
            read_from_stream::<P>(next, Some(pending[0]), pending.drop_first(), capabilities)
        }
    } else {
        (next, pending, outcome)
    }
}

/// The state and the rest of the stream after `count` messages were read
/// one after the other.
pub open spec fn after_reads<P: Packet>(
    state: TransportView,
    pending: Seq<Seq<u8>>,
    count: nat,
    capabilities: u32,
) -> (TransportView, Seq<Seq<u8>>)
    decreases count,
{
    if count == 0 {
        (state, pending)
    } else {
        let (before, left) = after_reads::<P>(state, pending, (count - 1) as nat, capabilities);
        let (next, left, _) = read_from_stream::<P>(before, None, left, capabilities);
        (next, left)
    }
}

/// The outcome of the read that follows `index` earlier reads.
pub open spec fn nth_read<P: Packet>(
    state: TransportView,
    pending: Seq<Seq<u8>>,
    index: nat,
    capabilities: u32,
) -> Result<Option<P::V>, ErrorKind> {
    let (before, left) = after_reads::<P>(state, pending, index, capabilities);
    read_from_stream::<P>(before, None, left, capabilities).2
}

/// What a read of `payload` owes: the message that it parses to, or the
/// failure of the parse.
pub open spec fn parsed<P: Packet>(payload: Seq<u8>, capabilities: u32) -> Result<
    Option<P::V>,
    ErrorKind,
> {
    match P::parse(payload, capabilities) {
        Ok(message) => Ok(Some(message)),
        Err(kind) => Err(kind),
    }
}

/// Chunks that all hold a byte are none at all if they hold no byte
/// together.
proof fn lemma_joined_empty(chunks: Seq<Seq<u8>>)
    requires
        all_nonempty(chunks),
        joined(chunks).len() == 0,
    ensures
        chunks.len() == 0,
{
    if chunks.len() > 0 {
        assert(chunks[0].len() > 0);
    }
}

/// A whole frame stays the same frame when bytes are added behind it.
pub proof fn lemma_frame_is_stable(buffer: Seq<u8>, more: Seq<u8>)
    requires
        has_frame(buffer),
    ensures
        has_frame(buffer + more),
        frame_length(buffer + more) == frame_length(buffer),
        frame_sequence_id(buffer + more) == frame_sequence_id(buffer),
        frame_payload(buffer + more) == frame_payload(buffer),
{
    assert((buffer + more).subrange(0, 3) =~= buffer.subrange(0, 3));
    let end = (4 + frame_length(buffer)) as int;
    assert((buffer + more).subrange(4, end) =~= buffer.subrange(4, end));
}

/// Reading from a stream whose bytes, with those in the buffer, start with
/// the frame of `payload` under the expected sequence number: the read
/// gives what `payload` parses to. If that is a message, the frame is
/// consumed, and what follows the frame is left in the buffer and the
/// stream.
pub proof fn lemma_read_frame<P: Packet>(
    state: TransportView,
    received: Option<Seq<u8>>,
    pending: Seq<Seq<u8>>,
    payload: Seq<u8>,
    rest: Seq<u8>,
    capabilities: u32,
)
    requires
        state.packet is None,
        received matches Some(chunk) ==> chunk.len() > 0,
        all_nonempty(pending),
        payload.len() < PAYLOAD_LEN_LIMIT,
        state.receive(received).buffer + joined(pending) == frame_bytes(
            state.sequence_id,
            payload,
        ) + rest,
    ensures
        ({
            let (next, left, outcome) = read_from_stream::<P>(
                state,
                received,
                pending,
                capabilities,
            );
            &&& outcome == parsed::<P>(payload, capabilities)
            &&& all_nonempty(left)
            &&& outcome is Ok ==> next == (TransportView {
                buffer: next.buffer,
                packet: None,
                sequence_id: next_sequence_id(state.sequence_id),
                write_sequence_id: state.write_sequence_id,
            }) && next.buffer + joined(left) == rest
        }),
    decreases pending.len(),
{
    let fed = state.receive(received);
    let whole = frame_bytes(state.sequence_id, payload) + rest;
    let length = payload.len() as int;
    lemma_frame_round_trip(state.sequence_id, payload, rest);
    P::lemma_parse_is_decided(payload, capabilities);
    assert(fed.buffer + joined(pending) == whole);
    if has_frame(fed.buffer) {
        lemma_frame_is_stable(fed.buffer, joined(pending));
        assert(fed.buffer.skip(4 + length) + joined(pending) =~= whole.skip(4 + length));
    } else {
        if pending.len() == 0 {
            assert(fed.buffer =~= whole);
        } else {
            assert(fed.buffer + pending[0] + joined(pending.drop_first()) =~= fed.buffer + joined(
                pending,
            ));
            assert(all_nonempty(pending.drop_first())) by {
                assert forall|i: int| 0 <= i < pending.drop_first().len() implies (
                #[trigger] pending.drop_first()[i]).len() > 0 by {
                    assert(pending.drop_first()[i] == pending[i + 1]);
                }
            }
            assert(pending[0].len() > 0);
            lemma_read_frame::<P>(
                fed,
                Some(pending[0]),
                pending.drop_first(),
                payload,
                rest,
                capabilities,
            );
        }
    }
}

/// A frame is read alike in whatever chunks it arrives, even where a chunk
/// ends inside the header: as it is read when it arrives in one chunk, and
/// both reads give what the payload parses to.
pub proof fn lemma_read_is_independent_of_chunking<P: Packet>(
    state: TransportView,
    chunks: Seq<Seq<u8>>,
    payload: Seq<u8>,
    rest: Seq<u8>,
    capabilities: u32,
)
    requires
        state.buffer.len() == 0,
        state.packet is None,
        all_nonempty(chunks),
        payload.len() < PAYLOAD_LEN_LIMIT,
        joined(chunks) == frame_bytes(state.sequence_id, payload) + rest,
    ensures
        read_from_stream::<P>(state, None, chunks, capabilities).2 == read_from_stream::<P>(
            state,
            None,
            seq![joined(chunks)],
            capabilities,
        ).2,
        read_from_stream::<P>(state, None, chunks, capabilities).2 == parsed::<P>(
            payload,
            capabilities,
        ),
{
    let whole = joined(chunks);
    let single = seq![whole];
    lemma_frame_round_trip(state.sequence_id, payload, rest);
    assert(state.buffer + whole =~= whole);
    assert(single.drop_first() =~= Seq::<Seq<u8>>::empty());
    assert(joined(single) =~= whole) by {
        assert(joined(single.drop_first()) =~= Seq::<u8>::empty());
    }
    lemma_read_frame::<P>(state, None, chunks, payload, rest, capabilities);
    lemma_read_frame::<P>(state, None, single, payload, rest, capabilities);
}

/// On a stream that is closed while the buffer and the stream together
/// hold some bytes but no whole frame, a read fails with `ConnectionReset`.
pub proof fn lemma_read_partial_frame<P: Packet>(
    state: TransportView,
    received: Option<Seq<u8>>,
    pending: Seq<Seq<u8>>,
    capabilities: u32,
)
    requires
        state.packet is None,
        received matches Some(chunk) ==> chunk.len() > 0,
        all_nonempty(pending),
        (state.receive(received).buffer + joined(pending)).len() > 0,
        !has_frame(state.receive(received).buffer + joined(pending)),
    ensures
        read_from_stream::<P>(state, received, pending, capabilities).2 == Err::<
            Option<P::V>,
            ErrorKind,
        >(ErrorKind::ConnectionReset),
    decreases pending.len(),
{
    let fed = state.receive(received);
    if has_frame(fed.buffer) {
        lemma_frame_is_stable(fed.buffer, joined(pending));
    }
    if pending.len() == 0 {
        assert(fed.buffer + joined(pending) =~= fed.buffer);
        assert(fed.buffer + Seq::<u8>::empty() =~= fed.buffer);
    } else {
        assert(fed.buffer + pending[0] + joined(pending.drop_first()) =~= fed.buffer + joined(
            pending,
        ));
        assert(all_nonempty(pending.drop_first())) by {
            assert forall|i: int| 0 <= i < pending.drop_first().len() implies (
            #[trigger] pending.drop_first()[i]).len() > 0 by {
                assert(pending.drop_first()[i] == pending[i + 1]);
            }
        }
        assert(pending[0].len() > 0);
        lemma_read_partial_frame::<P>(
            fed,
            Some(pending[0]),
            pending.drop_first(),
            capabilities,
        );
    }
}

/// On a stream that is closed with nothing in the buffer and nothing more
/// to deliver, a read says so: it gives no message and no failure.
pub proof fn lemma_read_after_clean_close<P: Packet>(state: TransportView, capabilities: u32)
    requires
        state.packet is None,
        state.buffer.len() == 0,
    ensures
        read_from_stream::<P>(state, None, Seq::empty(), capabilities).2 == Ok::<
            Option<P::V>,
            ErrorKind,
        >(None),
{
    assert(state.buffer + Seq::<u8>::empty() =~= state.buffer);
}

/// A frame that was taken is handed out again, turn after turn, until it is
/// consumed.
pub proof fn lemma_peek_is_repeatable(state: TransportView)
    requires
        state.peek().1 matches Ok(Some(_)),
    ensures
        state.peek().0.peek() == (state.peek().0, state.peek().1),
        state.peek().0.fill(None) == (state.peek().0, state.peek().1),
{
}

/// A frame that carries another sequence number than the expected one
/// breaks the protocol, and stays in the buffer.
pub proof fn lemma_read_out_of_sequence<P: Packet>(
    state: TransportView,
    received: Option<Seq<u8>>,
    capabilities: u32,
)
    requires
        state.packet is None,
        has_frame(state.receive(received).buffer),
        frame_sequence_id(state.receive(received).buffer) != state.sequence_id,
    ensures
        state.read::<P>(received, capabilities) == (
            state.receive(received),
            Err::<Option<P::V>, ErrorKind>(ErrorKind::ProtocolError),
        ),
{
}

/// Whether every payload fits in a frame and parses to a message.
pub open spec fn all_readable<P: Packet>(payloads: Seq<Seq<u8>>, capabilities: u32) -> bool {
    forall|i: int|
        0 <= i < payloads.len() ==> (#[trigger] payloads[i]).len() < PAYLOAD_LEN_LIMIT && P::parse(
            payloads[i],
            capabilities,
        ) is Ok
}

/// On a stream whose bytes, with those in the buffer, are the frames of
/// `payloads` in sequence and then `tail`: the first reads give the
/// messages of the payloads in their order, and after `done` of them the
/// other frames and `tail` are what is left.
pub proof fn lemma_reads_in_order<P: Packet>(
    state: TransportView,
    chunks: Seq<Seq<u8>>,
    payloads: Seq<Seq<u8>>,
    tail: Seq<u8>,
    done: nat,
    capabilities: u32,
)
    requires
        state.packet is None,
        all_nonempty(chunks),
        all_readable::<P>(payloads, capabilities),
        state.buffer + joined(chunks) == frames_bytes(state.sequence_id, payloads) + tail,
        done <= payloads.len(),
    ensures
        ({
            let (after, left) = after_reads::<P>(state, chunks, done, capabilities);
            &&& after.packet is None
            &&& all_nonempty(left)
            &&& after.buffer + joined(left) == frames_bytes(
                after.sequence_id,
                payloads.skip(done as int),
            ) + tail
        }),
        forall|i: nat|
            i < done ==> #[trigger] nth_read::<P>(state, chunks, i, capabilities) == parsed::<P>(
                payloads[i as int],
                capabilities,
            ),
    decreases done,
{
    if done == 0 {
        assert(payloads.skip(0) =~= payloads);
    } else {
        let earlier = (done - 1) as nat;
        lemma_reads_in_order::<P>(state, chunks, payloads, tail, earlier, capabilities);
        let (before, left) = after_reads::<P>(state, chunks, earlier, capabilities);
        let payload = payloads[earlier as int];
        let others = payloads.skip(done as int);
        let rest = frames_bytes(next_sequence_id(before.sequence_id), others) + tail;
        assert(payloads.skip(earlier as int).drop_first() =~= others);
        assert(payloads.skip(earlier as int)[0] == payload);
        assert(before.buffer + joined(left) =~= frame_bytes(before.sequence_id, payload) + rest);
        lemma_read_frame::<P>(before, None, left, payload, rest, capabilities);
        assert forall|i: nat| i < done implies #[trigger] nth_read::<P>(
            state,
            chunks,
            i,
            capabilities,
        ) == parsed::<P>(payloads[i as int], capabilities) by {
            if i == earlier {
            }
        }
    }
}

/// On a stream that delivers the frames of some payloads and is closed
/// cleanly after them, in whatever chunks: the reads give the messages of
/// the payloads in their order, and the read after the last of them says
/// that the stream is closed.
pub proof fn lemma_reads_then_clean_close<P: Packet>(
    state: TransportView,
    chunks: Seq<Seq<u8>>,
    payloads: Seq<Seq<u8>>,
    capabilities: u32,
)
    requires
        state.packet is None,
        all_nonempty(chunks),
        all_readable::<P>(payloads, capabilities),
        state.buffer + joined(chunks) == frames_bytes(state.sequence_id, payloads),
    ensures
        forall|i: nat|
            i < payloads.len() ==> #[trigger] nth_read::<P>(state, chunks, i, capabilities)
                == parsed::<P>(payloads[i as int], capabilities),
        nth_read::<P>(state, chunks, payloads.len(), capabilities) == Ok::<
            Option<P::V>,
            ErrorKind,
        >(None),
{
    let count = payloads.len();
    let none = Seq::<u8>::empty();
    assert(frames_bytes(state.sequence_id, payloads) + none =~= frames_bytes(
        state.sequence_id,
        payloads,
    ));
    lemma_reads_in_order::<P>(state, chunks, payloads, none, count, capabilities);
    let (after, left) = after_reads::<P>(state, chunks, count, capabilities);
    assert(payloads.skip(count as int) =~= Seq::<Seq<u8>>::empty());
    assert(after.buffer + joined(left) =~= none);
    assert(joined(left).len() == 0);
    lemma_joined_empty(left);
    assert(left =~= Seq::<Seq<u8>>::empty());
    lemma_read_after_clean_close::<P>(after, capabilities);
}

/// On a stream that delivers the frames of some payloads and then a part
/// of a frame before it is closed, in whatever chunks: the reads give the
/// messages of the payloads in their order, and the read after the last of
/// them fails with `ConnectionReset`.
pub proof fn lemma_reads_then_reset<P: Packet>(
    state: TransportView,
    chunks: Seq<Seq<u8>>,
    payloads: Seq<Seq<u8>>,
    tail: Seq<u8>,
    capabilities: u32,
)
    requires
        state.packet is None,
        all_nonempty(chunks),
        all_readable::<P>(payloads, capabilities),
        state.buffer + joined(chunks) == frames_bytes(state.sequence_id, payloads) + tail,
        tail.len() > 0,
        !has_frame(tail),
    ensures
        forall|i: nat|
            i < payloads.len() ==> #[trigger] nth_read::<P>(state, chunks, i, capabilities)
                == parsed::<P>(payloads[i as int], capabilities),
        nth_read::<P>(state, chunks, payloads.len(), capabilities) == Err::<
            Option<P::V>,
            ErrorKind,
        >(ErrorKind::ConnectionReset),
{
    let count = payloads.len();
    lemma_reads_in_order::<P>(state, chunks, payloads, tail, count, capabilities);
    let (after, left) = after_reads::<P>(state, chunks, count, capabilities);
    assert(payloads.skip(count as int) =~= Seq::<Seq<u8>>::empty());
    assert(after.buffer + joined(left) =~= tail);
    lemma_read_partial_frame::<P>(after, None, left, capabilities);
}

} // verus!

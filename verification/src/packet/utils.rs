//! The wire codec: the primitive encodings of the protocol, read from a
//! cursor over a payload and appended to a growing buffer.

use byteorder::{ByteOrder, LittleEndian};
use vstd::prelude::*;
use vstd::slice::{slice_subrange, slice_to_vec};
use vstd::utf8::{decode_utf8, encode_utf8, valid_utf8};

use crate::error::{outcome, Error, ErrorKind};

verus! {

/// 256 to the power `n`: the number of values that `n` bytes can hold.
pub open spec fn pow256(n: nat) -> nat
    decreases n,
{
    if n == 0 {
        1
    } else {
        256 * pow256((n - 1) as nat)
    }
}

/// The unsigned integer that `bytes` hold, least significant byte first.
pub open spec fn le_value(bytes: Seq<u8>) -> nat
    decreases bytes.len(),
{
    if bytes.len() == 0 {
        0
    } else {
        bytes[0] as nat + 256 * le_value(bytes.drop_first())
    }
}

/// The `width` low-order bytes of `value`, least significant byte first.
pub open spec fn le_bytes(value: nat, width: nat) -> Seq<u8>
    decreases width,
{
    if width == 0 {
        Seq::empty()
    } else {
        seq![(value % 256) as u8] + le_bytes(value / 256, (width - 1) as nat)
    }
}

/// The powers of 256 that the protocol's field widths need.
pub proof fn lemma_pow256_values()
    ensures
        pow256(0) == 1,
        pow256(1) == 0x100,
        pow256(2) == 0x1_0000,
        pow256(3) == 0x100_0000,
        pow256(4) == 0x1_0000_0000,
        pow256(8) == 0x1_0000_0000_0000_0000,
{
    reveal_with_fuel(pow256, 9);
}

/// Bytes hold a value below 256 to the power of their number.
pub proof fn lemma_le_value_bound(bytes: Seq<u8>)
    ensures
        le_value(bytes) < pow256(bytes.len()),
    decreases bytes.len(),
{
    if bytes.len() > 0 {
        lemma_le_value_bound(bytes.drop_first());
    }
}

/// `le_bytes` gives `width` bytes.
pub proof fn lemma_le_bytes_len(value: nat, width: nat)
    ensures
        le_bytes(value, width).len() == width,
    decreases width,
{
    if width > 0 {
        lemma_le_bytes_len(value / 256, (width - 1) as nat);
    }
}

/// A value that fits in `width` bytes is read back from its encoding.
pub proof fn lemma_le_value_of_bytes(value: nat, width: nat)
    requires
        value < pow256(width),
    ensures
        le_value(le_bytes(value, width)) == value,
    decreases width,
{
    if width > 0 {
        let rest = le_bytes(value / 256, (width - 1) as nat);
        lemma_le_value_of_bytes(value / 256, (width - 1) as nat);
        lemma_le_bytes_len(value / 256, (width - 1) as nat);
        assert(le_bytes(value, width).drop_first() =~= rest);
        assert(le_bytes(value, width)[0] == (value % 256) as u8);
    }
}

/// Bytes are the encoding of the value that they hold.
pub proof fn lemma_le_bytes_of_value(bytes: Seq<u8>)
    ensures
        le_bytes(le_value(bytes), bytes.len()) == bytes,
    decreases bytes.len(),
{
    if bytes.len() > 0 {
        let rest = bytes.drop_first();
        lemma_le_bytes_of_value(rest);
        let value = le_value(bytes);
        assert(value % 256 == bytes[0] as nat);
        assert(value / 256 == le_value(rest));
        assert(le_bytes(value, bytes.len()) =~= bytes);
    }
}

/// What reading a fixed-width integer of `width` bytes from the front of
/// `input` gives: the value and the number of bytes used, if there are
/// that many bytes.
pub open spec fn parse_fixed_uint(input: Seq<u8>, width: nat) -> Option<(u64, nat)> {
    if width <= input.len() {
        Some((le_value(input.subrange(0, width as int)) as u64, width))
    } else {
        None
    }
}

/// What reading one byte from the front of `input` gives.
pub open spec fn parse_u8(input: Seq<u8>) -> Option<(u8, nat)> {
    if input.len() >= 1 {
        Some((input[0], 1nat))
    } else {
        None
    }
}

/// What reading an integer of two bytes from the front of `input` gives.
pub open spec fn parse_u16(input: Seq<u8>) -> Option<(u16, nat)> {
    match parse_fixed_uint(input, 2) {
        Some((value, used)) => Some((value as u16, used)),
        None => None,
    }
}

/// What reading an integer of four bytes from the front of `input` gives.
pub open spec fn parse_u32(input: Seq<u8>) -> Option<(u32, nat)> {
    match parse_fixed_uint(input, 4) {
        Some((value, used)) => Some((value as u32, used)),
        None => None,
    }
}

/// What reading `count` raw bytes from the front of `input` gives.
pub open spec fn parse_fixed_bytes(input: Seq<u8>, count: nat) -> Option<(Seq<u8>, nat)> {
    if count <= input.len() {
        Some((input.subrange(0, count as int), count))
    } else {
        None
    }
}

/// What reading a length-encoded integer from the front of `input` gives.
///
/// A first byte below `0xFB` is the value itself. `0xFC`, `0xFD` and `0xFE`
/// announce a value of two, three and eight bytes. `0xFB` and `0xFF` start
/// no integer.
pub open spec fn parse_lenenc_int(input: Seq<u8>) -> Option<(u64, nat)> {
    if input.len() == 0 {
        None
    } else if input[0] < 0xFB {
        Some((input[0] as u64, 1))
    } else if input[0] == 0xFC {
        if input.len() >= 3 {
            Some((le_value(input.subrange(1, 3)) as u64, 3))
        } else {
            None
        }
    } else if input[0] == 0xFD {
        if input.len() >= 4 {
            Some((le_value(input.subrange(1, 4)) as u64, 4))
        } else {
            None
        }
    } else if input[0] == 0xFE {
        if input.len() >= 9 {
            Some((le_value(input.subrange(1, 9)) as u64, 9))
        } else {
            None
        }
    } else {
        None
    }
}

/// The encoding of `value` as a length-encoded integer, in the narrowest
/// form that is written: one byte below 128, else a lead byte and two,
/// three or eight bytes.
pub open spec fn lenenc_int_bytes(value: u64) -> Seq<u8> {
    if value < 128 {
        seq![value as u8]
    } else if value < 0x1_0000 {
        seq![0xFCu8] + le_bytes(value as nat, 2)
    } else if value < 0x100_0000 {
        seq![0xFDu8] + le_bytes(value as nat, 3)
    } else {
        seq![0xFEu8] + le_bytes(value as nat, 8)
    }
}

/// What reading a length-encoded byte string from the front of `input`
/// gives: a length-encoded integer, then that many bytes.
pub open spec fn parse_lenenc_bytes(input: Seq<u8>) -> Option<(Seq<u8>, nat)> {
    match parse_lenenc_int(input) {
        Some((len, used)) => if used + len <= input.len() {
            Some((input.subrange(used as int, used + len), (used + len) as nat))
        } else {
            None
        },
        None => None,
    }
}

/// What reading a length-encoded string from the front of `input` gives:
/// a length-encoded byte string that is valid UTF-8.
pub open spec fn parse_lenenc_string(input: Seq<u8>) -> Option<(Seq<char>, nat)> {
    match parse_lenenc_bytes(input) {
        Some((bytes, used)) => if valid_utf8(bytes) {
            Some((decode_utf8(bytes), used))
        } else {
            None
        },
        None => None,
    }
}

/// The index of the first zero byte of `input`, or its length if it has none.
pub open spec fn nul_position(input: Seq<u8>) -> nat
    decreases input.len(),
{
    if input.len() == 0 || input[0] == 0 {
        0
    } else {
        1 + nul_position(input.drop_first())
    }
}

/// What reading a null-terminated string from the front of `input` gives:
/// the text before the first zero byte, which is used up too. Without a
/// zero byte the whole input is the text, if the caller allows that.
pub open spec fn parse_null_terminated(input: Seq<u8>, allow_missing_terminator: bool) -> Option<
    (Seq<char>, nat),
> {
    let end = nul_position(input);
    let text = input.subrange(0, end as int);
    if end < input.len() {
        if valid_utf8(text) {
            Some((decode_utf8(text), end + 1))
        } else {
            None
        }
    } else if allow_missing_terminator && valid_utf8(text) {
        Some((decode_utf8(text), end))
    } else {
        None
    }
}

/// The encoding of a byte string with its length in front.
pub open spec fn lenenc_bytes(bytes: Seq<u8>) -> Seq<u8> {
    lenenc_int_bytes(bytes.len() as u64) + bytes
}

/// The encoding of a text with the length of its UTF-8 bytes in front.
pub open spec fn lenenc_string_bytes(text: Seq<char>) -> Seq<u8> {
    lenenc_bytes(encode_utf8(text))
}

/// The encoding of a text as its UTF-8 bytes and a zero byte.
pub open spec fn null_terminated_bytes(text: Seq<char>) -> Seq<u8> {
    encode_utf8(text) + seq![0u8]
}

/// No byte before `nul_position` is zero, and the byte at it is, if there
/// is one.
pub proof fn lemma_nul_position(input: Seq<u8>)
    ensures
        nul_position(input) <= input.len(),
        forall|i: int| 0 <= i < nul_position(input) ==> input[i] != 0,
        nul_position(input) < input.len() ==> input[nul_position(input) as int] == 0,
    decreases input.len(),
{
    if input.len() > 0 && input[0] != 0 {
        let rest = input.drop_first();
        lemma_nul_position(rest);
        assert forall|i: int| 0 <= i < nul_position(input) implies input[i] != 0 by {
            if i > 0 {
                assert(input[i] == rest[i - 1]);
            }
        }
    }
}

/// An index with no zero byte before it, which either ends the input or
/// holds a zero byte, is `nul_position`.
pub proof fn lemma_nul_position_is(input: Seq<u8>, end: int)
    requires
        0 <= end <= input.len(),
        forall|i: int| 0 <= i < end ==> input[i] != 0,
        end < input.len() ==> input[end] == 0,
    ensures
        nul_position(input) == end,
    decreases input.len(),
{
    if input.len() > 0 && input[0] != 0 {
        let rest = input.drop_first();
        assert forall|i: int| 0 <= i < end - 1 implies rest[i] != 0 by {
            assert(rest[i] == input[i + 1]);
        }
        lemma_nul_position_is(rest, end - 1);
    }
}

/// Every integer is read back from what is written for it, whatever
/// follows, and the written form has 1, 3, 4 or 9 bytes as the value is
/// below 128, 2^16, 2^24 or not.
pub proof fn lemma_lenenc_int_round_trip(value: u64, rest: Seq<u8>)
    ensures
        parse_lenenc_int(lenenc_int_bytes(value) + rest) == Some(
            (value, lenenc_int_bytes(value).len()),
        ),
        value < 128 ==> lenenc_int_bytes(value) == seq![value as u8],
        128 <= value < 0x1_0000 ==> lenenc_int_bytes(value).len() == 3 && lenenc_int_bytes(
            value,
        )[0] == 0xFC,
        0x1_0000 <= value < 0x100_0000 ==> lenenc_int_bytes(value).len() == 4
            && lenenc_int_bytes(value)[0] == 0xFD,
        0x100_0000 <= value ==> lenenc_int_bytes(value).len() == 9 && lenenc_int_bytes(value)[0]
            == 0xFE,
{
    let written = lenenc_int_bytes(value);
    let input = written + rest;
    lemma_pow256_values();
    if value < 128 {
        assert(input[0] == value as u8);
    } else {
        let width: nat = if value < 0x1_0000 {
            2
        } else if value < 0x100_0000 {
            3
        } else {
            8
        };
        let body = le_bytes(value as nat, width);
        lemma_le_bytes_len(value as nat, width);
        lemma_le_value_of_bytes(value as nat, width);
        assert(written.len() == 1 + width);
        assert(input[0] == written[0]);
        assert(input.subrange(1, (1 + width) as int) =~= body);
    }
}

/// `LittleEndian::read_uint` of `byteorder`: the unsigned integer that the
/// first `width` bytes of `buf` hold, least significant byte first. The
/// call panics unless `width` is from 1 to 8 and `buf` has that many bytes.
#[verifier::external_body]
pub(crate) fn le_read_uint(buf: &[u8], width: usize) -> (value: u64)
    requires
        1 <= width <= 8,
        width <= buf@.len(),
    ensures
        value as nat == le_value(buf@.subrange(0, width as int)),
{
    LittleEndian::read_uint(buf, width)
}

/// `LittleEndian::write_uint` of `byteorder`, on a buffer of eight bytes:
/// its first `width` bytes become the `width` low-order bytes of `value`,
/// least significant byte first. The call panics unless `width` is from 1
/// to 8 and `value` fits in that many bytes.
#[verifier::external_body]
fn le_write_uint(value: u64, width: usize) -> (bytes: [u8; 8])
    requires
        1 <= width <= 8,
        (value as nat) < pow256(width as nat),
    ensures
        bytes@.subrange(0, width as int) == le_bytes(value as nat, width as nat),
{
    let mut bytes = [0u8; 8];
    LittleEndian::write_uint(&mut bytes, value, width);
    bytes
}

/// `String::from_utf8` of std: the text that `bytes` encode where they
/// are valid UTF-8, and no text where they are not.
#[verifier::external_body]
pub(crate) fn string_from_utf8(bytes: Vec<u8>) -> (text: Option<String>)
    ensures
        text is Some <==> valid_utf8(bytes@),
        text matches Some(s) ==> s@ == decode_utf8(bytes@),
{
    match String::from_utf8(bytes) {
        Ok(s) => Some(s),
        Err(_) => None,
    }
}

/// How a read relates to its input. Where the input owes a value, the read
/// hands it out and leaves what follows it; where it owes none, the read
/// fails with `InvalidPacket` and leaves the input as it was.
pub open spec fn read_matches<T>(
    before: Seq<u8>,
    expected: Option<(T, nat)>,
    got: Result<T, ErrorKind>,
    after: Seq<u8>,
) -> bool {
    match expected {
        Some((value, used)) => got == Ok::<T, ErrorKind>(value) && after == before.skip(
            used as int,
        ),
        None => got == Err::<T, ErrorKind>(ErrorKind::InvalidPacket) && after == before,
    }
}

/// Reads of raw and length-encoded values. Every failure is of kind
/// `InvalidPacket`.
pub trait ReadMySqlExt {
    /// The bytes that have not been read yet.
    spec fn remaining(&self) -> Seq<u8>;

    /// Reads exactly `count` bytes.
    fn read_bytes(&mut self, count: usize) -> (r: Result<Vec<u8>, Error>)
        ensures
            read_matches(
                old(self).remaining(),
                parse_fixed_bytes(old(self).remaining(), count as nat),
                outcome(r),
                final(self).remaining(),
            ),
    ;

    /// Reads a length-encoded integer and that many bytes.
    fn read_lenenc_bytes(&mut self) -> (r: Result<Vec<u8>, Error>)
        ensures
            read_matches(
                old(self).remaining(),
                parse_lenenc_bytes(old(self).remaining()),
                outcome(r),
                final(self).remaining(),
            ),
    ;

    /// Reads a length-encoded byte string that is valid UTF-8.
    fn read_lenenc_string(&mut self) -> (r: Result<String, Error>)
        ensures
            read_matches(
                old(self).remaining(),
                parse_lenenc_string(old(self).remaining()),
                outcome(r),
                final(self).remaining(),
            ),
    ;

    /// Reads a length-encoded integer.
    fn read_lenenc_int(&mut self) -> (r: Result<u64, Error>)
        ensures
            read_matches(
                old(self).remaining(),
                parse_lenenc_int(old(self).remaining()),
                outcome(r),
                final(self).remaining(),
            ),
    ;
}

/// Reads that look ahead for a terminator.
pub trait BufReadMySqlExt: ReadMySqlExt {
    /// Reads a null-terminated string. Where `allow_missing_terminator` is
    /// set, the end of the input ends the string too.
    fn read_string(&mut self, allow_missing_terminator: bool) -> (r: Result<String, Error>)
        ensures
            read_matches(
                old(self).remaining(),
                parse_null_terminated(old(self).remaining(), allow_missing_terminator),
                outcome(r),
                final(self).remaining(),
            ),
    ;
}

/// A cursor over bytes that were received: the payload of a packet, or a
/// buffer of frames.
pub struct PacketReader<'a> {
    data: &'a [u8],
    pos: usize,
}

impl<'a> PacketReader<'a> {
    /// The cursor stands inside the payload or at its end.
    #[verifier::type_invariant]
    spec fn in_bounds(self) -> bool {
        self.pos <= self.data@.len()
    }

    /// A cursor at the start of `data`.
    pub fn new(data: &'a [u8]) -> (reader: PacketReader<'a>)
        ensures
            reader.remaining() == data@,
    {
        let reader = PacketReader { data, pos: 0 };
        assert(reader.remaining() =~= data@);
        reader
    }

    /// The number of bytes that have not been read yet.
    pub fn remaining_len(&self) -> (n: usize)
        ensures
            n == self.remaining().len(),
    {
        proof {
            use_type_invariant(self);
        }
        self.data.len() - self.pos
    }

    /// Reads an unsigned integer of `width` bytes, least significant byte
    /// first.
    pub fn read_fixed_uint(&mut self, width: usize) -> (r: Result<u64, Error>)
        requires
            1 <= width <= 8,
        ensures
            read_matches(
                old(self).remaining(),
                parse_fixed_uint(old(self).remaining(), width as nat),
                outcome(r),
                final(self).remaining(),
            ),
    {
        proof {
            use_type_invariant(&*self);
        }
        let data = self.data;
        if width > data.len() - self.pos {
            return Err(Error::new(ErrorKind::InvalidPacket, "packet ended inside an integer"));
        }
        let rest = slice_subrange(data, self.pos, data.len());
        let value = le_read_uint(rest, width);
        proof {
            let field = old(self).remaining().subrange(0, width as int);
            assert(rest@.subrange(0, width as int) =~= field);
            lemma_le_value_bound(field);
        }
        self.advance(width);
        Ok(value)
    }

    /// Reads one byte.
    pub fn read_u8(&mut self) -> (r: Result<u8, Error>)
        ensures
            read_matches(
                old(self).remaining(),
                parse_u8(old(self).remaining()),
                outcome(r),
                final(self).remaining(),
            ),
    {
        proof {
            use_type_invariant(&*self);
        }
        let data = self.data;
        if self.pos >= data.len() {
            return Err(Error::new(ErrorKind::InvalidPacket, "packet ended inside an integer"));
        }
        let value = data[self.pos];
        assert(value == self.remaining()[0]);
        self.advance(1);
        Ok(value)
    }

    /// Reads an unsigned integer of two bytes, least significant byte first.
    pub fn read_u16(&mut self) -> (r: Result<u16, Error>)
        ensures
            read_matches(
                old(self).remaining(),
                parse_u16(old(self).remaining()),
                outcome(r),
                final(self).remaining(),
            ),
    {
        let ghost field = self.remaining().subrange(0, 2);
        match self.read_fixed_uint(2) {
            Ok(value) => {
                proof {
                    lemma_le_value_bound(field);
                    lemma_pow256_values();
                }
                Ok(value as u16)
            },
            Err(e) => Err(e),
        }
    }

    /// Reads an unsigned integer of four bytes, least significant byte
    /// first.
    pub fn read_u32(&mut self) -> (r: Result<u32, Error>)
        ensures
            read_matches(
                old(self).remaining(),
                parse_u32(old(self).remaining()),
                outcome(r),
                final(self).remaining(),
            ),
    {
        let ghost field = self.remaining().subrange(0, 4);
        match self.read_fixed_uint(4) {
            Ok(value) => {
                proof {
                    lemma_le_value_bound(field);
                    lemma_pow256_values();
                }
                Ok(value as u32)
            },
            Err(e) => Err(e),
        }
    }

    /// The bytes that have not been read yet, as a slice.
    pub fn rest(&self) -> (bytes: &'a [u8])
        ensures
            bytes@ == self.remaining(),
    {
        proof {
            use_type_invariant(self);
        }
        slice_subrange(self.data, self.pos, self.data.len())
    }

    /// Moves the cursor over `count` bytes.
    pub(crate) fn advance(&mut self, count: usize)
        requires
            count <= old(self).remaining().len(),
        ensures
            final(self).remaining() == old(self).remaining().skip(count as int),
    {
        proof {
            use_type_invariant(&*self);
            assert(self.remaining().len() == self.data@.len() - self.pos);
            assert(self.data.len() == self.data@.len());
        }
        self.pos = self.pos + count;
        assert(self.remaining() =~= old(self).remaining().skip(count as int));
    }

    /// The length-encoded integer at the cursor and the number of bytes it
    /// takes, without moving the cursor.
    fn lenenc_int_ahead(&self) -> (r: Option<(u64, usize)>)
        ensures
            match r {
                Some((value, used)) => parse_lenenc_int(self.remaining()) == Some(
                    (value, used as nat),
                ) && used <= self.remaining().len(),
                None => parse_lenenc_int(self.remaining()) is None,
            },
    {
        proof {
            use_type_invariant(self);
        }
        let data = self.data;
        let available = data.len() - self.pos;
        if available == 0 {
            return None;
        }
        let lead = data[self.pos];
        let ghost input = self.remaining();
        assert(input[0] == lead);
        if lead < 0xFB {
            return Some((lead as u64, 1));
        }
        let width: usize = if lead == 0xFC {
            2
        } else if lead == 0xFD {
            3
        } else if lead == 0xFE {
            8
        } else {
            return None;
        };
        if available - 1 < width {
            return None;
        }
        let rest = slice_subrange(data, self.pos + 1, data.len());
        let value = le_read_uint(rest, width);
        proof {
            let field = input.subrange(1, 1 + width);
            assert(rest@.subrange(0, width as int) =~= field);
            lemma_le_value_bound(field);
            lemma_pow256_values();
        }
        Some((value, 1 + width))
    }

    /// The length-encoded byte string at the cursor and the number of bytes
    /// it takes with its length, without moving the cursor.
    fn lenenc_bytes_ahead(&self) -> (r: Option<(Vec<u8>, usize)>)
        ensures
            match r {
                Some((bytes, used)) => parse_lenenc_bytes(self.remaining()) == Some(
                    (bytes@, used as nat),
                ) && used <= self.remaining().len(),
                None => parse_lenenc_bytes(self.remaining()) is None,
            },
    {
        proof {
            use_type_invariant(self);
        }
        let data = self.data;
        match self.lenenc_int_ahead() {
            Some((len, used)) => {
                let left = data.len() - self.pos - used;
                if len > left as u64 {
                    return None;
                }
                let from = self.pos + used;
                let to = from + len as usize;
                let bytes = slice_to_vec(slice_subrange(data, from, to));
                assert(bytes@ =~= self.remaining().subrange(used as int, used + len));
                Some((bytes, to - self.pos))
            },
            None => None,
        }
    }

    /// Reads everything that is left.
    pub fn read_to_end(&mut self) -> (bytes: Vec<u8>)
        ensures
            bytes@ == old(self).remaining(),
            final(self).remaining().len() == 0,
    {
        proof {
            use_type_invariant(&*self);
        }
        let data = self.data;
        let bytes = slice_to_vec(slice_subrange(data, self.pos, data.len()));
        self.pos = data.len();
        bytes
    }
}

impl<'a> ReadMySqlExt for PacketReader<'a> {
    closed spec fn remaining(&self) -> Seq<u8> {
        self.data@.subrange(self.pos as int, self.data@.len() as int)
    }

    fn read_bytes(&mut self, count: usize) -> (r: Result<Vec<u8>, Error>) {
        proof {
            use_type_invariant(&*self);
        }
        let data = self.data;
        if count > data.len() - self.pos {
            return Err(Error::new(ErrorKind::InvalidPacket, "packet ended prematurely"));
        }
        let bytes = slice_to_vec(slice_subrange(data, self.pos, self.pos + count));
        assert(bytes@ =~= self.remaining().subrange(0, count as int));
        self.advance(count);
        Ok(bytes)
    }

    fn read_lenenc_bytes(&mut self) -> (r: Result<Vec<u8>, Error>) {
        match self.lenenc_bytes_ahead() {
            Some((bytes, used)) => {
                self.advance(used);
                Ok(bytes)
            },
            None => Err(Error::new(ErrorKind::InvalidPacket, "packet ended prematurely")),
        }
    }

    fn read_lenenc_string(&mut self) -> (r: Result<String, Error>) {
        match self.lenenc_bytes_ahead() {
            Some((bytes, used)) => match string_from_utf8(bytes) {
                Some(text) => {
                    self.advance(used);
                    Ok(text)
                },
                None => Err(Error::new(ErrorKind::InvalidPacket, "string is not valid utf-8")),
            },
            None => Err(Error::new(ErrorKind::InvalidPacket, "packet ended prematurely")),
        }
    }

    fn read_lenenc_int(&mut self) -> (r: Result<u64, Error>) {
        match self.lenenc_int_ahead() {
            Some((value, used)) => {
                self.advance(used);
                Ok(value)
            },
            None => Err(Error::new(ErrorKind::InvalidPacket, "invalid length-encoded integer")),
        }
    }
}

impl<'a> BufReadMySqlExt for PacketReader<'a> {
    fn read_string(&mut self, allow_missing_terminator: bool) -> (r: Result<String, Error>) {
        proof {
            use_type_invariant(&*self);
        }
        let data = self.data;
        let start = self.pos;
        let len = data.len();
        let ghost input = self.remaining();
        let mut end = start;
        while end < len && data[end] != 0
            invariant
                start <= end <= len,
                len == data@.len(),
                forall|i: int| start <= i < end ==> data@[i] != 0,
            decreases len - end,
        {
            end = end + 1;
        }
        proof {
            lemma_nul_position_is(input, end - start);
        }
        let terminated = end < len;
        if !terminated && !allow_missing_terminator {
            return Err(Error::new(ErrorKind::InvalidPacket, "string is missing null-terminator"));
        }
        let bytes = slice_to_vec(slice_subrange(data, start, end));
        assert(bytes@ =~= input.subrange(0, end - start));
        match string_from_utf8(bytes) {
            Some(text) => {
                if terminated {
                    self.advance(end - start + 1);
                } else {
                    self.advance(end - start);
                }
                Ok(text)
            },
            None => Err(Error::new(ErrorKind::InvalidPacket, "string is not valid utf-8")),
        }
    }
}

/// Appends `bytes` to `buf`.
pub fn write_bytes(buf: &mut Vec<u8>, bytes: &[u8])
    ensures
        final(buf)@ == old(buf)@ + bytes@,
{
    buf.extend_from_slice(bytes);
    assert(buf@ =~= old(buf)@ + bytes@);
}

/// Appends the `width` low-order bytes of `value`, least significant byte
/// first.
pub fn write_fixed_uint(buf: &mut Vec<u8>, value: u64, width: usize)
    requires
        1 <= width <= 8,
        (value as nat) < pow256(width as nat),
    ensures
        final(buf)@ == old(buf)@ + le_bytes(value as nat, width as nat),
{
    let bytes = le_write_uint(value, width);
    let mut i: usize = 0;
    proof {
        lemma_le_bytes_len(value as nat, width as nat);
    }
    while i < width
        invariant
            i <= width <= 8,
            bytes@.len() == 8,
            buf@ == old(buf)@ + bytes@.subrange(0, i as int),
        decreases width - i,
    {
        buf.push(bytes[i]);
        assert(bytes@.subrange(0, i + 1) =~= bytes@.subrange(0, i as int).push(bytes@[i as int]));
        i = i + 1;
    }
}

/// Writes of null-terminated and length-encoded values at the end of what
/// has been written.
pub trait WriteMySqlExt {
    /// The bytes written so far.
    spec fn written(&self) -> Seq<u8>;

    /// Writes the UTF-8 bytes of `text` and a zero byte.
    fn write_string(&mut self, text: &str) -> (r: Result<(), Error>)
        ensures
            r is Ok,
            final(self).written() == old(self).written() + null_terminated_bytes(text@),
    ;

    /// Writes the length of `bytes` as a length-encoded integer, then
    /// `bytes`, and returns the number of bytes written.
    fn write_lenenc_bytes(&mut self, bytes: &[u8]) -> (r: Result<usize, Error>)
        ensures
            r matches Ok(n) && n == lenenc_bytes(bytes@).len(),
            final(self).written() == old(self).written() + lenenc_bytes(bytes@),
    ;

    /// Writes the UTF-8 bytes of `text` with their length in front, and
    /// returns the number of bytes written.
    fn write_lenenc_string(&mut self, text: &str) -> (r: Result<usize, Error>)
        ensures
            r matches Ok(n) && n == lenenc_string_bytes(text@).len(),
            final(self).written() == old(self).written() + lenenc_string_bytes(text@),
    ;

    /// Writes `val` as a length-encoded integer in its narrowest written
    /// form, and returns the number of bytes written: 1, 3, 4 or 9.
    fn write_lenenc_int(&mut self, val: u64) -> (r: Result<usize, Error>)
        ensures
            r matches Ok(n) && n == lenenc_int_bytes(val).len(),
            final(self).written() == old(self).written() + lenenc_int_bytes(val),
    ;
}

impl WriteMySqlExt for Vec<u8> {
    open spec fn written(&self) -> Seq<u8> {
        self@
    }

    fn write_string(&mut self, text: &str) -> (r: Result<(), Error>) {
        write_bytes(self, text.as_bytes());
        self.push(0);
        assert(self@ =~= old(self)@ + null_terminated_bytes(text@));
        Ok(())
    }

    fn write_lenenc_bytes(&mut self, bytes: &[u8]) -> (r: Result<usize, Error>) {
        let before = self.len();
        let _ = self.write_lenenc_int(bytes.len() as u64);
        write_bytes(self, bytes);
        assert(self@ =~= old(self)@ + lenenc_bytes(bytes@));
        Ok(self.len() - before)
    }

    fn write_lenenc_string(&mut self, text: &str) -> (r: Result<usize, Error>) {
        self.write_lenenc_bytes(text.as_bytes())
    }

    fn write_lenenc_int(&mut self, val: u64) -> (r: Result<usize, Error>) {
        proof {
            lemma_pow256_values();
        }
        if val < 128 {
            self.push(val as u8);
            assert(self@ =~= old(self)@ + lenenc_int_bytes(val));
            Ok(1)
        } else if val < 0x1_0000 {
            self.push(0xFC);
            write_fixed_uint(self, val, 2);
            proof {
                lemma_le_bytes_len(val as nat, 2);
            }
            assert(self@ =~= old(self)@ + lenenc_int_bytes(val));
            Ok(3)
        } else if val < 0x100_0000 {
            self.push(0xFD);
            write_fixed_uint(self, val, 3);
            proof {
                lemma_le_bytes_len(val as nat, 3);
            }
            assert(self@ =~= old(self)@ + lenenc_int_bytes(val));
            Ok(4)
        } else {
            self.push(0xFE);
            write_fixed_uint(self, val, 8);
            proof {
                lemma_le_bytes_len(val as nat, 8);
            }
            assert(self@ =~= old(self)@ + lenenc_int_bytes(val));
            Ok(9)
        }
    }
}

} // verus!

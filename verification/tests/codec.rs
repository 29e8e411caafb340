use mysql_protocol::error::ErrorKind;
use mysql_protocol::packet::utils::{
    write_bytes, write_fixed_uint, BufReadMySqlExt, PacketReader, ReadMySqlExt, WriteMySqlExt,
};

fn rw_test(val: u64, bytes: &'static [u8]) {
    let mut write: Vec<u8> = Vec::new();
    write.write_lenenc_int(val).unwrap();
    assert_eq!(bytes, write.as_slice());

    let mut reader = PacketReader::new(bytes);
    let read = reader.read_lenenc_int().unwrap();
    assert_eq!(read, val);
}

#[test]
pub fn can_read_and_write_lenenc_ints() {
    rw_test(0x7F, &[0x7F]);
    rw_test(0xBEEF, &[0xFC, 0xEF, 0xBE]);
    rw_test(0xBEEFCA, &[0xFD, 0xCA, 0xEF, 0xBE]);
    rw_test(0xBEEFCAFE, &[0xFE, 0xFE, 0xCA, 0xEF, 0xBE, 0, 0, 0, 0]);
    rw_test(0xBEEFCAFEBEEFCAFE, &[0xFE, 0xFE, 0xCA, 0xEF, 0xBE, 0xFE, 0xCA, 0xEF, 0xBE]);
}

fn written_lenenc_int(val: u64) -> (usize, Vec<u8>) {
    let mut out: Vec<u8> = Vec::new();
    let n = out.write_lenenc_int(val).unwrap();
    (n, out)
}

#[test]
fn lenenc_int_is_written_in_its_narrowest_form() {
    assert_eq!((1, vec![0x00]), written_lenenc_int(0));
    assert_eq!((1, vec![0x7F]), written_lenenc_int(127));
    assert_eq!((3, vec![0xFC, 0x80, 0x00]), written_lenenc_int(128));
    assert_eq!((3, vec![0xFC, 0xFA, 0x00]), written_lenenc_int(250));
    assert_eq!((3, vec![0xFC, 0xFF, 0xFF]), written_lenenc_int(0xFFFF));
    assert_eq!((4, vec![0xFD, 0x00, 0x00, 0x01]), written_lenenc_int(0x1_0000));
    assert_eq!((4, vec![0xFD, 0xFF, 0xFF, 0xFF]), written_lenenc_int(0xFF_FFFF));
    assert_eq!((9, vec![0xFE, 0, 0, 0, 1, 0, 0, 0, 0]), written_lenenc_int(0x100_0000));
    assert_eq!(
        (9, vec![0xFE, 0xFF, 0xFF, 0xFF, 0xFF, 0xFF, 0xFF, 0xFF, 0xFF]),
        written_lenenc_int(u64::MAX)
    );
}

#[test]
fn lenenc_int_round_trips() {
    let values = [
        0u64,
        1,
        127,
        128,
        250,
        251,
        255,
        256,
        0xFFFF,
        0x1_0000,
        0xFF_FFFF,
        0x100_0000,
        0xFFFF_FFFF,
        0x1_0000_0000,
        u64::MAX - 1,
        u64::MAX,
    ];
    for value in values {
        let (n, mut bytes) = written_lenenc_int(value);
        assert_eq!(n, bytes.len());
        bytes.extend_from_slice(&[0xAA, 0xBB]);
        let mut reader = PacketReader::new(&bytes);
        assert_eq!(value, reader.read_lenenc_int().unwrap());
        assert_eq!(2, reader.remaining_len());
    }
}

#[test]
fn lenenc_int_of_one_byte_is_read_up_to_0xfa() {
    let mut reader = PacketReader::new(&[0xFA, 0x01]);
    assert_eq!(0xFA, reader.read_lenenc_int().unwrap());
    assert_eq!(1, reader.remaining_len());
}

#[test]
fn lenenc_int_rejects_invalid_lead_bytes() {
    for lead in [0xFBu8, 0xFF] {
        let bytes = [lead, 1, 2, 3, 4, 5, 6, 7, 8];
        let mut reader = PacketReader::new(&bytes);
        let e = reader.read_lenenc_int().unwrap_err();
        assert_eq!(ErrorKind::InvalidPacket, e.kind());
        assert_eq!(9, reader.remaining_len());
    }
}

#[test]
fn lenenc_int_rejects_short_input() {
    let inputs: [&[u8]; 5] =
        [&[], &[0xFC, 1], &[0xFD, 1, 2], &[0xFE, 1, 2, 3, 4, 5, 6, 7], &[0xFC]];
    for input in inputs {
        let mut reader = PacketReader::new(input);
        let e = reader.read_lenenc_int().unwrap_err();
        assert_eq!(ErrorKind::InvalidPacket, e.kind());
        assert_eq!(input.len(), reader.remaining_len());
    }
}

#[test]
fn fixed_uints_are_little_endian() {
    let bytes = [0x01u8, 0x02, 0x03, 0x04, 0x05, 0x06, 0x07, 0x08, 0x09];
    assert_eq!(0x01, PacketReader::new(&bytes).read_fixed_uint(1).unwrap());
    assert_eq!(0x0201, PacketReader::new(&bytes).read_fixed_uint(2).unwrap());
    assert_eq!(0x03_0201, PacketReader::new(&bytes).read_fixed_uint(3).unwrap());
    assert_eq!(0x0403_0201, PacketReader::new(&bytes).read_fixed_uint(4).unwrap());
    assert_eq!(0x0807_0605_0403_0201, PacketReader::new(&bytes).read_fixed_uint(8).unwrap());
    assert_eq!(0x01, PacketReader::new(&bytes).read_u8().unwrap());
    assert_eq!(0x0201, PacketReader::new(&bytes).read_u16().unwrap());
    assert_eq!(0x0403_0201, PacketReader::new(&bytes).read_u32().unwrap());
}

#[test]
fn fixed_uint_reads_move_the_cursor() {
    let bytes = [0x0Au8, 0xEF, 0xBE, 0x01, 0x00, 0x00, 0x00, 0x99];
    let mut reader = PacketReader::new(&bytes);
    assert_eq!(0x0A, reader.read_u8().unwrap());
    assert_eq!(0xBEEF, reader.read_u16().unwrap());
    assert_eq!(1, reader.read_u32().unwrap());
    assert_eq!(1, reader.remaining_len());
    assert_eq!(vec![0x99], reader.read_to_end());
    assert_eq!(0, reader.remaining_len());
}

#[test]
fn fixed_uint_rejects_short_input() {
    let bytes = [1u8, 2, 3];
    let mut reader = PacketReader::new(&bytes);
    assert_eq!(ErrorKind::InvalidPacket, reader.read_u32().unwrap_err().kind());
    assert_eq!(ErrorKind::InvalidPacket, reader.read_fixed_uint(8).unwrap_err().kind());
    assert_eq!(3, reader.remaining_len());
    assert_eq!(0x03_0201, reader.read_fixed_uint(3).unwrap());
    assert_eq!(ErrorKind::InvalidPacket, reader.read_u8().unwrap_err().kind());
    assert_eq!(ErrorKind::InvalidPacket, reader.read_u16().unwrap_err().kind());
}

#[test]
fn fixed_uints_are_written_little_endian() {
    let mut out: Vec<u8> = vec![0xEE];
    write_fixed_uint(&mut out, 0x0A, 1);
    write_fixed_uint(&mut out, 0xBEEF, 2);
    write_fixed_uint(&mut out, 0x01_0203, 3);
    write_fixed_uint(&mut out, 0x8000_0001, 4);
    write_fixed_uint(&mut out, 0x0102_0304_0506_0708, 8);
    write_fixed_uint(&mut out, 1, 8);
    assert_eq!(
        vec![
            0xEE, 0x0A, 0xEF, 0xBE, 0x03, 0x02, 0x01, 0x01, 0x00, 0x00, 0x80, 0x08, 0x07, 0x06,
            0x05, 0x04, 0x03, 0x02, 0x01, 1, 0, 0, 0, 0, 0, 0, 0
        ],
        out
    );
}

#[test]
fn write_bytes_appends() {
    let mut out: Vec<u8> = vec![1, 2];
    write_bytes(&mut out, &[3, 4, 5]);
    write_bytes(&mut out, &[]);
    assert_eq!(vec![1, 2, 3, 4, 5], out);
}

#[test]
fn read_bytes_takes_exactly_count() {
    let bytes = [1u8, 2, 3, 4, 5];
    let mut reader = PacketReader::new(&bytes);
    assert_eq!(vec![1, 2], reader.read_bytes(2).unwrap());
    assert_eq!(Vec::<u8>::new(), reader.read_bytes(0).unwrap());
    assert_eq!(ErrorKind::InvalidPacket, reader.read_bytes(4).unwrap_err().kind());
    assert_eq!(3, reader.remaining_len());
    assert_eq!(vec![3, 4, 5], reader.read_bytes(3).unwrap());
    assert_eq!(ErrorKind::InvalidPacket, reader.read_bytes(1).unwrap_err().kind());
}

#[test]
fn null_terminated_string_ends_at_the_first_zero() {
    let bytes = [b'8', b'.', b'0', 0, b'x', 0];
    let mut reader = PacketReader::new(&bytes);
    assert_eq!("8.0", reader.read_string(false).unwrap());
    assert_eq!(2, reader.remaining_len());
    assert_eq!("x", reader.read_string(false).unwrap());
    assert_eq!(0, reader.remaining_len());
}

#[test]
fn null_terminated_string_may_be_empty() {
    let bytes = [0u8, b'a'];
    let mut reader = PacketReader::new(&bytes);
    assert_eq!("", reader.read_string(false).unwrap());
    assert_eq!(1, reader.remaining_len());
}

#[test]
fn missing_terminator_is_rejected_unless_allowed() {
    let bytes = [b'a', b'b', b'c'];
    let mut reader = PacketReader::new(&bytes);
    assert_eq!(ErrorKind::InvalidPacket, reader.read_string(false).unwrap_err().kind());
    assert_eq!(3, reader.remaining_len());
    assert_eq!("abc", reader.read_string(true).unwrap());
    assert_eq!(0, reader.remaining_len());
    assert_eq!("", reader.read_string(true).unwrap());
    assert_eq!(ErrorKind::InvalidPacket, reader.read_string(false).unwrap_err().kind());
}

#[test]
fn terminator_is_used_up_even_where_it_may_be_missing() {
    let bytes = [b'a', 0, b'b'];
    let mut reader = PacketReader::new(&bytes);
    assert_eq!("a", reader.read_string(true).unwrap());
    assert_eq!(1, reader.remaining_len());
}

#[test]
fn null_terminated_string_has_to_be_utf8() {
    let bytes = [0xFFu8, 0xFE, 0, b'a'];
    let mut reader = PacketReader::new(&bytes);
    assert_eq!(ErrorKind::InvalidPacket, reader.read_string(false).unwrap_err().kind());
    assert_eq!(4, reader.remaining_len());
    let truncated = [0xE2u8, 0x82];
    let mut reader = PacketReader::new(&truncated);
    assert_eq!(ErrorKind::InvalidPacket, reader.read_string(true).unwrap_err().kind());
}

#[test]
fn strings_of_more_than_one_byte_a_char_are_read() {
    let bytes = [0xE2u8, 0x82, 0xAC, 0xC3, 0xA9, 0];
    let mut reader = PacketReader::new(&bytes);
    assert_eq!("\u{20AC}\u{E9}", reader.read_string(false).unwrap());
}

#[test]
fn lenenc_bytes_are_read_with_their_length() {
    let bytes = [3u8, 10, 20, 30, 0, 0xFC, 2, 0, 7, 8, 9];
    let mut reader = PacketReader::new(&bytes);
    assert_eq!(vec![10, 20, 30], reader.read_lenenc_bytes().unwrap());
    assert_eq!(Vec::<u8>::new(), reader.read_lenenc_bytes().unwrap());
    assert_eq!(vec![7, 8], reader.read_lenenc_bytes().unwrap());
    assert_eq!(1, reader.remaining_len());
}

#[test]
fn lenenc_bytes_reject_short_input_and_leave_it() {
    let bytes = [4u8, 1, 2, 3];
    let mut reader = PacketReader::new(&bytes);
    assert_eq!(ErrorKind::InvalidPacket, reader.read_lenenc_bytes().unwrap_err().kind());
    assert_eq!(4, reader.remaining_len());
    let huge = [0xFEu8, 0xFF, 0xFF, 0xFF, 0xFF, 0xFF, 0xFF, 0xFF, 0xFF, 1];
    let mut reader = PacketReader::new(&huge);
    assert_eq!(ErrorKind::InvalidPacket, reader.read_lenenc_bytes().unwrap_err().kind());
    assert_eq!(10, reader.remaining_len());
    let bad_lead = [0xFBu8, 1];
    let mut reader = PacketReader::new(&bad_lead);
    assert_eq!(ErrorKind::InvalidPacket, reader.read_lenenc_bytes().unwrap_err().kind());
}

#[test]
fn lenenc_string_is_read_and_checked() {
    let bytes = [4u8, b'm', b'y', b'd', b'b', 2, 0xC3, 0x28, 1, b'z'];
    let mut reader = PacketReader::new(&bytes);
    assert_eq!("mydb", reader.read_lenenc_string().unwrap());
    assert_eq!(ErrorKind::InvalidPacket, reader.read_lenenc_string().unwrap_err().kind());
    assert_eq!(5, reader.remaining_len());
    assert_eq!(vec![0xC3, 0x28], reader.read_lenenc_bytes().unwrap());
    assert_eq!("z", reader.read_lenenc_string().unwrap());
    assert_eq!(ErrorKind::InvalidPacket, reader.read_lenenc_string().unwrap_err().kind());
}

#[test]
fn write_string_appends_a_terminator() {
    let mut out: Vec<u8> = vec![9];
    out.write_string("root").unwrap();
    out.write_string("").unwrap();
    out.write_string("\u{E9}").unwrap();
    assert_eq!(vec![9, b'r', b'o', b'o', b't', 0, 0, 0xC3, 0xA9, 0], out);
}

#[test]
fn write_lenenc_bytes_returns_what_it_wrote() {
    let mut out: Vec<u8> = Vec::new();
    assert_eq!(4, out.write_lenenc_bytes(&[1, 2, 3]).unwrap());
    assert_eq!(1, out.write_lenenc_bytes(&[]).unwrap());
    assert_eq!(vec![3, 1, 2, 3, 0], out);
    let long = vec![7u8; 300];
    let mut out: Vec<u8> = Vec::new();
    assert_eq!(303, out.write_lenenc_bytes(&long).unwrap());
    assert_eq!(&[0xFC, 0x2C, 0x01, 7], &out[..4]);
    assert_eq!(303, out.len());
    let mut reader = PacketReader::new(&out);
    assert_eq!(long, reader.read_lenenc_bytes().unwrap());
}

#[test]
fn write_lenenc_string_round_trips() {
    let mut out: Vec<u8> = Vec::new();
    assert_eq!(5, out.write_lenenc_string("_pid").unwrap());
    assert_eq!(4, out.write_lenenc_string("\u{20AC}").unwrap());
    assert_eq!(vec![4, b'_', b'p', b'i', b'd', 3, 0xE2, 0x82, 0xAC], out);
    let mut reader = PacketReader::new(&out);
    assert_eq!("_pid", reader.read_lenenc_string().unwrap());
    assert_eq!("\u{20AC}", reader.read_lenenc_string().unwrap());
}

#[test]
fn null_terminated_string_round_trips() {
    let mut out: Vec<u8> = Vec::new();
    out.write_string("caching_sha2_password").unwrap();
    let mut reader = PacketReader::new(&out);
    assert_eq!("caching_sha2_password", reader.read_string(false).unwrap());
    assert_eq!(0, reader.remaining_len());
}

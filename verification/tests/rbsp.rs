use h264_reader::nal::{Nal, RefNal};
use h264_reader::rbsp::{decode_nal, BitReader, BitReaderError, BitWriter, ByteReader, ByteWriter, ErrorKind};

/// The bytes written as hexadecimal digit pairs, ignoring whitespace.
fn hex(s: &str) -> Vec<u8> {
    let digits: Vec<u8> = s.bytes().filter(|b| !b.is_ascii_whitespace()).collect();
    digits
        .chunks(2)
        .map(|pair| u8::from_str_radix(std::str::from_utf8(pair).unwrap(), 16).unwrap())
        .collect()
}

#[test]
fn byte_reader() {
    let data = hex(
        "67 64 00 0A AC 72 84 44 26 84 00 00 03
        00 04 00 00 03 00 CA 3C 48 96 11 80",
    );
    let expected = hex(
        "64 00 0A AC 72 84 44 26 84 00 00
        00 04 00 00 00 CA 3C 48 96 11 80",
    );
    for i in 1..data.len() - 1 {
        let (head, tail) = data.split_at(i);
        let tails: [&[u8]; 1] = [tail];
        let nal = RefNal::new(head, &tails, true);
        let mut r = ByteReader::skipping_h264_header(nal.reader());
        let mut rbsp = Vec::new();
        r.read_to_end(&mut rbsp).unwrap();
        assert!(rbsp == expected, "Mismatch with on split_at({})", i);
    }
}

#[test]
fn bitreader_has_more_data() {
    // Should work when the end bit is byte-aligned.
    let mut reader = BitReader::new(&[0x12, 0x80][..]);
    assert!(reader.has_more_rbsp_data("call 1").unwrap());
    assert_eq!(reader.read::<8, u8>("u8 1").unwrap(), 0x12);
    assert!(!reader.has_more_rbsp_data("call 2").unwrap());

    // and when it's not.
    let mut reader = BitReader::new(&[0x18][..]);
    assert!(reader.has_more_rbsp_data("call 3").unwrap());
    assert_eq!(reader.read::<4, u8>("u8 2").unwrap(), 0x1);
    assert!(!reader.has_more_rbsp_data("call 4").unwrap());

    // should also work when there are cabac-zero-words.
    let mut reader = BitReader::new(&[0x80, 0x00, 0x00][..]);
    assert!(!reader.has_more_rbsp_data("at end with cabac-zero-words").unwrap());
}

#[test]
fn byte_reader_emulation_prevention_beyond_max_fill() {
    // 129 non-zero bytes followed by an emulation prevention sequence (00 00 03 01): the
    // bytes beyond the first fill must still be checked.
    let mut input = vec![0xFF; 129];
    input.extend_from_slice(&[0x00, 0x00, 0x03, 0x01]);
    let nal = RefNal::new(&input[..], &[], true);
    let mut r = ByteReader::without_skip(nal.reader());
    let mut rbsp = Vec::new();
    r.read_to_end(&mut rbsp).unwrap();
    let mut expected = vec![0xFF; 129];
    expected.extend_from_slice(&[0x00, 0x00, 0x01]);
    assert_eq!(rbsp, expected, "emulation prevention byte was not stripped");
}

#[test]
fn read_ue_overflow() {
    let mut reader = BitReader::new(&[0, 0, 0, 0, 255, 255, 255, 255, 255][..]);
    assert!(matches!(reader.read_ue("test"), Err(BitReaderError::ExpGolombTooLarge("test"))));
}

/// Writes `rbsp` through a `ByteWriter` and returns the emulation-prevention-encoded bytes.
fn byte_writer_encode(rbsp: &[u8]) -> Vec<u8> {
    let mut w = ByteWriter::new(Vec::new());
    w.write_all(rbsp).unwrap();
    w.into_writer()
}

#[test]
fn byte_writer_no_escaping_needed() {
    // Bytes that never trigger emulation prevention.
    assert_eq!(byte_writer_encode(b"hello"), b"hello");
    assert_eq!(byte_writer_encode(&[0xFF, 0xFE, 0x01, 0x02]), &[0xFF, 0xFE, 0x01, 0x02]);
    // Single zero: no escape.
    assert_eq!(byte_writer_encode(&[0x00, 0x04]), &[0x00, 0x04]);
    // Two zeros followed by non-trigger byte: no escape.
    assert_eq!(byte_writer_encode(&[0x00, 0x00, 0x04]), &[0x00, 0x00, 0x04]);
}

#[test]
fn byte_writer_escaping() {
    // The four trigger bytes after two zeros.
    assert_eq!(byte_writer_encode(&[0x00, 0x00, 0x00]), &[0x00, 0x00, 0x03, 0x00]);
    assert_eq!(byte_writer_encode(&[0x00, 0x00, 0x01]), &[0x00, 0x00, 0x03, 0x01]);
    assert_eq!(byte_writer_encode(&[0x00, 0x00, 0x02]), &[0x00, 0x00, 0x03, 0x02]);
    assert_eq!(byte_writer_encode(&[0x00, 0x00, 0x03]), &[0x00, 0x00, 0x03, 0x03]);
}

#[test]
fn byte_writer_multiple_escapes() {
    // Five zeros then 0x01: the third zero triggers one escape (leaving one trailing zero),
    // then the fifth zero makes two trailing zeros again so 0x01 triggers a second escape.
    assert_eq!(
        byte_writer_encode(&[0x00, 0x00, 0x00, 0x00, 0x00, 0x01]),
        &[0x00, 0x00, 0x03, 0x00, 0x00, 0x03, 0x00, 0x01],
    );
}

#[test]
fn byte_writer_split_writes() {
    // The state is kept across separate write calls.
    let mut w = ByteWriter::new(Vec::new());
    w.write_all(&[0x00, 0x00]).unwrap();
    w.write_all(&[0x03]).unwrap(); // should be escaped
    assert_eq!(w.into_writer(), &[0x00, 0x00, 0x03, 0x03]);

    let mut w2 = ByteWriter::new(Vec::new());
    w2.write_all(&[0x00]).unwrap();
    w2.write_all(&[0x00]).unwrap();
    w2.write_all(&[0x01]).unwrap(); // should be escaped
    assert_eq!(w2.into_writer(), &[0x00, 0x00, 0x03, 0x01]);
}

/// Builds a complete NAL unit from `hdr` and `rbsp` using `ByteWriter`.
fn make_nal(hdr: u8, rbsp: &[u8]) -> Vec<u8> {
    let mut out = Vec::with_capacity(1 + rbsp.len() + rbsp.len() / 3);
    out.push(hdr);
    let mut w = ByteWriter::new(out);
    w.write_all(rbsp).unwrap();
    w.into_writer()
}

#[test]
fn byte_writer_roundtrip() {
    // Roundtrip: decode(make_nal(hdr, rbsp)) == rbsp.
    let rbsp = hex(
        "64 00 0A AC 72 84 44 26 84 00 00
        00 04 00 00 00 CA 3C 48 96 11 80",
    );
    let nal = make_nal(0x67, &rbsp);
    let decoded = decode_nal(&nal).unwrap();
    assert_eq!(&*decoded, &rbsp[..]);
}

#[test]
fn byte_writer_escape_inserted_in_nal() {
    // RBSP: 12 34 00 00 00 86 -> NAL: 68 12 34 00 00 03 00 86
    assert_eq!(make_nal(0x68, &hex("12 34 00 00 00 86")), hex("68 12 34 00 00 03 00 86"),);
}

#[test]
fn byte_writer_write_reports_length() {
    let mut w = ByteWriter::new(Vec::new());
    assert_eq!(w.write(&[0x00, 0x00, 0x00, 0x00]).unwrap(), 4);
    assert!(w.flush().is_ok());
    assert_eq!(w.into_writer(), vec![0x00, 0x00, 0x03, 0x00, 0x00]);
}

#[test]
fn decode_nal_rejects_bad_escape() {
    // 00 00 00 is not allowed in a NAL body; 00 00 02 passes through.
    assert_eq!(decode_nal(&[0x67, 0x00, 0x00, 0x00]).unwrap_err().kind(), ErrorKind::InvalidData);
    assert_eq!(decode_nal(&[0x67, 0x00, 0x00, 0x02]).unwrap(), vec![0x00, 0x00, 0x02]);
    // After an emulation prevention byte, only 00 to 03 may follow.
    assert_eq!(decode_nal(&[0x67, 0x00, 0x00, 0x03, 0x04]).unwrap_err().kind(), ErrorKind::InvalidData);
    assert_eq!(decode_nal(&[0x67, 0x00, 0x00, 0x03, 0x00]).unwrap(), vec![0x00, 0x00, 0x00]);
}

#[test]
fn byte_reader_incomplete_would_block() {
    let nal = RefNal::new(&[0x67, 0x01, 0x02][..], &[], false);
    let mut r = nal.rbsp_bytes();
    let mut rbsp = Vec::new();
    assert_eq!(r.read_to_end(&mut rbsp).unwrap_err().kind(), ErrorKind::WouldBlock);
    assert_eq!(rbsp, vec![0x01, 0x02]);
}

#[test]
fn bit_reader_reads_fields() {
    // 1 | 010 | 011 | 00100 | 0101 ... : bit, ue 1, ue 2, ue 3, u4 = 5
    let mut r = BitReader::new(&[0b1010_0110, 0b0100_0101][..]);
    assert!(r.read_bit("b").unwrap());
    assert_eq!(r.read_ue("a").unwrap(), 1);
    assert_eq!(r.read_ue("b").unwrap(), 2);
    assert_eq!(r.read_ue("c").unwrap(), 3);
    assert_eq!(r.read::<4, u8>("d").unwrap(), 5);
    assert!(matches!(r.read_bit("e"), Err(BitReaderError::ReaderError("e", _))));
}

#[test]
fn read_se_values() {
    // ue codes 1 (010), 2 (011), 3 (00100), 4 (00101): se +1, -1, +2, -2
    let mut r = BitReader::new(&[0b0100_1100, 0b1000_0101, 0b1000_0000][..]);
    assert_eq!(r.read_se("a").unwrap(), 1);
    assert_eq!(r.read_se("b").unwrap(), -1);
    assert_eq!(r.read_se("c").unwrap(), 2);
    assert_eq!(r.read_se("d").unwrap(), -2);
    assert!(r.finish_rbsp().is_ok());
}

#[test]
fn finish_rbsp_with_remaining_data() {
    let r = BitReader::new(&[0b1100_0000][..]);
    assert!(matches!(r.finish_rbsp(), Err(BitReaderError::RemainingData)));
}

#[test]
fn bit_writer_exp_golomb() {
    let mut w = BitWriter::new(Vec::new());
    w.write_bit(true).unwrap();
    w.write_ue(1).unwrap();
    w.write_ue(2).unwrap();
    w.write_ue(3).unwrap();
    w.write::<4, u8>(5).unwrap();
    assert!(w.writer().is_some());
    assert_eq!(w.into_writer(), vec![0b1010_0110, 0b0100_0101]);

    let mut w = BitWriter::new(Vec::new());
    w.write_se(1).unwrap();
    w.write_se(-1).unwrap();
    w.write_se(2).unwrap();
    w.write_se(-2).unwrap();
    assert_eq!(w.writer().unwrap(), &vec![0b0100_1100, 0b1000_0101]);
    w.write_bit(true).unwrap();
    assert!(w.writer().is_none());
    w.write_rbsp_trailing_bits().unwrap();
    assert_eq!(w.writer().unwrap(), &vec![0b0100_1100, 0b1000_0101, 0b1100_0000]);
}

#[test]
fn bit_writer_value_too_large() {
    let mut w = BitWriter::new(vec![0xaa]);
    assert_eq!(w.write::<3, u8>(8).unwrap_err().kind(), ErrorKind::InvalidInput);
    assert_eq!(w.write_var::<u8>(9, 1).unwrap_err().kind(), ErrorKind::InvalidInput);
    w.write_var::<u16>(16, 0x1234).unwrap();
    w.write_var::<u32>(0, 7).unwrap();
    assert_eq!(w.into_writer(), vec![0xaa, 0x12, 0x34]);
}

#[test]
fn bit_writer_read_back() {
    let values: [u32; 6] = [0, 1, 7, 255, 65_535, u32::MAX - 1];
    let mut w = BitWriter::new(Vec::new());
    for v in values {
        w.write_ue(v).unwrap();
        w.write_se(-(v as i64 / 2) as i32).unwrap();
    }
    w.write_rbsp_trailing_bits().unwrap();
    let bytes = w.into_writer();
    let mut r = BitReader::new(&bytes[..]);
    for v in values {
        assert_eq!(r.read_ue("v").unwrap(), v);
        assert_eq!(r.read_se("s").unwrap(), -(v as i64 / 2) as i32);
    }
    assert!(r.finish_rbsp().is_ok());
}

use h264_reader::nal::slice::data::{SliceDataReader, SliceEvent};
use h264_reader::nal::slice::SliceFamily;
use h264_reader::rbsp::BitReader;

/// The address of a skip event and the reader after it, or a panic for any other event.
fn expect_skip(ev: SliceEvent) -> (u32, SliceDataReader) {
    match ev {
        SliceEvent::Skip { mb_addr, next } => (mb_addr, next),
        _ => panic!("expected a skipped macroblock"),
    }
}

#[test]
fn p_slice_skip_run_hands_out_consecutive_addresses() {
    // mb_skip_run = 3 (00100), then the RBSP stop bit and alignment zeros.
    let data = [0b0010_0100u8];
    let rd = SliceDataReader::new(BitReader::new(&data[..]), SliceFamily::P, 5, 10, 0);
    assert_eq!(rd.curr_mb_addr(), 5);
    let (a0, rd) = expect_skip(rd.next().unwrap());
    let (a1, rd) = expect_skip(rd.next().unwrap());
    let (a2, rd) = expect_skip(rd.next().unwrap());
    assert_eq!((a0, a1, a2), (5, 6, 7));
    assert_eq!(rd.curr_mb_addr(), 8);
    assert!(matches!(rd.next().unwrap(), SliceEvent::End));
}

#[test]
fn slice_starting_past_the_picture_ends_at_once() {
    let data = [0b0010_0100u8];
    let rd = SliceDataReader::new(BitReader::new(&data[..]), SliceFamily::P, 10, 10, 0);
    assert!(matches!(rd.next().unwrap(), SliceEvent::End));
}

use h264_reader::nal::sei::buffering_period::{BufferingPeriod, InitialCpbRemoval};
use h264_reader::nal::sei::pic_timing::{Delays, PicStruct, PicStructType, PicTiming};
use h264_reader::nal::sei::{HeaderType, SeiMessage};
use h264_reader::nal::sps::SeqParameterSet;
use h264_reader::rbsp::BitReader;
use h264_reader::Context;

/// The bytes written as hexadecimal digit pairs, ignoring whitespace.
fn hex(s: &str) -> Vec<u8> {
    let digits: Vec<u8> = s.bytes().filter(|b| !b.is_ascii_whitespace()).collect();
    digits
        .chunks(2)
        .map(|pair| u8::from_str_radix(std::str::from_utf8(pair).unwrap(), 16).unwrap())
        .collect()
}

/// An SPS taken from CVSEFDFT3_Sony_E.zip, with NAL and VCL HRD parameters.
fn sony_sps() -> SeqParameterSet {
    let sps_rbsp = hex(
        "
        4d 60 15 8d 8d 28 58 9d 08 00 00 0f a0 00 07 53
        07 00 00 00 92 7c 00 00 12 4f 80 fb dc 18 00 00
        0f 42 40 00 07 a1 20 7d ee 07 c6 0c 62 60
    ",
    );
    SeqParameterSet::from_bits(BitReader::new(&sps_rbsp[..])).unwrap()
}

#[test]
fn buffering_period_parse() {
    let mut ctx = Context::default();
    ctx.put_seq_param_set(sony_sps());
    let payload = hex("d7 e4 00 00 57 e4 00 00 40");
    let msg = SeiMessage { payload_type: HeaderType::BufferingPeriod, payload: &payload[..] };
    assert_eq!(
        BufferingPeriod::read(&ctx, &msg).unwrap(),
        BufferingPeriod {
            nal_hrd_bp: Some(vec![InitialCpbRemoval {
                initial_cpb_removal_delay: 45_000,
                initial_cpb_removal_delay_offset: 0,
            },]),
            vcl_hrd_bp: Some(vec![InitialCpbRemoval {
                initial_cpb_removal_delay: 45_000,
                initial_cpb_removal_delay_offset: 0,
            },]),
        }
    );
}

#[test]
fn buffering_period_unknown_sps() {
    let ctx = Context::default();
    let payload = hex("d7 e4 00 00 57 e4 00 00 40");
    let msg = SeiMessage { payload_type: HeaderType::BufferingPeriod, payload: &payload[..] };
    assert!(BufferingPeriod::read(&ctx, &msg).is_err());
}

#[test]
fn pic_timing_parse() {
    let sps = sony_sps();
    let payload = hex("00 00 00 00 00 0c 72");
    let msg = SeiMessage { payload_type: HeaderType::PicTiming, payload: &payload[..] };
    let pic_timing = PicTiming::read(&sps, &msg).unwrap();
    assert_eq!(
        pic_timing,
        PicTiming {
            delays: Some(Delays { cpb_removal_delay: 0, dpb_output_delay: 12 }),
            pic_struct: Some(PicStruct { pic_struct: PicStructType::FrameDoubling, clock_timestamps: vec![None, None] }),
        }
    );
}

#[test]
fn pic_timing_truncated() {
    let sps = sony_sps();
    let payload = hex("00 00");
    let msg = SeiMessage { payload_type: HeaderType::PicTiming, payload: &payload[..] };
    assert!(PicTiming::read(&sps, &msg).is_err());
}

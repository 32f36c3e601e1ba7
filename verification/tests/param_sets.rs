use h264_reader::nal::pps::{PicParamSetId, PicParameterSet, PicParameterSetExtra};
use h264_reader::nal::slice::{SliceHeader, SliceHeaderError};
use h264_reader::nal::sps::{SeqParamSetId, SeqParameterSet};
use h264_reader::nal::{Nal, RefNal};
use h264_reader::rbsp::BitReader;
use h264_reader::{Context, ParamSetMap};

/// The bytes written as hexadecimal digit pairs, ignoring whitespace.
fn hex(s: &str) -> Vec<u8> {
    let digits: Vec<u8> = s.bytes().filter(|b| !b.is_ascii_whitespace()).collect();
    digits
        .chunks(2)
        .map(|pair| u8::from_str_radix(std::str::from_utf8(pair).unwrap(), 16).unwrap())
        .collect()
}

#[test]
fn map() {
    let mut s = ParamSetMap::default();
    assert!(s.iter().into_iter().copied().collect::<Vec<_>>().is_empty());
    s.put(0, 0);
    assert_eq!(s.iter().into_iter().copied().collect::<Vec<_>>(), &[0]);
    s.put(2, 2);
    assert_eq!(s.iter().into_iter().copied().collect::<Vec<_>>(), &[0, 2]);
    s.put(1, 1);
    assert_eq!(s.iter().into_iter().copied().collect::<Vec<_>>(), &[0, 1, 2]);
}

#[test]
fn map_put_replaces_and_get_reads_back() {
    let mut s = ParamSetMap::new();
    s.put(3, 'a');
    s.put(3, 'b');
    s.put(1, 'c');
    assert_eq!(s.get(3), Some(&'b'));
    assert_eq!(s.get(1), Some(&'c'));
    assert_eq!(s.get(0), None);
    assert_eq!(s.get(40), None);
}

#[test]
fn pps_test_it() {
    let data = hex(
        "64 00 0A AC 72 84 44 26 84 00 00
        00 04 00 00 00 CA 3C 48 96 11 80",
    );
    let sps = SeqParameterSet::from_bits(BitReader::new(&data[..])).expect("unexpected test data");
    let mut ctx = Context::default();
    ctx.put_seq_param_set(sps);
    let data = hex("E8 43 8F 13 21 30");
    match PicParameterSet::from_bits(&ctx, BitReader::new(&data[..])) {
        Err(e) => panic!("failed: {:?}", e),
        Ok(pps) => {
            assert_eq!(pps.pic_parameter_set_id.id(), 0);
            assert_eq!(pps.seq_parameter_set_id.id(), 0);
        }
    }
}

#[test]
fn test_transform_8x8_mode_with_scaling_matrix() {
    let sps = hex(
        "64 00 29 ac 1b 1a 50 1e 00 89 f9 70 11 00 00 03 e9 00 00 bb 80 e2 60 00 04 c3 7a 00 00
         72 70 e8 c4 b8 c4 c0 00 09 86 f4 00 00 e4 e1 d1 89 70 f8 e1 85 2c",
    );
    let pps = hex(
        "ea 8d ce 50 94 8d 18 b2 5a 55 28 4a 46 8c 59 2d 2a 50 c9 1a 31 64 b4 aa 85 48 d2 75 d5
         25 1d 23 49 d2 7a 23 74 93 7a 49 be 95 da ad d5 3d 7a 6b 54 22 9a 4e 93 d6 ea 9f a4 ee
         aa fd 6e bf f5 f7",
    );
    let sps = SeqParameterSet::from_bits(BitReader::new(&sps[..])).expect("unexpected test data");
    let mut ctx = Context::default();
    ctx.put_seq_param_set(sps);

    let pps = PicParameterSet::from_bits(&ctx, BitReader::new(&pps[..]))
        .expect("we mis-parsed pic_scaling_matrix when transform_8x8_mode_flag is active");

    // if transform_8x8_mode_flag were false or pic_scaling_matrix were None then we wouldn't
    // be recreating the required conditions for the test
    assert!(matches!(
        pps.extension,
        Some(PicParameterSetExtra { transform_8x8_mode_flag: true, pic_scaling_matrix: Some(_), .. })
    ));
}

// The spec allows pic_parameter_set_id values up to 255; check that a value over 32 is
// accepted.
#[test]
fn pps_id_greater32() {
    let sps = hex("42c01643235010020b3cf00f08846a");
    let pps = hex("0448e3c8");
    let sps = SeqParameterSet::from_bits(BitReader::new(&sps[..])).unwrap();
    let mut ctx = Context::default();
    ctx.put_seq_param_set(sps);

    let pps = PicParameterSet::from_bits(&ctx, BitReader::new(&pps[..])).unwrap();

    assert_eq!(pps.pic_parameter_set_id, PicParamSetId::from_u32(33).unwrap());
}

#[test]
fn pps_unknown_sps() {
    let ctx = Context::default();
    let pps = hex("E8 43 8F 13 21 30");
    assert!(PicParameterSet::from_bits(&ctx, BitReader::new(&pps[..])).is_err());
}

#[test]
fn context_put_and_get() {
    let data = hex(
        "64 00 0A AC 72 84 44 26 84 00 00
        00 04 00 00 00 CA 3C 48 96 11 80",
    );
    let sps = SeqParameterSet::from_bits(BitReader::new(&data[..])).unwrap();
    let mut ctx = Context::new();
    assert!(ctx.sps_by_id(SeqParamSetId::from_u32(0).unwrap()).is_none());
    ctx.put_seq_param_set(sps.clone());
    assert_eq!(ctx.sps_by_id(SeqParamSetId::from_u32(0).unwrap()), Some(&sps));
    assert_eq!(ctx.sps().len(), 1);
    assert!(ctx.pps().is_empty());
    assert!(ctx.pps_by_id(PicParamSetId::from_u32(0).unwrap()).is_none());
}

#[test]
fn invalid_num_ref_idx() {
    // Examples from fuzz testing.
    let mut ctx = Context::default();
    let sps_bytes = hex("27 d2 d2 d6 d2 27 50 aa 27 01 56 56 08 41 c5");
    let sps = RefNal::new(&sps_bytes[..], &[], true);
    let sps = SeqParameterSet::from_bits(sps.rbsp_bits()).unwrap();
    ctx.put_seq_param_set(sps);
    let pps_bytes = hex("28 c5 56 6a 08 41 00 fd");
    let pps = RefNal::new(&pps_bytes[..], &[], true);
    let pps = PicParameterSet::from_bits(&ctx, pps.rbsp_bits()).unwrap();
    ctx.put_pic_param_set(pps);
    let slice_bytes = hex("41 3f 3f 00 00 03 00 03 ed 60 bb bb bb");
    let nal = RefNal::new(&slice_bytes[..], &[], true);
    assert!(matches!(
        SliceHeader::from_bits(&ctx, &mut nal.rbsp_bits(), nal.header().unwrap()),
        Err(SliceHeaderError::InvalidNumRefIdx(_, _))
    ));
}

#[test]
fn seq_param_set_id_range() {
    assert!(SeqParamSetId::from_u32(31).is_ok());
    assert!(SeqParamSetId::from_u32(32).is_err());
    assert!(PicParamSetId::from_u32(255).is_ok());
    assert!(PicParamSetId::from_u32(256).is_err());
}

#[test]
fn context_sps_come_out_by_id_with_the_last_put() {
    let mut ctx = Context::new();
    assert!(ctx.sps().is_empty());
    let sps = |id: u8, level: u8| {
        // Baseline profile with the given level and seq_parameter_set_id, one macroblock.
        let mut s = SeqParameterSet::from_bits(BitReader::new(&[0x42, 0x00, 0x1E, 0xDA, 0x71][..])).unwrap();
        s.seq_parameter_set_id = SeqParamSetId::from_u32(id as u32).unwrap();
        s.level_idc = level;
        s
    };
    ctx.put_seq_param_set(sps(2, 10));
    ctx.put_seq_param_set(sps(0, 11));
    ctx.put_seq_param_set(sps(2, 12));
    let ids: Vec<(u8, u8)> = ctx.sps().into_iter().map(|s| (s.id().id(), s.level_idc)).collect();
    assert_eq!(ids, vec![(0, 11), (2, 12)]);
}

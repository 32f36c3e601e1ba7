use h264_reader::avcc::{AvcDecoderConfigurationRecord, AvccError, ParamSetError};
use h264_reader::nal::pps::PicParamSetId;
use h264_reader::nal::sps::{ProfileIdc, SeqParamSetId};
use h264_reader::nal::UnitType;

/// The bytes written as hexadecimal digit pairs, ignoring whitespace.
fn hex(s: &str) -> Vec<u8> {
    let digits: Vec<u8> = s.bytes().filter(|b| !b.is_ascii_whitespace()).collect();
    digits
        .chunks(2)
        .map(|pair| u8::from_str_radix(std::str::from_utf8(pair).unwrap(), 16).unwrap())
        .collect()
}

#[test]
fn avcc_it_works() {
    let avcc_data = hex("0142c01e ffe10020 6742c01e b91061ff 78088000 00030080 00001971 3006d600 daf7bdc0 7c2211a8 01000468 de3c80");
    let avcc = AvcDecoderConfigurationRecord::try_from(&avcc_data[..]).unwrap();
    assert_eq!(1, avcc.configuration_version());
    assert_eq!(1, avcc.num_of_sequence_parameter_sets());
    assert_eq!(ProfileIdc::from(66), avcc.avc_profile_indication());
    let flags = avcc.profile_compatibility();
    assert!(flags.flag0());
    assert!(flags.flag1());
    assert!(!flags.flag2());
    assert!(!flags.flag3());
    assert!(!flags.flag4());
    assert!(!flags.flag5());
    // Baseline profile has no extension fields
    assert_eq!(avcc.chroma_format(), None);
    assert_eq!(avcc.bit_depth_luma_minus8(), None);
    assert_eq!(avcc.bit_depth_chroma_minus8(), None);
    assert_eq!(avcc.sequence_parameter_set_extensions().len(), 0);
    let ctx = avcc.create_context().unwrap();
    let sps = ctx
        .sps_by_id(SeqParamSetId::from_u32(0).unwrap())
        .expect("missing sps");
    assert_eq!(avcc.avc_level_indication(), sps.level());
    assert_eq!(avcc.avc_profile_indication(), sps.profile_idc);
    assert_eq!(
        SeqParamSetId::from_u32(0).unwrap(),
        sps.seq_parameter_set_id
    );
    let _pps = ctx
        .pps_by_id(PicParamSetId::from_u32(0).unwrap())
        .expect("missing pps");
}
#[test]
fn high_profile_extension_fields() {
    // Hand-crafted avcC with High profile (100) and extension fields:
    //   chroma_format=1 (4:2:0), bit_depth_luma_minus8=0, bit_depth_chroma_minus8=0,
    //   0 SPS extension NAL units.
    // Base: version=1, profile=100(High), compat=0x00, level=31
    //   lengthSizeMinusOne=3 (0xff = reserved|3)
    //   1 SPS (0xe1 = reserved|1)
    let sps_nalu = hex("6764001e acd940a0 2ff96100 00030001 00000300 3c9c5802 d0000bb8 00004e20 6e200000 10000003 00010000 03000321");
    let pps_nalu = hex("68eb e3cb 22c0");
    let mut avcc_data: Vec<u8> = Vec::new();
    // Fixed header
    avcc_data.extend_from_slice(&[0x01, 0x64, 0x00, 0x1e, 0xff]);
    // 1 SPS
    avcc_data.push(0xe1);
    avcc_data.extend_from_slice(&(sps_nalu.len() as u16).to_be_bytes());
    avcc_data.extend_from_slice(&sps_nalu);
    // 1 PPS
    avcc_data.push(0x01);
    avcc_data.extend_from_slice(&(pps_nalu.len() as u16).to_be_bytes());
    avcc_data.extend_from_slice(&pps_nalu);
    // Extension fields: chroma_format=1, bit_depth_luma=0, bit_depth_chroma=0, 0 SPS ext
    avcc_data.extend_from_slice(&[0xfd, 0xf8, 0xf8, 0x00]);

    let avcc = AvcDecoderConfigurationRecord::try_from(&avcc_data[..]).unwrap();
    assert_eq!(avcc.avc_profile_indication(), ProfileIdc::from(100));
    assert_eq!(avcc.chroma_format(), Some(1));
    assert_eq!(avcc.bit_depth_luma_minus8(), Some(0));
    assert_eq!(avcc.bit_depth_chroma_minus8(), Some(0));
    assert_eq!(avcc.sequence_parameter_set_extensions().len(), 0);
}
#[test]
fn high_profile_without_extension() {
    // High profile avcC that omits the optional extension fields.
    let sps_nalu = hex("6764001e acd940a0 2ff96100 00030001 00000300 3c9c5802 d0000bb8 00004e20 6e200000 10000003 00010000 03000321");
    let pps_nalu = hex("68eb e3cb 22c0");
    let mut avcc_data: Vec<u8> = Vec::new();
    avcc_data.extend_from_slice(&[0x01, 0x64, 0x00, 0x1e, 0xff]);
    avcc_data.push(0xe1);
    avcc_data.extend_from_slice(&(sps_nalu.len() as u16).to_be_bytes());
    avcc_data.extend_from_slice(&sps_nalu);
    avcc_data.push(0x01);
    avcc_data.extend_from_slice(&(pps_nalu.len() as u16).to_be_bytes());
    avcc_data.extend_from_slice(&pps_nalu);
    // No extension fields appended

    let avcc = AvcDecoderConfigurationRecord::try_from(&avcc_data[..]).unwrap();
    assert_eq!(avcc.avc_profile_indication(), ProfileIdc::from(100));
    assert_eq!(avcc.chroma_format(), None);
    assert_eq!(avcc.bit_depth_luma_minus8(), None);
    assert_eq!(avcc.bit_depth_chroma_minus8(), None);
}
#[test]
fn sps_with_emulation_protection() {
    // From a Hikvision 2CD2032-I.
    let avcc_data = hex(
        "014d401e ffe10017 674d401e 9a660a0f
                          ff350101 01400000 fa000003 01f40101
                          000468ee 3c80"
    );
    let avcc = AvcDecoderConfigurationRecord::try_from(&avcc_data[..]).unwrap();
    let _sps_data = avcc.sequence_parameter_sets().into_iter().next().unwrap().unwrap();
    let ctx = avcc.create_context().unwrap();
    let _sps = ctx
        .sps_by_id(SeqParamSetId::from_u32(0).unwrap())
        .expect("missing sps");
}

#[test]
fn avcc_not_enough_data() {
    match AvcDecoderConfigurationRecord::try_from(&[0x01, 0x42, 0xc0][..]) {
        Err(AvccError::NotEnoughData { expected, actual }) => {
            assert_eq!(expected, 6);
            assert_eq!(actual, 3);
        }
        _ => panic!("expected NotEnoughData"),
    }
    // One SPS announced, with a length that runs past the end.
    match AvcDecoderConfigurationRecord::try_from(&[0x01, 0x42, 0xc0, 0x1e, 0xff, 0xe1, 0x00, 0x05, 0x67][..]) {
        Err(AvccError::NotEnoughData { expected, actual }) => {
            assert_eq!(expected, 13);
            assert_eq!(actual, 9);
        }
        _ => panic!("expected NotEnoughData"),
    }
}

#[test]
fn avcc_unsupported_version() {
    match AvcDecoderConfigurationRecord::try_from(&[0x02, 0x42, 0xc0, 0x1e, 0xff, 0xe0, 0x00][..]) {
        Err(AvccError::UnsupportedConfigurationVersion(2)) => {}
        _ => panic!("expected UnsupportedConfigurationVersion"),
    }
}

#[test]
fn avcc_wrong_nal_type_in_sps_list() {
    // The SPS list holds a PPS NAL; the PPS list is empty.
    let data = [0x01, 0x42, 0xc0, 0x1e, 0xff, 0xe1, 0x00, 0x02, 0x68, 0xce, 0x00];
    let avcc = AvcDecoderConfigurationRecord::try_from(&data[..]).unwrap();
    assert_eq!(avcc.length_size_minus_one(), 3);
    let sets = avcc.sequence_parameter_sets();
    assert_eq!(sets.len(), 1);
    match &sets[0] {
        Err(ParamSetError::IncorrectNalType { expected, actual }) => {
            assert_eq!(*expected, UnitType::SeqParameterSet);
            assert_eq!(*actual, UnitType::PicParameterSet);
        }
        _ => panic!("expected IncorrectNalType"),
    }
    assert!(matches!(avcc.create_context(), Err(AvccError::ParamSet(ParamSetError::IncorrectNalType { .. }))));
    assert!(avcc.picture_parameter_sets().is_empty());
}

#[test]
fn zero_length_parameter_set_entry_is_accepted() {
    // One SPS entry of length zero, followed by the PPS count: the header byte read for the
    // empty entry is the PPS count.
    let data = [0x01, 0x42, 0xc0, 0x1e, 0xff, 0xe1, 0x00, 0x00, 0x00];
    let avcc = AvcDecoderConfigurationRecord::try_from(&data[..]).unwrap();
    assert!(!avcc.entries_non_empty());
    let spss = avcc.sequence_parameter_sets();
    assert_eq!(spss.len(), 1);
    assert!(matches!(spss[0], Err(ParamSetError::IncorrectNalType { .. })));
}

#[test]
fn non_empty_entries_are_reported() {
    let avcc_data = hex("0142c01e ffe10020 6742c01e b91061ff 78088000 00030080 00001971 3006d600 daf7bdc0 7c2211a8 01000468 de3c80");
    let avcc = AvcDecoderConfigurationRecord::try_from(&avcc_data[..]).unwrap();
    assert!(avcc.entries_non_empty());
}

#[test]
fn create_context_reports_a_picture_parameter_set_without_its_sequence_parameter_set() {
    // No SPS; one PPS that refers to SPS 0.
    let data = hex("0142c01e ffe0 01 0004 68de3c80");
    let avcc = AvcDecoderConfigurationRecord::try_from(&data[..]).unwrap();
    assert_eq!(avcc.num_of_sequence_parameter_sets(), 0);
    assert_eq!(avcc.picture_parameter_sets().len(), 1);
    match avcc.create_context() {
        Err(AvccError::Pps(h264_reader::nal::pps::PpsError::UnknownSeqParamSetId(id))) => {
            assert_eq!(id, SeqParamSetId::from_u32(0).unwrap());
        }
        _ => panic!("expected an unknown SPS id"),
    }
}

#[test]
fn create_context_stops_at_the_first_failing_sequence_parameter_set() {
    // A truncated SPS, then a PPS that would fail too: the SPS failure is reported.
    let data = hex("0142c01e ffe1 0002 6742 01 0004 68de3c80");
    let avcc = AvcDecoderConfigurationRecord::try_from(&data[..]).unwrap();
    assert!(matches!(avcc.create_context(), Err(AvccError::Sps(h264_reader::nal::sps::SpsError::RbspReaderError(_)))));
}

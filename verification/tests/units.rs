use h264_reader::nal::aud::{AccessUnitDelimiter, PrimaryPicType};
use h264_reader::nal::sps::SeqParamSetId;
use h264_reader::nal::sps_extension::SeqParameterSetExtension;
use h264_reader::nal::subset_sps::SubsetSps;
use h264_reader::rbsp::BitReader;

#[test]
fn parse_all_pic_types() {
    for id in 0u8..=7 {
        // primary_pic_type(3 bits) + rbsp_stop_one_bit(1) + padding(4 zeros)
        let byte = (id << 5) | 0x10;
        let data = [byte];
        let aud = AccessUnitDelimiter::from_bits(BitReader::new(&data[..])).unwrap();
        assert_eq!(aud.primary_pic_type.id(), id);
    }
}

#[test]
fn parse_ipb() {
    // primary_pic_type=2 (IPB): 010 1 0000 = 0x50
    let data = [0x50u8];
    let aud = AccessUnitDelimiter::from_bits(BitReader::new(&data[..])).unwrap();
    assert_eq!(aud.primary_pic_type, PrimaryPicType::IPB);
}

#[test]
fn primary_pic_type_from_id() {
    for id in 0u8..=7 {
        assert_eq!(PrimaryPicType::from_id(id).unwrap().id(), id);
    }
    assert!(PrimaryPicType::from_id(8).is_err());
}

#[test]
fn aud_missing_stop_bit() {
    let data = [0x40u8];
    assert!(AccessUnitDelimiter::from_bits(BitReader::new(&data[..])).is_err());
}

#[test]
fn parse_minimal() {
    // seq_parameter_set_id=0 (ue: 1 bit '1'), aux_format_idc=0 (ue: '1'),
    // additional_extension_flag=0, rbsp_stop_one_bit=1 + alignment padding: 1101 0000
    let data = [0xD0u8];
    let ext = SeqParameterSetExtension::from_bits(BitReader::new(&data[..])).unwrap();
    assert_eq!(ext.seq_parameter_set_id, SeqParamSetId::from_u32(0).unwrap());
    assert_eq!(ext.aux_format_idc, 0);
    assert!(ext.aux_format_info.is_none());
    assert!(!ext.additional_extension_flag);
}

#[test]
fn parse_with_aux_format() {
    // bits: 1 010 1 0 111111111 000000000 0 1 000000
    let data = [0xABu8, 0xFE, 0x00, 0x40];
    let ext = SeqParameterSetExtension::from_bits(BitReader::new(&data[..])).unwrap();
    assert_eq!(ext.seq_parameter_set_id, SeqParamSetId::from_u32(0).unwrap());
    assert_eq!(ext.aux_format_idc, 1);
    let info = ext.aux_format_info.as_ref().unwrap();
    assert_eq!(info.bit_depth_aux_minus8, 0);
    assert!(!info.alpha_incr_flag);
    assert_eq!(info.alpha_opaque_value, 0x1FF);
    assert_eq!(info.alpha_transparent_value, 0x000);
    assert!(!ext.additional_extension_flag);
}

#[test]
fn parse_subset_sps_unknown_profile() {
    let data = [
        0x42, // profile_idc=66
        0xC0, // constraint_flags
        0x1E, // level_idc=30
        // ue(0) x5, gaps flag 0, ue(0) x2: 1 1 1 1 1 0 1 1
        0xFB,
        // frame_mbs_only_flag=1, direct_8x8=0, cropping=0, vui=0, additional_extension2=0,
        // rbsp_stop_one_bit=1, padding 00
        0x84,
    ];
    let subset = SubsetSps::from_bits(BitReader::new(&data[..])).unwrap();
    assert_eq!(u8::from(subset.sps.profile_idc), 66);
    assert!(subset.extension.is_none());
    assert!(!subset.additional_extension2_flag);
}

use h264_reader::nal::sps::{
    AspectRatioInfo, BitstreamRestrictions, ChromaFormat, ChromaInfo, ColourDescription, ConstraintFlags, CpbSpec,
    FrameCropping, FrameMbsFlags, HrdParameters, OverscanAppropriate, PicOrderCntType, Profile, ProfileIdc,
    ScalingLists4x4, ScalingLists8x8, SeqParamSetId, SeqParameterSet, SeqScalingMatrix, SpsError, TimingInfo,
    VideoFormat, VideoSignalType, VuiParameters,
};
use h264_reader::nal::NalHeader;
use h264_reader::rbsp::{decode_nal, BitReader, BitWriter, ByteWriter, ErrorKind};

/// The bytes written as hexadecimal digit pairs, ignoring whitespace.
fn hex(s: &str) -> Vec<u8> {
    let digits: Vec<u8> = s.bytes().filter(|b| !b.is_ascii_whitespace()).collect();
    digits
        .chunks(2)
        .map(|pair| u8::from_str_radix(std::str::from_utf8(pair).unwrap(), 16).unwrap())
        .collect()
}

#[test]
fn sps_test_it() {
    let data = hex(
        "64 00 0A AC 72 84 44 26 84 00 00
        00 04 00 00 00 CA 3C 48 96 11 80",
    );
    let sps = SeqParameterSet::from_bits(BitReader::new(&data[..])).unwrap();
    assert!(!format!("{:?}", sps).is_empty());
    assert_eq!(100, u8::from(sps.profile_idc));
    assert_eq!(0, sps.constraint_flags.reserved_zero_two_bits());
    assert_eq!((64, 64), sps.pixel_dimensions().unwrap());
    assert!(!sps.rfc6381().to_string().is_empty())
}

#[test]
fn test_dahua() {
    // From a Dahua IPC-HDW5231R-Z's sub stream, which is anamorphic.
    let data = hex(
        "64 00 16 AC 1B 1A 80 B0 3D FF FF
       00 28 00 21 6E 0C 0C 0C 80 00 01
       F4 00 00 27 10 74 30 07 D0 00 07
       A1 25 DE 5C 68 60 0F A0 00 0F 42
       4B BC B8 50",
    );
    let sps = SeqParameterSet::from_bits(BitReader::new(&data[..])).unwrap();
    assert_eq!(sps.vui_parameters.unwrap().aspect_ratio_info.unwrap().get(), Some((40, 33)));
}

fn sps_with_cropping(offset: u32) -> SeqParameterSet {
    SeqParameterSet {
        profile_idc: ProfileIdc::from(0),
        constraint_flags: ConstraintFlags::from(0),
        level_idc: 0,
        seq_parameter_set_id: SeqParamSetId::from_u32(0).unwrap(),
        chroma_info: ChromaInfo {
            chroma_format: ChromaFormat::Monochrome,
            separate_colour_plane_flag: false,
            bit_depth_luma_minus8: 0,
            bit_depth_chroma_minus8: 0,
            qpprime_y_zero_transform_bypass_flag: false,
            scaling_matrix: Default::default(),
        },
        log2_max_frame_num_minus4: 0,
        pic_order_cnt: PicOrderCntType::TypeTwo,
        max_num_ref_frames: 0,
        frame_cropping: Some(FrameCropping {
            bottom_offset: offset,
            left_offset: offset,
            right_offset: offset,
            top_offset: offset,
        }),
        pic_width_in_mbs_minus1: 1,
        pic_height_in_map_units_minus1: 1,
        frame_mbs_flags: FrameMbsFlags::Frames,
        gaps_in_frame_num_value_allowed_flag: false,
        direct_8x8_inference_flag: false,
        vui_parameters: None,
    }
}

#[test]
fn crop_removes_all_pixels() {
    let sps = sps_with_cropping(20);
    // should return Err, rather than assert due to integer underflow for example,
    let dim = sps.pixel_dimensions();
    assert!(matches!(dim, Err(SpsError::CroppingError(_))));
}

#[test]
fn crop_keeps_some_pixels() {
    // Monochrome crops one luma sample per unit: 32 - 2 * 3 = 26 in each dimension.
    let sps = sps_with_cropping(3);
    assert_eq!(sps.pixel_dimensions().unwrap(), (26, 26));
}

#[test]
fn profile_idc_roundtrip() {
    let no_flags = ConstraintFlags::from(0);
    for idc in 0..=255 {
        let profile = Profile::from_profile_idc(ProfileIdc::from(idc), no_flags);
        assert_eq!(idc, profile.profile_idc(), "round-trip failed for idc {idc}");
    }
}

#[test]
fn profile_constraint_flags() {
    // Constrained Baseline: profile_idc=66, constraint_set1_flag=1
    let flags = ConstraintFlags::from(0b0100_0000);
    assert!(matches!(
        Profile::from_profile_idc(ProfileIdc::from(66), flags),
        Profile::ConstrainedBaseline
    ));
    // Plain Baseline without constraint_set1_flag
    let flags = ConstraintFlags::from(0b1000_0000);
    assert!(matches!(
        Profile::from_profile_idc(ProfileIdc::from(66), flags),
        Profile::Baseline
    ));

    // Progressive High: profile_idc=100, constraint_set4_flag=1
    let flags = ConstraintFlags::from(0b0000_1000);
    assert!(matches!(
        Profile::from_profile_idc(ProfileIdc::from(100), flags),
        Profile::ProgressiveHigh
    ));
    // Constrained High: profile_idc=100, constraint_set4_flag=1 + constraint_set5_flag=1
    let flags = ConstraintFlags::from(0b0000_1100);
    assert!(matches!(
        Profile::from_profile_idc(ProfileIdc::from(100), flags),
        Profile::ConstrainedHigh
    ));

    // High 10 Intra: profile_idc=110, constraint_set3_flag=1
    let flags = ConstraintFlags::from(0b0001_0000);
    assert!(matches!(
        Profile::from_profile_idc(ProfileIdc::from(110), flags),
        Profile::High10Intra
    ));

    // High 4:2:2 Intra: profile_idc=122, constraint_set3_flag=1
    let flags = ConstraintFlags::from(0b0001_0000);
    assert!(matches!(
        Profile::from_profile_idc(ProfileIdc::from(122), flags),
        Profile::High422Intra
    ));

    // High 4:4:4 Intra: profile_idc=244, constraint_set3_flag=1
    let flags = ConstraintFlags::from(0b0001_0000);
    assert!(matches!(
        Profile::from_profile_idc(ProfileIdc::from(244), flags),
        Profile::High444Intra
    ));

    // Scalable Constrained Baseline: profile_idc=83, constraint_set5_flag=1
    let flags = ConstraintFlags::from(0b0000_0100);
    assert!(matches!(
        Profile::from_profile_idc(ProfileIdc::from(83), flags),
        Profile::ScalableConstrainedBaseline
    ));

    // Scalable Constrained High: profile_idc=86, constraint_set5_flag=1
    let flags = ConstraintFlags::from(0b0000_0100);
    assert!(matches!(
        Profile::from_profile_idc(ProfileIdc::from(86), flags),
        Profile::ScalableConstrainedHigh
    ));

    // Scalable High Intra: profile_idc=86, constraint_set3_flag=1
    let flags = ConstraintFlags::from(0b0001_0000);
    assert!(matches!(
        Profile::from_profile_idc(ProfileIdc::from(86), flags),
        Profile::ScalableHighIntra
    ));

    // Constrained variants still roundtrip through profile_idc
    assert_eq!(Profile::ConstrainedBaseline.profile_idc(), 66);
    assert_eq!(Profile::ProgressiveHigh.profile_idc(), 100);
    assert_eq!(Profile::ConstrainedHigh.profile_idc(), 100);
    assert_eq!(Profile::High10Intra.profile_idc(), 110);
    assert_eq!(Profile::High422Intra.profile_idc(), 122);
    assert_eq!(Profile::High444Intra.profile_idc(), 244);
    assert_eq!(Profile::ScalableConstrainedBaseline.profile_idc(), 83);
    assert_eq!(Profile::ScalableConstrainedHigh.profile_idc(), 86);
    assert_eq!(Profile::ScalableHighIntra.profile_idc(), 86);
}

/// Decodes an SPS NAL, compares it with `sps` and its picture size, and checks that writing
/// it back gives a sequence parameter set equal to it.
fn check_sps(byts: &[u8], sps: SeqParameterSet, width: u32, height: u32) {
    let sps_rbsp = decode_nal(byts).unwrap();
    let sps2 = SeqParameterSet::from_bits(BitReader::new(&sps_rbsp)).unwrap();
    let (width2, height2) = sps2.pixel_dimensions().unwrap();
    assert_eq!(sps, sps2);
    assert_eq!(width, width2);
    assert_eq!(height, height2);

    let mut bw = BitWriter::new(Vec::new());
    sps2.write_bits(&mut bw).unwrap();
    let written = bw.into_writer();
    let sps3 = SeqParameterSet::from_bits(BitReader::new(&written)).unwrap();
    assert_eq!(sps, sps3, "structural round-trip mismatch");
}

/// Encodes and decodes an SPS from raw NAL bytes, asserting structural and byte-level
/// round-trip equivalence.
fn check_round_trip(byts: &[u8]) {
    let sps_rbsp = decode_nal(byts).unwrap();
    let sps = SeqParameterSet::from_bits(BitReader::new(&sps_rbsp)).unwrap();

    // Write RBSP into a plain Vec (no emulation prevention).
    let mut bw = BitWriter::new(Vec::new());
    sps.write_bits(&mut bw).unwrap();
    let written_rbsp = bw.into_writer();

    // Re-decode and check structural equality.
    let sps2 = SeqParameterSet::from_bits(BitReader::new(&written_rbsp)).unwrap();
    assert_eq!(sps, sps2, "structural round-trip mismatch");

    // Byte-level: encode(decode(sps_rbsp)) == sps_rbsp.
    assert_eq!(&*written_rbsp, &*sps_rbsp, "byte-level round-trip mismatch");

    // Also exercise the full NAL path: header byte, then the escaped RBSP.
    let hdr = NalHeader::new(byts[0]).unwrap();
    let mut w = ByteWriter::new(vec![hdr.value()]);
    w.write_all(&written_rbsp).unwrap();
    let nal_bytes = w.into_writer();
    assert_eq!(&nal_bytes[..], byts);
    let nal_rbsp = decode_nal(&nal_bytes).unwrap();
    let sps3 = SeqParameterSet::from_bits(BitReader::new(&nal_rbsp)).unwrap();
    assert_eq!(sps, sps3, "NAL round-trip mismatch");
}

#[test]
fn write_bits_rejects_inconsistent_scaling_lists() {
    let mut sps = sps_with_cropping(0);
    sps.profile_idc = ProfileIdc::from(100);
    sps.chroma_info.chroma_format = ChromaFormat::YUV420;
    sps.chroma_info.scaling_matrix = Some(Box::new(SeqScalingMatrix::new(
        ScalingLists4x4::new(vec![None, None, None, None, None, None]),
        ScalingLists8x8::YCbCr(vec![None, None, None, None, None, None]),
    )));
    let mut bw = BitWriter::new(Vec::new());
    assert_eq!(sps.write_bits(&mut bw).unwrap_err().kind(), ErrorKind::InvalidData);
}

#[test]
fn write_bits_rejects_oversized_field() {
    let mut sps = sps_with_cropping(0);
    sps.vui_parameters = Some(VuiParameters {
        video_signal_type: Some(VideoSignalType {
            video_format: VideoFormat::Reserved(9),
            video_full_range_flag: false,
            colour_description: None,
        }),
        ..VuiParameters::default()
    });
    let mut bw = BitWriter::new(Vec::new());
    assert_eq!(sps.write_bits(&mut bw).unwrap_err().kind(), ErrorKind::InvalidInput);
}

#[test]
fn write_bits_hrd_and_restrictions() {
    let mut sps = sps_with_cropping(1);
    sps.profile_idc = ProfileIdc::from(66);
    sps.chroma_info.chroma_format = ChromaFormat::YUV420;
    sps.max_num_ref_frames = 1;
    sps.pic_order_cnt = PicOrderCntType::TypeOne {
        delta_pic_order_always_zero_flag: false,
        offset_for_non_ref_pic: -3,
        offset_for_top_to_bottom_field: 7,
        offsets_for_ref_frame: vec![1, -1, 0],
    };
    sps.frame_mbs_flags = FrameMbsFlags::Fields { mb_adaptive_frame_field_flag: true };
    sps.vui_parameters = Some(VuiParameters {
        aspect_ratio_info: Some(AspectRatioInfo::Extended(4, 3)),
        overscan_appropriate: OverscanAppropriate::Inappropriate,
        nal_hrd_parameters: Some(HrdParameters {
            bit_rate_scale: 4,
            cpb_size_scale: 3,
            cpb_specs: vec![CpbSpec { bit_rate_value_minus1: 100, cpb_size_value_minus1: 200, cbr_flag: true }],
            initial_cpb_removal_delay_length_minus1: 23,
            cpb_removal_delay_length_minus1: 23,
            dpb_output_delay_length_minus1: 23,
            time_offset_length: 24,
        }),
        low_delay_hrd_flag: Some(false),
        pic_struct_present_flag: true,
        bitstream_restrictions: Some(BitstreamRestrictions {
            motion_vectors_over_pic_boundaries_flag: true,
            max_bytes_per_pic_denom: 2,
            max_bits_per_mb_denom: 1,
            log2_max_mv_length_horizontal: 16,
            log2_max_mv_length_vertical: 16,
            max_num_reorder_frames: 0,
            max_dec_frame_buffering: 1,
        }),
        ..VuiParameters::default()
    });
    let mut bw = BitWriter::new(Vec::new());
    sps.write_bits(&mut bw).unwrap();
    let written = bw.into_writer();
    let sps2 = SeqParameterSet::from_bits(BitReader::new(&written)).unwrap();
    assert_eq!(sps, sps2);
}

#[test]
fn write_bits_appends_to_existing_bytes() {
    let data = hex(
        "64 00 0A AC 72 84 44 26 84 00 00
        00 04 00 00 00 CA 3C 48 96 11 80",
    );
    let sps = SeqParameterSet::from_bits(BitReader::new(&data[..])).unwrap();
    let mut bw = BitWriter::new(vec![0x42]);
    sps.write_bits(&mut bw).unwrap();
    let written = bw.into_writer();
    assert_eq!(written[0], 0x42);
    assert_eq!(&written[1..], &data[..]);
}

#[test]
fn sps_352x288() {
    check_sps(
        &vec![
            0x67, 0x64, 0x00, 0x0c, 0xac, 0x3b, 0x50, 0xb0,
            0x4b, 0x42, 0x00, 0x00, 0x03, 0x00, 0x02, 0x00,
            0x00, 0x03, 0x00, 0x3d, 0x08,
        ],
        SeqParameterSet{
            profile_idc: ProfileIdc::from(100),
            constraint_flags: ConstraintFlags::from(0),
            level_idc: 12,
            seq_parameter_set_id: SeqParamSetId::from_u32(0).unwrap(),
            chroma_info: ChromaInfo{
                chroma_format: ChromaFormat::YUV420,
                ..ChromaInfo::default()
            },
            log2_max_frame_num_minus4: 6,
            pic_order_cnt: PicOrderCntType::TypeTwo,
            max_num_ref_frames: 1,
            gaps_in_frame_num_value_allowed_flag: true,
            pic_width_in_mbs_minus1: 21,
            pic_height_in_map_units_minus1: 17,
            frame_mbs_flags: FrameMbsFlags::Frames,
            direct_8x8_inference_flag: true,
            frame_cropping: None,
            vui_parameters: Some(VuiParameters{
                timing_info: Some(TimingInfo{
                    num_units_in_tick: 1,
                    time_scale: 30,
                    fixed_frame_rate_flag: true,
                }),
                ..VuiParameters::default()
            }),
        },
        352,
        288,
    );
}

#[test]
fn sps_1280x720() {
    check_sps(
        &vec![
            0x67, 0x64, 0x00, 0x1f, 0xac, 0xd9, 0x40, 0x50,
            0x05, 0xbb, 0x01, 0x6c, 0x80, 0x00, 0x00, 0x03,
            0x00, 0x80, 0x00, 0x00, 0x1e, 0x07, 0x8c, 0x18,
            0xcb,
        ],
        SeqParameterSet{
            profile_idc: ProfileIdc::from(100),
            constraint_flags: ConstraintFlags::from(0),
            level_idc: 31,
            seq_parameter_set_id: SeqParamSetId::from_u32(0).unwrap(),
            chroma_info: ChromaInfo{
                chroma_format: ChromaFormat::YUV420,
                ..ChromaInfo::default()
            },
            log2_max_frame_num_minus4: 0,
            pic_order_cnt: PicOrderCntType::TypeZero {
                log2_max_pic_order_cnt_lsb_minus4: 2
            },
            max_num_ref_frames: 4,
            gaps_in_frame_num_value_allowed_flag: false,
            pic_width_in_mbs_minus1: 79,
            pic_height_in_map_units_minus1: 44,
            frame_mbs_flags: FrameMbsFlags::Frames,
            direct_8x8_inference_flag: true,
            frame_cropping: None,
            vui_parameters: Some(VuiParameters{
                aspect_ratio_info: Some(AspectRatioInfo::Ratio1_1),
                video_signal_type: Some(VideoSignalType{
                    video_format: VideoFormat::Unspecified,
                    video_full_range_flag: true,
                    colour_description: None,
                }),
                timing_info: Some(TimingInfo{
                    num_units_in_tick: 1,
                    time_scale: 60,
                    fixed_frame_rate_flag: false,
                }),
                bitstream_restrictions: Some(BitstreamRestrictions{
                    motion_vectors_over_pic_boundaries_flag: true,
                    log2_max_mv_length_horizontal: 11,
                    log2_max_mv_length_vertical: 11,
                    max_num_reorder_frames: 2,
                    max_dec_frame_buffering: 4,
                    ..BitstreamRestrictions::default()
                }),
                ..VuiParameters::default()
            }),
        },
        1280,
        720,
    );
}

#[test]
fn sps_1920x1080_baseline() {
    check_sps(
        &vec![
            0x67, 0x42, 0xc0, 0x28, 0xd9, 0x00, 0x78, 0x02,
            0x27, 0xe5, 0x84, 0x00, 0x00, 0x03, 0x00, 0x04,
            0x00, 0x00, 0x03, 0x00, 0xf0, 0x3c, 0x60, 0xc9, 0x20,
        ],
        SeqParameterSet{
            profile_idc: ProfileIdc::from(66),
            constraint_flags: ConstraintFlags::from(0b11000000),
            level_idc: 40,
            seq_parameter_set_id: SeqParamSetId::from_u32(0).unwrap(),
            chroma_info: ChromaInfo{
                chroma_format: ChromaFormat::YUV420,
                ..ChromaInfo::default()
            },
            log2_max_frame_num_minus4: 0,
            pic_order_cnt: PicOrderCntType::TypeTwo,
            max_num_ref_frames: 3,
            gaps_in_frame_num_value_allowed_flag: false,
            pic_width_in_mbs_minus1: 119,
            pic_height_in_map_units_minus1: 67,
            frame_mbs_flags: FrameMbsFlags::Frames,
            direct_8x8_inference_flag: true,
            frame_cropping: Some(FrameCropping{
                bottom_offset: 4,
                ..FrameCropping::default()
            }),
            vui_parameters: Some(VuiParameters{
                timing_info: Some(TimingInfo{
                    num_units_in_tick: 1,
                    time_scale:      60,
                    fixed_frame_rate_flag: false,
                }),
                bitstream_restrictions: Some(BitstreamRestrictions{
                    motion_vectors_over_pic_boundaries_flag: true,
                    log2_max_mv_length_horizontal: 11,
                    log2_max_mv_length_vertical: 11,
                    max_dec_frame_buffering: 3,
                    ..BitstreamRestrictions::default()
                }),
                ..VuiParameters::default()
            }),
        },
        1920,
        1080,
    );
}

#[test]
fn sps_1920x1080_nvidia() {
    check_sps(
        &vec![
            0x67, 0x64, 0x00, 0x28, 0xac, 0xd9, 0x40, 0x78,
            0x02, 0x27, 0xe5, 0x84, 0x00, 0x00, 0x03, 0x00,
            0x04, 0x00, 0x00, 0x03, 0x00, 0xf0, 0x3c, 0x60,
            0xc6, 0x58,
        ],
        SeqParameterSet{
            profile_idc: ProfileIdc::from(100),
            constraint_flags: ConstraintFlags::from(0),
            level_idc: 40,
            seq_parameter_set_id: SeqParamSetId::from_u32(0).unwrap(),
            chroma_info: ChromaInfo{
                chroma_format: ChromaFormat::YUV420,
                ..ChromaInfo::default()
            },
            log2_max_frame_num_minus4: 0,
            pic_order_cnt: PicOrderCntType::TypeZero {
                log2_max_pic_order_cnt_lsb_minus4: 2
            },
            max_num_ref_frames: 4,
            gaps_in_frame_num_value_allowed_flag: false,
            pic_width_in_mbs_minus1: 119,
            pic_height_in_map_units_minus1: 67,
            frame_mbs_flags: FrameMbsFlags::Frames,
            direct_8x8_inference_flag: true,
            frame_cropping: Some(FrameCropping{
                bottom_offset: 4,
                ..FrameCropping::default()
            }),
            vui_parameters: Some(VuiParameters{
                timing_info: Some(TimingInfo{
                    num_units_in_tick: 1,
                    time_scale: 60,
                    fixed_frame_rate_flag: false,
                }),
                bitstream_restrictions: Some(BitstreamRestrictions{
                    motion_vectors_over_pic_boundaries_flag: true,
                    log2_max_mv_length_horizontal: 11,
                    log2_max_mv_length_vertical: 11,
                    max_num_reorder_frames: 2,
                    max_dec_frame_buffering: 4,
                    ..BitstreamRestrictions::default()
                }),
                ..VuiParameters::default()
            }),
        },
        1920,
        1080,
    );
}

#[test]
fn sps_hikvision() {
    check_sps(
        &vec![103, 100, 0, 32, 172, 23, 42, 1, 64, 30, 104, 64, 0, 1, 194, 0, 0, 87, 228, 33],
        SeqParameterSet{
            profile_idc: ProfileIdc::from(100),
            constraint_flags: ConstraintFlags::from(0),
            level_idc: 32,
            seq_parameter_set_id: SeqParamSetId::from_u32(0).unwrap(),
            chroma_info: ChromaInfo{
                chroma_format: ChromaFormat::YUV420,
                ..ChromaInfo::default()
            },
            log2_max_frame_num_minus4: 10,
            pic_order_cnt: PicOrderCntType::TypeZero {
                log2_max_pic_order_cnt_lsb_minus4: 4
            },
            max_num_ref_frames: 1,
            gaps_in_frame_num_value_allowed_flag: false,
            pic_width_in_mbs_minus1: 79,
            pic_height_in_map_units_minus1: 59,
            frame_mbs_flags: FrameMbsFlags::Frames,
            direct_8x8_inference_flag: true,
            frame_cropping: None,
            vui_parameters: Some(VuiParameters{
                timing_info: Some(TimingInfo{
                    num_units_in_tick: 1800,
                    time_scale: 90000,
                    fixed_frame_rate_flag: true,
                }),
                ..VuiParameters::default()
            }),
        },
        1280,
        960,
    );
}

#[test]
fn sps_scaling_matrix() {
    check_sps(
        &vec![
            103, 100, 0, 50, 173, 132, 99, 210, 73, 36, 146, 73, 37, 8, 127,
            255, 132, 63, 255, 194, 31, 255, 225, 15, 255, 225, 218,
            128, 160, 2, 214, 155, 128, 128, 128, 160, 0, 0, 3, 0, 32, 0, 0, 5, 16, 128
        ],
        SeqParameterSet{
            profile_idc: ProfileIdc::from(100),
            constraint_flags: ConstraintFlags::from(0),
            level_idc: 50,
            seq_parameter_set_id: SeqParamSetId::from_u32(0).unwrap(),
            chroma_info: ChromaInfo{
                chroma_format: ChromaFormat::YUV420,
                scaling_matrix: Some(Box::new(SeqScalingMatrix::new(
                    ScalingLists4x4::new(vec![
                        Some(vec![0; 16]),
                        Some(vec![1, 2, 3, 4, 5, 6, 7, 8, 9, 10, 11, 12, 13, 14, 15, 16]),
                        Some(vec![16u8; 16]),
                        Some(vec![16u8; 16]),
                        Some(vec![16u8; 16]),
                        Some(vec![16u8; 16]),
                    ]),
                    ScalingLists8x8::Y(vec![None, None]),
                ))),
                ..ChromaInfo::default()
            },
            log2_max_frame_num_minus4: 6,
            pic_order_cnt: PicOrderCntType::TypeTwo,
            max_num_ref_frames: 1,
            gaps_in_frame_num_value_allowed_flag: true,
            pic_width_in_mbs_minus1: 159,
            pic_height_in_map_units_minus1: 89,
            frame_mbs_flags: FrameMbsFlags::Frames,
            direct_8x8_inference_flag: true,
            frame_cropping: None,
            vui_parameters: Some(VuiParameters{
                video_signal_type: Some(VideoSignalType{
                    video_format: VideoFormat::Unspecified,
                    video_full_range_flag: true,
                    colour_description: Some(ColourDescription{
                        colour_primaries: 1,
                        transfer_characteristics: 1,
                        matrix_coefficients: 1,
                    }),
                }),
                timing_info: Some(TimingInfo{
                    num_units_in_tick: 1,
                    time_scale: 40,
                    fixed_frame_rate_flag: true,
                }),
                ..VuiParameters::default()
            }),
        },
        2560,
        1440,
    );
}

#[test]
fn sps_1920x1080_nvenc_hrd() {
    check_sps(
        &vec![
            103, 100, 0, 42, 172, 44, 172, 7,
            128, 34, 126, 92, 5, 168, 8, 8,
            10, 0, 0, 7, 208, 0, 3, 169,
            129, 192, 0, 0, 76, 75, 0, 0,
            38, 37, 173, 222, 92, 20,
        ],
        SeqParameterSet{
            profile_idc: ProfileIdc::from(100),
            constraint_flags: ConstraintFlags::from(0),
            level_idc: 42,
            seq_parameter_set_id: SeqParamSetId::from_u32(0).unwrap(),
            chroma_info: ChromaInfo{
                chroma_format: ChromaFormat::YUV420,
                ..ChromaInfo::default()
            },
            log2_max_frame_num_minus4: 4,
            pic_order_cnt: PicOrderCntType::TypeZero {
                log2_max_pic_order_cnt_lsb_minus4: 4
            },
            max_num_ref_frames: 2,
            gaps_in_frame_num_value_allowed_flag: false,
            pic_width_in_mbs_minus1: 119,
            pic_height_in_map_units_minus1: 67,
            frame_mbs_flags: FrameMbsFlags::Frames,
            direct_8x8_inference_flag: true,
            frame_cropping: Some(FrameCropping{
                bottom_offset: 4,
                ..FrameCropping::default()
            }),
            vui_parameters: Some(VuiParameters{
                aspect_ratio_info: Some(AspectRatioInfo::Ratio1_1),
                video_signal_type: Some(VideoSignalType{
                    video_format: VideoFormat::Unspecified,
                    video_full_range_flag: false,
                    colour_description: Some(ColourDescription{
                        colour_primaries: 1,
                        transfer_characteristics: 1,
                        matrix_coefficients: 1,
                    }),
                }),
                timing_info: Some(TimingInfo{
                    num_units_in_tick: 1000,
                    time_scale: 120000,
                    fixed_frame_rate_flag: true,
                }),
                nal_hrd_parameters: Some(HrdParameters{
                    cpb_specs: vec![CpbSpec{
                        bit_rate_value_minus1: 39061,
                        cpb_size_value_minus1: 156249,
                        cbr_flag: true,
                    }],
                    initial_cpb_removal_delay_length_minus1: 23,
                    cpb_removal_delay_length_minus1: 15,
                    dpb_output_delay_length_minus1: 5,
                    time_offset_length: 24,
                    ..HrdParameters::default()
                }),
                low_delay_hrd_flag: Some(false),
                pic_struct_present_flag: true,
                ..VuiParameters::default()
            }),
        },
        1920,
        1080,
    );
}

#[test]
fn sps_1920x1080_hikvision_nal_hrd_vcl_hrd() {
    check_sps(
        &vec![
            103, 77, 0, 41, 154, 100, 3, 192,
            17, 63, 46, 2, 220, 4, 4, 5,
            0, 0, 3, 3, 232, 0, 0, 195,
            80, 232, 96, 0, 186, 180, 0, 2,
            234, 196, 187, 203, 141, 12, 0, 23,
            86, 128, 0, 93, 88, 151, 121, 112,
            160,
        ],
        SeqParameterSet{
            profile_idc: ProfileIdc::from(77),
            constraint_flags: ConstraintFlags::from(0),
            level_idc: 41,
            seq_parameter_set_id: SeqParamSetId::from_u32(0).unwrap(),
            chroma_info: ChromaInfo{
                chroma_format: ChromaFormat::YUV420,
                ..ChromaInfo::default()
            },
            log2_max_frame_num_minus4: 5,
            pic_order_cnt: PicOrderCntType::TypeZero {
                log2_max_pic_order_cnt_lsb_minus4: 5
            },
            max_num_ref_frames: 1,
            gaps_in_frame_num_value_allowed_flag: false,
            pic_width_in_mbs_minus1: 119,
            pic_height_in_map_units_minus1: 67,
            frame_mbs_flags: FrameMbsFlags::Frames,
            direct_8x8_inference_flag: true,
            frame_cropping: Some(FrameCropping{
                bottom_offset: 4,
                ..FrameCropping::default()
            }),
            vui_parameters: Some(VuiParameters{
                aspect_ratio_info: Some(AspectRatioInfo::Ratio1_1),
                video_signal_type: Some(VideoSignalType{
                    video_format: VideoFormat::Unspecified,
                    video_full_range_flag: true,
                    colour_description: Some(ColourDescription{
                        colour_primaries: 1,
                        transfer_characteristics: 1,
                        matrix_coefficients: 1,
                    }),
                }),
                timing_info: Some(TimingInfo{
                    num_units_in_tick: 1000,
                    time_scale: 50000,
                    fixed_frame_rate_flag: true,
                }),
                nal_hrd_parameters: Some(HrdParameters{
                    bit_rate_scale: 4,
                    cpb_size_scale: 3,
                    cpb_specs: vec![CpbSpec{
                        bit_rate_value_minus1: 11948,
                        cpb_size_value_minus1: 95585,
                        cbr_flag: false,
                    }],
                    initial_cpb_removal_delay_length_minus1: 23,
                    cpb_removal_delay_length_minus1: 15,
                    dpb_output_delay_length_minus1: 5,
                    time_offset_length: 24,
                }),
                vcl_hrd_parameters: Some(HrdParameters{
                    bit_rate_scale: 4,
                    cpb_size_scale: 3,
                    cpb_specs: vec![CpbSpec{
                        bit_rate_value_minus1: 11948,
                        cpb_size_value_minus1: 95585,
                        cbr_flag: false,
                    }],
                    initial_cpb_removal_delay_length_minus1: 23,
                    cpb_removal_delay_length_minus1: 15,
                    dpb_output_delay_length_minus1: 5,
                    time_offset_length: 24,
                    ..HrdParameters::default()
                }),
                low_delay_hrd_flag: Some(false),
                pic_struct_present_flag: true,
                ..VuiParameters::default()
            }),
        },
        1920,
        1080,
    );
}

#[test]
fn round_trip_352x288() {
    check_round_trip(&[
        0x67, 0x64, 0x00, 0x0c, 0xac, 0x3b, 0x50, 0xb0,
        0x4b, 0x42, 0x00, 0x00, 0x03, 0x00, 0x02, 0x00,
        0x00, 0x03, 0x00, 0x3d, 0x08,
    ]);
}

#[test]
fn round_trip_1280x720() {
    check_round_trip(&[
        0x67, 0x64, 0x00, 0x1f, 0xac, 0xd9, 0x40, 0x50,
        0x05, 0xbb, 0x01, 0x6c, 0x80, 0x00, 0x00, 0x03,
        0x00, 0x80, 0x00, 0x00, 0x1e, 0x07, 0x8c, 0x18,
        0xcb,
    ]);
}

#[test]
fn round_trip_dahua_anamorphic() {
    check_round_trip(&[
        0x67, 0x64, 0x00, 0x16, 0xac, 0x1b, 0x1a, 0x80,
        0xb0, 0x3d, 0xff, 0xff, 0x00, 0x28, 0x00, 0x21,
        0x6e, 0x0c, 0x0c, 0x0c, 0x80, 0x00, 0x01, 0xf4,
        0x00, 0x00, 0x27, 0x10, 0x74, 0x30, 0x07, 0xd0,
        0x00, 0x07, 0xa1, 0x25, 0xde, 0x5c, 0x68, 0x60,
        0x0f, 0xa0, 0x00, 0x0f, 0x42, 0x4b, 0xbc, 0xb8,
        0x50,
    ]);
}

#[test]
fn round_trip_existing_test_sps_0() {
    check_round_trip(&vec![
            0x67, 0x64, 0x00, 0x0A, 0xAC, 0x72, 0x84, 0x44,
            0x26, 0x84, 0x00, 0x00, 0x03, 0x00, 0x04, 0x00,
            0x00, 0x03, 0x00, 0xCA, 0x3C, 0x48, 0x96, 0x11,
            0x80,
        ]);
}

#[test]
fn rfc6381_names_profile_flags_and_level() {
    let data = hex(
        "64 00 0A AC 72 84 44 26 84 00 00
        00 04 00 00 00 CA 3C 48 96 11 80",
    );
    let sps = SeqParameterSet::from_bits(BitReader::new(&data[..])).unwrap();
    assert_eq!(sps.rfc6381().to_string(), "avc1.64000A");
}

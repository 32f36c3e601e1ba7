use h264_reader::nal::slice::macroblock::{
    coded_block_pattern_from_me, i_mb_type_info, p_mb_type_info, p_sub_mb_type_info, IMbTypeInfo, MbPartPredMode,
    MbTypeError, PMbTypeInfo, SubMbTypeInfo,
};
#[test]
fn i_mb_type_0_is_inxn() {
    let info = i_mb_type_info(0).unwrap();
    assert_eq!(info, IMbTypeInfo::INxN);
    assert_eq!(info.pred_mode(), MbPartPredMode::Intra4x4);
}

#[test]
fn i_mb_type_1_is_i16x16_0_0_0() {
    let info = i_mb_type_info(1).unwrap();
    assert_eq!(
        info,
        IMbTypeInfo::I16x16 {
            intra16x16_pred_mode: 0,
            coded_block_pattern_chroma: 0,
            coded_block_pattern_luma: 0,
        }
    );
    assert_eq!(info.pred_mode(), MbPartPredMode::Intra16x16);
}

#[test]
fn i_mb_type_2_is_i16x16_1_0_0() {
    let info = i_mb_type_info(2).unwrap();
    assert_eq!(
        info,
        IMbTypeInfo::I16x16 {
            intra16x16_pred_mode: 1,
            coded_block_pattern_chroma: 0,
            coded_block_pattern_luma: 0,
        }
    );
}

#[test]
fn i_mb_type_5_is_i16x16_0_1_0() {
    let info = i_mb_type_info(5).unwrap();
    assert_eq!(
        info,
        IMbTypeInfo::I16x16 {
            intra16x16_pred_mode: 0,
            coded_block_pattern_chroma: 1,
            coded_block_pattern_luma: 0,
        }
    );
}

#[test]
fn i_mb_type_13_is_i16x16_0_0_1() {
    let info = i_mb_type_info(13).unwrap();
    assert_eq!(
        info,
        IMbTypeInfo::I16x16 {
            intra16x16_pred_mode: 0,
            coded_block_pattern_chroma: 0,
            coded_block_pattern_luma: 15,
        }
    );
}

#[test]
fn i_mb_type_24_is_i16x16_3_2_1() {
    let info = i_mb_type_info(24).unwrap();
    assert_eq!(
        info,
        IMbTypeInfo::I16x16 {
            intra16x16_pred_mode: 3,
            coded_block_pattern_chroma: 2,
            coded_block_pattern_luma: 15,
        }
    );
}

#[test]
fn i_mb_type_25_is_ipcm() {
    let info = i_mb_type_info(25).unwrap();
    assert_eq!(info, IMbTypeInfo::IPCM);
}

#[test]
fn i_mb_type_26_is_invalid() {
    assert_eq!(i_mb_type_info(26), Err(MbTypeError::InvalidIMbType(26)));
}

#[test]
fn p_mb_type_0_is_p_l0_16x16() {
    let info = p_mb_type_info(0).unwrap();
    assert_eq!(
        info,
        PMbTypeInfo::P {
            num_parts: 1,
            pred_mode: MbPartPredMode::PredL0,
            part_width: 16,
            part_height: 16,
            ref_idx_forced_zero: false,
        }
    );
    assert_eq!(info.num_parts(), 1);
}

#[test]
fn p_mb_type_1_is_p_l0_l0_16x8() {
    let info = p_mb_type_info(1).unwrap();
    assert_eq!(info.num_parts(), 2);
    assert_eq!(info.part_width(), 16);
    assert_eq!(info.part_height(), 8);
}

#[test]
fn p_mb_type_2_is_p_l0_l0_8x16() {
    let info = p_mb_type_info(2).unwrap();
    assert_eq!(info.num_parts(), 2);
    assert_eq!(info.part_width(), 8);
    assert_eq!(info.part_height(), 16);
}

#[test]
fn p_mb_type_3_is_p_8x8() {
    let info = p_mb_type_info(3).unwrap();
    assert_eq!(info.num_parts(), 4);
    assert_eq!(info.part_width(), 8);
    assert_eq!(info.part_height(), 8);
}

#[test]
fn p_mb_type_4_is_p_8x8ref0() {
    let info = p_mb_type_info(4).unwrap();
    match info {
        PMbTypeInfo::P {
            ref_idx_forced_zero,
            ..
        } => assert!(ref_idx_forced_zero),
        _ => panic!("expected P type"),
    }
}

#[test]
fn p_mb_type_5_maps_to_inxn() {
    let info = p_mb_type_info(5).unwrap();
    assert_eq!(info, PMbTypeInfo::I(IMbTypeInfo::INxN));
}

#[test]
fn p_mb_type_6_maps_to_i16x16_0_0_0() {
    let info = p_mb_type_info(6).unwrap();
    assert_eq!(
        info,
        PMbTypeInfo::I(IMbTypeInfo::I16x16 {
            intra16x16_pred_mode: 0,
            coded_block_pattern_chroma: 0,
            coded_block_pattern_luma: 0,
        })
    );
}

#[test]
fn p_mb_type_30_maps_to_ipcm() {
    let info = p_mb_type_info(30).unwrap();
    assert_eq!(info, PMbTypeInfo::I(IMbTypeInfo::IPCM));
}

#[test]
fn p_mb_type_31_is_invalid() {
    assert_eq!(p_mb_type_info(31), Err(MbTypeError::InvalidPMbType(31)));
}

#[test]
fn p_sub_mb_type_0_is_8x8() {
    let info = p_sub_mb_type_info(0).unwrap();
    assert_eq!(
        info,
        SubMbTypeInfo {
            num_sub_parts: 1,
            sub_part_width: 8,
            sub_part_height: 8,
            pred_mode: MbPartPredMode::PredL0,
        }
    );
}

#[test]
fn p_sub_mb_type_1_is_8x4() {
    let info = p_sub_mb_type_info(1).unwrap();
    assert_eq!(info.num_sub_parts, 2);
    assert_eq!(info.sub_part_width, 8);
    assert_eq!(info.sub_part_height, 4);
}

#[test]
fn p_sub_mb_type_2_is_4x8() {
    let info = p_sub_mb_type_info(2).unwrap();
    assert_eq!(info.num_sub_parts, 2);
    assert_eq!(info.sub_part_width, 4);
    assert_eq!(info.sub_part_height, 8);
}

#[test]
fn p_sub_mb_type_3_is_4x4() {
    let info = p_sub_mb_type_info(3).unwrap();
    assert_eq!(info.num_sub_parts, 4);
    assert_eq!(info.sub_part_width, 4);
    assert_eq!(info.sub_part_height, 4);
}

#[test]
fn p_sub_mb_type_4_is_invalid() {
    assert_eq!(
        p_sub_mb_type_info(4),
        Err(MbTypeError::InvalidPSubMbType(4))
    );
}

#[test]
fn cbp_intra_code_num_0_gives_15_2() {
    let (luma, chroma) = coded_block_pattern_from_me(0, true).unwrap();
    assert_eq!(luma, 15);
    assert_eq!(chroma, 2);
}

#[test]
fn cbp_inter_code_num_0_gives_0_0() {
    let (luma, chroma) = coded_block_pattern_from_me(0, false).unwrap();
    assert_eq!(luma, 0);
    assert_eq!(chroma, 0);
}

#[test]
fn cbp_intra_code_num_3_gives_0_0() {
    let (luma, chroma) = coded_block_pattern_from_me(3, true).unwrap();
    assert_eq!(luma, 0);
    assert_eq!(chroma, 0);
}

#[test]
fn cbp_inter_code_num_1_gives_0_1() {
    let (luma, chroma) = coded_block_pattern_from_me(1, false).unwrap();
    assert_eq!(luma, 0);
    assert_eq!(chroma, 1);
}

#[test]
fn cbp_inter_code_num_11_gives_15_0() {
    let (luma, chroma) = coded_block_pattern_from_me(11, false).unwrap();
    assert_eq!(luma, 15);
    assert_eq!(chroma, 0);
}

#[test]
fn cbp_code_num_47_is_valid() {
    assert!(coded_block_pattern_from_me(47, true).is_some());
    assert!(coded_block_pattern_from_me(47, false).is_some());
}

#[test]
fn cbp_code_num_48_is_invalid() {
    assert!(coded_block_pattern_from_me(48, true).is_none());
    assert!(coded_block_pattern_from_me(48, false).is_none());
}

#[test]
fn all_i_mb_types_valid() {
    for mb_type in 0..=25 {
        assert!(
            i_mb_type_info(mb_type).is_ok(),
            "mb_type {} should be valid",
            mb_type
        );
    }
}

#[test]
fn all_i16x16_pred_modes_in_range() {
    for mb_type in 1..=24 {
        if let IMbTypeInfo::I16x16 {
            intra16x16_pred_mode,
            coded_block_pattern_chroma,
            ..
        } = i_mb_type_info(mb_type).unwrap()
        {
            assert!(
                intra16x16_pred_mode <= 3,
                "pred_mode out of range for mb_type {}",
                mb_type
            );
            assert!(
                coded_block_pattern_chroma <= 2,
                "cbp_chroma out of range for mb_type {}",
                mb_type
            );
        }
    }
}

#[test]
fn cbp_intra_and_inter_tables_are_permutations() {
    for is_intra in [true, false] {
        let mut seen = std::collections::HashSet::new();
        for code_num in 0..48 {
            let (luma, chroma) = coded_block_pattern_from_me(code_num, is_intra).unwrap();
            assert!(luma <= 15 && chroma <= 2);
            assert!(seen.insert((luma, chroma)));
        }
        assert_eq!(seen.len(), 48);
    }
}

#[test]
fn i_mb_type_pred_modes() {
    assert_eq!(i_mb_type_info(25).unwrap().pred_mode(), MbPartPredMode::Intra4x4);
    assert_eq!(i_mb_type_info(12).unwrap().pred_mode(), MbPartPredMode::Intra16x16);
}

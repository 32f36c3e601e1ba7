//! Macroblock type definitions for H.264 baseline profile.

use vstd::prelude::*;

verus! {

#[derive(Debug, Clone, Copy, PartialEq, Eq, Structural)]
pub enum MbPartPredMode {
    Intra4x4,
    Intra8x8,
    Intra16x16,
    PredL0,
    Direct,
}

#[derive(Debug, Clone, Copy, PartialEq, Eq, Structural)]
pub enum MbTypeError {
    InvalidIMbType(u32),
    InvalidPMbType(u32),
    InvalidPSubMbType(u32),
    InvalidCodedBlockPatternCodeNum(u32),
}

#[derive(Debug, Clone, Copy, PartialEq, Eq, Structural)]
pub enum IMbTypeInfo {
    INxN,
    I16x16 { intra16x16_pred_mode: u8, coded_block_pattern_chroma: u8, coded_block_pattern_luma: u8 },
    IPCM,
}

/// Prediction mode of an I macroblock type (Table 7-11).
pub open spec fn spec_i_pred_mode(info: IMbTypeInfo) -> MbPartPredMode {
    match info {
        IMbTypeInfo::I16x16 { .. } => MbPartPredMode::Intra16x16,
        _ => MbPartPredMode::Intra4x4,
    }
}

impl IMbTypeInfo {
    pub fn pred_mode(&self) -> (r: MbPartPredMode)
        ensures
            r == spec_i_pred_mode(*self),
    {
        match self {
            IMbTypeInfo::INxN => MbPartPredMode::Intra4x4,
            IMbTypeInfo::I16x16 { .. } => MbPartPredMode::Intra16x16,
            IMbTypeInfo::IPCM => MbPartPredMode::Intra4x4,
        }
    }

    pub fn num_parts(&self) -> (r: u8)
        ensures
            r == 1,
    {
        1
    }

    pub fn part_width(&self) -> (r: u8)
        ensures
            r == 16,
    {
        16
    }

    pub fn part_height(&self) -> (r: u8)
        ensures
            r == 16,
    {
        16
    }
}

/// The I macroblock type for `mb_type` (Table 7-11): `0` is `I_NxN`, `1..=24` are the
/// `I_16x16_<pred>_<chroma>_<luma>` types in order, `25` is `I_PCM`.
pub open spec fn spec_i_mb_type_info(mb_type: u32) -> Result<IMbTypeInfo, MbTypeError> {
    if mb_type == 0 {
        Ok(IMbTypeInfo::INxN)
    } else if mb_type <= 24 {
        let val = mb_type - 1;
        Ok(IMbTypeInfo::I16x16 {
            intra16x16_pred_mode: (val % 4) as u8,
            coded_block_pattern_chroma: ((val % 12) / 4) as u8,
            coded_block_pattern_luma: if val < 12 { 0u8 } else { 15u8 },
        })
    } else if mb_type == 25 {
        Ok(IMbTypeInfo::IPCM)
    } else {
        Err(MbTypeError::InvalidIMbType(mb_type))
    }
}

pub fn i_mb_type_info(mb_type: u32) -> (r: Result<IMbTypeInfo, MbTypeError>)
    ensures
        r == spec_i_mb_type_info(mb_type),
{
    match mb_type {
        0 => Ok(IMbTypeInfo::INxN),
        1..=24 => {
            let val = mb_type - 1;
            let (coded_block_pattern_luma, idx) = if val < 12 {
                (0u8, val)
            } else {
                (15u8, val - 12)
            };
            let intra16x16_pred_mode = (idx % 4) as u8;
            let coded_block_pattern_chroma = (idx / 4) as u8;
            Ok(IMbTypeInfo::I16x16 { intra16x16_pred_mode, coded_block_pattern_chroma, coded_block_pattern_luma })
        },
        25 => Ok(IMbTypeInfo::IPCM),
        _ => Err(MbTypeError::InvalidIMbType(mb_type)),
    }
}

/// Every I macroblock type in `0..=25` is valid, and the `I_16x16` types carry a prediction
/// mode in `0..=3`, a chroma pattern in `0..=2` and a luma pattern of `0` or `15`.
pub proof fn lemma_i_mb_types_in_range(mb_type: u32)
    ensures
        spec_i_mb_type_info(mb_type) is Ok <==> mb_type <= 25,
        spec_i_mb_type_info(mb_type) matches Ok(IMbTypeInfo::I16x16 { intra16x16_pred_mode: p, coded_block_pattern_chroma: c, coded_block_pattern_luma: l })
            ==> p <= 3 && c <= 2 && (l == 0 || l == 15),
{
}

#[derive(Debug, Clone, Copy, PartialEq, Eq, Structural)]
pub enum PMbTypeInfo {
    P { num_parts: u8, pred_mode: MbPartPredMode, part_width: u8, part_height: u8, ref_idx_forced_zero: bool },
    I(IMbTypeInfo),
}

impl PMbTypeInfo {
    pub fn num_parts(&self) -> (r: u8)
        ensures
            r == match *self {
                PMbTypeInfo::P { num_parts, .. } => num_parts,
                PMbTypeInfo::I(_) => 1u8,
            },
    {
        match self {
            PMbTypeInfo::P { num_parts, .. } => *num_parts,
            PMbTypeInfo::I(info) => info.num_parts(),
        }
    }

    pub fn part_width(&self) -> (r: u8)
        ensures
            r == match *self {
                PMbTypeInfo::P { part_width, .. } => part_width,
                PMbTypeInfo::I(_) => 16u8,
            },
    {
        match self {
            PMbTypeInfo::P { part_width, .. } => *part_width,
            PMbTypeInfo::I(info) => info.part_width(),
        }
    }

    pub fn part_height(&self) -> (r: u8)
        ensures
            r == match *self {
                PMbTypeInfo::P { part_height, .. } => part_height,
                PMbTypeInfo::I(_) => 16u8,
            },
    {
        match self {
            PMbTypeInfo::P { part_height, .. } => *part_height,
            PMbTypeInfo::I(info) => info.part_height(),
        }
    }

    pub fn pred_mode(&self) -> (r: MbPartPredMode)
        ensures
            r == match *self {
                PMbTypeInfo::P { pred_mode, .. } => pred_mode,
                PMbTypeInfo::I(info) => spec_i_pred_mode(info),
            },
    {
        match self {
            PMbTypeInfo::P { pred_mode, .. } => *pred_mode,
            PMbTypeInfo::I(info) => info.pred_mode(),
        }
    }
}

/// An inter-predicted P macroblock type with one `Pred_L0` partition size.
pub open spec fn p_partitioned(num_parts: u8, part_width: u8, part_height: u8, ref_idx_forced_zero: bool) -> PMbTypeInfo {
    PMbTypeInfo::P { num_parts, pred_mode: MbPartPredMode::PredL0, part_width, part_height, ref_idx_forced_zero }
}

/// The P macroblock type for `mb_type` (Table 7-13); `5..=30` are the I types shifted by 5.
pub open spec fn spec_p_mb_type_info(mb_type: u32) -> Result<PMbTypeInfo, MbTypeError> {
    if mb_type == 0 {
        Ok(p_partitioned(1, 16, 16, false))
    } else if mb_type == 1 {
        Ok(p_partitioned(2, 16, 8, false))
    } else if mb_type == 2 {
        Ok(p_partitioned(2, 8, 16, false))
    } else if mb_type == 3 {
        Ok(p_partitioned(4, 8, 8, false))
    } else if mb_type == 4 {
        Ok(p_partitioned(4, 8, 8, true))
    } else if mb_type <= 30 {
        match spec_i_mb_type_info((mb_type - 5) as u32) {
            Ok(i) => Ok(PMbTypeInfo::I(i)),
            Err(_) => Err(MbTypeError::InvalidPMbType(mb_type)),
        }
    } else {
        Err(MbTypeError::InvalidPMbType(mb_type))
    }
}

pub fn p_mb_type_info(mb_type: u32) -> (r: Result<PMbTypeInfo, MbTypeError>)
    ensures
        r == spec_p_mb_type_info(mb_type),
{
    match mb_type {
        0 => Ok(PMbTypeInfo::P { num_parts: 1, pred_mode: MbPartPredMode::PredL0, part_width: 16, part_height: 16, ref_idx_forced_zero: false }),
        1 => Ok(PMbTypeInfo::P { num_parts: 2, pred_mode: MbPartPredMode::PredL0, part_width: 16, part_height: 8, ref_idx_forced_zero: false }),
        2 => Ok(PMbTypeInfo::P { num_parts: 2, pred_mode: MbPartPredMode::PredL0, part_width: 8, part_height: 16, ref_idx_forced_zero: false }),
        3 => Ok(PMbTypeInfo::P { num_parts: 4, pred_mode: MbPartPredMode::PredL0, part_width: 8, part_height: 8, ref_idx_forced_zero: false }),
        4 => Ok(PMbTypeInfo::P { num_parts: 4, pred_mode: MbPartPredMode::PredL0, part_width: 8, part_height: 8, ref_idx_forced_zero: true }),
        5..=30 => {
            match i_mb_type_info(mb_type - 5) {
                Ok(i_type) => Ok(PMbTypeInfo::I(i_type)),
                Err(_) => Err(MbTypeError::InvalidPMbType(mb_type)),
            }
        },
        _ => Err(MbTypeError::InvalidPMbType(mb_type)),
    }
}

/// Every P macroblock type in `0..=30` is valid, and those from `5` on are intra types.
pub proof fn lemma_p_mb_types_valid(mb_type: u32)
    ensures
        spec_p_mb_type_info(mb_type) is Ok <==> mb_type <= 30,
        5 <= mb_type <= 30 ==> spec_p_mb_type_info(mb_type) == Ok::<PMbTypeInfo, MbTypeError>(
            PMbTypeInfo::I(spec_i_mb_type_info((mb_type - 5) as u32)->Ok_0),
        ),
{
}

#[derive(Debug, Clone, Copy, PartialEq, Eq, Structural)]
pub struct SubMbTypeInfo {
    pub num_sub_parts: u8,
    pub sub_part_width: u8,
    pub sub_part_height: u8,
    pub pred_mode: MbPartPredMode,
}

/// The P sub-macroblock type for `sub_mb_type` (Table 7-17).
pub open spec fn spec_p_sub_mb_type_info(sub_mb_type: u32) -> Result<SubMbTypeInfo, MbTypeError> {
    if sub_mb_type == 0 {
        Ok(SubMbTypeInfo { num_sub_parts: 1, sub_part_width: 8, sub_part_height: 8, pred_mode: MbPartPredMode::PredL0 })
    } else if sub_mb_type == 1 {
        Ok(SubMbTypeInfo { num_sub_parts: 2, sub_part_width: 8, sub_part_height: 4, pred_mode: MbPartPredMode::PredL0 })
    } else if sub_mb_type == 2 {
        Ok(SubMbTypeInfo { num_sub_parts: 2, sub_part_width: 4, sub_part_height: 8, pred_mode: MbPartPredMode::PredL0 })
    } else if sub_mb_type == 3 {
        Ok(SubMbTypeInfo { num_sub_parts: 4, sub_part_width: 4, sub_part_height: 4, pred_mode: MbPartPredMode::PredL0 })
    } else {
        Err(MbTypeError::InvalidPSubMbType(sub_mb_type))
    }
}

pub fn p_sub_mb_type_info(sub_mb_type: u32) -> (r: Result<SubMbTypeInfo, MbTypeError>)
    ensures
        r == spec_p_sub_mb_type_info(sub_mb_type),
{
    match sub_mb_type {
        0 => Ok(SubMbTypeInfo { num_sub_parts: 1, sub_part_width: 8, sub_part_height: 8, pred_mode: MbPartPredMode::PredL0 }),
        1 => Ok(SubMbTypeInfo { num_sub_parts: 2, sub_part_width: 8, sub_part_height: 4, pred_mode: MbPartPredMode::PredL0 }),
        2 => Ok(SubMbTypeInfo { num_sub_parts: 2, sub_part_width: 4, sub_part_height: 8, pred_mode: MbPartPredMode::PredL0 }),
        3 => Ok(SubMbTypeInfo { num_sub_parts: 4, sub_part_width: 4, sub_part_height: 4, pred_mode: MbPartPredMode::PredL0 }),
        _ => Err(MbTypeError::InvalidPSubMbType(sub_mb_type)),
    }
}

/// `coded_block_pattern` for each `code_num` of an intra macroblock (Table 9-4, 4:2:0).
pub open spec fn cbp_intra_map() -> Seq<u8> {
    seq![
        47, 31, 15, 0, 23, 27, 29, 30, 7, 11, 13, 14, 39, 43, 45, 46, 16, 3, 5, 10, 12, 19, 21, 26, 28,
        35, 37, 42, 44, 1, 2, 4, 8, 17, 18, 20, 24, 6, 9, 22, 25, 32, 33, 34, 36, 40, 38, 41,
    ]
}

/// `coded_block_pattern` for each `code_num` of an inter macroblock (Table 9-4, 4:2:0).
pub open spec fn cbp_inter_map() -> Seq<u8> {
    seq![
        0, 16, 1, 2, 4, 8, 32, 3, 5, 10, 12, 15, 47, 7, 11, 13, 14, 6, 9, 31, 35, 37, 42, 44, 33, 34,
        36, 40, 39, 43, 45, 46, 17, 18, 20, 24, 19, 21, 26, 28, 23, 27, 29, 30, 22, 25, 38, 41,
    ]
}

/// Convert a exp-golomb `code_num` into `(coded_block_pattern_luma, coded_block_pattern_chroma)`
/// for 4:2:0 chroma format (Table 9-4).
///
/// - `code_num`: the decoded me(v) value, must be in range 0..=47
/// - `is_intra`: `true` for Intra macroblocks, `false` for Inter macroblocks
///
/// Returns `None` if `code_num` is out of range.
pub fn coded_block_pattern_from_me(code_num: u32, is_intra: bool) -> (r: Option<(u8, u8)>)
    ensures
        code_num > 47 ==> r is None,
        code_num <= 47 ==> ({
            let cbp = if is_intra { cbp_intra_map()[code_num as int] } else { cbp_inter_map()[code_num as int] };
            r == Some((cbp % 16, cbp / 16))
        }),
{
    if code_num > 47 {
        return None;
    }
    let table: [u8; 48] = if is_intra {
        [
            47, 31, 15, 0, 23, 27, 29, 30, 7, 11, 13, 14, 39, 43, 45, 46, 16, 3, 5, 10, 12, 19, 21, 26, 28,
            35, 37, 42, 44, 1, 2, 4, 8, 17, 18, 20, 24, 6, 9, 22, 25, 32, 33, 34, 36, 40, 38, 41,
        ]
    } else {
        [
            0, 16, 1, 2, 4, 8, 32, 3, 5, 10, 12, 15, 47, 7, 11, 13, 14, 6, 9, 31, 35, 37, 42, 44, 33, 34,
            36, 40, 39, 43, 45, 46, 17, 18, 20, 24, 19, 21, 26, 28, 23, 27, 29, 30, 22, 25, 38, 41,
        ]
    };
    assert(is_intra ==> table@ =~= cbp_intra_map());
    assert(!is_intra ==> table@ =~= cbp_inter_map());
    let cbp = table[code_num as usize];
    let coded_block_pattern_luma = cbp % 16;
    let coded_block_pattern_chroma = cbp / 16;
    Some((coded_block_pattern_luma, coded_block_pattern_chroma))
}

} // verus!

//! Slice data access (currently baseline profile - CAVLC only, no MBAFF).
//!
//! Implements the `slice_data()` syntax from spec section 7.3.4.
//!
//! 1. Parse context-free parts of `macroblock_layer()` — `mb_type`, `mb_pred`/`sub_mb_pred`,
//!    `coded_block_pattern`, `mb_qp_delta`.
//! 2. The caller takes over the bit stream to parse `residual()` using CAVLC with
//!    decoder-computed `nC` values.

use vstd::prelude::*;
pub use crate::nal::slice::cavlc::{CavlcContext, CavlcError};
use crate::nal::slice::cavlc::spec_residual_block_cavlc;
use crate::nal::slice::macroblock::{
    cbp_inter_map, cbp_intra_map, coded_block_pattern_from_me, i_mb_type_info, p_mb_type_info, p_sub_mb_type_info,
    spec_i_mb_type_info, spec_p_mb_type_info, spec_p_sub_mb_type_info, IMbTypeInfo, MbPartPredMode, MbTypeError,
    PMbTypeInfo, SubMbTypeInfo,
};
use crate::nal::slice::{cavlc, SliceFamily};
use crate::rbsp::{parsed, spec_has_more_rbsp_data, spec_read_bit, spec_read_bits, spec_read_se, spec_read_ue, BitReader, BitReaderError, BitStream};

verus! {

#[derive(Debug, Clone, Copy, PartialEq, Eq)]
pub enum SliceDataError {
    BitReaderError(BitReaderError),
    InvalidMbType(MbTypeError),
    InvalidSubMbType(MbTypeError),
    InvalidCodedBlockPattern(u32),
    InvalidParameter { field: &'static str, value: i64 },
}

/// The error for an invalid macroblock or sub-macroblock type.
pub open spec fn mb_type_error(e: MbTypeError) -> SliceDataError {
    match e {
        MbTypeError::InvalidPSubMbType(_) => SliceDataError::InvalidSubMbType(e),
        _ => SliceDataError::InvalidMbType(e),
    }
}

fn from_mb_type_error(e: MbTypeError) -> (r: SliceDataError)
    ensures
        r == mb_type_error(e),
{
    match e {
        MbTypeError::InvalidPSubMbType(_) => SliceDataError::InvalidSubMbType(e),
        _ => SliceDataError::InvalidMbType(e),
    }
}

#[derive(Debug, Clone, Copy, PartialEq, Eq)]
pub struct InterPrediction {
    pub num_parts: u8,
    pub part_width: u8,
    pub part_height: u8,
    pub ref_idx_l0: [i8; 4],
    pub mvd_l0: [[[i16; 2]; 4]; 4],
    pub sub_mb_info: Option<SubMbInfo>,
}

#[derive(Debug, Clone, Copy, PartialEq, Eq)]
pub struct SubMbInfo {
    pub sub_mb_type: [u8; 4],
    pub info: [SubMbTypeInfo; 4],
    pub ref_idx_l0: [i8; 4],
}

#[derive(Debug, Clone, Copy, PartialEq, Eq)]
pub enum MbPrediction {
    Intra4x4 { prev_intra4x4_pred_mode_flag: [bool; 16], rem_intra4x4_pred_mode: [u8; 16], intra_chroma_pred_mode: u8 },
    Intra16x16 { intra_chroma_pred_mode: u8 },
    IntraPCM { pcm_sample_luma: [u8; 256], pcm_sample_chroma: [u8; 128] },
    Inter(InterPrediction),
}

#[derive(Debug, Clone, Copy, PartialEq, Eq, Structural)]
pub enum MbTypeInfo {
    I(IMbTypeInfo),
    P(PMbTypeInfo),
}

#[derive(Debug, Clone, Copy, PartialEq, Eq)]
pub struct MacroblockHeader {
    pub mb_addr: u32,
    pub mb_type: MbTypeInfo,
    pub coded_block_pattern_luma: u8,
    pub coded_block_pattern_chroma: u8,
    pub mb_qp_delta: i32,
    pub mb_pred: MbPrediction,
}

/// The motion vector differences `[part][sub_part][component]`, as values.
pub open spec fn mvd_view(m: [[[i16; 2]; 4]; 4]) -> Seq<Seq<Seq<i16>>> {
    m@.map_values(|p: [[i16; 2]; 4]| p@.map_values(|q: [i16; 2]| q@))
}

/// The values of a [`SubMbInfo`].
pub ghost struct SubMbInfoView {
    pub sub_mb_type: Seq<u8>,
    pub info: Seq<SubMbTypeInfo>,
    pub ref_idx_l0: Seq<i8>,
}

/// The values of an [`InterPrediction`].
pub ghost struct InterPredictionView {
    pub num_parts: u8,
    pub part_width: u8,
    pub part_height: u8,
    pub ref_idx_l0: Seq<i8>,
    pub mvd_l0: Seq<Seq<Seq<i16>>>,
    pub sub_mb_info: Option<SubMbInfoView>,
}

/// The values of an [`MbPrediction`].
pub ghost enum MbPredictionView {
    Intra4x4 { prev_intra4x4_pred_mode_flag: Seq<bool>, rem_intra4x4_pred_mode: Seq<u8>, intra_chroma_pred_mode: u8 },
    Intra16x16 { intra_chroma_pred_mode: u8 },
    IntraPCM { pcm_sample_luma: Seq<u8>, pcm_sample_chroma: Seq<u8> },
    Inter(InterPredictionView),
}

/// The values of a [`MacroblockHeader`].
pub ghost struct MacroblockHeaderView {
    pub mb_addr: u32,
    pub mb_type: MbTypeInfo,
    pub coded_block_pattern_luma: u8,
    pub coded_block_pattern_chroma: u8,
    pub mb_qp_delta: i32,
    pub mb_pred: MbPredictionView,
}

impl View for InterPrediction {
    type V = InterPredictionView;

    open spec fn view(&self) -> InterPredictionView {
        InterPredictionView {
            num_parts: self.num_parts,
            part_width: self.part_width,
            part_height: self.part_height,
            ref_idx_l0: self.ref_idx_l0@,
            mvd_l0: mvd_view(self.mvd_l0),
            sub_mb_info: match self.sub_mb_info {
                Some(i) => Some(SubMbInfoView { sub_mb_type: i.sub_mb_type@, info: i.info@, ref_idx_l0: i.ref_idx_l0@ }),
                None => None,
            },
        }
    }
}

impl View for MbPrediction {
    type V = MbPredictionView;

    open spec fn view(&self) -> MbPredictionView {
        match self {
            MbPrediction::Intra4x4 { prev_intra4x4_pred_mode_flag, rem_intra4x4_pred_mode, intra_chroma_pred_mode } => MbPredictionView::Intra4x4 {
                prev_intra4x4_pred_mode_flag: prev_intra4x4_pred_mode_flag@,
                rem_intra4x4_pred_mode: rem_intra4x4_pred_mode@,
                intra_chroma_pred_mode: *intra_chroma_pred_mode,
            },
            MbPrediction::Intra16x16 { intra_chroma_pred_mode } => MbPredictionView::Intra16x16 { intra_chroma_pred_mode: *intra_chroma_pred_mode },
            MbPrediction::IntraPCM { pcm_sample_luma, pcm_sample_chroma } => MbPredictionView::IntraPCM {
                pcm_sample_luma: pcm_sample_luma@,
                pcm_sample_chroma: pcm_sample_chroma@,
            },
            MbPrediction::Inter(p) => MbPredictionView::Inter(p@),
        }
    }
}

impl View for MacroblockHeader {
    type V = MacroblockHeaderView;

    open spec fn view(&self) -> MacroblockHeaderView {
        MacroblockHeaderView {
            mb_addr: self.mb_addr,
            mb_type: self.mb_type,
            coded_block_pattern_luma: self.coded_block_pattern_luma,
            coded_block_pattern_chroma: self.coded_block_pattern_chroma,
            mb_qp_delta: self.mb_qp_delta,
            mb_pred: self.mb_pred@,
        }
    }
}

/// `te(v)` (truncated Exp-Golomb) with range `0..=max`: nothing for `max == 0`, one inverted
/// bit for `max == 1`, else `ue(v)`.
pub open spec fn spec_read_te(s: BitStream, name: &'static str, max: u32) -> Result<(i8, BitStream), SliceDataError> {
    if max == 0 {
        Ok((0i8, s))
    } else if max == 1 {
        match spec_read_bit(s, name) {
            Err(e) => Err(SliceDataError::BitReaderError(e)),
            Ok((b, s1)) => Ok((if b { 0i8 } else { 1i8 }, s1)),
        }
    } else {
        match spec_read_ue(s, name) {
            Err(e) => Err(SliceDataError::BitReaderError(e)),
            Ok((v, s1)) => if v > max {
                Err(SliceDataError::InvalidParameter { field: name, value: v as i64 })
            } else {
                Ok((v as i8, s1))
            },
        }
    }
}

/// `mb_qp_delta`, in `-26..=25`.
pub open spec fn spec_read_mb_qp_delta(s: BitStream) -> Result<(i32, BitStream), SliceDataError> {
    match spec_read_se(s, "mb_qp_delta") {
        Err(e) => Err(SliceDataError::BitReaderError(e)),
        Ok((v, s1)) => if v < -26 || v > 25 {
            Err(SliceDataError::InvalidParameter { field: "mb_qp_delta", value: v as i64 })
        } else {
            Ok((v, s1))
        },
    }
}

/// One motion vector difference component, which must fit in 16 bits.
pub open spec fn spec_read_mvd(s: BitStream, name: &'static str) -> Result<(i16, BitStream), SliceDataError> {
    match spec_read_se(s, name) {
        Err(e) => Err(SliceDataError::BitReaderError(e)),
        Ok((v, s1)) => if v < -32768 || v > 32767 {
            Err(SliceDataError::InvalidParameter { field: name, value: v as i64 })
        } else {
            Ok((v as i16, s1))
        },
    }
}

/// One motion vector difference: `mvd_l0_x` then `mvd_l0_y`.
pub open spec fn spec_read_mvd_pair(s: BitStream) -> Result<((i16, i16), BitStream), SliceDataError> {
    match spec_read_mvd(s, "mvd_l0_x") {
        Err(e) => Err(e),
        Ok((x, s1)) => match spec_read_mvd(s1, "mvd_l0_y") {
            Err(e) => Err(e),
            Ok((y, s2)) => Ok(((x, y), s2)),
        },
    }
}

/// `intra_chroma_pred_mode`, in `0..=3`.
pub open spec fn spec_read_intra_chroma_pred_mode(s: BitStream) -> Result<(u8, BitStream), SliceDataError> {
    match spec_read_ue(s, "intra_chroma_pred_mode") {
        Err(e) => Err(SliceDataError::BitReaderError(e)),
        Ok((v, s1)) => if v > 3 {
            Err(SliceDataError::InvalidParameter { field: "intra_chroma_pred_mode", value: v as i64 })
        } else {
            Ok((v as u8, s1))
        },
    }
}

/// `coded_block_pattern` as `me(v)` for 4:2:0: `(luma, chroma)`.
pub open spec fn spec_read_coded_block_pattern(s: BitStream, intra: bool) -> Result<((u8, u8), BitStream), SliceDataError> {
    match spec_read_ue(s, "coded_block_pattern") {
        Err(e) => Err(SliceDataError::BitReaderError(e)),
        Ok((code, s1)) => if code > 47 {
            Err(SliceDataError::InvalidCodedBlockPattern(code))
        } else {
            let cbp = if intra { cbp_intra_map()[code as int] } else { cbp_inter_map()[code as int] };
            Ok(((cbp % 16, cbp / 16), s1))
        },
    }
}

/// The `Intra4x4` prediction modes of the first `n` blocks: the flags and the remaining modes
/// (zero where the flag is set).
pub open spec fn spec_intra4x4_modes(s: BitStream, n: nat) -> Result<((Seq<bool>, Seq<u8>), BitStream), SliceDataError>
    decreases n,
{
    if n == 0 {
        Ok(((Seq::empty(), Seq::empty()), s))
    } else {
        match spec_intra4x4_modes(s, (n - 1) as nat) {
            Err(e) => Err(e),
            Ok(((f, m), s1)) => match spec_read_bit(s1, "prev_intra4x4_pred_mode_flag") {
                Err(e) => Err(SliceDataError::BitReaderError(e)),
                Ok((flag, s2)) => if flag {
                    Ok(((f.push(true), m.push(0u8)), s2))
                } else {
                    match spec_read_bits(s2, 3) {
                        None => Err(SliceDataError::BitReaderError(BitReaderError::ReaderError("rem_intra4x4_pred_mode", s2.end))),
                        Some((rem, s3)) => Ok(((f.push(false), m.push(rem as u8)), s3)),
                    }
                },
            },
        }
    }
}

/// `n` 8-bit PCM samples named `name`.
pub open spec fn spec_pcm_samples(s: BitStream, name: &'static str, n: nat) -> Result<(Seq<u8>, BitStream), SliceDataError>
    decreases n,
{
    if n == 0 {
        Ok((Seq::empty(), s))
    } else {
        match spec_pcm_samples(s, name, (n - 1) as nat) {
            Err(e) => Err(e),
            Ok((v, s1)) => match spec_read_bits(s1, 8) {
                None => Err(SliceDataError::BitReaderError(BitReaderError::ReaderError(name, s1.end))),
                Some((x, s2)) => Ok((v.push(x as u8), s2)),
            },
        }
    }
}

/// `pcm_alignment_zero_bit`s up to the next byte boundary; each must be zero.
pub open spec fn spec_pcm_alignment(s: BitStream) -> Result<BitStream, SliceDataError>
    decreases (8 - s.pos % 8) % 8,
{
    if s.pos % 8 == 0 {
        Ok(s)
    } else {
        match spec_read_bit(s, "pcm_alignment_zero_bit") {
            Err(e) => Err(SliceDataError::BitReaderError(e)),
            Ok((b, s1)) => if b {
                Err(SliceDataError::InvalidParameter { field: "pcm_alignment_zero_bit", value: 1 })
            } else {
                spec_pcm_alignment(s1)
            },
        }
    }
}

/// The prediction and coded block pattern of an intra macroblock.
pub open spec fn spec_i_mb_body(s: BitStream, info: IMbTypeInfo) -> Result<((MbPredictionView, u8, u8), BitStream), SliceDataError> {
    match info {
        IMbTypeInfo::INxN => match spec_intra4x4_modes(s, 16) {
            Err(e) => Err(e),
            Ok(((flags, modes), s1)) => match spec_read_intra_chroma_pred_mode(s1) {
                Err(e) => Err(e),
                Ok((chroma, s2)) => match spec_read_coded_block_pattern(s2, true) {
                    Err(e) => Err(e),
                    Ok(((luma_cbp, chroma_cbp), s3)) => Ok((
                        (
                            MbPredictionView::Intra4x4 {
                                prev_intra4x4_pred_mode_flag: flags,
                                rem_intra4x4_pred_mode: modes,
                                intra_chroma_pred_mode: chroma,
                            },
                            luma_cbp,
                            chroma_cbp,
                        ),
                        s3,
                    )),
                },
            },
        },
        IMbTypeInfo::I16x16 { coded_block_pattern_luma, coded_block_pattern_chroma, .. } => match spec_read_intra_chroma_pred_mode(s) {
            Err(e) => Err(e),
            Ok((chroma, s1)) => Ok((
                (MbPredictionView::Intra16x16 { intra_chroma_pred_mode: chroma }, coded_block_pattern_luma, coded_block_pattern_chroma),
                s1,
            )),
        },
        IMbTypeInfo::IPCM => match spec_pcm_alignment(s) {
            Err(e) => Err(e),
            Ok(s1) => match spec_pcm_samples(s1, "pcm_sample_luma", 256) {
                Err(e) => Err(e),
                Ok((luma, s2)) => match spec_pcm_samples(s2, "pcm_sample_chroma", 128) {
                    Err(e) => Err(e),
                    Ok((chroma, s3)) => Ok(((MbPredictionView::IntraPCM { pcm_sample_luma: luma, pcm_sample_chroma: chroma }, 0u8, 0u8), s3)),
                },
            },
        },
    }
}

/// `n` values of `te(v)` named `name` with range `0..=max`.
pub open spec fn spec_ref_idx_list(s: BitStream, name: &'static str, max: u32, n: nat) -> Result<(Seq<i8>, BitStream), SliceDataError>
    decreases n,
{
    if n == 0 {
        Ok((Seq::empty(), s))
    } else {
        match spec_ref_idx_list(s, name, max, (n - 1) as nat) {
            Err(e) => Err(e),
            Ok((v, s1)) => match spec_read_te(s1, name, max) {
                Err(e) => Err(e),
                Ok((x, s2)) => Ok((v.push(x), s2)),
            },
        }
    }
}

/// `n` motion vector differences.
pub open spec fn spec_mvd_pairs(s: BitStream, n: nat) -> Result<(Seq<(i16, i16)>, BitStream), SliceDataError>
    decreases n,
{
    if n == 0 {
        Ok((Seq::empty(), s))
    } else {
        match spec_mvd_pairs(s, (n - 1) as nat) {
            Err(e) => Err(e),
            Ok((v, s1)) => match spec_read_mvd_pair(s1) {
                Err(e) => Err(e),
                Ok((p, s2)) => Ok((v.push(p), s2)),
            },
        }
    }
}

/// The first `n` sub-macroblock types: the raw values and their descriptions.
pub open spec fn spec_sub_mb_types(s: BitStream, n: nat) -> Result<(Seq<(u32, SubMbTypeInfo)>, BitStream), SliceDataError>
    decreases n,
{
    if n == 0 {
        Ok((Seq::empty(), s))
    } else {
        match spec_sub_mb_types(s, (n - 1) as nat) {
            Err(e) => Err(e),
            Ok((v, s1)) => match spec_read_ue(s1, "sub_mb_type") {
                Err(e) => Err(SliceDataError::BitReaderError(e)),
                Ok((raw, s2)) => match spec_p_sub_mb_type_info(raw) {
                    Err(e) => Err(mb_type_error(e)),
                    Ok(info) => Ok((v.push((raw, info)), s2)),
                },
            },
        }
    }
}

/// The motion vector differences of the first `n` sub-macroblocks, each with as many
/// as its type has sub-partitions.
pub open spec fn spec_sub_mvds(s: BitStream, types: Seq<(u32, SubMbTypeInfo)>, n: nat) -> Result<(Seq<Seq<(i16, i16)>>, BitStream), SliceDataError>
    decreases n,
{
    if n == 0 {
        Ok((Seq::empty(), s))
    } else {
        match spec_sub_mvds(s, types, (n - 1) as nat) {
            Err(e) => Err(e),
            Ok((v, s1)) => match spec_mvd_pairs(s1, types[n - 1].1.num_sub_parts as nat) {
                Err(e) => Err(e),
                Ok((p, s2)) => Ok((v.push(p), s2)),
            },
        }
    }
}

/// Four entries, taken from `l` and then zero.
pub open spec fn pad4_i8(l: Seq<i8>) -> Seq<i8> {
    Seq::new(4, |j: int| if j < l.len() { l[j] } else { 0i8 })
}

/// The 4x4 grid of motion vector differences with `rows[j][k]` at `[j][k]` and zero elsewhere.
pub open spec fn mvd_grid(rows: Seq<Seq<(i16, i16)>>) -> Seq<Seq<Seq<i16>>> {
    Seq::new(4, |j: int| Seq::new(4, |k: int| if j < rows.len() && k < rows[j].len() {
        seq![rows[j][k].0, rows[j][k].1]
    } else {
        seq![0i16, 0i16]
    }))
}

/// `mb_pred()` of an inter macroblock with `num_parts` partitions (7.3.5.1).
pub open spec fn spec_inter_mb_pred(s: BitStream, num_ref: u32, num_parts: u8, part_width: u8, part_height: u8) -> Result<(MbPredictionView, BitStream), SliceDataError> {
    match spec_ref_idx_list(s, "ref_idx_l0", num_ref, num_parts as nat) {
        Err(e) => Err(e),
        Ok((refs, s1)) => match spec_mvd_pairs(s1, num_parts as nat) {
            Err(e) => Err(e),
            Ok((pairs, s2)) => Ok((
                MbPredictionView::Inter(InterPredictionView {
                    num_parts,
                    part_width,
                    part_height,
                    ref_idx_l0: pad4_i8(refs),
                    mvd_l0: mvd_grid(Seq::new(pairs.len(), |j: int| seq![pairs[j]])),
                    sub_mb_info: None,
                }),
                s2,
            )),
        },
    }
}

/// `sub_mb_pred()` of a `P_8x8` macroblock (7.3.5.2).
pub open spec fn spec_sub_mb_pred(s: BitStream, num_ref: u32, ref_idx_forced_zero: bool) -> Result<(MbPredictionView, BitStream), SliceDataError> {
    match spec_sub_mb_types(s, 4) {
        Err(e) => Err(e),
        Ok((types, s1)) => {
            let refs = if !ref_idx_forced_zero { spec_ref_idx_list(s1, "ref_idx_l0", num_ref, 4) } else { Ok((seq![0i8, 0i8, 0i8, 0i8], s1)) };
            match refs {
                Err(e) => Err(e),
                Ok((r, s2)) => match spec_sub_mvds(s2, types, 4) {
                    Err(e) => Err(e),
                    Ok((rows, s3)) => Ok((
                        MbPredictionView::Inter(InterPredictionView {
                            num_parts: 4,
                            part_width: 8,
                            part_height: 8,
                            ref_idx_l0: seq![0i8, 0i8, 0i8, 0i8],
                            mvd_l0: mvd_grid(rows),
                            sub_mb_info: Some(SubMbInfoView {
                                sub_mb_type: types.map_values(|t: (u32, SubMbTypeInfo)| t.0 as u8),
                                info: types.map_values(|t: (u32, SubMbTypeInfo)| t.1),
                                ref_idx_l0: r,
                            }),
                        }),
                        s3,
                    )),
                },
            }
        },
    }
}

/// Whether `mb_qp_delta` follows: for any coded residual, or always for `I_16x16`.
pub open spec fn has_mb_qp_delta(cbp_luma: u8, cbp_chroma: u8, i16x16: bool) -> bool {
    cbp_luma > 0 || cbp_chroma > 0 || i16x16
}

/// The rest of an intra macroblock layer: prediction, coded block pattern and `mb_qp_delta`.
pub open spec fn spec_intra_mb(s: BitStream, info: IMbTypeInfo) -> Result<((MbPredictionView, u8, u8, i32), BitStream), SliceDataError> {
    match spec_i_mb_body(s, info) {
        Err(e) => Err(e),
        Ok(((pred, l, c), s1)) => if has_mb_qp_delta(l, c, info is I16x16) {
            match spec_read_mb_qp_delta(s1) {
                Err(e) => Err(e),
                Ok((q, s2)) => Ok(((pred, l, c, q), s2)),
            }
        } else {
            Ok(((pred, l, c, 0i32), s1))
        },
    }
}

/// The rest of an inter-predicted P macroblock layer.
pub open spec fn spec_inter_mb(s: BitStream, num_ref: u32, num_parts: u8, part_width: u8, part_height: u8, ref_idx_forced_zero: bool)
    -> Result<((MbPredictionView, u8, u8, i32), BitStream), SliceDataError>
{
    let pred = if num_parts == 4 {
        spec_sub_mb_pred(s, num_ref, ref_idx_forced_zero)
    } else {
        spec_inter_mb_pred(s, num_ref, num_parts, part_width, part_height)
    };
    match pred {
        Err(e) => Err(e),
        Ok((p, s1)) => match spec_read_coded_block_pattern(s1, false) {
            Err(e) => Err(e),
            Ok(((l, c), s2)) => if has_mb_qp_delta(l, c, false) {
                match spec_read_mb_qp_delta(s2) {
                    Err(e) => Err(e),
                    Ok((q, s3)) => Ok(((p, l, c, q), s3)),
                }
            } else {
                Ok(((p, l, c, 0i32), s2))
            },
        },
    }
}

/// `macroblock_layer()` up to the residual (7.3.5), for a macroblock at `mb_addr`.
pub open spec fn spec_macroblock_header(s: BitStream, family: SliceFamily, num_ref: u32, mb_addr: u32) -> Result<(MacroblockHeaderView, BitStream), SliceDataError> {
    match spec_read_ue(s, "mb_type") {
        Err(e) => Err(SliceDataError::BitReaderError(e)),
        Ok((raw, s1)) => if family == SliceFamily::I || family == SliceFamily::SI {
            match spec_i_mb_type_info(raw) {
                Err(e) => Err(mb_type_error(e)),
                Ok(info) => match spec_intra_mb(s1, info) {
                    Err(e) => Err(e),
                    Ok(((pred, l, c, q), s2)) => Ok((
                        MacroblockHeaderView { mb_addr, mb_type: MbTypeInfo::I(info), coded_block_pattern_luma: l, coded_block_pattern_chroma: c, mb_qp_delta: q, mb_pred: pred },
                        s2,
                    )),
                },
            }
        } else if family == SliceFamily::P || family == SliceFamily::SP {
            match spec_p_mb_type_info(raw) {
                Err(e) => Err(mb_type_error(e)),
                Ok(info) => {
                    let rest = match info {
                        PMbTypeInfo::I(i_info) => spec_intra_mb(s1, i_info),
                        PMbTypeInfo::P { num_parts, part_width, part_height, ref_idx_forced_zero, .. } =>
                            spec_inter_mb(s1, num_ref, num_parts, part_width, part_height, ref_idx_forced_zero),
                    };
                    match rest {
                        Err(e) => Err(e),
                        Ok(((pred, l, c, q), s2)) => Ok((
                            MacroblockHeaderView { mb_addr, mb_type: MbTypeInfo::P(info), coded_block_pattern_luma: l, coded_block_pattern_chroma: c, mb_qp_delta: q, mb_pred: pred },
                            s2,
                        )),
                    }
                },
            }
        } else {
            // B slices not supported yet (baseline profile only)
            Err(SliceDataError::InvalidParameter { field: "slice_type", value: 1 })
        },
    }
}

/// Reads a `te(v)` (truncated Exp-Golomb) value.
///
/// - If `max == 0`: the value is always 0 (nothing is read).
/// - If `max == 1`: read 1 bit and invert (0 -> 1, 1 -> 0).
/// - If `max > 1`: read as `ue(v)`.
fn read_te(r: &mut BitReader, name: &'static str, max: u32) -> (res: Result<i8, SliceDataError>)
    ensures
        parsed(res, spec_read_te(old(r)@, name, max), final(r)@),
{
    if max == 0 {
        Ok(0)
    } else if max == 1 {
        match r.read_bit(name) {
            Ok(bit) => Ok(if bit { 0 } else { 1 }),
            Err(e) => Err(SliceDataError::BitReaderError(e)),
        }
    } else {
        let val = match r.read_ue(name) {
            Ok(v) => v,
            Err(e) => return Err(SliceDataError::BitReaderError(e)),
        };
        if val > max {
            return Err(SliceDataError::InvalidParameter { field: name, value: val as i64 });
        }
        Ok(val as i8)
    }
}

fn read_mb_qp_delta(r: &mut BitReader) -> (res: Result<i32, SliceDataError>)
    ensures
        parsed(res, spec_read_mb_qp_delta(old(r)@), final(r)@),
{
    let val = match r.read_se("mb_qp_delta") {
        Ok(v) => v,
        Err(e) => return Err(SliceDataError::BitReaderError(e)),
    };
    if val < -26 || val > 25 {
        return Err(SliceDataError::InvalidParameter { field: "mb_qp_delta", value: val as i64 });
    }
    Ok(val)
}

fn read_mvd(r: &mut BitReader, name: &'static str) -> (res: Result<i16, SliceDataError>)
    ensures
        parsed(res, spec_read_mvd(old(r)@, name), final(r)@),
{
    let v = match r.read_se(name) {
        Ok(v) => v,
        Err(e) => return Err(SliceDataError::BitReaderError(e)),
    };
    if v < -32768 || v > 32767 {
        return Err(SliceDataError::InvalidParameter { field: name, value: v as i64 });
    }
    Ok(v as i16)
}

fn read_mvd_pair(r: &mut BitReader) -> (res: Result<(i16, i16), SliceDataError>)
    ensures
        parsed(res, spec_read_mvd_pair(old(r)@), final(r)@),
{
    let x = match read_mvd(r, "mvd_l0_x") {
        Ok(v) => v,
        Err(e) => return Err(e),
    };
    let y = match read_mvd(r, "mvd_l0_y") {
        Ok(v) => v,
        Err(e) => return Err(e),
    };
    Ok((x, y))
}

fn read_intra_chroma_pred_mode(r: &mut BitReader) -> (res: Result<u8, SliceDataError>)
    ensures
        parsed(res, spec_read_intra_chroma_pred_mode(old(r)@), final(r)@),
{
    let v = match r.read_ue("intra_chroma_pred_mode") {
        Ok(v) => v,
        Err(e) => return Err(SliceDataError::BitReaderError(e)),
    };
    if v > 3 {
        return Err(SliceDataError::InvalidParameter { field: "intra_chroma_pred_mode", value: v as i64 });
    }
    Ok(v as u8)
}

fn read_coded_block_pattern(r: &mut BitReader, intra: bool) -> (res: Result<(u8, u8), SliceDataError>)
    ensures
        parsed(res, spec_read_coded_block_pattern(old(r)@, intra), final(r)@),
{
    let code_num = match r.read_ue("coded_block_pattern") {
        Ok(v) => v,
        Err(e) => return Err(SliceDataError::BitReaderError(e)),
    };
    match coded_block_pattern_from_me(code_num, intra) {
        Some(v) => Ok(v),
        None => Err(SliceDataError::InvalidCodedBlockPattern(code_num)),
    }
}

proof fn lemma_intra4x4_modes_err(s: BitStream, k: nat, n: nat)
    requires
        k <= n,
        spec_intra4x4_modes(s, k) is Err,
    ensures
        spec_intra4x4_modes(s, n) == spec_intra4x4_modes(s, k),
    decreases n,
{
    if n > k {
        lemma_intra4x4_modes_err(s, k, (n - 1) as nat);
    }
}

proof fn lemma_pcm_samples_err(s: BitStream, name: &'static str, k: nat, n: nat)
    requires
        k <= n,
        spec_pcm_samples(s, name, k) is Err,
    ensures
        spec_pcm_samples(s, name, n) == spec_pcm_samples(s, name, k),
    decreases n,
{
    if n > k {
        lemma_pcm_samples_err(s, name, k, (n - 1) as nat);
    }
}

proof fn lemma_ref_idx_list_err(s: BitStream, name: &'static str, max: u32, k: nat, n: nat)
    requires
        k <= n,
        spec_ref_idx_list(s, name, max, k) is Err,
    ensures
        spec_ref_idx_list(s, name, max, n) == spec_ref_idx_list(s, name, max, k),
    decreases n,
{
    if n > k {
        lemma_ref_idx_list_err(s, name, max, k, (n - 1) as nat);
    }
}

proof fn lemma_mvd_pairs_err(s: BitStream, k: nat, n: nat)
    requires
        k <= n,
        spec_mvd_pairs(s, k) is Err,
    ensures
        spec_mvd_pairs(s, n) == spec_mvd_pairs(s, k),
    decreases n,
{
    if n > k {
        lemma_mvd_pairs_err(s, k, (n - 1) as nat);
    }
}

proof fn lemma_sub_mb_types_err(s: BitStream, k: nat, n: nat)
    requires
        k <= n,
        spec_sub_mb_types(s, k) is Err,
    ensures
        spec_sub_mb_types(s, n) == spec_sub_mb_types(s, k),
    decreases n,
{
    if n > k {
        lemma_sub_mb_types_err(s, k, (n - 1) as nat);
    }
}

proof fn lemma_sub_mvds_err(s: BitStream, types: Seq<(u32, SubMbTypeInfo)>, k: nat, n: nat)
    requires
        k <= n,
        spec_sub_mvds(s, types, k) is Err,
    ensures
        spec_sub_mvds(s, types, n) == spec_sub_mvds(s, types, k),
    decreases n,
{
    if n > k {
        lemma_sub_mvds_err(s, types, k, (n - 1) as nat);
    }
}

fn read_intra4x4_modes(r: &mut BitReader) -> (res: Result<([bool; 16], [u8; 16]), SliceDataError>)
    ensures
        match spec_intra4x4_modes(old(r)@, 16) {
            Ok(((f, m), s2)) => res matches Ok((ef, em)) && ef@ == f && em@ == m && final(r)@ == s2,
            Err(e) => res == Err::<([bool; 16], [u8; 16]), SliceDataError>(e),
        },
{
    let ghost start = r@;
    let mut prev_flags = [false; 16];
    let mut rem_modes = [0u8; 16];
    let ghost mut fl: Seq<bool> = Seq::empty();
    let ghost mut ml: Seq<u8> = Seq::empty();
    let mut i: usize = 0;
    while i < 16
        invariant
            start == old(r)@,
            i <= 16,
            fl.len() == i,
            ml.len() == i,
            forall|j: int| 0 <= j < i ==> prev_flags@[j] == fl[j] && rem_modes@[j] == ml[j],
            forall|j: int| i <= j < 16 ==> prev_flags@[j] == false && rem_modes@[j] == 0,
            spec_intra4x4_modes(start, i as nat) == Ok::<((Seq<bool>, Seq<u8>), BitStream), SliceDataError>(((fl, ml), r@)),
        decreases 16 - i,
    {
        let ghost s2 = r@;
        let flag = match r.read_bit("prev_intra4x4_pred_mode_flag") {
            Ok(v) => v,
            Err(e) => {
                proof { lemma_intra4x4_modes_err(start, (i + 1) as nat, 16); }
                return Err(SliceDataError::BitReaderError(e));
            },
        };
        prev_flags[i] = flag;
        if !flag {
            let ghost s3 = r@;
            let rem: u8 = match r.read::<3, u8>("rem_intra4x4_pred_mode") {
                Ok(v) => v,
                Err(e) => {
                    proof { lemma_intra4x4_modes_err(start, (i + 1) as nat, 16); }
                    return Err(SliceDataError::BitReaderError(e));
                },
            };
            rem_modes[i] = rem;
            proof {
                fl = fl.push(false);
                ml = ml.push(rem);
            }
        } else {
            proof {
                fl = fl.push(true);
                ml = ml.push(0u8);
            }
        }
        i = i + 1;
    }
    assert(prev_flags@ =~= fl);
    assert(rem_modes@ =~= ml);
    Ok((prev_flags, rem_modes))
}

fn read_pcm_samples(r: &mut BitReader, name: &'static str, n: usize, out: &mut Vec<u8>) -> (res: Result<(), SliceDataError>)
    requires
        old(out)@.len() == 0,
    ensures
        match spec_pcm_samples(old(r)@, name, n as nat) {
            Ok((v, s2)) => res is Ok && final(out)@ == v && final(r)@ == s2,
            Err(e) => res == Err::<(), SliceDataError>(e),
        },
        res is Ok ==> final(out)@.len() == n,
{
    let ghost start = r@;
    let mut i: usize = 0;
    assert(out@ =~= Seq::<u8>::empty());
    while i < n
        invariant
            start == old(r)@,
            i <= n,
            out@.len() == i,
            spec_pcm_samples(start, name, i as nat) == Ok::<(Seq<u8>, BitStream), SliceDataError>((out@, r@)),
        decreases n - i,
    {
        let x: u8 = match r.read::<8, u8>(name) {
            Ok(v) => v,
            Err(e) => {
                proof { lemma_pcm_samples_err(start, name, (i + 1) as nat, n as nat); }
                return Err(SliceDataError::BitReaderError(e));
            },
        };
        out.push(x);
        i = i + 1;
    }
    Ok(())
}

fn read_pcm_alignment(r: &mut BitReader) -> (res: Result<(), SliceDataError>)
    ensures
        match spec_pcm_alignment(old(r)@) {
            Ok(s2) => res is Ok && final(r)@ == s2,
            Err(e) => res == Err::<(), SliceDataError>(e),
        },
{
    let ghost start = r@;
    while !r.byte_aligned()
        invariant
            spec_pcm_alignment(start) == spec_pcm_alignment(r@),
            start == old(r)@,
        decreases (8 - r@.pos % 8) % 8,
    {
        let bit = match r.read_bit("pcm_alignment_zero_bit") {
            Ok(v) => v,
            Err(e) => return Err(SliceDataError::BitReaderError(e)),
        };
        if bit {
            return Err(SliceDataError::InvalidParameter { field: "pcm_alignment_zero_bit", value: 1 });
        }
    }
    Ok(())
}

fn parse_i_mb_body(r: &mut BitReader, info: &IMbTypeInfo) -> (res: Result<(MbPrediction, u8, u8), SliceDataError>)
    ensures
        match spec_i_mb_body(old(r)@, *info) {
            Ok(((p, l, c), s2)) => res matches Ok((ep, el, ec)) && ep@ == p && el == l && ec == c && final(r)@ == s2,
            Err(e) => res == Err::<(MbPrediction, u8, u8), SliceDataError>(e),
        },
{
    match info {
        IMbTypeInfo::INxN => {
            let (prev_flags, rem_modes) = match read_intra4x4_modes(r) {
                Ok(v) => v,
                Err(e) => return Err(e),
            };
            let intra_chroma_pred_mode = match read_intra_chroma_pred_mode(r) {
                Ok(v) => v,
                Err(e) => return Err(e),
            };
            let (cbp_luma, cbp_chroma) = match read_coded_block_pattern(r, true) {
                Ok(v) => v,
                Err(e) => return Err(e),
            };
            Ok((
                MbPrediction::Intra4x4 {
                    prev_intra4x4_pred_mode_flag: prev_flags,
                    rem_intra4x4_pred_mode: rem_modes,
                    intra_chroma_pred_mode,
                },
                cbp_luma,
                cbp_chroma,
            ))
        },
        IMbTypeInfo::I16x16 { coded_block_pattern_luma, coded_block_pattern_chroma, .. } => {
            let intra_chroma_pred_mode = match read_intra_chroma_pred_mode(r) {
                Ok(v) => v,
                Err(e) => return Err(e),
            };
            Ok((MbPrediction::Intra16x16 { intra_chroma_pred_mode }, *coded_block_pattern_luma, *coded_block_pattern_chroma))
        },
        IMbTypeInfo::IPCM => {
            match read_pcm_alignment(r) {
                Ok(()) => {},
                Err(e) => return Err(e),
            }
            let mut luma: Vec<u8> = Vec::new();
            match read_pcm_samples(r, "pcm_sample_luma", 256, &mut luma) {
                Ok(()) => {},
                Err(e) => return Err(e),
            }
            let mut chroma: Vec<u8> = Vec::new();
            match read_pcm_samples(r, "pcm_sample_chroma", 128, &mut chroma) {
                Ok(()) => {},
                Err(e) => return Err(e),
            }
            let mut pcm_sample_luma = [0u8; 256];
            let mut i: usize = 0;
            while i < 256
                invariant
                    luma@.len() == 256,
                    i <= 256,
                    forall|j: int| 0 <= j < i ==> pcm_sample_luma@[j] == luma@[j],
                decreases 256 - i,
            {
                pcm_sample_luma[i] = luma[i];
                i = i + 1;
            }
            let mut pcm_sample_chroma = [0u8; 128];
            let mut i: usize = 0;
            while i < 128
                invariant
                    chroma@.len() == 128,
                    i <= 128,
                    forall|j: int| 0 <= j < i ==> pcm_sample_chroma@[j] == chroma@[j],
                decreases 128 - i,
            {
                pcm_sample_chroma[i] = chroma[i];
                i = i + 1;
            }
            assert(pcm_sample_luma@ =~= luma@);
            assert(pcm_sample_chroma@ =~= chroma@);
            Ok((MbPrediction::IntraPCM { pcm_sample_luma, pcm_sample_chroma }, 0, 0))
        },
    }
}

fn read_ref_idx_list(r: &mut BitReader, max: u32, n: usize) -> (res: Result<Vec<i8>, SliceDataError>)
    ensures
        match spec_ref_idx_list(old(r)@, "ref_idx_l0", max, n as nat) {
            Ok((v, s2)) => res matches Ok(w) && w@ == v && final(r)@ == s2,
            Err(e) => res == Err::<Vec<i8>, SliceDataError>(e),
        },
        res matches Ok(w) ==> w@.len() == n,
{
    let ghost start = r@;
    let mut refs: Vec<i8> = Vec::new();
    let mut i: usize = 0;
    while i < n
        invariant
            start == old(r)@,
            i <= n,
            refs@.len() == i,
            spec_ref_idx_list(start, "ref_idx_l0", max, i as nat) == Ok::<(Seq<i8>, BitStream), SliceDataError>((refs@, r@)),
        decreases n - i,
    {
        let x = match read_te(r, "ref_idx_l0", max) {
            Ok(v) => v,
            Err(e) => {
                proof { lemma_ref_idx_list_err(start, "ref_idx_l0", max, (i + 1) as nat, n as nat); }
                return Err(e);
            },
        };
        refs.push(x);
        i = i + 1;
    }
    Ok(refs)
}

fn read_mvd_pairs(r: &mut BitReader, n: usize) -> (res: Result<Vec<(i16, i16)>, SliceDataError>)
    ensures
        match spec_mvd_pairs(old(r)@, n as nat) {
            Ok((v, s2)) => res matches Ok(w) && w@ == v && final(r)@ == s2,
            Err(e) => res == Err::<Vec<(i16, i16)>, SliceDataError>(e),
        },
        res matches Ok(w) ==> w@.len() == n,
{
    let ghost start = r@;
    let mut pairs: Vec<(i16, i16)> = Vec::new();
    let mut i: usize = 0;
    while i < n
        invariant
            start == old(r)@,
            i <= n,
            pairs@.len() == i,
            spec_mvd_pairs(start, i as nat) == Ok::<(Seq<(i16, i16)>, BitStream), SliceDataError>((pairs@, r@)),
        decreases n - i,
    {
        let p = match read_mvd_pair(r) {
            Ok(v) => v,
            Err(e) => {
                proof { lemma_mvd_pairs_err(start, (i + 1) as nat, n as nat); }
                return Err(e);
            },
        };
        pairs.push(p);
        i = i + 1;
    }
    Ok(pairs)
}

/// Lays out rows of motion vector differences in the 4x4 grid.
fn mvd_grid_from_rows(rows: &Vec<Vec<(i16, i16)>>) -> (m: [[[i16; 2]; 4]; 4])
    requires
        rows@.len() <= 4,
        forall|j: int| 0 <= j < rows@.len() ==> #[trigger] rows@[j]@.len() <= 4,
    ensures
        mvd_view(m) == mvd_grid(rows@.map_values(|row: Vec<(i16, i16)>| row@)),
{
    let ghost rv = rows@.map_values(|row: Vec<(i16, i16)>| row@);
    let mut m = [[[0i16; 2]; 4]; 4];
    let mut j: usize = 0;
    while j < 4
        invariant
            rv == rows@.map_values(|row: Vec<(i16, i16)>| row@),
            rows@.len() <= 4,
            forall|jj: int| 0 <= jj < rows@.len() ==> #[trigger] rows@[jj]@.len() <= 4,
            j <= 4,
            forall|jj: int| 0 <= jj < j ==> #[trigger] mvd_view(m)[jj] == mvd_grid(rv)[jj],
        decreases 4 - j,
    {
        let mut row = [[0i16; 2]; 4];
        let mut k: usize = 0;
        while k < 4
            invariant
                rv == rows@.map_values(|row: Vec<(i16, i16)>| row@),
                rows@.len() <= 4,
                forall|jj: int| 0 <= jj < rows@.len() ==> #[trigger] rows@[jj]@.len() <= 4,
                j < 4,
                k <= 4,
                forall|kk: int| 0 <= kk < k ==> #[trigger] row@[kk]@ == mvd_grid(rv)[j as int][kk],
            decreases 4 - k,
        {
            if j < rows.len() && k < rows[j].len() {
                let (x, y) = rows[j][k];
                row[k] = [x, y];
                assert(row@[k as int]@ =~= mvd_grid(rv)[j as int][k as int]);
            } else {
                row[k] = [0, 0];
                assert(row@[k as int]@ =~= mvd_grid(rv)[j as int][k as int]);
            }
            k = k + 1;
        }
        let ghost prev_m = m;
        m[j] = row;
        assert(mvd_view(m)[j as int] =~= mvd_grid(rv)[j as int]);
        assert forall|jj: int| 0 <= jj < j implies #[trigger] mvd_view(m)[jj] == mvd_grid(rv)[jj] by {
            assert(m@[jj] == prev_m@[jj]);
            assert(mvd_view(prev_m)[jj] == mvd_grid(rv)[jj]);
        }
        j = j + 1;
    }
    assert(mvd_view(m) =~= mvd_grid(rv));
    m
}

/// The four reference indices, with zeros after those read.
fn pad4(refs: &Vec<i8>) -> (a: [i8; 4])
    requires
        refs@.len() <= 4,
    ensures
        a@ == pad4_i8(refs@),
{
    let mut a = [0i8; 4];
    let mut i: usize = 0;
    while i < refs.len()
        invariant
            refs@.len() <= 4,
            i <= refs@.len(),
            forall|j: int| 0 <= j < i ==> a@[j] == refs@[j],
            forall|j: int| i <= j < 4 ==> a@[j] == 0,
        decreases refs@.len() - i,
    {
        a[i] = refs[i];
        i = i + 1;
    }
    assert(a@ =~= pad4_i8(refs@));
    a
}

fn parse_inter_mb_pred(r: &mut BitReader, num_ref: u32, num_parts: u8, part_width: u8, part_height: u8)
    -> (res: Result<MbPrediction, SliceDataError>)
    requires
        num_parts <= 4,
    ensures
        match spec_inter_mb_pred(old(r)@, num_ref, num_parts, part_width, part_height) {
            Ok((p, s2)) => res matches Ok(ep) && ep@ == p && final(r)@ == s2,
            Err(e) => res == Err::<MbPrediction, SliceDataError>(e),
        },
{
    let refs = match read_ref_idx_list(r, num_ref, num_parts as usize) {
        Ok(v) => v,
        Err(e) => return Err(e),
    };
    let pairs = match read_mvd_pairs(r, num_parts as usize) {
        Ok(v) => v,
        Err(e) => return Err(e),
    };
    let ref_idx_l0 = pad4(&refs);
    let mut rows: Vec<Vec<(i16, i16)>> = Vec::new();
    let mut i: usize = 0;
    while i < pairs.len()
        invariant
            pairs@.len() <= 4,
            i <= pairs@.len(),
            rows@.len() == i,
            forall|j: int| 0 <= j < i ==> #[trigger] rows@[j]@ == seq![pairs@[j]],
        decreases pairs@.len() - i,
    {
        let mut row: Vec<(i16, i16)> = Vec::new();
        row.push(pairs[i]);
        assert(row@ =~= seq![pairs@[i as int]]);
        rows.push(row);
        i = i + 1;
    }
    let mvd_l0 = mvd_grid_from_rows(&rows);
    assert(rows@.map_values(|row: Vec<(i16, i16)>| row@) =~= Seq::new(pairs@.len(), |j: int| seq![pairs@[j]]));
    Ok(MbPrediction::Inter(InterPrediction { num_parts, part_width, part_height, ref_idx_l0, mvd_l0, sub_mb_info: None }))
}

fn read_sub_mb_types(r: &mut BitReader) -> (res: Result<Vec<(u32, SubMbTypeInfo)>, SliceDataError>)
    ensures
        match spec_sub_mb_types(old(r)@, 4) {
            Ok((v, s2)) => res matches Ok(w) && w@ == v && final(r)@ == s2,
            Err(e) => res == Err::<Vec<(u32, SubMbTypeInfo)>, SliceDataError>(e),
        },
        res matches Ok(w) ==> w@.len() == 4 && forall|j: int| 0 <= j < 4 ==> (#[trigger] w@[j]).0 <= 3 && w@[j].1.num_sub_parts <= 4,
{
    let ghost start = r@;
    let mut types: Vec<(u32, SubMbTypeInfo)> = Vec::new();
    let mut i: usize = 0;
    while i < 4
        invariant
            start == old(r)@,
            i <= 4,
            types@.len() == i,
            forall|j: int| 0 <= j < i ==> (#[trigger] types@[j]).0 <= 3 && types@[j].1.num_sub_parts <= 4,
            spec_sub_mb_types(start, i as nat) == Ok::<(Seq<(u32, SubMbTypeInfo)>, BitStream), SliceDataError>((types@, r@)),
        decreases 4 - i,
    {
        let raw = match r.read_ue("sub_mb_type") {
            Ok(v) => v,
            Err(e) => {
                proof { lemma_sub_mb_types_err(start, (i + 1) as nat, 4); }
                return Err(SliceDataError::BitReaderError(e));
            },
        };
        let info = match p_sub_mb_type_info(raw) {
            Ok(v) => v,
            Err(e) => {
                proof { lemma_sub_mb_types_err(start, (i + 1) as nat, 4); }
                return Err(from_mb_type_error(e));
            },
        };
        types.push((raw, info));
        i = i + 1;
    }
    Ok(types)
}

fn read_sub_mvds(r: &mut BitReader, types: &Vec<(u32, SubMbTypeInfo)>) -> (res: Result<Vec<Vec<(i16, i16)>>, SliceDataError>)
    requires
        types@.len() == 4,
        forall|j: int| 0 <= j < 4 ==> (#[trigger] types@[j]).1.num_sub_parts <= 4,
    ensures
        match spec_sub_mvds(old(r)@, types@, 4) {
            Ok((v, s2)) => res matches Ok(w) && w@.map_values(|row: Vec<(i16, i16)>| row@) == v && final(r)@ == s2,
            Err(e) => res == Err::<Vec<Vec<(i16, i16)>>, SliceDataError>(e),
        },
        res matches Ok(w) ==> w@.len() == 4 && forall|j: int| 0 <= j < 4 ==> (#[trigger] w@[j])@.len() <= 4,
{
    let ghost start = r@;
    let mut rows: Vec<Vec<(i16, i16)>> = Vec::new();
    let ghost mut rv: Seq<Seq<(i16, i16)>> = Seq::empty();
    let mut i: usize = 0;
    while i < 4
        invariant
            start == old(r)@,
            types@.len() == 4,
            forall|j: int| 0 <= j < 4 ==> (#[trigger] types@[j]).1.num_sub_parts <= 4,
            i <= 4,
            rows@.len() == i,
            rv.len() == i,
            forall|j: int| 0 <= j < i ==> (#[trigger] rows@[j])@ == rv[j] && rv[j].len() <= 4,
            spec_sub_mvds(start, types@, i as nat) == Ok::<(Seq<Seq<(i16, i16)>>, BitStream), SliceDataError>((rv, r@)),
        decreases 4 - i,
    {
        let row = match read_mvd_pairs(r, types[i].1.num_sub_parts as usize) {
            Ok(v) => v,
            Err(e) => {
                proof { lemma_sub_mvds_err(start, types@, (i + 1) as nat, 4); }
                return Err(e);
            },
        };
        proof { rv = rv.push(row@); }
        rows.push(row);
        i = i + 1;
    }
    assert(rows@.map_values(|row: Vec<(i16, i16)>| row@) =~= rv);
    Ok(rows)
}

fn parse_sub_mb_pred(r: &mut BitReader, num_ref: u32, ref_idx_forced_zero: bool) -> (res: Result<MbPrediction, SliceDataError>)
    ensures
        match spec_sub_mb_pred(old(r)@, num_ref, ref_idx_forced_zero) {
            Ok((p, s2)) => res matches Ok(ep) && ep@ == p && final(r)@ == s2,
            Err(e) => res == Err::<MbPrediction, SliceDataError>(e),
        },
{
    let types = match read_sub_mb_types(r) {
        Ok(v) => v,
        Err(e) => return Err(e),
    };
    let sub_ref_idx_l0: [i8; 4] = if !ref_idx_forced_zero {
        let refs = match read_ref_idx_list(r, num_ref, 4) {
            Ok(v) => v,
            Err(e) => return Err(e),
        };
        assert(pad4_i8(refs@) =~= refs@);
        pad4(&refs)
    } else {
        let a = [0i8; 4];
        assert(a@ =~= seq![0i8, 0i8, 0i8, 0i8]);
        a
    };
    let rows = match read_sub_mvds(r, &types) {
        Ok(v) => v,
        Err(e) => return Err(e),
    };
    let mvd_l0 = mvd_grid_from_rows(&rows);
    let mut sub_mb_type_raw = [0u8; 4];
    let mut sub_info = [
        SubMbTypeInfo { num_sub_parts: 1, sub_part_width: 8, sub_part_height: 8, pred_mode: MbPartPredMode::PredL0 },
        SubMbTypeInfo { num_sub_parts: 1, sub_part_width: 8, sub_part_height: 8, pred_mode: MbPartPredMode::PredL0 },
        SubMbTypeInfo { num_sub_parts: 1, sub_part_width: 8, sub_part_height: 8, pred_mode: MbPartPredMode::PredL0 },
        SubMbTypeInfo { num_sub_parts: 1, sub_part_width: 8, sub_part_height: 8, pred_mode: MbPartPredMode::PredL0 },
    ];
    let mut i: usize = 0;
    while i < 4
        invariant
            types@.len() == 4,
            forall|j: int| 0 <= j < 4 ==> (#[trigger] types@[j]).0 <= 3,
            i <= 4,
            forall|j: int| 0 <= j < i ==> sub_mb_type_raw@[j] == types@[j].0 as u8 && sub_info@[j] == types@[j].1,
        decreases 4 - i,
    {
        let (raw, info) = types[i];
        sub_mb_type_raw[i] = raw as u8;
        sub_info[i] = info;
        i = i + 1;
    }
    assert(sub_mb_type_raw@ =~= types@.map_values(|t: (u32, SubMbTypeInfo)| t.0 as u8));
    assert(sub_info@ =~= types@.map_values(|t: (u32, SubMbTypeInfo)| t.1));
    let zero_refs = [0i8; 4];
    assert(zero_refs@ =~= seq![0i8, 0i8, 0i8, 0i8]);
    Ok(MbPrediction::Inter(InterPrediction {
        num_parts: 4,
        part_width: 8,
        part_height: 8,
        ref_idx_l0: zero_refs,
        mvd_l0,
        sub_mb_info: Some(SubMbInfo { sub_mb_type: sub_mb_type_raw, info: sub_info, ref_idx_l0: sub_ref_idx_l0 }),
    }))
}

fn parse_intra_mb(r: &mut BitReader, info: &IMbTypeInfo) -> (res: Result<(MbPrediction, u8, u8, i32), SliceDataError>)
    ensures
        match spec_intra_mb(old(r)@, *info) {
            Ok(((p, l, c, q), s2)) => res matches Ok((ep, el, ec, eq)) && ep@ == p && el == l && ec == c && eq == q && final(r)@ == s2,
            Err(e) => res == Err::<(MbPrediction, u8, u8, i32), SliceDataError>(e),
        },
{
    let (mb_pred, cbp_luma, cbp_chroma) = match parse_i_mb_body(r, info) {
        Ok(v) => v,
        Err(e) => return Err(e),
    };
    let i16x16 = match info {
        IMbTypeInfo::I16x16 { .. } => true,
        _ => false,
    };
    let mb_qp_delta = if cbp_luma > 0 || cbp_chroma > 0 || i16x16 {
        match read_mb_qp_delta(r) {
            Ok(v) => v,
            Err(e) => return Err(e),
        }
    } else {
        0
    };
    Ok((mb_pred, cbp_luma, cbp_chroma, mb_qp_delta))
}

fn parse_inter_mb(r: &mut BitReader, num_ref: u32, num_parts: u8, part_width: u8, part_height: u8, ref_idx_forced_zero: bool)
    -> (res: Result<(MbPrediction, u8, u8, i32), SliceDataError>)
    requires
        num_parts <= 4,
    ensures
        match spec_inter_mb(old(r)@, num_ref, num_parts, part_width, part_height, ref_idx_forced_zero) {
            Ok(((p, l, c, q), s2)) => res matches Ok((ep, el, ec, eq)) && ep@ == p && el == l && ec == c && eq == q && final(r)@ == s2,
            Err(e) => res == Err::<(MbPrediction, u8, u8, i32), SliceDataError>(e),
        },
{
    let is_8x8 = num_parts == 4;
    let mb_pred = if is_8x8 {
        match parse_sub_mb_pred(r, num_ref, ref_idx_forced_zero) {
            Ok(v) => v,
            Err(e) => return Err(e),
        }
    } else {
        match parse_inter_mb_pred(r, num_ref, num_parts, part_width, part_height) {
            Ok(v) => v,
            Err(e) => return Err(e),
        }
    };
    // coded_block_pattern is read as ue(v), then mapped.
    let (cbp_luma, cbp_chroma) = match read_coded_block_pattern(r, false) {
        Ok(v) => v,
        Err(e) => return Err(e),
    };
    let mb_qp_delta = if cbp_luma > 0 || cbp_chroma > 0 {
        match read_mb_qp_delta(r) {
            Ok(v) => v,
            Err(e) => return Err(e),
        }
    } else {
        0
    };
    Ok((mb_pred, cbp_luma, cbp_chroma, mb_qp_delta))
}

fn parse_macroblock_header(r: &mut BitReader, family: SliceFamily, num_ref: u32, mb_addr: u32) -> (res: Result<MacroblockHeader, SliceDataError>)
    ensures
        match spec_macroblock_header(old(r)@, family, num_ref, mb_addr) {
            Ok((h, s2)) => res matches Ok(eh) && eh@ == h && final(r)@ == s2,
            Err(e) => res == Err::<MacroblockHeader, SliceDataError>(e),
        },
{
    let raw_mb_type = match r.read_ue("mb_type") {
        Ok(v) => v,
        Err(e) => return Err(SliceDataError::BitReaderError(e)),
    };
    match family {
        SliceFamily::I | SliceFamily::SI => {
            let info = match i_mb_type_info(raw_mb_type) {
                Ok(v) => v,
                Err(e) => return Err(from_mb_type_error(e)),
            };
            let (mb_pred, cbp_luma, cbp_chroma, mb_qp_delta) = match parse_intra_mb(r, &info) {
                Ok(v) => v,
                Err(e) => return Err(e),
            };
            Ok(MacroblockHeader {
                mb_addr,
                mb_type: MbTypeInfo::I(info),
                coded_block_pattern_luma: cbp_luma,
                coded_block_pattern_chroma: cbp_chroma,
                mb_qp_delta,
                mb_pred,
            })
        },
        SliceFamily::P | SliceFamily::SP => {
            let info = match p_mb_type_info(raw_mb_type) {
                Ok(v) => v,
                Err(e) => return Err(from_mb_type_error(e)),
            };
            let rest = match info {
                PMbTypeInfo::I(i_info) => parse_intra_mb(r, &i_info),
                PMbTypeInfo::P { num_parts, part_width, part_height, ref_idx_forced_zero, .. } =>
                    parse_inter_mb(r, num_ref, num_parts, part_width, part_height, ref_idx_forced_zero),
            };
            let (mb_pred, cbp_luma, cbp_chroma, mb_qp_delta) = match rest {
                Ok(v) => v,
                Err(e) => return Err(e),
            };
            Ok(MacroblockHeader {
                mb_addr,
                mb_type: MbTypeInfo::P(info),
                coded_block_pattern_luma: cbp_luma,
                coded_block_pattern_chroma: cbp_chroma,
                mb_qp_delta,
                mb_pred,
            })
        },
        SliceFamily::B => {
            // B slices not supported yet (baseline profile only)
            Err(SliceDataError::InvalidParameter { field: "slice_type", value: 1 })
        },
    }
}

/// The state of a slice data reader: the stream and the position in the slice.
pub ghost struct SliceDataState {
    pub stream: BitStream,
    pub slice_family: SliceFamily,
    pub curr_mb_addr: u32,
    pub pic_size_in_mbs: u32,
    pub num_ref_idx_l0_active_minus1: u32,
    pub pending_skips: u32,
    pub after_skip_run: bool,
    pub done: bool,
}

/// What one step of slice data reading gives.
pub ghost enum SliceStep {
    End,
    Skip(u32),
    Macroblock(MacroblockHeaderView),
}

/// The state after a skipped macroblock at `addr`, with `pending` skips left: when the run
/// ends, the slice ends unless more RBSP data follows.
pub open spec fn spec_after_skip(st: SliceDataState, stream: BitStream, pending: u32, addr: u32) -> Result<SliceDataState, SliceDataError> {
    let st1 = SliceDataState { stream, pending_skips: pending, curr_mb_addr: (addr + 1) as u32, ..st };
    if pending == 0 {
        match spec_has_more_rbsp_data(stream, "slice_data") {
            Err(e) => Err(SliceDataError::BitReaderError(e)),
            Ok(more) => if !more {
                Ok(SliceDataState { done: true, ..st1 })
            } else {
                Ok(SliceDataState { after_skip_run: true, ..st1 })
            },
        }
    } else {
        Ok(st1)
    }
}

/// Reading the macroblock header at the current address.
pub open spec fn spec_mb_step(st: SliceDataState) -> Result<(SliceStep, SliceDataState), SliceDataError> {
    match spec_macroblock_header(st.stream, st.slice_family, st.num_ref_idx_l0_active_minus1, st.curr_mb_addr) {
        Err(e) => Err(e),
        Ok((h, s2)) => Ok((SliceStep::Macroblock(h), SliceDataState { stream: s2, curr_mb_addr: (st.curr_mb_addr + 1) as u32, ..st })),
    }
}

/// One step of `slice_data()` (7.3.4) without MBAFF: the end of the slice, a skipped
/// macroblock, or the header of a coded macroblock.
pub open spec fn spec_slice_data_next(st: SliceDataState) -> Result<(SliceStep, SliceDataState), SliceDataError> {
    if st.done {
        Ok((SliceStep::End, st))
    } else if st.curr_mb_addr >= st.pic_size_in_mbs {
        Ok((SliceStep::End, SliceDataState { done: true, ..st }))
    } else if st.pending_skips > 0 {
        match spec_after_skip(st, st.stream, (st.pending_skips - 1) as u32, st.curr_mb_addr) {
            Err(e) => Err(e),
            Ok(st2) => Ok((SliceStep::Skip(st.curr_mb_addr), st2)),
        }
    } else if st.after_skip_run {
        spec_mb_step(SliceDataState { after_skip_run: false, ..st })
    } else if st.slice_family != SliceFamily::I && st.slice_family != SliceFamily::SI {
        match spec_read_ue(st.stream, "mb_skip_run") {
            Err(e) => Err(SliceDataError::BitReaderError(e)),
            Ok((run, s1)) => if run > 0 {
                match spec_after_skip(st, s1, (run - 1) as u32, st.curr_mb_addr) {
                    Err(e) => Err(e),
                    Ok(st2) => Ok((SliceStep::Skip(st.curr_mb_addr), st2)),
                }
            } else {
                match spec_has_more_rbsp_data(s1, "slice_data") {
                    Err(e) => Err(SliceDataError::BitReaderError(e)),
                    Ok(more) => if !more {
                        Ok((SliceStep::End, SliceDataState { stream: s1, done: true, ..st }))
                    } else {
                        spec_mb_step(SliceDataState { stream: s1, ..st })
                    },
                }
            },
        }
    } else {
        spec_mb_step(st)
    }
}

struct SliceDataCore {
    reader: BitReader,
    slice_family: SliceFamily,
    curr_mb_addr: u32,
    pic_size_in_mbs: u32,
    num_ref_idx_l0_active_minus1: u32,
    pending_skips: u32,
    after_skip_run: bool,
    done: bool,
}

impl View for SliceDataCore {
    type V = SliceDataState;

    closed spec fn view(&self) -> SliceDataState {
        SliceDataState {
            stream: self.reader@,
            slice_family: self.slice_family,
            curr_mb_addr: self.curr_mb_addr,
            pic_size_in_mbs: self.pic_size_in_mbs,
            num_ref_idx_l0_active_minus1: self.num_ref_idx_l0_active_minus1,
            pending_skips: self.pending_skips,
            after_skip_run: self.after_skip_run,
            done: self.done,
        }
    }
}

impl SliceDataCore {
    fn next_mb_address(&self, addr: u32) -> (r: u32)
        requires
            addr < u32::MAX,
        ensures
            r == addr + 1,
    {
        addr + 1
    }

    /// Ends a skip run at `addr` whose remaining count is already stored.
    fn after_skip(&mut self, addr: u32) -> (res: Result<(), SliceDataError>)
        requires
            addr < u32::MAX,
        ensures
            match spec_after_skip(old(self)@, old(self)@.stream, old(self)@.pending_skips, addr) {
                Ok(st2) => res is Ok && final(self)@ == st2,
                Err(e) => res == Err::<(), SliceDataError>(e),
            },
    {
        self.curr_mb_addr = self.next_mb_address(addr);
        if self.pending_skips == 0 {
            match self.reader.has_more_rbsp_data("slice_data") {
                Ok(false) => {
                    self.done = true;
                },
                Ok(true) => {
                    self.after_skip_run = true;
                },
                Err(e) => return Err(SliceDataError::BitReaderError(e)),
            }
        }
        Ok(())
    }
}

pub enum SliceEvent {
    End,
    Skip { mb_addr: u32, next: SliceDataReader },
    Macroblock(MacroblockResidual),
}

pub struct SliceDataReader {
    core: SliceDataCore,
}

impl View for SliceDataReader {
    type V = SliceDataState;

    closed spec fn view(&self) -> SliceDataState {
        self.core@
    }
}

pub struct MacroblockResidual {
    core: SliceDataCore,
    header: MacroblockHeader,
}

impl View for MacroblockResidual {
    type V = (SliceDataState, MacroblockHeaderView);

    closed spec fn view(&self) -> (SliceDataState, MacroblockHeaderView) {
        (self.core@, self.header@)
    }
}

/// Whether an event is the outcome of a step: the same kind, and the state after it.
pub open spec fn event_is(ev: SliceEvent, step: SliceStep, st: SliceDataState) -> bool {
    match step {
        SliceStep::End => ev is End,
        SliceStep::Skip(addr) => ev matches SliceEvent::Skip { mb_addr, next } && mb_addr == addr && next@ == st,
        SliceStep::Macroblock(h) => ev matches SliceEvent::Macroblock(m) && m@ == (st, h),
    }
}

/// Reads the macroblock header at the current address.
fn mb_step(core: SliceDataCore) -> (res: Result<SliceEvent, SliceDataError>)
    requires
        core@.curr_mb_addr < u32::MAX,
    ensures
        match spec_mb_step(core@) {
            Ok((step, st2)) => res matches Ok(ev) && event_is(ev, step, st2),
            Err(e) => res matches Err(e2) && e2 == e,
        },
{
    let mut core = core;
    let mb_addr = core.curr_mb_addr;
    let header = match parse_macroblock_header(&mut core.reader, core.slice_family, core.num_ref_idx_l0_active_minus1, mb_addr) {
        Ok(h) => h,
        Err(e) => return Err(e),
    };
    core.curr_mb_addr = core.next_mb_address(mb_addr);
    Ok(SliceEvent::Macroblock(MacroblockResidual { core, header }))
}

impl SliceDataReader {
    pub fn new(
        reader: BitReader,
        slice_family: SliceFamily,
        first_mb_in_slice: u32,
        pic_size_in_mbs: u32,
        num_ref_idx_l0_active_minus1: u32,
    ) -> (r: Self)
        ensures
            r@ == (SliceDataState {
                stream: reader@,
                slice_family,
                curr_mb_addr: first_mb_in_slice,
                pic_size_in_mbs,
                num_ref_idx_l0_active_minus1,
                pending_skips: 0,
                after_skip_run: false,
                done: false,
            }),
    {
        SliceDataReader {
            core: SliceDataCore {
                reader,
                slice_family,
                curr_mb_addr: first_mb_in_slice,
                pic_size_in_mbs,
                num_ref_idx_l0_active_minus1,
                pending_skips: 0,
                after_skip_run: false,
                done: false,
            },
        }
    }

    pub fn next(self) -> (res: Result<SliceEvent, SliceDataError>)
        ensures
            match spec_slice_data_next(self@) {
                Ok((step, st2)) => res matches Ok(ev) && event_is(ev, step, st2),
                Err(e) => res matches Err(e2) && e2 == e,
            },
    {
        let mut core = self.core;
        if core.done {
            return Ok(SliceEvent::End);
        }
        if core.curr_mb_addr >= core.pic_size_in_mbs {
            core.done = true;
            return Ok(SliceEvent::End);
        }
        if core.pending_skips > 0 {
            core.pending_skips = core.pending_skips - 1;
            let addr = core.curr_mb_addr;
            match core.after_skip(addr) {
                Ok(()) => {},
                Err(e) => return Err(e),
            }
            return Ok(SliceEvent::Skip { mb_addr: addr, next: SliceDataReader { core } });
        }
        if core.after_skip_run {
            core.after_skip_run = false;
        } else if core.slice_family != SliceFamily::I && core.slice_family != SliceFamily::SI {
            let mb_skip_run = match core.reader.read_ue("mb_skip_run") {
                Ok(v) => v,
                Err(e) => return Err(SliceDataError::BitReaderError(e)),
            };
            if mb_skip_run > 0 {
                core.pending_skips = mb_skip_run - 1;
                let addr = core.curr_mb_addr;
                match core.after_skip(addr) {
                    Ok(()) => {},
                    Err(e) => return Err(e),
                }
                return Ok(SliceEvent::Skip { mb_addr: addr, next: SliceDataReader { core } });
            }
            match core.reader.has_more_rbsp_data("slice_data") {
                Ok(false) => {
                    core.done = true;
                    return Ok(SliceEvent::End);
                },
                Ok(true) => {},
                Err(e) => return Err(SliceDataError::BitReaderError(e)),
            }
        }
        mb_step(core)
    }

    pub fn curr_mb_addr(&self) -> (r: u32)
        ensures
            r == self@.curr_mb_addr,
    {
        self.core.curr_mb_addr
    }

    pub fn pic_size_in_mbs(&self) -> (r: u32)
        ensures
            r == self@.pic_size_in_mbs,
    {
        self.core.pic_size_in_mbs
    }

    /// Gives back the bit reader, positioned where slice data reading stopped.
    pub fn into_reader(self) -> (r: BitReader)
        ensures
            r@ == self@.stream,
    {
        self.core.reader
    }
}

impl MacroblockResidual {
    pub fn header(&self) -> (h: &MacroblockHeader)
        ensures
            h@ == self@.1,
    {
        &self.header
    }

    /// Decodes one CAVLC residual block of this macroblock from the slice data.
    pub fn residual_block_cavlc(
        &mut self,
        coeff_level: &mut Vec<i32>,
        start_idx: usize,
        end_idx: usize,
        max_num_coeff: usize,
        nc: CavlcContext,
    ) -> (res: Result<u8, CavlcError>)
        requires
            end_idx < old(coeff_level)@.len(),
            start_idx <= end_idx + 1,
        ensures
            match spec_residual_block_cavlc(old(self)@.0.stream, old(coeff_level)@, start_idx as int, end_idx as int, max_num_coeff, nc) {
                Ok((tc, c, s2)) => res == Ok::<u8, CavlcError>(tc) && final(coeff_level)@ == c
                    && final(self)@ == (SliceDataState { stream: s2, ..old(self)@.0 }, old(self)@.1),
                Err(e) => res == Err::<u8, CavlcError>(e),
            },
            final(coeff_level)@.len() == old(coeff_level)@.len(),
    {
        cavlc::residual_block_cavlc(&mut self.core.reader, coeff_level, start_idx, end_idx, max_num_coeff, nc)
    }

    pub fn curr_mb_addr(&self) -> (r: u32)
        ensures
            r == self@.0.curr_mb_addr,
    {
        self.core.curr_mb_addr
    }

    /// Ends the macroblock: the slice is done unless more RBSP data follows.
    pub fn finish(self) -> (res: Result<SliceDataReader, SliceDataError>)
        ensures
            res matches Ok(r) && r@ == match spec_has_more_rbsp_data(self@.0.stream, "slice_data") {
                Ok(true) => self@.0,
                _ => SliceDataState { done: true, ..self@.0 },
            },
    {
        let mut core = self.core;
        match core.reader.has_more_rbsp_data("slice_data") {
            Ok(false) => {
                core.done = true;
            },
            Ok(true) => {},
            Err(_) => {
                core.done = true;
            },
        }
        Ok(SliceDataReader { core })
    }
}


/// `n` steps of slice data reading: the steps taken and the state after them, or the first
/// failure.
pub open spec fn slice_data_run(st: SliceDataState, n: nat) -> Result<(Seq<SliceStep>, SliceDataState), SliceDataError>
    decreases n,
{
    if n == 0 {
        Ok((Seq::empty(), st))
    } else {
        match slice_data_run(st, (n - 1) as nat) {
            Err(e) => Err(e),
            Ok((steps, s1)) => match spec_slice_data_next(s1) {
                Err(e) => Err(e),
                Ok((step, s2)) => Ok((steps.push(step), s2)),
            },
        }
    }
}

/// Skip runs are pending only in slices that may skip macroblocks: I and SI slices have none.
pub open spec fn skips_only_in_inter(st: SliceDataState) -> bool {
    st.slice_family == SliceFamily::I || st.slice_family == SliceFamily::SI ==> st.pending_skips == 0
}

/// The number of leading steps before the first end of the slice.
pub open spec fn active_len(steps: Seq<SliceStep>) -> nat
    decreases steps.len(),
{
    if steps.len() == 0 {
        0
    } else if active_len(steps.drop_last()) == steps.len() - 1 && !(steps.last() is End) {
        steps.len()
    } else {
        active_len(steps.drop_last())
    }
}

proof fn lemma_slice_data_step(st: SliceDataState)
    requires
        spec_slice_data_next(st) is Ok,
    ensures
        spec_slice_data_next(st) matches Ok((step, st2)) && {
            &&& st.done ==> step is End && st2 == st
            &&& step is End ==> st2.done
            &&& !(step is End) ==> !st.done && st.curr_mb_addr < st.pic_size_in_mbs && st2.curr_mb_addr == st.curr_mb_addr + 1
            &&& (step matches SliceStep::Skip(a) ==> a == st.curr_mb_addr)
            &&& (step matches SliceStep::Macroblock(h) ==> h.mb_addr == st.curr_mb_addr)
            &&& skips_only_in_inter(st) ==> skips_only_in_inter(st2)
                && (step is Skip ==> st.slice_family != SliceFamily::I && st.slice_family != SliceFamily::SI)
            &&& (!st.done && st.curr_mb_addr >= st.pic_size_in_mbs ==> step is End && st2 == SliceDataState { done: true, ..st })
            &&& st2.pic_size_in_mbs == st.pic_size_in_mbs
            &&& st2.slice_family == st.slice_family
        },
{
}

/// Reading slice data visits macroblock addresses one after another from the first: every
/// step before the end of the slice is a skipped or coded macroblock at the next address,
/// and once the slice has ended, every further step ends it again.
pub proof fn lemma_slice_data_run(st: SliceDataState, n: nat)
    requires
        slice_data_run(st, n) is Ok,
    ensures
        slice_data_run(st, n) matches Ok((steps, st2)) && {
            &&& steps.len() == n
            &&& active_len(steps) <= n
            &&& forall|i: int| 0 <= i < n ==> ((#[trigger] steps[i] is End) <==> i >= active_len(steps))
            &&& forall|i: int| 0 <= i < active_len(steps) ==> (#[trigger] steps[i] matches SliceStep::Skip(a) ==> a == st.curr_mb_addr + i)
            &&& st2.curr_mb_addr == st.curr_mb_addr + active_len(steps)
            &&& active_len(steps) < n ==> st2.done
            &&& forall|i: int| 0 <= i < active_len(steps) ==> (#[trigger] steps[i] matches SliceStep::Macroblock(h) ==> h.mb_addr == st.curr_mb_addr + i)
            &&& skips_only_in_inter(st) && (st.slice_family == SliceFamily::I || st.slice_family == SliceFamily::SI)
                ==> forall|i: int| 0 <= i < n ==> !(#[trigger] steps[i] is Skip)
            &&& skips_only_in_inter(st) ==> skips_only_in_inter(st2)
            &&& st.done ==> active_len(steps) == 0
            &&& st2.pic_size_in_mbs == st.pic_size_in_mbs
            &&& st2.slice_family == st.slice_family
        },
    decreases n,
{
    if n > 0 {
        lemma_slice_data_run(st, (n - 1) as nat);
        let (steps, s1) = slice_data_run(st, (n - 1) as nat)->Ok_0;
        lemma_slice_data_step(s1);
        let (step, s2) = spec_slice_data_next(s1)->Ok_0;
        let all = steps.push(step);
        assert(all.drop_last() =~= steps);
        assert forall|i: int| 0 <= i < n implies ((#[trigger] all[i] is End) <==> i >= active_len(all)) by {
            if i < n - 1 {
                assert(all[i] == steps[i]);
            }
        }
        assert forall|i: int| 0 <= i < active_len(all) implies (#[trigger] all[i] matches SliceStep::Skip(a) ==> a == st.curr_mb_addr + i) by {
            if i < n - 1 {
                assert(all[i] == steps[i]);
            }
        }
        assert forall|i: int| 0 <= i < active_len(all) implies (#[trigger] all[i] matches SliceStep::Macroblock(h) ==> h.mb_addr == st.curr_mb_addr + i) by {
            if i < n - 1 {
                assert(all[i] == steps[i]);
            }
        }
        if skips_only_in_inter(st) && (st.slice_family == SliceFamily::I || st.slice_family == SliceFamily::SI) {
            assert forall|i: int| 0 <= i < n implies !(#[trigger] all[i] is Skip) by {
                if i < n - 1 {
                    assert(all[i] == steps[i]);
                }
            }
        }
    }
}

proof fn lemma_skip_step(s1: SliceDataState)
    requires
        !s1.done,
        s1.pending_skips > 0,
        s1.curr_mb_addr < s1.pic_size_in_mbs,
    ensures
        spec_slice_data_next(s1) == match spec_after_skip(s1, s1.stream, (s1.pending_skips - 1) as u32, s1.curr_mb_addr) {
            Err(e) => Err::<(SliceStep, SliceDataState), SliceDataError>(e),
            Ok(st2) => Ok((SliceStep::Skip(s1.curr_mb_addr), st2)),
        },
        s1.pending_skips > 1 ==> spec_after_skip(s1, s1.stream, (s1.pending_skips - 1) as u32, s1.curr_mb_addr)
            == Ok::<SliceDataState, SliceDataError>(SliceDataState { pending_skips: (s1.pending_skips - 1) as u32, curr_mb_addr: (s1.curr_mb_addr + 1) as u32, ..s1 }),
        spec_after_skip(s1, s1.stream, (s1.pending_skips - 1) as u32, s1.curr_mb_addr) matches Ok(st2) ==> {
            &&& st2.curr_mb_addr == s1.curr_mb_addr + 1
            &&& st2.stream == s1.stream
        },
{
}

/// A pending run of skipped macroblocks is handed out one address after another: while skips
/// are pending, each step skips the macroblock at the next address and reads nothing; the
/// last skip of the run is at the address `pending_skips - 1` past the current one.
#[verifier::rlimit(60)]
pub proof fn lemma_slice_data_skip_run(st: SliceDataState, m: nat)
    requires
        !st.done,
        m <= st.pending_skips,
        st.curr_mb_addr + m <= st.pic_size_in_mbs,
    ensures
        m < st.pending_skips ==> slice_data_run(st, m) == Ok::<(Seq<SliceStep>, SliceDataState), SliceDataError>((
            Seq::new(m, |i: int| SliceStep::Skip((st.curr_mb_addr + i) as u32)),
            SliceDataState { pending_skips: (st.pending_skips - m) as u32, curr_mb_addr: (st.curr_mb_addr + m) as u32, ..st },
        )),
        slice_data_run(st, m) matches Ok((steps, st2)) ==> {
            &&& steps == Seq::new(m, |i: int| SliceStep::Skip((st.curr_mb_addr + i) as u32))
            &&& st2.curr_mb_addr == st.curr_mb_addr + m
            &&& st2.stream == st.stream
        },
    decreases m,
{
    if m > 0 {
        lemma_slice_data_skip_run(st, (m - 1) as nat);
        let s1 = SliceDataState { pending_skips: (st.pending_skips - (m - 1)) as u32, curr_mb_addr: (st.curr_mb_addr + (m - 1)) as u32, ..st };
        let prev = Seq::new((m - 1) as nat, |i: int| SliceStep::Skip((st.curr_mb_addr + i) as u32));
        assert(slice_data_run(st, (m - 1) as nat) == Ok::<(Seq<SliceStep>, SliceDataState), SliceDataError>((prev, s1)));
        lemma_skip_step(s1);
        assert(prev.push(SliceStep::Skip((st.curr_mb_addr + (m - 1)) as u32))
            =~= Seq::new(m, |i: int| SliceStep::Skip((st.curr_mb_addr + i) as u32)));
    } else {
        assert(Seq::new(0, |i: int| SliceStep::Skip((st.curr_mb_addr + i) as u32)) =~= Seq::<SliceStep>::empty());
        assert(SliceDataState { pending_skips: (st.pending_skips - 0) as u32, curr_mb_addr: (st.curr_mb_addr + 0) as u32, ..st } == st);
    }
}

/// Past the last macroblock of the picture, reading slice data ends the slice and reads
/// nothing more.
pub proof fn lemma_slice_data_past_end(st: SliceDataState)
    requires
        st.curr_mb_addr >= st.pic_size_in_mbs,
    ensures
        spec_slice_data_next(st) matches Ok((step, st2)) && step is End && st2.stream == st.stream && st2.done,
{
}

} // verus!

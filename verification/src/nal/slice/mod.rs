//! Slice layer syntax.

pub mod cavlc;
pub mod data;
pub mod macroblock;

use vstd::prelude::*;
use crate::nal::pps::{PicParamSetId, PicParamSetIdError, PicParameterSet, SliceGroup};
use crate::nal::sps::{ChromaFormat, FrameMbsFlags, PicOrderCntType, SeqParamSetId, SeqParameterSet};
use crate::nal::{NalHeader, UnitType};
use crate::rbsp::{bits_at, lemma_read_bit_written, lemma_read_se_bits, lemma_read_ue_bits, lemma_read_value, ue_bits, lemma_reads_split, lemma_value_bits_len, reads, se_bits, value_bits};
use crate::rbsp::{parsed, spec_read_u32_bits, spec_has_more_rbsp_data, spec_read_bit, spec_read_bits, spec_read_se, spec_read_ue, BitReader, BitReaderError, BitStream, ErrorKind};
use crate::{slot_value, Context};

verus! {

/// The kind of a slice.
#[derive(Debug, Clone, Copy, PartialEq, Eq, Structural)]
pub enum SliceFamily {
    P,
    B,
    I,
    SP,
    SI,
}

#[derive(Debug, Clone, Copy, PartialEq, Eq, Structural)]
pub enum SliceExclusive {
    /// All slices in the picture have the same type
    Exclusive,
    /// Other slices in the picture may have a different type than the current slice
    NonExclusive,
}

#[derive(Debug, Clone, Copy, PartialEq, Eq, Structural)]
pub struct SliceType {
    pub family: SliceFamily,
    pub exclusive: SliceExclusive,
}

/// The slice type for `slice_type` (Table 7-6): `0..=4` and, for exclusive slices, `5..=9`.
pub open spec fn spec_slice_type(id: u32) -> Result<SliceType, SliceHeaderError> {
    if id > 9 {
        Err(SliceHeaderError::InvalidSliceType(id))
    } else {
        let k = id % 5;
        let family = if k == 0 { SliceFamily::P } else if k == 1 { SliceFamily::B } else if k == 2 { SliceFamily::I }
            else if k == 3 { SliceFamily::SP } else { SliceFamily::SI };
        Ok(SliceType { family, exclusive: if id < 5 { SliceExclusive::NonExclusive } else { SliceExclusive::Exclusive } })
    }
}

impl SliceType {
    fn from_id(id: u32) -> (r: Result<SliceType, SliceHeaderError>)
        ensures
            r == spec_slice_type(id),
    {
        match id {
            0 => Ok(SliceType { family: SliceFamily::P, exclusive: SliceExclusive::NonExclusive }),
            1 => Ok(SliceType { family: SliceFamily::B, exclusive: SliceExclusive::NonExclusive }),
            2 => Ok(SliceType { family: SliceFamily::I, exclusive: SliceExclusive::NonExclusive }),
            3 => Ok(SliceType { family: SliceFamily::SP, exclusive: SliceExclusive::NonExclusive }),
            4 => Ok(SliceType { family: SliceFamily::SI, exclusive: SliceExclusive::NonExclusive }),
            5 => Ok(SliceType { family: SliceFamily::P, exclusive: SliceExclusive::Exclusive }),
            6 => Ok(SliceType { family: SliceFamily::B, exclusive: SliceExclusive::Exclusive }),
            7 => Ok(SliceType { family: SliceFamily::I, exclusive: SliceExclusive::Exclusive }),
            8 => Ok(SliceType { family: SliceFamily::SP, exclusive: SliceExclusive::Exclusive }),
            9 => Ok(SliceType { family: SliceFamily::SI, exclusive: SliceExclusive::Exclusive }),
            _ => Err(SliceHeaderError::InvalidSliceType(id)),
        }
    }
}

#[derive(Debug, Clone, Copy, PartialEq, Eq)]
pub enum SliceHeaderError {
    RbspError(BitReaderError),
    InvalidSliceType(u32),
    InvalidSeqParamSetId(PicParamSetIdError),
    UndefinedPicParamSetId(PicParamSetId),
    UndefinedSeqParamSetId(SeqParamSetId),
    ColourPlaneError(ColourPlaneError),
    InvalidModificationOfPicNumIdc(u32),
    InvalidMemoryManagementControlOperation(u32),
    InvalidSliceQpDelta(i32),
    InvalidSliceQsDelta(i32),
    InvalidDisableDeblockingFilterIdc(u32),
    /// `slice_alpha_c0_offset_div2` was outside the expected range of `-6` to `+6`
    InvalidSliceAlphaC0OffsetDiv2(i32),
    /// `num_ref_idx_l0_default_active_minus1` or num_ref_idx_l1_default_active_minus1` is
    /// greater than allowed 32.
    InvalidNumRefIdx(&'static str, u32),
    /// The header contained syntax elements that the parser isn't able to handle yet
    UnsupportedSyntax(&'static str),
}

#[derive(Debug, Clone, Copy, PartialEq, Eq, Structural)]
pub enum ColourPlane {
    /// Indicates the _chroma_ colour plane
    Y,
    /// Indicates the _blue-difference_ colour plane
    Cb,
    /// Indicates the _red-difference_ colour plane
    Cr,
}

#[derive(Debug, Clone, Copy, PartialEq, Eq, Structural)]
pub enum ColourPlaneError {
    InvalidId(u8),
}

/// The colour plane for `colour_plane_id`.
pub open spec fn spec_colour_plane(id: u8) -> Result<ColourPlane, ColourPlaneError> {
    if id == 0 {
        Ok(ColourPlane::Y)
    } else if id == 1 {
        Ok(ColourPlane::Cb)
    } else if id == 2 {
        Ok(ColourPlane::Cr)
    } else {
        Err(ColourPlaneError::InvalidId(id))
    }
}

impl ColourPlane {
    fn from_id(id: u8) -> (r: Result<ColourPlane, ColourPlaneError>)
        ensures
            r == spec_colour_plane(id),
    {
        match id {
            0 => Ok(ColourPlane::Y),
            1 => Ok(ColourPlane::Cb),
            2 => Ok(ColourPlane::Cr),
            _ => Err(ColourPlaneError::InvalidId(id)),
        }
    }
}

#[derive(Debug, Clone, Copy, PartialEq, Eq, Structural)]
pub enum Field {
    Top,
    Bottom,
}

#[derive(Debug, Clone, Copy, PartialEq, Eq, Structural)]
pub enum FieldPic {
    Frame,
    Field(Field),
}

#[derive(Debug, Clone, Copy, PartialEq, Eq)]
pub enum PicOrderCountLsb {
    Frame(u32),
    FieldsAbsolute { pic_order_cnt_lsb: u32, delta_pic_order_cnt_bottom: i32 },
    FieldsDelta([i32; 2]),
}

/// The values of a [`PicOrderCountLsb`].
pub ghost enum PicOrderCountLsbView {
    Frame(u32),
    FieldsAbsolute { pic_order_cnt_lsb: u32, delta_pic_order_cnt_bottom: i32 },
    FieldsDelta(i32, i32),
}

impl View for PicOrderCountLsb {
    type V = PicOrderCountLsbView;

    open spec fn view(&self) -> PicOrderCountLsbView {
        match self {
            PicOrderCountLsb::Frame(v) => PicOrderCountLsbView::Frame(*v),
            PicOrderCountLsb::FieldsAbsolute { pic_order_cnt_lsb, delta_pic_order_cnt_bottom } => PicOrderCountLsbView::FieldsAbsolute {
                pic_order_cnt_lsb: *pic_order_cnt_lsb,
                delta_pic_order_cnt_bottom: *delta_pic_order_cnt_bottom,
            },
            PicOrderCountLsb::FieldsDelta(d) => PicOrderCountLsbView::FieldsDelta(d@[0], d@[1]),
        }
    }
}

#[derive(Debug, Clone, Copy, PartialEq, Eq, Structural)]
pub enum NumRefIdxActive {
    P { num_ref_idx_l0_active_minus1: u32 },
    B { num_ref_idx_l0_active_minus1: u32, num_ref_idx_l1_active_minus1: u32 },
}

/// `num_ref_idx_l0_active_minus1` of either kind.
pub open spec fn spec_num_ref_idx_l0(n: NumRefIdxActive) -> u32 {
    match n {
        NumRefIdxActive::P { num_ref_idx_l0_active_minus1 } => num_ref_idx_l0_active_minus1,
        NumRefIdxActive::B { num_ref_idx_l0_active_minus1, .. } => num_ref_idx_l0_active_minus1,
    }
}

impl NumRefIdxActive {
    fn num_ref_idx_l0_active_minus1(&self) -> (r: u32)
        ensures
            r == spec_num_ref_idx_l0(*self),
    {
        match *self {
            NumRefIdxActive::P { num_ref_idx_l0_active_minus1 } => num_ref_idx_l0_active_minus1,
            NumRefIdxActive::B { num_ref_idx_l0_active_minus1, .. } => num_ref_idx_l0_active_minus1,
        }
    }
}

#[derive(Debug, Clone, Copy, PartialEq, Eq, Structural)]
pub enum ModificationOfPicNums {
    Subtract(u32),
    Add(u32),
    LongTermRef(u32),
}

#[derive(Debug, Clone, PartialEq, Eq)]
pub enum RefPicListModifications {
    I,
    P { ref_pic_list_modification_l0: Vec<ModificationOfPicNums> },
    B { ref_pic_list_modification_l0: Vec<ModificationOfPicNums>, ref_pic_list_modification_l1: Vec<ModificationOfPicNums> },
}

/// The values of [`RefPicListModifications`].
pub ghost enum RefPicListModificationsView {
    I,
    P { ref_pic_list_modification_l0: Seq<ModificationOfPicNums> },
    B { ref_pic_list_modification_l0: Seq<ModificationOfPicNums>, ref_pic_list_modification_l1: Seq<ModificationOfPicNums> },
}

impl View for RefPicListModifications {
    type V = RefPicListModificationsView;

    open spec fn view(&self) -> RefPicListModificationsView {
        match self {
            RefPicListModifications::I => RefPicListModificationsView::I,
            RefPicListModifications::P { ref_pic_list_modification_l0 } => RefPicListModificationsView::P {
                ref_pic_list_modification_l0: ref_pic_list_modification_l0@,
            },
            RefPicListModifications::B { ref_pic_list_modification_l0, ref_pic_list_modification_l1 } => RefPicListModificationsView::B {
                ref_pic_list_modification_l0: ref_pic_list_modification_l0@,
                ref_pic_list_modification_l1: ref_pic_list_modification_l1@,
            },
        }
    }
}

/// The entries of a reference picture list modification from `s` up to and including
/// `modification_of_pic_nums_idc` equal to `3`.
pub open spec fn spec_modifications_from(s: BitStream) -> Result<(Seq<ModificationOfPicNums>, BitStream), SliceHeaderError>
    decreases s.len_bits() - s.pos,
{
    match spec_read_ue(s, "modification_of_pic_nums_idc") {
        Err(e) => Err(SliceHeaderError::RbspError(e)),
        Ok((idc, s2)) => if idc == 3 {
            Ok((Seq::empty(), s2))
        } else if idc > 3 {
            Err(SliceHeaderError::InvalidModificationOfPicNumIdc(idc))
        } else {
            let name = if idc == 2 { "long_term_pic_num" } else { "abs_diff_pic_num_minus1" };
            match spec_read_ue(s2, name) {
                Err(e) => Err(SliceHeaderError::RbspError(e)),
                Ok((x, s3)) => {
                    let m = if idc == 0 {
                        ModificationOfPicNums::Subtract(x)
                    } else if idc == 1 {
                        ModificationOfPicNums::Add(x)
                    } else {
                        ModificationOfPicNums::LongTermRef(x)
                    };
                    match spec_modifications_from(s3) {
                        Err(e) => Err(e),
                        Ok((rest, s4)) => Ok((seq![m] + rest, s4)),
                    }
                },
            }
        },
    }
}

/// A reference picture list modification: its flag and, when set, the entries up to `3`.
pub open spec fn spec_modification_list(s: BitStream) -> Result<(Seq<ModificationOfPicNums>, BitStream), SliceHeaderError> {
    match spec_read_bit(s, "ref_pic_list_modification_flag") {
        Err(e) => Err(SliceHeaderError::RbspError(e)),
        Ok((present, s1)) => if !present {
            Ok((Seq::empty(), s1))
        } else {
            spec_modifications_from(s1)
        },
    }
}

/// The reference picture list modifications of a slice of the given kind.
pub open spec fn spec_ref_pic_list_modifications(s: BitStream, family: SliceFamily) -> Result<(RefPicListModificationsView, BitStream), SliceHeaderError> {
    match family {
        SliceFamily::I | SliceFamily::SI => Ok((RefPicListModificationsView::I, s)),
        SliceFamily::B => match spec_modification_list(s) {
            Err(e) => Err(e),
            Ok((l0, s1)) => match spec_modification_list(s1) {
                Err(e) => Err(e),
                Ok((l1, s2)) => Ok((RefPicListModificationsView::B { ref_pic_list_modification_l0: l0, ref_pic_list_modification_l1: l1 }, s2)),
            },
        },
        SliceFamily::P | SliceFamily::SP => match spec_modification_list(s) {
            Err(e) => Err(e),
            Ok((l0, s1)) => Ok((RefPicListModificationsView::P { ref_pic_list_modification_l0: l0 }, s1)),
        },
    }
}

impl RefPicListModifications {
    fn read(slice_family: &SliceFamily, r: &mut BitReader) -> (res: Result<RefPicListModifications, SliceHeaderError>)
        ensures
            match spec_ref_pic_list_modifications(old(r)@, *slice_family) {
                Ok((v, s2)) => res matches Ok(m) && m@ == v && final(r)@ == s2,
                Err(e) => res == Err::<RefPicListModifications, SliceHeaderError>(e),
            },
    {
        match slice_family {
            SliceFamily::I | SliceFamily::SI => Ok(RefPicListModifications::I),
            SliceFamily::B => {
                let l0 = match Self::read_list(r) {
                    Ok(v) => v,
                    Err(e) => return Err(e),
                };
                let l1 = match Self::read_list(r) {
                    Ok(v) => v,
                    Err(e) => return Err(e),
                };
                Ok(RefPicListModifications::B { ref_pic_list_modification_l0: l0, ref_pic_list_modification_l1: l1 })
            },
            SliceFamily::P | SliceFamily::SP => {
                let l0 = match Self::read_list(r) {
                    Ok(v) => v,
                    Err(e) => return Err(e),
                };
                Ok(RefPicListModifications::P { ref_pic_list_modification_l0: l0 })
            },
        }
    }

    fn read_list(r: &mut BitReader) -> (res: Result<Vec<ModificationOfPicNums>, SliceHeaderError>)
        ensures
            match spec_modification_list(old(r)@) {
                Ok((v, s2)) => res matches Ok(w) && w@ == v && final(r)@ == s2,
                Err(e) => res == Err::<Vec<ModificationOfPicNums>, SliceHeaderError>(e),
            },
    {
        let mut result: Vec<ModificationOfPicNums> = Vec::new();
        // either ref_pic_list_modification_flag_l0 or ref_pic_list_modification_flag_l1 depending
        // on call-site,
        let present = match r.read_bit("ref_pic_list_modification_flag") {
            Ok(v) => v,
            Err(e) => return Err(SliceHeaderError::RbspError(e)),
        };
        if !present {
            return Ok(result);
        }
        r.check_wf();
        let ghost start = r@;
        loop
            invariant
                spec_read_bit(old(r)@, "ref_pic_list_modification_flag") == Ok::<(bool, BitStream), BitReaderError>((true, start)),
                r@.wf(),
                r@.data == start.data,
                r@.end == start.end,
                spec_modifications_from(start) == match spec_modifications_from(r@) {
                    Ok((rest, s4)) => Ok((result@ + rest, s4)),
                    Err(e) => Err(e),
                },
            decreases r@.len_bits() - r@.pos,
        {
            let ghost before = r@;
            let idc = match r.read_ue("modification_of_pic_nums_idc") {
                Ok(v) => v,
                Err(e) => return Err(SliceHeaderError::RbspError(e)),
            };
            if idc == 3 {
                assert(result@ + Seq::<ModificationOfPicNums>::empty() =~= result@);
                return Ok(result);
            }
            let m = match idc {
                0 => match r.read_ue("abs_diff_pic_num_minus1") {
                    Ok(x) => ModificationOfPicNums::Subtract(x),
                    Err(e) => return Err(SliceHeaderError::RbspError(e)),
                },
                1 => match r.read_ue("abs_diff_pic_num_minus1") {
                    Ok(x) => ModificationOfPicNums::Add(x),
                    Err(e) => return Err(SliceHeaderError::RbspError(e)),
                },
                2 => match r.read_ue("long_term_pic_num") {
                    Ok(x) => ModificationOfPicNums::LongTermRef(x),
                    Err(e) => return Err(SliceHeaderError::RbspError(e)),
                },
                v => return Err(SliceHeaderError::InvalidModificationOfPicNumIdc(v)),
            };
            let ghost prev = result@;
            result.push(m);
            proof {
                match spec_modifications_from(r@) {
                    Ok((rest, s4)) => {
                        assert(prev + (seq![m] + rest) =~= result@ + rest);
                    },
                    Err(e) => {},
                }
            }
        }
    }
}

#[derive(Debug, Clone, Copy, PartialEq, Eq, Structural)]
pub struct PredWeight {
    pub weight: i32,
    pub offset: i32,
}

#[derive(Debug, Clone, PartialEq, Eq)]
pub struct PredWeightTable {
    pub luma_log2_weight_denom: u32,
    pub chroma_log2_weight_denom: Option<u32>,
    pub luma_weights: Vec<Option<PredWeight>>,
    pub chroma_weights: Vec<Vec<PredWeight>>,
    /// The list 1 luma weights, for B slices; empty otherwise.
    pub luma_weights_l1: Vec<Option<PredWeight>>,
    /// The list 1 chroma weights, for B slices; empty otherwise.
    pub chroma_weights_l1: Vec<Vec<PredWeight>>,
}

/// The values of a [`PredWeightTable`].
pub ghost struct PredWeightTableView {
    pub luma_log2_weight_denom: u32,
    pub chroma_log2_weight_denom: Option<u32>,
    pub luma_weights: Seq<Option<PredWeight>>,
    pub chroma_weights: Seq<Seq<PredWeight>>,
    pub luma_weights_l1: Seq<Option<PredWeight>>,
    pub chroma_weights_l1: Seq<Seq<PredWeight>>,
}

impl View for PredWeightTable {
    type V = PredWeightTableView;

    open spec fn view(&self) -> PredWeightTableView {
        PredWeightTableView {
            luma_log2_weight_denom: self.luma_log2_weight_denom,
            chroma_log2_weight_denom: self.chroma_log2_weight_denom,
            luma_weights: self.luma_weights@,
            chroma_weights: self.chroma_weights@.map_values(|w: Vec<PredWeight>| w@),
            luma_weights_l1: self.luma_weights_l1@,
            chroma_weights_l1: self.chroma_weights_l1@.map_values(|w: Vec<PredWeight>| w@),
        }
    }
}

/// One weight and offset, named by `weight_name` and `offset_name`.
pub open spec fn spec_pred_weight(s: BitStream, weight_name: &'static str, offset_name: &'static str) -> Result<(PredWeight, BitStream), BitReaderError> {
    match spec_read_se(s, weight_name) {
        Err(e) => Err(e),
        Ok((w, s1)) => match spec_read_se(s1, offset_name) {
            Err(e) => Err(e),
            Ok((o, s2)) => Ok((PredWeight { weight: w, offset: o }, s2)),
        },
    }
}

/// The weights of one reference picture of list 0, or of list 1 when `l1`: luma, then chroma
/// unless monochrome.
pub open spec fn spec_pred_weight_entry(s: BitStream, chroma: bool, l1: bool) -> Result<((Option<PredWeight>, Seq<PredWeight>), BitStream), BitReaderError> {
    match spec_read_bit(s, if l1 { "luma_weight_l1_flag" } else { "luma_weight_l0_flag" }) {
        Err(e) => Err(e),
        Ok((lf, s1)) => {
            let luma = if lf {
                match spec_pred_weight(s1, if l1 { "luma_weight_l1" } else { "luma_weight_l0" }, if l1 { "luma_offset_l1" } else { "luma_offset_l0" }) {
                    Err(e) => Err(e),
                    Ok((w, s2)) => Ok((Some(w), s2)),
                }
            } else {
                Ok((None, s1))
            };
            match luma {
                Err(e) => Err(e),
                Ok((lw, s2)) => if !chroma {
                    Ok(((lw, Seq::empty()), s2))
                } else {
                    match spec_read_bit(s2, if l1 { "chroma_weight_l1_flag" } else { "chroma_weight_l0_flag" }) {
                        Err(e) => Err(e),
                        Ok((cf, s3)) => if !cf {
                            Ok(((lw, Seq::empty()), s3))
                        } else {
                            match spec_pred_weight(s3, if l1 { "chroma_weight_l1" } else { "chroma_weight_l0" }, if l1 { "chroma_offset_l1" } else { "chroma_offset_l0" }) {
                                Err(e) => Err(e),
                                Ok((c0, s4)) => match spec_pred_weight(s4, if l1 { "chroma_weight_l1" } else { "chroma_weight_l0" }, if l1 { "chroma_offset_l1" } else { "chroma_offset_l0" }) {
                                    Err(e) => Err(e),
                                    Ok((c1, s5)) => Ok(((lw, seq![c0, c1]), s5)),
                                },
                            }
                        },
                    }
                },
            }
        },
    }
}

/// The weights of the first `n` reference pictures.
pub open spec fn spec_pred_weight_entries(s: BitStream, chroma: bool, l1: bool, n: nat) -> Result<((Seq<Option<PredWeight>>, Seq<Seq<PredWeight>>), BitStream), BitReaderError>
    decreases n,
{
    if n == 0 {
        Ok(((Seq::empty(), Seq::empty()), s))
    } else {
        match spec_pred_weight_entries(s, chroma, l1, (n - 1) as nat) {
            Err(e) => Err(e),
            Ok(((l, c), s1)) => match spec_pred_weight_entry(s1, chroma, l1) {
                Err(e) => Err(e),
                Ok(((lw, cw), s2)) => Ok(((l.push(lw), if chroma { c.push(cw) } else { c }), s2)),
            },
        }
    }
}

proof fn lemma_pred_weight_entries_err(s: BitStream, chroma: bool, l1: bool, k: nat, n: nat)
    requires
        k <= n,
        spec_pred_weight_entries(s, chroma, l1, k) is Err,
    ensures
        spec_pred_weight_entries(s, chroma, l1, n) == spec_pred_weight_entries(s, chroma, l1, k),
    decreases n,
{
    if n > k {
        lemma_pred_weight_entries_err(s, chroma, l1, k, (n - 1) as nat);
    }
}

/// `pred_weight_table()` (7.3.3.2): `num_ref_idx_l0_active_minus1 + 1` entries for list 0,
/// then, for B slices, `num_ref_idx_l1_active_minus1 + 1` entries for list 1.
pub open spec fn spec_pred_weight_table(
    s: BitStream,
    family: SliceFamily,
    chroma_array_monochrome: bool,
    num_ref_idx_l0_active_minus1: u32,
    num_ref_idx_l1_active_minus1: u32,
) -> Result<(PredWeightTableView, BitStream), SliceHeaderError> {
    match spec_read_ue(s, "luma_log2_weight_denom") {
        Err(e) => Err(SliceHeaderError::RbspError(e)),
        Ok((luma_denom, s1)) => {
            let chroma = if !chroma_array_monochrome {
                match spec_read_ue(s1, "chroma_log2_weight_denom") {
                    Err(e) => Err(e),
                    Ok((c, s2)) => Ok((Some(c), s2)),
                }
            } else {
                Ok((None, s1))
            };
            match chroma {
                Err(e) => Err(SliceHeaderError::RbspError(e)),
                Ok((chroma_denom, s2)) => match spec_pred_weight_entries(s2, !chroma_array_monochrome, false, (num_ref_idx_l0_active_minus1 + 1) as nat) {
                    Err(e) => Err(SliceHeaderError::RbspError(e)),
                    Ok(((l, c), s3)) => {
                        let list1 = if family == SliceFamily::B {
                            spec_pred_weight_entries(s3, !chroma_array_monochrome, true, (num_ref_idx_l1_active_minus1 + 1) as nat)
                        } else {
                            Ok(((Seq::empty(), Seq::empty()), s3))
                        };
                        match list1 {
                            Err(e) => Err(SliceHeaderError::RbspError(e)),
                            Ok(((l1, c1), s4)) => Ok((
                                PredWeightTableView {
                                    luma_log2_weight_denom: luma_denom,
                                    chroma_log2_weight_denom: chroma_denom,
                                    luma_weights: l,
                                    chroma_weights: c,
                                    luma_weights_l1: l1,
                                    chroma_weights_l1: c1,
                                },
                                s4,
                            )),
                        }
                    },
                },
            }
        },
    }
}

fn read_pred_weight(r: &mut BitReader, weight_name: &'static str, offset_name: &'static str) -> (res: Result<PredWeight, BitReaderError>)
    ensures
        parsed(res, spec_pred_weight(old(r)@, weight_name, offset_name), final(r)@),
{
    let weight = match r.read_se(weight_name) {
        Ok(v) => v,
        Err(e) => return Err(e),
    };
    let offset = match r.read_se(offset_name) {
        Ok(v) => v,
        Err(e) => return Err(e),
    };
    Ok(PredWeight { weight, offset })
}

fn read_pred_weight_entry(r: &mut BitReader, chroma: bool, l1: bool) -> (res: Result<(Option<PredWeight>, Vec<PredWeight>), BitReaderError>)
    ensures
        match spec_pred_weight_entry(old(r)@, chroma, l1) {
            Ok(((lw, cw), s2)) => res matches Ok((elw, ecw)) && elw == lw && ecw@ == cw && final(r)@ == s2,
            Err(e) => res == Err::<(Option<PredWeight>, Vec<PredWeight>), BitReaderError>(e),
        },
{
    let lf = match r.read_bit(if l1 { "luma_weight_l1_flag" } else { "luma_weight_l0_flag" }) {
        Ok(v) => v,
        Err(e) => return Err(e),
    };
    let luma = if lf {
        match read_pred_weight(r, if l1 { "luma_weight_l1" } else { "luma_weight_l0" }, if l1 { "luma_offset_l1" } else { "luma_offset_l0" }) {
            Ok(w) => Some(w),
            Err(e) => return Err(e),
        }
    } else {
        None
    };
    let mut weights: Vec<PredWeight> = Vec::new();
    if chroma {
        let cf = match r.read_bit(if l1 { "chroma_weight_l1_flag" } else { "chroma_weight_l0_flag" }) {
            Ok(v) => v,
            Err(e) => return Err(e),
        };
        if cf {
            let c0 = match read_pred_weight(r, if l1 { "chroma_weight_l1" } else { "chroma_weight_l0" }, if l1 { "chroma_offset_l1" } else { "chroma_offset_l0" }) {
                Ok(w) => w,
                Err(e) => return Err(e),
            };
            let c1 = match read_pred_weight(r, if l1 { "chroma_weight_l1" } else { "chroma_weight_l0" }, if l1 { "chroma_offset_l1" } else { "chroma_offset_l0" }) {
                Ok(w) => w,
                Err(e) => return Err(e),
            };
            weights.push(c0);
            weights.push(c1);
            assert(weights@ =~= seq![c0, c1]);
        }
    }
    assert(!chroma ==> weights@ =~= Seq::<PredWeight>::empty());
    Ok((luma, weights))
}

fn read_pred_weight_entries(r: &mut BitReader, chroma: bool, l1: bool, n: u64) -> (res: Result<(Vec<Option<PredWeight>>, Vec<Vec<PredWeight>>), BitReaderError>)
    ensures
        match spec_pred_weight_entries(old(r)@, chroma, l1, n as nat) {
            Ok(((l, c), s2)) => res matches Ok((el, ec)) && el@ == l && ec@.map_values(|w: Vec<PredWeight>| w@) == c && final(r)@ == s2,
            Err(e) => res == Err::<(Vec<Option<PredWeight>>, Vec<Vec<PredWeight>>), BitReaderError>(e),
        },
{
    let ghost start = r@;
    let mut luma_weights: Vec<Option<PredWeight>> = Vec::new();
    let mut chroma_weights: Vec<Vec<PredWeight>> = Vec::new();
    let ghost mut cws: Seq<Seq<PredWeight>> = Seq::empty();
    let mut i: u64 = 0;
    while i < n
        invariant
            start == old(r)@,
            i <= n,
            chroma_weights@.len() == cws.len(),
            forall|j: int| 0 <= j < cws.len() ==> #[trigger] chroma_weights@[j]@ == cws[j],
            spec_pred_weight_entries(start, chroma, l1, i as nat)
                == Ok::<((Seq<Option<PredWeight>>, Seq<Seq<PredWeight>>), BitStream), BitReaderError>(((luma_weights@, cws), r@)),
        decreases n - i,
    {
        let (lw, cw) = match read_pred_weight_entry(r, chroma, l1) {
            Ok(v) => v,
            Err(e) => {
                proof { lemma_pred_weight_entries_err(start, chroma, l1, (i + 1) as nat, n as nat); }
                return Err(e);
            },
        };
        luma_weights.push(lw);
        if chroma {
            proof { cws = cws.push(cw@); }
            chroma_weights.push(cw);
        }
        i = i + 1;
    }
    assert(chroma_weights@.map_values(|w: Vec<PredWeight>| w@) =~= cws);
    Ok((luma_weights, chroma_weights))
}

impl PredWeightTable {
    fn read(
        r: &mut BitReader,
        family: SliceFamily,
        chroma_array_monochrome: bool,
        num_ref_idx_l0_active_minus1: u32,
        num_ref_idx_l1_active_minus1: u32,
    ) -> (res: Result<PredWeightTable, SliceHeaderError>)
        ensures
            match spec_pred_weight_table(old(r)@, family, chroma_array_monochrome, num_ref_idx_l0_active_minus1, num_ref_idx_l1_active_minus1) {
                Ok((v, s2)) => res matches Ok(t) && t@ == v && final(r)@ == s2,
                Err(e) => res == Err::<PredWeightTable, SliceHeaderError>(e),
            },
    {
        let luma_log2_weight_denom = match r.read_ue("luma_log2_weight_denom") {
            Ok(v) => v,
            Err(e) => return Err(SliceHeaderError::RbspError(e)),
        };
        let chroma_log2_weight_denom = if !chroma_array_monochrome {
            match r.read_ue("chroma_log2_weight_denom") {
                Ok(v) => Some(v),
                Err(e) => return Err(SliceHeaderError::RbspError(e)),
            }
        } else {
            None
        };
        let (luma_weights, chroma_weights) = match read_pred_weight_entries(r, !chroma_array_monochrome, false, num_ref_idx_l0_active_minus1 as u64 + 1) {
            Ok(v) => v,
            Err(e) => return Err(SliceHeaderError::RbspError(e)),
        };
        let (luma_weights_l1, chroma_weights_l1) = if family == SliceFamily::B {
            match read_pred_weight_entries(r, !chroma_array_monochrome, true, num_ref_idx_l1_active_minus1 as u64 + 1) {
                Ok(v) => v,
                Err(e) => return Err(SliceHeaderError::RbspError(e)),
            }
        } else {
            let l: Vec<Option<PredWeight>> = Vec::new();
            let c: Vec<Vec<PredWeight>> = Vec::new();
            assert(c@.map_values(|w: Vec<PredWeight>| w@) =~= Seq::<Seq<PredWeight>>::empty());
            (l, c)
        };
        Ok(PredWeightTable {
            luma_log2_weight_denom,
            chroma_log2_weight_denom,
            luma_weights,
            chroma_weights,
            luma_weights_l1,
            chroma_weights_l1,
        })
    }
}

#[derive(Debug, Clone, Copy, PartialEq, Eq, Structural)]
pub enum MemoryManagementControlOperation {
    /// `memory_management_control_operation` value of `1`
    ShortTermUnusedForRef { difference_of_pic_nums_minus1: u32 },
    /// `memory_management_control_operation` value of `2`
    LongTermUnusedForRef { long_term_pic_num: u32 },
    /// `memory_management_control_operation` value of `3`
    ShortTermUsedForLongTerm { difference_of_pic_nums_minus1: u32, long_term_frame_idx: u32 },
    /// `memory_management_control_operation` value of `4`
    MaxUsedLongTermFrameRef { max_long_term_frame_idx_plus1: u32 },
    /// `memory_management_control_operation` value of `5`
    AllRefPicturesUnused,
    /// `memory_management_control_operation` value of `6`
    CurrentUsedForLongTerm { long_term_frame_idx: u32 },
}

/// Decoded reference picture marking
#[derive(Debug, Clone, PartialEq, Eq)]
pub enum DecRefPicMarking {
    Idr { no_output_of_prior_pics_flag: bool, long_term_reference_flag: bool },
    /// `adaptive_ref_pic_marking_mode_flag` equal to `0`
    SlidingWindow,
    /// `adaptive_ref_pic_marking_mode_flag` equal to `1`
    Adaptive(Vec<MemoryManagementControlOperation>),
}

/// The values of a [`DecRefPicMarking`].
pub ghost enum DecRefPicMarkingView {
    Idr { no_output_of_prior_pics_flag: bool, long_term_reference_flag: bool },
    SlidingWindow,
    Adaptive(Seq<MemoryManagementControlOperation>),
}

impl View for DecRefPicMarking {
    type V = DecRefPicMarkingView;

    open spec fn view(&self) -> DecRefPicMarkingView {
        match self {
            DecRefPicMarking::Idr { no_output_of_prior_pics_flag, long_term_reference_flag } => DecRefPicMarkingView::Idr {
                no_output_of_prior_pics_flag: *no_output_of_prior_pics_flag,
                long_term_reference_flag: *long_term_reference_flag,
            },
            DecRefPicMarking::SlidingWindow => DecRefPicMarkingView::SlidingWindow,
            DecRefPicMarking::Adaptive(v) => DecRefPicMarkingView::Adaptive(v@),
        }
    }
}

/// The operation for `memory_management_control_operation` `1..=6` and its fields.
pub open spec fn spec_mmco_body(s: BitStream, op: u32) -> Result<(MemoryManagementControlOperation, BitStream), BitReaderError> {
    if op == 1 {
        match spec_read_ue(s, "difference_of_pic_nums_minus1") {
            Err(e) => Err(e),
            Ok((d, s1)) => Ok((MemoryManagementControlOperation::ShortTermUnusedForRef { difference_of_pic_nums_minus1: d }, s1)),
        }
    } else if op == 2 {
        match spec_read_ue(s, "long_term_pic_num") {
            Err(e) => Err(e),
            Ok((d, s1)) => Ok((MemoryManagementControlOperation::LongTermUnusedForRef { long_term_pic_num: d }, s1)),
        }
    } else if op == 3 {
        match spec_read_ue(s, "difference_of_pic_nums_minus1") {
            Err(e) => Err(e),
            Ok((d, s1)) => match spec_read_ue(s1, "long_term_frame_idx") {
                Err(e) => Err(e),
                Ok((l, s2)) => Ok((
                    MemoryManagementControlOperation::ShortTermUsedForLongTerm { difference_of_pic_nums_minus1: d, long_term_frame_idx: l },
                    s2,
                )),
            },
        }
    } else if op == 4 {
        match spec_read_ue(s, "max_long_term_frame_idx_plus1") {
            Err(e) => Err(e),
            Ok((d, s1)) => Ok((MemoryManagementControlOperation::MaxUsedLongTermFrameRef { max_long_term_frame_idx_plus1: d }, s1)),
        }
    } else if op == 5 {
        Ok((MemoryManagementControlOperation::AllRefPicturesUnused, s))
    } else {
        match spec_read_ue(s, "long_term_frame_idx") {
            Err(e) => Err(e),
            Ok((d, s1)) => Ok((MemoryManagementControlOperation::CurrentUsedForLongTerm { long_term_frame_idx: d }, s1)),
        }
    }
}

/// The memory management control operations from `s` up to operation `0`.
pub open spec fn spec_mmcos_from(s: BitStream) -> Result<(Seq<MemoryManagementControlOperation>, BitStream), SliceHeaderError>
    decreases s.len_bits() - s.pos,
{
    match spec_read_ue(s, "memory_management_control_operation") {
        Err(e) => Err(SliceHeaderError::RbspError(e)),
        Ok((op, s1)) => if op == 0 {
            Ok((Seq::empty(), s1))
        } else if op > 6 {
            Err(SliceHeaderError::InvalidMemoryManagementControlOperation(op))
        } else {
            match spec_mmco_body(s1, op) {
                Err(e) => Err(SliceHeaderError::RbspError(e)),
                Ok((m, s2)) => match spec_mmcos_from(s2) {
                    Err(e) => Err(e),
                    Ok((rest, s3)) => Ok((seq![m] + rest, s3)),
                },
            }
        },
    }
}

/// Decoded reference picture marking (7.3.3.3) for an IDR picture or another reference picture.
pub open spec fn spec_dec_ref_pic_marking(s: BitStream, idr: bool) -> Result<(DecRefPicMarkingView, BitStream), SliceHeaderError> {
    if idr {
        match spec_read_bit(s, "no_output_of_prior_pics_flag") {
            Err(e) => Err(SliceHeaderError::RbspError(e)),
            Ok((a, s1)) => match spec_read_bit(s1, "long_term_reference_flag") {
                Err(e) => Err(SliceHeaderError::RbspError(e)),
                Ok((b, s2)) => Ok((DecRefPicMarkingView::Idr { no_output_of_prior_pics_flag: a, long_term_reference_flag: b }, s2)),
            },
        }
    } else {
        match spec_read_bit(s, "adaptive_ref_pic_marking_mode_flag") {
            Err(e) => Err(SliceHeaderError::RbspError(e)),
            Ok((adaptive, s1)) => if adaptive {
                match spec_mmcos_from(s1) {
                    Err(e) => Err(e),
                    Ok((ops, s2)) => Ok((DecRefPicMarkingView::Adaptive(ops), s2)),
                }
            } else {
                Ok((DecRefPicMarkingView::SlidingWindow, s1))
            },
        }
    }
}

fn read_mmco_body(r: &mut BitReader, op: u32) -> (res: Result<MemoryManagementControlOperation, BitReaderError>)
    requires
        1 <= op <= 6,
    ensures
        parsed(res, spec_mmco_body(old(r)@, op), final(r)@),
{
    match op {
        1 => match r.read_ue("difference_of_pic_nums_minus1") {
            Ok(d) => Ok(MemoryManagementControlOperation::ShortTermUnusedForRef { difference_of_pic_nums_minus1: d }),
            Err(e) => Err(e),
        },
        2 => match r.read_ue("long_term_pic_num") {
            Ok(d) => Ok(MemoryManagementControlOperation::LongTermUnusedForRef { long_term_pic_num: d }),
            Err(e) => Err(e),
        },
        3 => {
            let d = match r.read_ue("difference_of_pic_nums_minus1") {
                Ok(v) => v,
                Err(e) => return Err(e),
            };
            let l = match r.read_ue("long_term_frame_idx") {
                Ok(v) => v,
                Err(e) => return Err(e),
            };
            Ok(MemoryManagementControlOperation::ShortTermUsedForLongTerm { difference_of_pic_nums_minus1: d, long_term_frame_idx: l })
        },
        4 => match r.read_ue("max_long_term_frame_idx_plus1") {
            Ok(d) => Ok(MemoryManagementControlOperation::MaxUsedLongTermFrameRef { max_long_term_frame_idx_plus1: d }),
            Err(e) => Err(e),
        },
        5 => Ok(MemoryManagementControlOperation::AllRefPicturesUnused),
        _ => match r.read_ue("long_term_frame_idx") {
            Ok(d) => Ok(MemoryManagementControlOperation::CurrentUsedForLongTerm { long_term_frame_idx: d }),
            Err(e) => Err(e),
        },
    }
}

impl DecRefPicMarking {
    fn read(r: &mut BitReader, header: NalHeader) -> (res: Result<DecRefPicMarking, SliceHeaderError>)
        ensures
            match spec_dec_ref_pic_marking(old(r)@, header.spec_nal_unit_type() == UnitType::SliceLayerWithoutPartitioningIdr) {
                Ok((v, s2)) => res matches Ok(m) && m@ == v && final(r)@ == s2,
                Err(e) => res == Err::<DecRefPicMarking, SliceHeaderError>(e),
            },
    {
        if header.nal_unit_type() == UnitType::SliceLayerWithoutPartitioningIdr {
            let no_output_of_prior_pics_flag = match r.read_bit("no_output_of_prior_pics_flag") {
                Ok(v) => v,
                Err(e) => return Err(SliceHeaderError::RbspError(e)),
            };
            let long_term_reference_flag = match r.read_bit("long_term_reference_flag") {
                Ok(v) => v,
                Err(e) => return Err(SliceHeaderError::RbspError(e)),
            };
            return Ok(DecRefPicMarking::Idr { no_output_of_prior_pics_flag, long_term_reference_flag });
        }
        let adaptive = match r.read_bit("adaptive_ref_pic_marking_mode_flag") {
            Ok(v) => v,
            Err(e) => return Err(SliceHeaderError::RbspError(e)),
        };
        if !adaptive {
            return Ok(DecRefPicMarking::SlidingWindow);
        }
        r.check_wf();
        let ghost start = r@;
        let mut ctl: Vec<MemoryManagementControlOperation> = Vec::new();
        loop
            invariant
                header.spec_nal_unit_type() != UnitType::SliceLayerWithoutPartitioningIdr,
                spec_read_bit(old(r)@, "adaptive_ref_pic_marking_mode_flag") == Ok::<(bool, BitStream), BitReaderError>((true, start)),
                r@.wf(),
                r@.data == start.data,
                r@.end == start.end,
                spec_mmcos_from(start) == match spec_mmcos_from(r@) {
                    Ok((rest, s4)) => Ok((ctl@ + rest, s4)),
                    Err(e) => Err(e),
                },
            decreases r@.len_bits() - r@.pos,
        {
            let op = match r.read_ue("memory_management_control_operation") {
                Ok(v) => v,
                Err(e) => return Err(SliceHeaderError::RbspError(e)),
            };
            if op == 0 {
                assert(ctl@ + Seq::<MemoryManagementControlOperation>::empty() =~= ctl@);
                return Ok(DecRefPicMarking::Adaptive(ctl));
            }
            if op > 6 {
                return Err(SliceHeaderError::InvalidMemoryManagementControlOperation(op));
            }
            let m = match read_mmco_body(r, op) {
                Ok(v) => v,
                Err(e) => return Err(SliceHeaderError::RbspError(e)),
            };
            r.check_wf();
            let ghost prev = ctl@;
            ctl.push(m);
            proof {
                match spec_mmcos_from(r@) {
                    Ok((rest, s4)) => {
                        assert(prev + (seq![m] + rest) =~= ctl@ + rest);
                    },
                    Err(e) => {},
                }
            }
        }
    }
}

#[derive(Debug, Clone, PartialEq, Eq)]
pub struct SliceHeader {
    pub first_mb_in_slice: u32,
    pub slice_type: SliceType,
    pub colour_plane: Option<ColourPlane>,
    pub frame_num: u16,
    pub field_pic: FieldPic,
    pub idr_pic_id: Option<u32>,
    pub pic_order_cnt_lsb: Option<PicOrderCountLsb>,
    pub redundant_pic_cnt: Option<u32>,
    pub direct_spatial_mv_pred_flag: Option<bool>,
    pub num_ref_idx_active: Option<NumRefIdxActive>,
    pub ref_pic_list_modification: Option<RefPicListModifications>,
    pub pred_weight_table: Option<PredWeightTable>,
    pub dec_ref_pic_marking: Option<DecRefPicMarking>,
    pub cabac_init_idc: Option<u32>,
    pub slice_qp_delta: i32,
    pub sp_for_switch_flag: Option<bool>,
    pub slice_qs: Option<u32>,
    pub disable_deblocking_filter_idc: u8,
    /// `slice_group_change_cycle`, present when the picture parameter set uses slice group
    /// map types 3 to 5.
    pub slice_group_change_cycle: Option<u32>,
}

/// The values of a [`SliceHeader`].
pub ghost struct SliceHeaderView {
    pub first_mb_in_slice: u32,
    pub slice_type: SliceType,
    pub colour_plane: Option<ColourPlane>,
    pub frame_num: u16,
    pub field_pic: FieldPic,
    pub idr_pic_id: Option<u32>,
    pub pic_order_cnt_lsb: Option<PicOrderCountLsbView>,
    pub redundant_pic_cnt: Option<u32>,
    pub direct_spatial_mv_pred_flag: Option<bool>,
    pub num_ref_idx_active: Option<NumRefIdxActive>,
    pub ref_pic_list_modification: Option<RefPicListModificationsView>,
    pub pred_weight_table: Option<PredWeightTableView>,
    pub dec_ref_pic_marking: Option<DecRefPicMarkingView>,
    pub cabac_init_idc: Option<u32>,
    pub slice_qp_delta: i32,
    pub sp_for_switch_flag: Option<bool>,
    pub slice_qs: Option<u32>,
    pub disable_deblocking_filter_idc: u8,
    /// `slice_group_change_cycle`, present when the picture parameter set uses slice group
    /// map types 3 to 5.
    pub slice_group_change_cycle: Option<u32>,
}

impl View for SliceHeader {
    type V = SliceHeaderView;

    open spec fn view(&self) -> SliceHeaderView {
        SliceHeaderView {
            first_mb_in_slice: self.first_mb_in_slice,
            slice_type: self.slice_type,
            colour_plane: self.colour_plane,
            frame_num: self.frame_num,
            field_pic: self.field_pic,
            idr_pic_id: self.idr_pic_id,
            pic_order_cnt_lsb: match self.pic_order_cnt_lsb {
                Some(p) => Some(p@),
                None => None,
            },
            redundant_pic_cnt: self.redundant_pic_cnt,
            direct_spatial_mv_pred_flag: self.direct_spatial_mv_pred_flag,
            num_ref_idx_active: self.num_ref_idx_active,
            ref_pic_list_modification: match self.ref_pic_list_modification {
                Some(m) => Some(m@),
                None => None,
            },
            pred_weight_table: match self.pred_weight_table {
                Some(t) => Some(t@),
                None => None,
            },
            dec_ref_pic_marking: match self.dec_ref_pic_marking {
                Some(m) => Some(m@),
                None => None,
            },
            cabac_init_idc: self.cabac_init_idc,
            slice_qp_delta: self.slice_qp_delta,
            sp_for_switch_flag: self.sp_for_switch_flag,
            slice_qs: self.slice_qs,
            disable_deblocking_filter_idc: self.disable_deblocking_filter_idc,
            slice_group_change_cycle: self.slice_group_change_cycle,
        }
    }
}

/// Sequence parameter set values that a slice header can be read with: field sizes within
/// what the parameter set syntax allows.
pub open spec fn sps_sizes_in_range(sps: SeqParameterSet) -> bool {
    &&& sps.log2_max_frame_num_minus4 <= 12
    &&& sps.pic_order_cnt matches PicOrderCntType::TypeZero { log2_max_pic_order_cnt_lsb_minus4: m } ==> m <= 12
}

/// Every sequence parameter set of the context has sizes in range.
pub open spec fn context_sizes_in_range(sps_slots: Seq<Option<SeqParameterSet>>) -> bool {
    forall|i: int| 0 <= i < sps_slots.len() ==> (#[trigger] sps_slots[i] matches Some(sps) ==> sps_sizes_in_range(sps))
}

/// `first_mb_in_slice`, `slice_type` and `pic_parameter_set_id`.
pub open spec fn spec_slice_ids(s: BitStream) -> Result<((u32, SliceType, u32), BitStream), SliceHeaderError> {
    match spec_read_ue(s, "first_mb_in_slice") {
        Err(e) => Err(SliceHeaderError::RbspError(e)),
        Ok((first, s1)) => match spec_read_ue(s1, "slice_type") {
            Err(e) => Err(SliceHeaderError::RbspError(e)),
            Ok((t, s2)) => match spec_slice_type(t) {
                Err(e) => Err(e),
                Ok(st) => match spec_read_ue(s2, "pic_parameter_set_id") {
                    Err(e) => Err(SliceHeaderError::RbspError(e)),
                    Ok((p, s3)) => if p > 255 {
                        Err(SliceHeaderError::InvalidSeqParamSetId(PicParamSetIdError::IdTooLarge(p)))
                    } else {
                        Ok(((first, st, p), s3))
                    },
                },
            },
        },
    }
}

/// `colour_plane_id`, `frame_num`, the field flags and `idr_pic_id`.
pub open spec fn spec_slice_frame(s: BitStream, sps: SeqParameterSet, idr: bool)
    -> Result<((Option<ColourPlane>, u16, FieldPic, Option<u32>), BitStream), SliceHeaderError>
{
    let cp = if sps.chroma_info.separate_colour_plane_flag {
        match spec_read_bits(s, 2) {
            None => Err(SliceHeaderError::RbspError(BitReaderError::ReaderError("colour_plane_id", s.end))),
            Some((id, s1)) => match spec_colour_plane(id as u8) {
                Err(e) => Err(SliceHeaderError::ColourPlaneError(e)),
                Ok(c) => Ok((Some(c), s1)),
            },
        }
    } else {
        Ok((None, s))
    };
    match cp {
        Err(e) => Err(e),
        Ok((colour_plane, s1)) => match spec_read_bits(s1, (sps.log2_max_frame_num_minus4 + 4) as nat) {
            None => Err(SliceHeaderError::RbspError(BitReaderError::ReaderError("frame_num", s1.end))),
            Some((frame_num, s2)) => {
                let fp = if sps.frame_mbs_flags is Fields {
                    match spec_read_bit(s2, "field_pic_flag") {
                        Err(e) => Err(e),
                        Ok((field, s3)) => if field {
                            match spec_read_bit(s3, "bottom_field_flag") {
                                Err(e) => Err(e),
                                Ok((bottom, s4)) => Ok((FieldPic::Field(if bottom { Field::Bottom } else { Field::Top }), s4)),
                            }
                        } else {
                            Ok((FieldPic::Frame, s3))
                        },
                    }
                } else {
                    Ok((FieldPic::Frame, s2))
                };
                match fp {
                    Err(e) => Err(SliceHeaderError::RbspError(e)),
                    Ok((field_pic, s3)) => if idr {
                        match spec_read_ue(s3, "idr_pic_id") {
                            Err(e) => Err(SliceHeaderError::RbspError(e)),
                            Ok((id, s4)) => Ok(((colour_plane, frame_num as u16, field_pic, Some(id)), s4)),
                        }
                    } else {
                        Ok(((colour_plane, frame_num as u16, field_pic, None), s3))
                    },
                }
            },
        },
    }
}

/// The picture order count fields of the slice header.
pub open spec fn spec_slice_poc(s: BitStream, sps: SeqParameterSet, bottom_field_pic_order_in_frame_present_flag: bool, field_pic: FieldPic)
    -> Result<(Option<PicOrderCountLsbView>, BitStream), BitReaderError>
{
    match sps.pic_order_cnt {
        PicOrderCntType::TypeZero { log2_max_pic_order_cnt_lsb_minus4 } => match spec_read_bits(s, (log2_max_pic_order_cnt_lsb_minus4 + 4) as nat) {
            None => Err(BitReaderError::ReaderError("pic_order_cnt_lsb", s.end)),
            Some((lsb, s1)) => if bottom_field_pic_order_in_frame_present_flag && field_pic == FieldPic::Frame {
                match spec_read_se(s1, "delta_pic_order_cnt_bottom") {
                    Err(e) => Err(e),
                    Ok((d, s2)) => Ok((
                        Some(PicOrderCountLsbView::FieldsAbsolute { pic_order_cnt_lsb: lsb as u32, delta_pic_order_cnt_bottom: d }),
                        s2,
                    )),
                }
            } else {
                Ok((Some(PicOrderCountLsbView::Frame(lsb as u32)), s1))
            },
        },
        PicOrderCntType::TypeOne { delta_pic_order_always_zero_flag, .. } => if delta_pic_order_always_zero_flag {
            Ok((None, s))
        } else {
            match spec_read_se(s, "FieldsDelta[0]") {
                Err(e) => Err(e),
                Ok((a, s1)) => match spec_read_se(s1, "FieldsDelta[1]") {
                    Err(e) => Err(e),
                    Ok((b, s2)) => Ok((Some(PicOrderCountLsbView::FieldsDelta(a, b)), s2)),
                },
            }
        },
        PicOrderCntType::TypeTwo => Ok((None, s)),
    }
}

/// With `pic_order_cnt_type` 0, a slice header that carries no `delta_pic_order_cnt_bottom`
/// (the PPS does not ask for it, or the slice is a field) holds only `pic_order_cnt_lsb`:
/// reading it where the `log2_max_pic_order_cnt_lsb`-bit value `lsb` was written gives
/// `Frame(lsb)` and reads exactly those bits.
pub proof fn lemma_slice_poc_lsb_only(
    s: BitStream,
    sps: SeqParameterSet,
    bottom_field_pic_order_in_frame_present_flag: bool,
    field_pic: FieldPic,
    lsb: nat,
    s2: BitStream,
)
    requires
        sps.pic_order_cnt matches PicOrderCntType::TypeZero { log2_max_pic_order_cnt_lsb_minus4: m } && {
            &&& lsb < vstd::arithmetic::power2::pow2((m + 4) as nat)
            &&& reads(s, value_bits(lsb, (m + 4) as nat), s2)
        },
        !bottom_field_pic_order_in_frame_present_flag || field_pic != FieldPic::Frame,
    ensures
        spec_slice_poc(s, sps, bottom_field_pic_order_in_frame_present_flag, field_pic)
            == Ok::<(Option<PicOrderCountLsbView>, BitStream), BitReaderError>((Some(PicOrderCountLsbView::Frame(lsb as u32)), s2)),
{
    let m = sps.pic_order_cnt->log2_max_pic_order_cnt_lsb_minus4;
    reveal(bits_at);
    lemma_read_value(s, lsb, (m + 4) as nat);
    lemma_value_bits_len(lsb, (m + 4) as nat);
}

/// With `pic_order_cnt_type` 0, a frame slice whose PPS asks for `delta_pic_order_cnt_bottom`
/// holds `pic_order_cnt_lsb` and then that `se(v)` value: reading them where they were written
/// gives both back and reads exactly their bits.
pub proof fn lemma_slice_poc_with_bottom_delta(
    s: BitStream,
    sps: SeqParameterSet,
    lsb: nat,
    delta: i32,
    s2: BitStream,
)
    requires
        sps.pic_order_cnt matches PicOrderCntType::TypeZero { log2_max_pic_order_cnt_lsb_minus4: m } && {
            &&& lsb < vstd::arithmetic::power2::pow2((m + 4) as nat)
            &&& reads(s, value_bits(lsb, (m + 4) as nat) + se_bits(delta), s2)
        },
        delta > i32::MIN,
    ensures
        spec_slice_poc(s, sps, true, FieldPic::Frame) == Ok::<(Option<PicOrderCountLsbView>, BitStream), BitReaderError>((
            Some(PicOrderCountLsbView::FieldsAbsolute { pic_order_cnt_lsb: lsb as u32, delta_pic_order_cnt_bottom: delta }),
            s2,
        )),
{
    let m = sps.pic_order_cnt->log2_max_pic_order_cnt_lsb_minus4;
    let n = (m + 4) as nat;
    lemma_reads_split(s, value_bits(lsb, n), se_bits(delta), s2);
    lemma_value_bits_len(lsb, n);
    reveal(bits_at);
    lemma_read_value(s, lsb, n);
    lemma_read_se_bits(s.at(s.pos + n), delta, "delta_pic_order_cnt_bottom");
}

/// With `pic_order_cnt_type` 1 and `delta_pic_order_always_zero_flag` unset, a slice header
/// holds `delta_pic_order_cnt[0]` and then `delta_pic_order_cnt[1]` as `se(v)`: reading them
/// where they were written gives both back in that order.
pub proof fn lemma_slice_poc_type_one_deltas(
    s: BitStream,
    sps: SeqParameterSet,
    bottom_field_pic_order_in_frame_present_flag: bool,
    field_pic: FieldPic,
    delta0: i32,
    delta1: i32,
    s2: BitStream,
)
    requires
        sps.pic_order_cnt matches PicOrderCntType::TypeOne { delta_pic_order_always_zero_flag, .. } && !delta_pic_order_always_zero_flag,
        delta0 > i32::MIN,
        delta1 > i32::MIN,
        reads(s, se_bits(delta0) + se_bits(delta1), s2),
    ensures
        spec_slice_poc(s, sps, bottom_field_pic_order_in_frame_present_flag, field_pic)
            == Ok::<(Option<PicOrderCountLsbView>, BitStream), BitReaderError>((Some(PicOrderCountLsbView::FieldsDelta(delta0, delta1)), s2)),
{
    lemma_reads_split(s, se_bits(delta0), se_bits(delta1), s2);
    lemma_read_se_bits(s, delta0, "FieldsDelta[0]");
    lemma_read_se_bits(s.at(s.pos + se_bits(delta0).len()), delta1, "FieldsDelta[1]");
}

/// With `pic_order_cnt_type` 2, or type 1 with `delta_pic_order_always_zero_flag` set, a slice
/// header holds no picture order count fields: none are read.
pub proof fn lemma_slice_poc_absent(
    s: BitStream,
    sps: SeqParameterSet,
    bottom_field_pic_order_in_frame_present_flag: bool,
    field_pic: FieldPic,
)
    requires
        sps.pic_order_cnt is TypeTwo || (sps.pic_order_cnt matches PicOrderCntType::TypeOne { delta_pic_order_always_zero_flag, .. }
            && delta_pic_order_always_zero_flag),
    ensures
        spec_slice_poc(s, sps, bottom_field_pic_order_in_frame_present_flag, field_pic)
            == Ok::<(Option<PicOrderCountLsbView>, BitStream), BitReaderError>((None, s)),
{
}

/// The number of a slice family in `slice_type` (Table 7-6): P 0, B 1, I 2, SP 3, SI 4.
pub open spec fn slice_family_number(f: SliceFamily) -> u32 {
    match f {
        SliceFamily::P => 0,
        SliceFamily::B => 1,
        SliceFamily::I => 2,
        SliceFamily::SP => 3,
        SliceFamily::SI => 4,
    }
}

/// A `slice_type` value names a slice type exactly when it is at most 9: the family numbered
/// by its remainder modulo 5, exclusive to the picture exactly from 5 on.
pub proof fn lemma_slice_type_number(id: u32)
    ensures
        id > 9 ==> spec_slice_type(id) == Err::<SliceType, SliceHeaderError>(SliceHeaderError::InvalidSliceType(id)),
        id <= 9 ==> (spec_slice_type(id) matches Ok(st) && slice_family_number(st.family) == id % 5
            && (st.exclusive == SliceExclusive::Exclusive <==> id >= 5)),
{
}

/// Reading the start of a slice header where `first_mb_in_slice`, `slice_type` and
/// `pic_parameter_set_id` were written as `ue(v)` (7.3.3) gives them back in that order.
pub proof fn lemma_slice_ids_written(s: BitStream, first_mb_in_slice: u32, slice_type: u32, pic_parameter_set_id: u32, s2: BitStream)
    requires
        first_mb_in_slice < u32::MAX,
        slice_type <= 9,
        pic_parameter_set_id <= 255,
        reads(s, ue_bits(first_mb_in_slice) + (ue_bits(slice_type) + ue_bits(pic_parameter_set_id)), s2),
    ensures
        spec_slice_ids(s) matches Ok(((first, st, p), s3)) && {
            &&& first == first_mb_in_slice
            &&& spec_slice_type(slice_type) == Ok::<SliceType, SliceHeaderError>(st)
            &&& p == pic_parameter_set_id
            &&& s3 == s2
        },
{
    lemma_reads_split(s, ue_bits(first_mb_in_slice), ue_bits(slice_type) + ue_bits(pic_parameter_set_id), s2);
    let s1 = s.at(s.pos + ue_bits(first_mb_in_slice).len());
    lemma_read_ue_bits(s, first_mb_in_slice, "first_mb_in_slice");
    lemma_reads_split(s1, ue_bits(slice_type), ue_bits(pic_parameter_set_id), s2);
    lemma_read_ue_bits(s1, slice_type, "slice_type");
    lemma_read_ue_bits(s1.at(s1.pos + ue_bits(slice_type).len()), pic_parameter_set_id, "pic_parameter_set_id");
}

/// The field flags of a slice header (7.3.3): none when the SPS codes frames only; otherwise
/// `field_pic_flag`, and for a field `bottom_field_flag`.
pub open spec fn field_pic_bits(sps: SeqParameterSet, field_pic: FieldPic) -> Seq<bool> {
    if sps.frame_mbs_flags is Fields {
        match field_pic {
            FieldPic::Frame => seq![false],
            FieldPic::Field(Field::Top) => seq![true, false],
            FieldPic::Field(Field::Bottom) => seq![true, true],
        }
    } else {
        Seq::empty()
    }
}

/// Reading `frame_num`, the field flags and, for an IDR picture, `idr_pic_id`, where they
/// were written as 7.3.3 lays them out (without a colour plane), gives them back.
#[verifier::spinoff_prover]
pub proof fn lemma_slice_frame_written(
    s: BitStream,
    sps: SeqParameterSet,
    frame_num: u16,
    field_pic: FieldPic,
    idr_pic_id: Option<u32>,
    s2: BitStream,
)
    requires
        !sps.chroma_info.separate_colour_plane_flag,
        sps.log2_max_frame_num_minus4 + 4 <= 16,
        frame_num < vstd::arithmetic::power2::pow2((sps.log2_max_frame_num_minus4 + 4) as nat),
        sps.frame_mbs_flags is Frames ==> field_pic == FieldPic::Frame,
        idr_pic_id matches Some(id) ==> id < u32::MAX,
        reads(
            s,
            value_bits(frame_num as nat, (sps.log2_max_frame_num_minus4 + 4) as nat) + (field_pic_bits(sps, field_pic) + match idr_pic_id {
                Some(id) => ue_bits(id),
                None => Seq::<bool>::empty(),
            }),
            s2,
        ),
    ensures
        spec_slice_frame(s, sps, idr_pic_id is Some) == Ok::<((Option<ColourPlane>, u16, FieldPic, Option<u32>), BitStream), SliceHeaderError>((
            (None, frame_num, field_pic, idr_pic_id),
            s2,
        )),
{
    let n = (sps.log2_max_frame_num_minus4 + 4) as nat;
    let idr_bits = match idr_pic_id {
        Some(id) => ue_bits(id),
        None => Seq::<bool>::empty(),
    };
    let fb = field_pic_bits(sps, field_pic);
    lemma_reads_split(s, value_bits(frame_num as nat, n), fb + idr_bits, s2);
    lemma_value_bits_len(frame_num as nat, n);
    lemma_read_value(s, frame_num as nat, n);
    let s1 = s.at(s.pos + n);
    lemma_reads_split(s1, fb, idr_bits, s2);
    let s3 = s1.at(s1.pos + fb.len());
    if sps.frame_mbs_flags is Fields {
        match field_pic {
            FieldPic::Frame => {
                lemma_read_bit_written(s1, false, s3, "field_pic_flag");
            },
            FieldPic::Field(f) => {
                let b = f == Field::Bottom;
                assert(fb =~= seq![true] + seq![b]);
                lemma_reads_split(s1, seq![true], seq![b], s3);
                lemma_read_bit_written(s1, true, s1.at(s1.pos + 1), "field_pic_flag");
                lemma_read_bit_written(s1.at(s1.pos + 1), b, s3, "bottom_field_flag");
            },
        }
    } else {
        assert(s3 == s1);
    }
    match idr_pic_id {
        Some(id) => {
            lemma_read_ue_bits(s3, id, "idr_pic_id");
        },
        None => {
            assert(s2 == s3);
        },
    }
}

/// `cabac_init_idc` as a slice header writes it: as `ue(v)` when present.
pub open spec fn cabac_init_bits(cabac_init_idc: Option<u32>) -> Seq<bool> {
    match cabac_init_idc {
        Some(v) => ue_bits(v),
        None => Seq::empty(),
    }
}

/// Reading a P, B or I slice's `cabac_init_idc` (present for CABAC in P and B slices) and
/// `slice_qp_delta`, where they were written as 7.3.3 lays them out, gives them back.
pub proof fn lemma_slice_qp_written(
    s: BitStream,
    pps: PicParameterSet,
    family: SliceFamily,
    cabac_init_idc: Option<u32>,
    slice_qp_delta: i32,
    s2: BitStream,
)
    requires
        family != SliceFamily::SP && family != SliceFamily::SI,
        cabac_init_idc is Some <==> pps.entropy_coding_mode_flag && family != SliceFamily::I,
        cabac_init_idc matches Some(v) ==> v < u32::MAX,
        i32::MIN < slice_qp_delta <= 51,
        reads(s, cabac_init_bits(cabac_init_idc) + se_bits(slice_qp_delta), s2),
    ensures
        spec_slice_qp(s, pps, family) == Ok::<((Option<u32>, i32, Option<bool>, Option<u32>), BitStream), SliceHeaderError>((
            (cabac_init_idc, slice_qp_delta, None, None),
            s2,
        )),
{
    let cb = cabac_init_bits(cabac_init_idc);
    lemma_reads_split(s, cb, se_bits(slice_qp_delta), s2);
    let s1 = s.at(s.pos + cb.len());
    match cabac_init_idc {
        Some(v) => lemma_read_ue_bits(s, v, "cabac_init_idc"),
        None => assert(s1 == s),
    }
    lemma_read_se_bits(s1, slice_qp_delta, "slice_qp_delta");
}

/// Reading an SP or SI slice's `slice_qp_delta`, the SP slice's `sp_for_switch_flag` and
/// `slice_qs_delta`, where they were written as 7.3.3 lays them out (SP and SI slices use
/// CAVLC, so no `cabac_init_idc`), gives them back, with `QSY = 26 + pic_init_qs_minus26 +
/// slice_qs_delta` (7-31).
pub proof fn lemma_slice_qs_written(
    s: BitStream,
    pps: PicParameterSet,
    family: SliceFamily,
    slice_qp_delta: i32,
    sp_for_switch_flag: Option<bool>,
    slice_qs_delta: i32,
    s2: BitStream,
)
    requires
        family == SliceFamily::SP || family == SliceFamily::SI,
        !pps.entropy_coding_mode_flag,
        sp_for_switch_flag is Some <==> family == SliceFamily::SP,
        i32::MIN < slice_qp_delta <= 51,
        slice_qs_delta > i32::MIN,
        0 <= 26 + pps.pic_init_qs_minus26 + slice_qs_delta <= 51,
        reads(
            s,
            se_bits(slice_qp_delta) + (match sp_for_switch_flag {
                Some(b) => seq![b],
                None => Seq::<bool>::empty(),
            } + se_bits(slice_qs_delta)),
            s2,
        ),
    ensures
        spec_slice_qp(s, pps, family) == Ok::<((Option<u32>, i32, Option<bool>, Option<u32>), BitStream), SliceHeaderError>((
            (None, slice_qp_delta, sp_for_switch_flag, Some((26 + pps.pic_init_qs_minus26 + slice_qs_delta) as u32)),
            s2,
        )),
{
    let sw = match sp_for_switch_flag {
        Some(b) => seq![b],
        None => Seq::<bool>::empty(),
    };
    lemma_reads_split(s, se_bits(slice_qp_delta), sw + se_bits(slice_qs_delta), s2);
    let s1 = s.at(s.pos + se_bits(slice_qp_delta).len());
    lemma_read_se_bits(s, slice_qp_delta, "slice_qp_delta");
    lemma_reads_split(s1, sw, se_bits(slice_qs_delta), s2);
    let s3 = s1.at(s1.pos + sw.len());
    match sp_for_switch_flag {
        Some(b) => lemma_read_bit_written(s1, b, s3, "sp_for_switch_flag"),
        None => assert(s3 == s1),
    }
    lemma_read_se_bits(s3, slice_qs_delta, "slice_qs_delta");
}

/// `num_ref_idx_l*_active_minus1`, at most 31.
pub open spec fn spec_slice_num_ref_idx(s: BitStream, name: &'static str) -> Result<(u32, BitStream), SliceHeaderError> {
    match spec_read_ue(s, name) {
        Err(e) => Err(SliceHeaderError::RbspError(e)),
        Ok((v, s2)) => if v > 31 { Err(SliceHeaderError::InvalidNumRefIdx(name, v)) } else { Ok((v, s2)) },
    }
}

/// `redundant_pic_cnt`, `direct_spatial_mv_pred_flag` and the active reference index counts.
pub open spec fn spec_slice_refs(s: BitStream, redundant_pic_cnt_present_flag: bool, family: SliceFamily)
    -> Result<((Option<u32>, Option<bool>, Option<NumRefIdxActive>), BitStream), SliceHeaderError>
{
    let red = if redundant_pic_cnt_present_flag {
        match spec_read_ue(s, "redundant_pic_cnt ") {
            Err(e) => Err(e),
            Ok((v, s1)) => Ok((Some(v), s1)),
        }
    } else {
        Ok((None, s))
    };
    match red {
        Err(e) => Err(SliceHeaderError::RbspError(e)),
        Ok((redundant_pic_cnt, s1)) => {
            let dir = if family == SliceFamily::B {
                match spec_read_bit(s1, "direct_spatial_mv_pred_flag") {
                    Err(e) => Err(e),
                    Ok((v, s2)) => Ok((Some(v), s2)),
                }
            } else {
                Ok((None, s1))
            };
            match dir {
                Err(e) => Err(SliceHeaderError::RbspError(e)),
                Ok((direct, s2)) => if family == SliceFamily::P || family == SliceFamily::SP || family == SliceFamily::B {
                    match spec_read_bit(s2, "num_ref_idx_active_override_flag") {
                        Err(e) => Err(SliceHeaderError::RbspError(e)),
                        Ok((ov, s3)) => if !ov {
                            Ok(((redundant_pic_cnt, direct, None), s3))
                        } else {
                            match spec_slice_num_ref_idx(s3, "num_ref_idx_l0_active_minus1") {
                                Err(e) => Err(e),
                                Ok((l0, s4)) => if family == SliceFamily::B {
                                    match spec_slice_num_ref_idx(s4, "num_ref_idx_l1_active_minus1") {
                                        Err(e) => Err(e),
                                        Ok((l1, s5)) => Ok((
                                            (redundant_pic_cnt, direct, Some(NumRefIdxActive::B { num_ref_idx_l0_active_minus1: l0, num_ref_idx_l1_active_minus1: l1 })),
                                            s5,
                                        )),
                                    }
                                } else {
                                    Ok(((redundant_pic_cnt, direct, Some(NumRefIdxActive::P { num_ref_idx_l0_active_minus1: l0 })), s4))
                                },
                            }
                        },
                    }
                } else {
                    Ok(((redundant_pic_cnt, direct, None), s2))
                },
            }
        },
    }
}

/// Whether the slice carries a prediction weight table.
pub open spec fn has_pred_weight_table(pps: PicParameterSet, family: SliceFamily) -> bool {
    (pps.weighted_pred_flag && (family == SliceFamily::P || family == SliceFamily::SP))
        || (pps.weighted_bipred_idc == 1 && family == SliceFamily::B)
}

/// Whether `ChromaArrayType` is 0.
pub open spec fn chroma_array_monochrome(sps: SeqParameterSet) -> bool {
    sps.chroma_info.separate_colour_plane_flag || sps.chroma_info.chroma_format == ChromaFormat::Monochrome
}

/// The reference list modifications, the prediction weight table and the reference picture marking.
pub open spec fn spec_slice_refs2(
    s: BitStream,
    sps: SeqParameterSet,
    pps: PicParameterSet,
    header: NalHeader,
    family: SliceFamily,
    num_ref_idx_active: Option<NumRefIdxActive>,
) -> Result<((RefPicListModificationsView, Option<PredWeightTableView>, Option<DecRefPicMarkingView>), BitStream), SliceHeaderError> {
    let nut = header.spec_nal_unit_type();
    if nut == UnitType::SliceExtension || nut == UnitType::SliceExtensionViewComponent {
        Err(SliceHeaderError::UnsupportedSyntax("NALU types 20 and 21 not yet supported"))
    } else {
        match spec_ref_pic_list_modifications(s, family) {
            Err(e) => Err(e),
            Ok((m, s1)) => {
                let num_l0 = match num_ref_idx_active {
                    Some(n) => spec_num_ref_idx_l0(n),
                    None => pps.num_ref_idx_l0_default_active_minus1,
                };
                let num_l1 = match num_ref_idx_active {
                    Some(NumRefIdxActive::B { num_ref_idx_l1_active_minus1, .. }) => num_ref_idx_l1_active_minus1,
                    _ => pps.num_ref_idx_l1_default_active_minus1,
                };
                let pwt = if has_pred_weight_table(pps, family) {
                    match spec_pred_weight_table(s1, family, chroma_array_monochrome(sps), num_l0, num_l1) {
                        Err(e) => Err(e),
                        Ok((t, s2)) => Ok((Some(t), s2)),
                    }
                } else {
                    Ok((None, s1))
                };
                match pwt {
                    Err(e) => Err(e),
                    Ok((t, s2)) => if header.spec_nal_ref_idc() == 0 {
                        Ok(((m, t, None), s2))
                    } else {
                        match spec_dec_ref_pic_marking(s2, nut == UnitType::SliceLayerWithoutPartitioningIdr) {
                            Err(e) => Err(e),
                            Ok((d, s3)) => Ok(((m, t, Some(d)), s3)),
                        }
                    },
                }
            },
        }
    }
}

/// `cabac_init_idc`, `slice_qp_delta` and the switching-slice fields.
pub open spec fn spec_slice_qp(s: BitStream, pps: PicParameterSet, family: SliceFamily)
    -> Result<((Option<u32>, i32, Option<bool>, Option<u32>), BitStream), SliceHeaderError>
{
    let cabac = if pps.entropy_coding_mode_flag && family != SliceFamily::I && family != SliceFamily::SI {
        match spec_read_ue(s, "cabac_init_idc") {
            Err(e) => Err(e),
            Ok((v, s1)) => Ok((Some(v), s1)),
        }
    } else {
        Ok((None, s))
    };
    match cabac {
        Err(e) => Err(SliceHeaderError::RbspError(e)),
        Ok((cabac_init_idc, s1)) => match spec_read_se(s1, "slice_qp_delta") {
            Err(e) => Err(SliceHeaderError::RbspError(e)),
            Ok((qp, s2)) => if qp > 51 {
                Err(SliceHeaderError::InvalidSliceQpDelta(qp))
            } else if family == SliceFamily::SP || family == SliceFamily::SI {
                let sw = if family == SliceFamily::SP {
                    match spec_read_bit(s2, "sp_for_switch_flag") {
                        Err(e) => Err(e),
                        Ok((v, s3)) => Ok((Some(v), s3)),
                    }
                } else {
                    Ok((None, s2))
                };
                match sw {
                    Err(e) => Err(SliceHeaderError::RbspError(e)),
                    Ok((sp_for_switch_flag, s3)) => match spec_read_se(s3, "slice_qs_delta") {
                        Err(e) => Err(SliceHeaderError::RbspError(e)),
                        Ok((qs_delta, s4)) => {
                            let qs_y = 26 + pps.pic_init_qs_minus26 + qs_delta;
                            if qs_y < 0 || 51 < qs_y {
                                Err(SliceHeaderError::InvalidSliceQsDelta(qs_delta))
                            } else {
                                Ok(((cabac_init_idc, qp, sp_for_switch_flag, Some(qs_y as u32)), s4))
                            }
                        },
                    },
                }
            } else {
                Ok(((cabac_init_idc, qp, None, None), s2))
            },
        },
    }
}

/// The number of binary digits of `y - 1`: the least `n` with `2^n >= y`.
pub open spec fn ceil_log2(y: nat) -> nat
    decreases y,
{
    if y <= 1 {
        0
    } else {
        1 + ceil_log2(((y + 1) / 2) as nat)
    }
}

/// The width of `slice_group_change_cycle`, `Ceil(Log2(PicSizeInMapUnits / SliceGroupChangeRate
/// + 1))` with exact division, when the picture parameter set uses slice group map types 3 to 5.
pub open spec fn change_cycle_bits(sps: SeqParameterSet, pps: PicParameterSet) -> Option<nat> {
    match pps.slice_groups {
        Some(SliceGroup::Changing { slice_group_change_rate_minus1, .. }) => {
            let size = (sps.pic_width_in_mbs_minus1 + 1) * (sps.pic_height_in_map_units_minus1 + 1);
            let rate = slice_group_change_rate_minus1 + 1;
            Some(ceil_log2(((size + rate - 1) / rate + 1) as nat))
        },
        _ => None,
    }
}

/// The deblocking filter fields, `slice_group_change_cycle` when it has a width, and the check
/// that the header ends before the trailing bits.
pub open spec fn spec_slice_deblocking(s: BitStream, deblocking_filter_control_present_flag: bool, cycle_bits: Option<nat>) -> Result<((u8, Option<u32>), BitStream), SliceHeaderError> {
    let d = if deblocking_filter_control_present_flag {
        match spec_read_ue(s, "disable_deblocking_filter_idc") {
            Err(e) => Err(SliceHeaderError::RbspError(e)),
            Ok((v, s1)) => if v > 6 {
                Err(SliceHeaderError::InvalidDisableDeblockingFilterIdc(v))
            } else if v != 1 {
                match spec_read_se(s1, "slice_alpha_c0_offset_div2") {
                    Err(e) => Err(SliceHeaderError::RbspError(e)),
                    Ok((alpha, s2)) => if alpha < -6 || 6 < alpha {
                        Err(SliceHeaderError::InvalidSliceAlphaC0OffsetDiv2(alpha))
                    } else {
                        match spec_read_se(s2, "slice_beta_offset_div2") {
                            Err(e) => Err(SliceHeaderError::RbspError(e)),
                            Ok((_, s3)) => Ok((v as u8, s3)),
                        }
                    },
                }
            } else {
                Ok((v as u8, s1))
            },
        }
    } else {
        Ok((0u8, s))
    };
    match d {
        Err(e) => Err(e),
        Ok((idc, s1)) => {
            let cycle = match cycle_bits {
                None => Ok((None, s1)),
                Some(n) => match spec_read_u32_bits(s1, n, "slice_group_change_cycle") {
                    Err(e) => Err(SliceHeaderError::RbspError(e)),
                    Ok((v, s2)) => Ok((Some(v), s2)),
                },
            };
            match cycle {
                Err(e) => Err(e),
                Ok((c, s2)) => match spec_has_more_rbsp_data(s2, "slice_header") {
                    Err(e) => Err(SliceHeaderError::RbspError(e)),
                    Ok(more) => if !more {
                        Err(SliceHeaderError::RbspError(BitReaderError::ReaderError("slice_header", ErrorKind::UnexpectedEof)))
                    } else {
                        Ok(((idc, c), s2))
                    },
                },
            }
        },
    }
}

/// The slice header fields from `colour_plane_id` to the active reference index counts.
pub open spec fn spec_slice_part_a(s: BitStream, sps: SeqParameterSet, pps: PicParameterSet, header: NalHeader, family: SliceFamily)
    -> Result<((Option<ColourPlane>, u16, FieldPic, Option<u32>, Option<PicOrderCountLsbView>, Option<u32>, Option<bool>, Option<NumRefIdxActive>), BitStream), SliceHeaderError>
{
    match spec_slice_frame(s, sps, header.spec_nal_unit_type() == UnitType::SliceLayerWithoutPartitioningIdr) {
        Err(e) => Err(e),
        Ok(((cp, frame_num, field_pic, idr_pic_id), s2)) => match spec_slice_poc(s2, sps, pps.bottom_field_pic_order_in_frame_present_flag, field_pic) {
            Err(e) => Err(SliceHeaderError::RbspError(e)),
            Ok((poc, s3)) => match spec_slice_refs(s3, pps.redundant_pic_cnt_present_flag, family) {
                Err(e) => Err(e),
                Ok(((red, direct, num_ref), s4)) => Ok(((cp, frame_num, field_pic, idr_pic_id, poc, red, direct, num_ref), s4)),
            },
        },
    }
}

/// The slice header fields from the reference list modifications to the end.
pub open spec fn spec_slice_part_b(
    s: BitStream,
    sps: SeqParameterSet,
    pps: PicParameterSet,
    header: NalHeader,
    family: SliceFamily,
    num_ref: Option<NumRefIdxActive>,
) -> Result<((RefPicListModificationsView, Option<PredWeightTableView>, Option<DecRefPicMarkingView>, Option<u32>, i32, Option<bool>, Option<u32>, (u8, Option<u32>)), BitStream), SliceHeaderError> {
    match spec_slice_refs2(s, sps, pps, header, family, num_ref) {
        Err(e) => Err(e),
        Ok(((m, pwt, marking), s5)) => match spec_slice_qp(s5, pps, family) {
            Err(e) => Err(e),
            Ok(((cabac, qp, sw, qs), s6)) => match spec_slice_deblocking(s6, pps.deblocking_filter_control_present_flag, change_cycle_bits(sps, pps)) {
                Err(e) => Err(e),
                Ok((dbk, s7)) => Ok(((m, pwt, marking, cabac, qp, sw, qs, dbk), s7)),
            },
        },
    }
}

/// `slice_header()` (7.3.3) with the parameter sets of the context: the header, the stream
/// after it, and the sequence and picture parameter sets it refers to.
pub open spec fn spec_slice_header(
    sps_slots: Seq<Option<SeqParameterSet>>,
    pps_slots: Seq<Option<PicParameterSet>>,
    s: BitStream,
    header: NalHeader,
) -> Result<(SliceHeaderView, BitStream, SeqParameterSet, PicParameterSet), SliceHeaderError> {
    match spec_slice_ids(s) {
        Err(e) => Err(e),
        Ok(((first, st, p), s1)) => match slot_value(pps_slots, p as int) {
            None => Err(SliceHeaderError::UndefinedPicParamSetId(crate::nal::pps::spec_pic_param_set_id(p as u8))),
            Some(pps) => match slot_value(sps_slots, pps.seq_parameter_set_id.spec_id() as int) {
                None => Err(SliceHeaderError::UndefinedSeqParamSetId(pps.seq_parameter_set_id)),
                Some(sps) => match spec_slice_part_a(s1, sps, pps, header, st.family) {
                    Err(e) => Err(e),
                    Ok(((cp, frame_num, field_pic, idr_pic_id, poc, red, direct, num_ref), s4)) => match spec_slice_part_b(s4, sps, pps, header, st.family, num_ref) {
                        Err(e) => Err(e),
                        Ok(((m, pwt, marking, cabac, qp, sw, qs, dbk), s7)) => Ok((
                            SliceHeaderView {
                                first_mb_in_slice: first,
                                slice_type: st,
                                colour_plane: cp,
                                frame_num,
                                field_pic,
                                idr_pic_id,
                                pic_order_cnt_lsb: poc,
                                redundant_pic_cnt: red,
                                direct_spatial_mv_pred_flag: direct,
                                num_ref_idx_active: num_ref,
                                ref_pic_list_modification: Some(m),
                                pred_weight_table: pwt,
                                dec_ref_pic_marking: marking,
                                cabac_init_idc: cabac,
                                slice_qp_delta: qp,
                                sp_for_switch_flag: sw,
                                slice_qs: qs,
                                disable_deblocking_filter_idc: dbk.0,
                                slice_group_change_cycle: dbk.1,
                            },
                            s7,
                            sps,
                            pps,
                        )),
                    },
                },
            },
        },
    }
}

impl SliceHeader {
    fn read_ids(r: &mut BitReader) -> (res: Result<(u32, SliceType, u32), SliceHeaderError>)
        ensures
            parsed(res, spec_slice_ids(old(r)@), final(r)@),
    {
        let first_mb_in_slice = match r.read_ue("first_mb_in_slice") {
            Ok(v) => v,
            Err(e) => return Err(SliceHeaderError::RbspError(e)),
        };
        let t = match r.read_ue("slice_type") {
            Ok(v) => v,
            Err(e) => return Err(SliceHeaderError::RbspError(e)),
        };
        let slice_type = match SliceType::from_id(t) {
            Ok(v) => v,
            Err(e) => return Err(e),
        };
        let p = match r.read_ue("pic_parameter_set_id") {
            Ok(v) => v,
            Err(e) => return Err(SliceHeaderError::RbspError(e)),
        };
        if p > 255 {
            return Err(SliceHeaderError::InvalidSeqParamSetId(PicParamSetIdError::IdTooLarge(p)));
        }
        Ok((first_mb_in_slice, slice_type, p))
    }

    fn read_frame(r: &mut BitReader, sps: &SeqParameterSet, idr: bool) -> (res: Result<(Option<ColourPlane>, u16, FieldPic, Option<u32>), SliceHeaderError>)
        requires
            sps_sizes_in_range(*sps),
        ensures
            parsed(res, spec_slice_frame(old(r)@, *sps, idr), final(r)@),
    {
        let ghost s0 = r@;
        let colour_plane = if sps.chroma_info.separate_colour_plane_flag {
            let id: u8 = match r.read::<2, u8>("colour_plane_id") {
                Ok(v) => v,
                Err(e) => return Err(SliceHeaderError::RbspError(e)),
            };
            proof {
                crate::rbsp::lemma_bits_value_bound(s0.data, s0.pos, 2);
                vstd::arithmetic::power2::lemma2_to64();
            }
            match ColourPlane::from_id(id) {
                Ok(c) => Some(c),
                Err(e) => return Err(SliceHeaderError::ColourPlaneError(e)),
            }
        } else {
            None
        };
        let ghost s1 = r@;
        let bits = sps.log2_max_frame_num() as u32;
        let frame_num: u16 = match r.read_var::<u16>(bits, "frame_num") {
            Ok(v) => v,
            Err(e) => return Err(SliceHeaderError::RbspError(e)),
        };
        proof {
            crate::rbsp::lemma_bits_value_bound(s1.data, s1.pos, bits as nat);
            vstd::arithmetic::power2::lemma2_to64();
            if bits < 16 {
                vstd::arithmetic::power2::lemma_pow2_strictly_increases(bits as nat, 16);
            }
        }
        let field_pic = match sps.frame_mbs_flags {
            FrameMbsFlags::Fields { .. } => {
                let field = match r.read_bit("field_pic_flag") {
                    Ok(v) => v,
                    Err(e) => return Err(SliceHeaderError::RbspError(e)),
                };
                if field {
                    match r.read_bit("bottom_field_flag") {
                        Ok(true) => FieldPic::Field(Field::Bottom),
                        Ok(false) => FieldPic::Field(Field::Top),
                        Err(e) => return Err(SliceHeaderError::RbspError(e)),
                    }
                } else {
                    FieldPic::Frame
                }
            },
            FrameMbsFlags::Frames => FieldPic::Frame,
        };
        let idr_pic_id = if idr {
            match r.read_ue("idr_pic_id") {
                Ok(v) => Some(v),
                Err(e) => return Err(SliceHeaderError::RbspError(e)),
            }
        } else {
            None
        };
        Ok((colour_plane, frame_num, field_pic, idr_pic_id))
    }

    fn read_poc(r: &mut BitReader, sps: &SeqParameterSet, bottom_present: bool, field_pic: FieldPic)
        -> (res: Result<Option<PicOrderCountLsb>, BitReaderError>)
        requires
            sps_sizes_in_range(*sps),
        ensures
            match spec_slice_poc(old(r)@, *sps, bottom_present, field_pic) {
                Ok((v, s2)) => res matches Ok(o) && final(r)@ == s2 && match o {
                    Some(p) => v == Some(p@),
                    None => v is None,
                },
                Err(e) => res == Err::<Option<PicOrderCountLsb>, BitReaderError>(e),
            },
    {
        match &sps.pic_order_cnt {
            PicOrderCntType::TypeZero { log2_max_pic_order_cnt_lsb_minus4 } => {
                let bits = *log2_max_pic_order_cnt_lsb_minus4 as u32 + 4;
                let pic_order_cnt_lsb: u32 = match r.read_var::<u32>(bits, "pic_order_cnt_lsb") {
                    Ok(v) => v,
                    Err(e) => return Err(e),
                };
                if bottom_present && field_pic == FieldPic::Frame {
                    let delta_pic_order_cnt_bottom = match r.read_se("delta_pic_order_cnt_bottom") {
                        Ok(v) => v,
                        Err(e) => return Err(e),
                    };
                    Ok(Some(PicOrderCountLsb::FieldsAbsolute { pic_order_cnt_lsb, delta_pic_order_cnt_bottom }))
                } else {
                    Ok(Some(PicOrderCountLsb::Frame(pic_order_cnt_lsb)))
                }
            },
            PicOrderCntType::TypeOne { delta_pic_order_always_zero_flag, .. } => {
                if *delta_pic_order_always_zero_flag {
                    Ok(None)
                } else {
                    let a = match r.read_se("FieldsDelta[0]") {
                        Ok(v) => v,
                        Err(e) => return Err(e),
                    };
                    let b = match r.read_se("FieldsDelta[1]") {
                        Ok(v) => v,
                        Err(e) => return Err(e),
                    };
                    let d = [a, b];
                    assert(d@[0] == a && d@[1] == b);
                    Ok(Some(PicOrderCountLsb::FieldsDelta(d)))
                }
            },
            PicOrderCntType::TypeTwo => Ok(None),
        }
    }

    fn read_refs(r: &mut BitReader, redundant_present: bool, family: SliceFamily)
        -> (res: Result<(Option<u32>, Option<bool>, Option<NumRefIdxActive>), SliceHeaderError>)
        ensures
            parsed(res, spec_slice_refs(old(r)@, redundant_present, family), final(r)@),
    {
        let redundant_pic_cnt = if redundant_present {
            match r.read_ue("redundant_pic_cnt ") {
                Ok(v) => Some(v),
                Err(e) => return Err(SliceHeaderError::RbspError(e)),
            }
        } else {
            None
        };
        let direct_spatial_mv_pred_flag = if family == SliceFamily::B {
            match r.read_bit("direct_spatial_mv_pred_flag") {
                Ok(v) => Some(v),
                Err(e) => return Err(SliceHeaderError::RbspError(e)),
            }
        } else {
            None
        };
        let num_ref_idx_active = if family == SliceFamily::P || family == SliceFamily::SP || family == SliceFamily::B {
            let ov = match r.read_bit("num_ref_idx_active_override_flag") {
                Ok(v) => v,
                Err(e) => return Err(SliceHeaderError::RbspError(e)),
            };
            if ov {
                let l0 = match read_num_ref_idx(r, "num_ref_idx_l0_active_minus1") {
                    Ok(v) => v,
                    Err(e) => return Err(e),
                };
                if family == SliceFamily::B {
                    let l1 = match read_num_ref_idx(r, "num_ref_idx_l1_active_minus1") {
                        Ok(v) => v,
                        Err(e) => return Err(e),
                    };
                    Some(NumRefIdxActive::B { num_ref_idx_l0_active_minus1: l0, num_ref_idx_l1_active_minus1: l1 })
                } else {
                    Some(NumRefIdxActive::P { num_ref_idx_l0_active_minus1: l0 })
                }
            } else {
                None
            }
        } else {
            None
        };
        Ok((redundant_pic_cnt, direct_spatial_mv_pred_flag, num_ref_idx_active))
    }

    fn read_refs2(
        r: &mut BitReader,
        sps: &SeqParameterSet,
        pps: &PicParameterSet,
        header: NalHeader,
        family: SliceFamily,
        num_ref_idx_active: Option<NumRefIdxActive>,
    ) -> (res: Result<(RefPicListModifications, Option<PredWeightTable>, Option<DecRefPicMarking>), SliceHeaderError>)
        ensures
            match spec_slice_refs2(old(r)@, *sps, *pps, header, family, num_ref_idx_active) {
                Ok(((m, t, d), s2)) => res matches Ok((em, et, ed)) && em@ == m && final(r)@ == s2
                    && (match et {
                        Some(x) => t == Some(x@),
                        None => t is None,
                    }) && (match ed {
                        Some(x) => d == Some(x@),
                        None => d is None,
                    }),
                Err(e) => res == Err::<(RefPicListModifications, Option<PredWeightTable>, Option<DecRefPicMarking>), SliceHeaderError>(e),
            },
    {
        let nut = header.nal_unit_type();
        if nut == UnitType::SliceExtension || nut == UnitType::SliceExtensionViewComponent {
            return Err(SliceHeaderError::UnsupportedSyntax("NALU types 20 and 21 not yet supported"));
        }
        let ref_pic_list_modification = match RefPicListModifications::read(&family, r) {
            Ok(v) => v,
            Err(e) => return Err(e),
        };
        let num_l0 = match &num_ref_idx_active {
            Some(n) => n.num_ref_idx_l0_active_minus1(),
            None => pps.num_ref_idx_l0_default_active_minus1,
        };
        let num_l1 = match &num_ref_idx_active {
            Some(NumRefIdxActive::B { num_ref_idx_l1_active_minus1, .. }) => *num_ref_idx_l1_active_minus1,
            _ => pps.num_ref_idx_l1_default_active_minus1,
        };
        let has_table = (pps.weighted_pred_flag && (family == SliceFamily::P || family == SliceFamily::SP))
            || (pps.weighted_bipred_idc == 1 && family == SliceFamily::B);
        let pred_weight_table = if has_table {
            let monochrome = sps.chroma_info.separate_colour_plane_flag || sps.chroma_info.chroma_format == ChromaFormat::Monochrome;
            match PredWeightTable::read(r, family, monochrome, num_l0, num_l1) {
                Ok(t) => Some(t),
                Err(e) => return Err(e),
            }
        } else {
            None
        };
        let dec_ref_pic_marking = if header.nal_ref_idc() == 0 {
            None
        } else {
            match DecRefPicMarking::read(r, header) {
                Ok(d) => Some(d),
                Err(e) => return Err(e),
            }
        };
        Ok((ref_pic_list_modification, pred_weight_table, dec_ref_pic_marking))
    }

    fn read_qp(r: &mut BitReader, pps: &PicParameterSet, family: SliceFamily) -> (res: Result<(Option<u32>, i32, Option<bool>, Option<u32>), SliceHeaderError>)
        ensures
            parsed(res, spec_slice_qp(old(r)@, *pps, family), final(r)@),
    {
        let cabac_init_idc = if pps.entropy_coding_mode_flag && family != SliceFamily::I && family != SliceFamily::SI {
            match r.read_ue("cabac_init_idc") {
                Ok(v) => Some(v),
                Err(e) => return Err(SliceHeaderError::RbspError(e)),
            }
        } else {
            None
        };
        let slice_qp_delta = match r.read_se("slice_qp_delta") {
            Ok(v) => v,
            Err(e) => return Err(SliceHeaderError::RbspError(e)),
        };
        if slice_qp_delta > 51 {
            // the lower bound, -QpBdOffsetY, depends on the bit depth and is not checked here
            return Err(SliceHeaderError::InvalidSliceQpDelta(slice_qp_delta));
        }
        if family == SliceFamily::SP || family == SliceFamily::SI {
            let sp_for_switch_flag = if family == SliceFamily::SP {
                match r.read_bit("sp_for_switch_flag") {
                    Ok(v) => Some(v),
                    Err(e) => return Err(SliceHeaderError::RbspError(e)),
                }
            } else {
                None
            };
            let slice_qs_delta = match r.read_se("slice_qs_delta") {
                Ok(v) => v,
                Err(e) => return Err(SliceHeaderError::RbspError(e)),
            };
            let qs_y: i64 = 26 + pps.pic_init_qs_minus26 as i64 + slice_qs_delta as i64;
            if qs_y < 0 || 51 < qs_y {
                return Err(SliceHeaderError::InvalidSliceQsDelta(slice_qs_delta));
            }
            Ok((cabac_init_idc, slice_qp_delta, sp_for_switch_flag, Some(qs_y as u32)))
        } else {
            Ok((cabac_init_idc, slice_qp_delta, None, None))
        }
    }

    /// The width of `slice_group_change_cycle`, or any width above 32 where it is wider.
    fn read_cycle_bits(sps: &SeqParameterSet, pps: &PicParameterSet) -> (r: Option<u32>)
        ensures
            match change_cycle_bits(*sps, *pps) {
                None => r is None,
                Some(n) => r matches Some(b) && (if n <= 32 { b == n } else { b > 32 }),
            },
    {
        match &pps.slice_groups {
            Some(SliceGroup::Changing { slice_group_change_rate_minus1, .. }) => {
                let w: u128 = sps.pic_width_in_mbs_minus1 as u128 + 1;
                let h: u128 = sps.pic_height_in_map_units_minus1 as u128 + 1;
                assert(w * h <= 0x1_0000_0000u128 * 0x1_0000_0000u128) by (nonlinear_arith)
                    requires
                        w <= 0x1_0000_0000u128,
                        h <= 0x1_0000_0000u128,
                ;
                let size: u128 = w * h;
                let rate: u128 = *slice_group_change_rate_minus1 as u128 + 1;
                assert((size + rate - 1) / (rate as int) <= size + rate) by (nonlinear_arith)
                    requires
                        rate >= 1,
                ;
                let mut y: u128 = (size + rate - 1) / rate + 1;
                let ghost target = ceil_log2(y as nat);
                let mut n: u32 = 0;
                while y > 1 && n <= 32
                    invariant
                        n <= 33,
                        y <= 0x1_0000_0000u128 * 0x1_0000_0000u128 + 0x2_0000_0000u128,
                        n + ceil_log2(y as nat) == target,
                    decreases y,
                {
                    y = (y + 1) / 2;
                    n = n + 1;
                }
                Some(n)
            },
            _ => None,
        }
    }

    fn read_deblocking(r: &mut BitReader, present: bool, cycle_bits: Option<u32>, spec_bits: Ghost<Option<nat>>) -> (res: Result<(u8, Option<u32>), SliceHeaderError>)
        requires
            match spec_bits@ {
                None => cycle_bits is None,
                Some(n) => cycle_bits matches Some(b) && (if n <= 32 { b == n } else { b > 32 }),
            },
        ensures
            parsed(res, spec_slice_deblocking(old(r)@, present, spec_bits@), final(r)@),
    {
        let mut disable_deblocking_filter_idc: u8 = 0;
        if present {
            let v = match r.read_ue("disable_deblocking_filter_idc") {
                Ok(v) => v,
                Err(e) => return Err(SliceHeaderError::RbspError(e)),
            };
            if v > 6 {
                return Err(SliceHeaderError::InvalidDisableDeblockingFilterIdc(v));
            }
            disable_deblocking_filter_idc = v as u8;
            if disable_deblocking_filter_idc != 1 {
                let slice_alpha_c0_offset_div2 = match r.read_se("slice_alpha_c0_offset_div2") {
                    Ok(v) => v,
                    Err(e) => return Err(SliceHeaderError::RbspError(e)),
                };
                if slice_alpha_c0_offset_div2 < -6 || 6 < slice_alpha_c0_offset_div2 {
                    return Err(SliceHeaderError::InvalidSliceAlphaC0OffsetDiv2(slice_alpha_c0_offset_div2));
                }
                match r.read_se("slice_beta_offset_div2") {
                    Ok(_) => {},
                    Err(e) => return Err(SliceHeaderError::RbspError(e)),
                }
            }
        }
        let slice_group_change_cycle = match cycle_bits {
            None => None,
            Some(b) => match r.read_u32_bits(b, "slice_group_change_cycle") {
                Ok(v) => Some(v),
                Err(e) => return Err(SliceHeaderError::RbspError(e)),
            },
        };
        match r.has_more_rbsp_data("slice_header") {
            Ok(true) => Ok((disable_deblocking_filter_idc, slice_group_change_cycle)),
            Ok(false) => Err(SliceHeaderError::RbspError(BitReaderError::ReaderError("slice_header", ErrorKind::UnexpectedEof))),
            Err(e) => Err(SliceHeaderError::RbspError(e)),
        }
    }

    fn read_part_a(r: &mut BitReader, sps: &SeqParameterSet, pps: &PicParameterSet, header: NalHeader, family: SliceFamily)
        -> (res: Result<(Option<ColourPlane>, u16, FieldPic, Option<u32>, Option<PicOrderCountLsb>, Option<u32>, Option<bool>, Option<NumRefIdxActive>), SliceHeaderError>)
        requires
            sps_sizes_in_range(*sps),
        ensures
            match spec_slice_part_a(old(r)@, *sps, *pps, header, family) {
                Ok(((cp, fnum, fp, idr, poc, red, dir, nr), s2)) => res matches Ok((ecp, efnum, efp, eidr, epoc, ered, edir, enr))
                    && ecp == cp && efnum == fnum && efp == fp && eidr == idr && ered == red && edir == dir && enr == nr
                    && final(r)@ == s2 && match epoc {
                        Some(p) => poc == Some(p@),
                        None => poc is None,
                    },
                Err(e) => res == Err::<(Option<ColourPlane>, u16, FieldPic, Option<u32>, Option<PicOrderCountLsb>, Option<u32>, Option<bool>, Option<NumRefIdxActive>), SliceHeaderError>(e),
            },
    {
        let idr = header.nal_unit_type() == UnitType::SliceLayerWithoutPartitioningIdr;
        let (colour_plane, frame_num, field_pic, idr_pic_id) = match Self::read_frame(r, sps, idr) {
            Ok(v) => v,
            Err(e) => return Err(e),
        };
        let pic_order_cnt_lsb = match Self::read_poc(r, sps, pps.bottom_field_pic_order_in_frame_present_flag, field_pic) {
            Ok(v) => v,
            Err(e) => return Err(SliceHeaderError::RbspError(e)),
        };
        let (redundant_pic_cnt, direct_spatial_mv_pred_flag, num_ref_idx_active) = match Self::read_refs(r, pps.redundant_pic_cnt_present_flag, family) {
            Ok(v) => v,
            Err(e) => return Err(e),
        };
        Ok((colour_plane, frame_num, field_pic, idr_pic_id, pic_order_cnt_lsb, redundant_pic_cnt, direct_spatial_mv_pred_flag, num_ref_idx_active))
    }

    fn read_part_b(r: &mut BitReader, sps: &SeqParameterSet, pps: &PicParameterSet, header: NalHeader, family: SliceFamily, num_ref: Option<NumRefIdxActive>)
        -> (res: Result<(RefPicListModifications, Option<PredWeightTable>, Option<DecRefPicMarking>, Option<u32>, i32, Option<bool>, Option<u32>, (u8, Option<u32>)), SliceHeaderError>)
        ensures
            match spec_slice_part_b(old(r)@, *sps, *pps, header, family, num_ref) {
                Ok(((m, t, d, cabac, qp, sw, qs, dbk), s2)) => res matches Ok((em, et, ed, ecabac, eqp, esw, eqs, edbk))
                    && em@ == m && ecabac == cabac && eqp == qp && esw == sw && eqs == qs && edbk == dbk && final(r)@ == s2
                    && (match et {
                        Some(x) => t == Some(x@),
                        None => t is None,
                    }) && (match ed {
                        Some(x) => d == Some(x@),
                        None => d is None,
                    }),
                Err(e) => res == Err::<(RefPicListModifications, Option<PredWeightTable>, Option<DecRefPicMarking>, Option<u32>, i32, Option<bool>, Option<u32>, (u8, Option<u32>)), SliceHeaderError>(e),
            },
    {
        let (ref_pic_list_modification, pred_weight_table, dec_ref_pic_marking) = match Self::read_refs2(r, sps, pps, header, family, num_ref) {
            Ok(v) => v,
            Err(e) => return Err(e),
        };
        let (cabac_init_idc, slice_qp_delta, sp_for_switch_flag, slice_qs) = match Self::read_qp(r, pps, family) {
            Ok(v) => v,
            Err(e) => return Err(e),
        };
        let cycle_bits = Self::read_cycle_bits(sps, pps);
        let disable_deblocking_filter_idc = match Self::read_deblocking(r, pps.deblocking_filter_control_present_flag, cycle_bits, Ghost(change_cycle_bits(*sps, *pps))) {
            Ok(v) => v,
            Err(e) => return Err(e),
        };
        Ok((ref_pic_list_modification, pred_weight_table, dec_ref_pic_marking, cabac_init_idc, slice_qp_delta, sp_for_switch_flag, slice_qs, disable_deblocking_filter_idc))
    }

    pub fn from_bits<'a>(ctx: &'a Context, r: &mut BitReader, header: NalHeader)
        -> (res: Result<(SliceHeader, &'a SeqParameterSet, &'a PicParameterSet), SliceHeaderError>)
        requires
            context_sizes_in_range(ctx.sps_slots()),
        ensures
            match spec_slice_header(ctx.sps_slots(), ctx.pps_slots(), old(r)@, header) {
                Ok((v, s2, sps, pps)) => res matches Ok((h, esps, epps)) && h@ == v && *esps == sps && *epps == pps && final(r)@ == s2,
                Err(e) => res == Err::<(SliceHeader, &'a SeqParameterSet, &'a PicParameterSet), SliceHeaderError>(e),
            },
    {
        let (first_mb_in_slice, slice_type, p) = match Self::read_ids(r) {
            Ok(v) => v,
            Err(e) => return Err(e),
        };
        let pic_parameter_set_id = match PicParamSetId::from_u32(p) {
            Ok(v) => v,
            Err(e) => return Err(SliceHeaderError::InvalidSeqParamSetId(e)),
        };
        proof { crate::nal::pps::lemma_pic_param_set_id_spec(p as u8); }
        let pps = match ctx.pps_by_id(pic_parameter_set_id) {
            Some(v) => v,
            None => return Err(SliceHeaderError::UndefinedPicParamSetId(pic_parameter_set_id)),
        };
        let sps = match ctx.sps_by_id(pps.seq_parameter_set_id) {
            Some(v) => v,
            None => return Err(SliceHeaderError::UndefinedSeqParamSetId(pps.seq_parameter_set_id)),
        };
        proof {
            let i = pps.seq_parameter_set_id.spec_id() as int;
            assert(ctx.sps_slots()[i] matches Some(x) ==> sps_sizes_in_range(x));
        }
        let (colour_plane, frame_num, field_pic, idr_pic_id, pic_order_cnt_lsb, redundant_pic_cnt, direct_spatial_mv_pred_flag, num_ref_idx_active) =
            match Self::read_part_a(r, sps, pps, header, slice_type.family) {
                Ok(v) => v,
                Err(e) => return Err(e),
            };
        let (ref_pic_list_modification, pred_weight_table, dec_ref_pic_marking, cabac_init_idc, slice_qp_delta, sp_for_switch_flag, slice_qs, (disable_deblocking_filter_idc, slice_group_change_cycle)) =
            match Self::read_part_b(r, sps, pps, header, slice_type.family, num_ref_idx_active) {
                Ok(v) => v,
                Err(e) => return Err(e),
            };
        let header = SliceHeader {
            first_mb_in_slice,
            slice_type,
            colour_plane,
            frame_num,
            field_pic,
            idr_pic_id,
            pic_order_cnt_lsb,
            redundant_pic_cnt,
            direct_spatial_mv_pred_flag,
            num_ref_idx_active,
            ref_pic_list_modification: Some(ref_pic_list_modification),
            pred_weight_table,
            dec_ref_pic_marking,
            cabac_init_idc,
            slice_qp_delta,
            sp_for_switch_flag,
            slice_qs,
            disable_deblocking_filter_idc,
            slice_group_change_cycle,
        };
        Ok((header, sps, pps))
    }
}

fn read_num_ref_idx(r: &mut BitReader, name: &'static str) -> (res: Result<u32, SliceHeaderError>)
    ensures
        parsed(res, spec_slice_num_ref_idx(old(r)@, name), final(r)@),
{
    let val = match r.read_ue(name) {
        Ok(v) => v,
        Err(e) => return Err(SliceHeaderError::RbspError(e)),
    };
    if val > 31 {
        return Err(SliceHeaderError::InvalidNumRefIdx(name, val));
    }
    Ok(val)
}

} // verus!

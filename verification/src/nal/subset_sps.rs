//! Parser for `subset_seq_parameter_set_rbsp()` (NAL type 15, spec 7.3.2.1.3).
//!
//! A subset SPS wraps a base `SeqParameterSet` plus a profile-dependent extension:
//! - SVC extension (profiles 83/86, spec Annex F)
//! - MVC extension (profiles 118/128/134, spec Annex G)
//!
//! VUI parameter extensions are detected but not parsed; when present, `finish_rbsp()`
//! validation is skipped and `additional_extension2_flag` defaults to `false`.

use vstd::prelude::*;
use crate::nal::sps::{
    spec_chroma_format_idc, spec_seq_parameter_set_data, ChromaInfoView, SeqParameterSet, SeqParameterSetView,
    SpsError,
};
use crate::rbsp::{spec_finish_rbsp, spec_read_bit, spec_read_bits, spec_read_se, spec_read_ue, BitReader, BitStream};

verus! {

/// SVC SPS extension (spec F.7.3.2.1.4, `seq_parameter_set_svc_extension`).
#[derive(Clone, Copy, Debug, PartialEq, Eq, Structural)]
pub struct SvcSpsExtension {
    pub inter_layer_deblocking_filter_control_present_flag: bool,
    pub extended_spatial_scalability_idc: u8,
    pub chroma_phase_x_plus1_flag: bool,
    pub chroma_phase_y_plus1: u8,
    pub seq_ref_layer_chroma_phase_x_plus1_flag: bool,
    pub seq_ref_layer_chroma_phase_y_plus1: u8,
    pub seq_scaled_ref_layer_left_offset: i32,
    pub seq_scaled_ref_layer_top_offset: i32,
    pub seq_scaled_ref_layer_right_offset: i32,
    pub seq_scaled_ref_layer_bottom_offset: i32,
    pub seq_tcoeff_level_prediction_flag: bool,
    pub adaptive_tcoeff_level_prediction_flag: bool,
    pub slice_header_restriction_flag: bool,
    pub svc_vui_parameters_present_flag: bool,
}

/// A single view in the MVC SPS extension.
#[derive(Clone, Debug, PartialEq, Eq)]
pub struct MvcView {
    pub view_id: u16,
    pub anchor_refs_l0: Vec<u16>,
    pub anchor_refs_l1: Vec<u16>,
    pub non_anchor_refs_l0: Vec<u16>,
    pub non_anchor_refs_l1: Vec<u16>,
}

/// The values of an [`MvcView`].
pub ghost struct MvcViewView {
    pub view_id: u16,
    pub anchor_refs_l0: Seq<u16>,
    pub anchor_refs_l1: Seq<u16>,
    pub non_anchor_refs_l0: Seq<u16>,
    pub non_anchor_refs_l1: Seq<u16>,
}

impl View for MvcView {
    type V = MvcViewView;

    open spec fn view(&self) -> MvcViewView {
        MvcViewView {
            view_id: self.view_id,
            anchor_refs_l0: self.anchor_refs_l0@,
            anchor_refs_l1: self.anchor_refs_l1@,
            non_anchor_refs_l0: self.non_anchor_refs_l0@,
            non_anchor_refs_l1: self.non_anchor_refs_l1@,
        }
    }
}

/// A single level-value entry with its applicable operations.
#[derive(Clone, Debug, PartialEq, Eq)]
pub struct MvcLevelValue {
    pub level_idc: u8,
    pub applicable_ops: Vec<MvcApplicableOp>,
}

/// An applicable operation within an MVC level value.
#[derive(Clone, Debug, PartialEq, Eq)]
pub struct MvcApplicableOp {
    pub temporal_id: u8,
    pub num_target_views_minus1: u16,
    pub target_view_ids: Vec<u16>,
    pub num_views_minus1: u16,
}

/// The values of an [`MvcApplicableOp`].
pub ghost struct MvcApplicableOpView {
    pub temporal_id: u8,
    pub num_target_views_minus1: u16,
    pub target_view_ids: Seq<u16>,
    pub num_views_minus1: u16,
}

impl View for MvcApplicableOp {
    type V = MvcApplicableOpView;

    open spec fn view(&self) -> MvcApplicableOpView {
        MvcApplicableOpView {
            temporal_id: self.temporal_id,
            num_target_views_minus1: self.num_target_views_minus1,
            target_view_ids: self.target_view_ids@,
            num_views_minus1: self.num_views_minus1,
        }
    }
}

/// The values of an [`MvcLevelValue`].
pub ghost struct MvcLevelValueView {
    pub level_idc: u8,
    pub applicable_ops: Seq<MvcApplicableOpView>,
}

impl View for MvcLevelValue {
    type V = MvcLevelValueView;

    open spec fn view(&self) -> MvcLevelValueView {
        MvcLevelValueView { level_idc: self.level_idc, applicable_ops: self.applicable_ops@.map_values(|o: MvcApplicableOp| o@) }
    }
}

/// MVC SPS extension (spec G.7.3.2.1.4, `seq_parameter_set_mvc_extension`).
#[derive(Clone, Debug, PartialEq, Eq)]
pub struct MvcSpsExtension {
    pub views: Vec<MvcView>,
    pub level_values: Vec<MvcLevelValue>,
}

/// The values of an [`MvcSpsExtension`].
pub ghost struct MvcSpsExtensionView {
    pub views: Seq<MvcViewView>,
    pub level_values: Seq<MvcLevelValueView>,
}

impl View for MvcSpsExtension {
    type V = MvcSpsExtensionView;

    open spec fn view(&self) -> MvcSpsExtensionView {
        MvcSpsExtensionView {
            views: self.views@.map_values(|v: MvcView| v@),
            level_values: self.level_values@.map_values(|l: MvcLevelValue| l@),
        }
    }
}

/// Profile-dependent extension data within a subset SPS.
#[derive(Clone, Debug, PartialEq, Eq)]
pub enum SubsetSpsExtension {
    Svc(SvcSpsExtension),
    Mvc { ext: MvcSpsExtension, mvc_vui_parameters_present_flag: bool },
    /// MVCD extension (profiles 135/138/139). Parsing not implemented - fields not read.
    Mvcd,
}

/// The values of a [`SubsetSpsExtension`].
pub ghost enum SubsetSpsExtensionView {
    Svc(SvcSpsExtension),
    Mvc { ext: MvcSpsExtensionView, mvc_vui_parameters_present_flag: bool },
    Mvcd,
}

impl View for SubsetSpsExtension {
    type V = SubsetSpsExtensionView;

    open spec fn view(&self) -> SubsetSpsExtensionView {
        match self {
            SubsetSpsExtension::Svc(e) => SubsetSpsExtensionView::Svc(*e),
            SubsetSpsExtension::Mvc { ext, mvc_vui_parameters_present_flag } => SubsetSpsExtensionView::Mvc {
                ext: ext@,
                mvc_vui_parameters_present_flag: *mvc_vui_parameters_present_flag,
            },
            SubsetSpsExtension::Mvcd => SubsetSpsExtensionView::Mvcd,
        }
    }
}

/// Parsed `subset_seq_parameter_set_rbsp()` (NAL unit type 15).
#[derive(Clone, Debug, PartialEq, Eq)]
pub struct SubsetSps {
    pub sps: SeqParameterSet,
    pub extension: Option<SubsetSpsExtension>,
    pub additional_extension2_flag: bool,
}

/// The values of a [`SubsetSps`].
pub ghost struct SubsetSpsView {
    pub sps: SeqParameterSetView,
    pub extension: Option<SubsetSpsExtensionView>,
    pub additional_extension2_flag: bool,
}

impl View for SubsetSps {
    type V = SubsetSpsView;

    open spec fn view(&self) -> SubsetSpsView {
        SubsetSpsView {
            sps: self.sps@,
            extension: match self.extension {
                Some(e) => Some(e@),
                None => None,
            },
            additional_extension2_flag: self.additional_extension2_flag,
        }
    }
}

/// A `ue(v)` value that may not exceed `max`.
pub open spec fn spec_ue_bounded(s: BitStream, name: &'static str, max: u32) -> Result<(u16, BitStream), SpsError> {
    match spec_read_ue(s, name) {
        Err(e) => Err(SpsError::RbspReaderError(e)),
        Ok((v, s1)) => if v > max {
            Err(SpsError::FieldValueTooLarge { name, value: v })
        } else {
            Ok((v as u16, s1))
        },
    }
}

/// Read a ue value and validate it fits in u16 with given max.
fn read_ue_bounded(r: &mut BitReader, name: &'static str, max: u32) -> (res: Result<u16, SpsError>)
    requires
        max <= 0xFFFF,
    ensures
        match spec_ue_bounded(old(r)@, name, max) {
            Ok((v, s2)) => res == Ok::<u16, SpsError>(v) && final(r)@ == s2,
            Err(e) => res == Err::<u16, SpsError>(e),
        },
        final(r)@.data == old(r)@.data && final(r)@.end == old(r)@.end,
{
    let val = match r.read_ue(name) {
        Ok(v) => v,
        Err(e) => return Err(SpsError::RbspReaderError(e)),
    };
    if val > max {
        return Err(SpsError::FieldValueTooLarge { name, value: val });
    }
    Ok(val as u16)
}

/// `count` bounded `ue(v)` values.
pub open spec fn spec_ue_list(s: BitStream, count: nat, name: &'static str, max: u32) -> Result<(Seq<u16>, BitStream), SpsError>
    decreases count,
{
    if count == 0 {
        Ok((Seq::empty(), s))
    } else {
        match spec_ue_bounded(s, name, max) {
            Err(e) => Err(e),
            Ok((v, s1)) => match spec_ue_list(s1, (count - 1) as nat, name, max) {
                Err(e) => Err(e),
                Ok((rest, s2)) => Ok((seq![v] + rest, s2)),
            },
        }
    }
}

fn read_ue_list(r: &mut BitReader, count: u32, name: &'static str, max: u32) -> (res: Result<Vec<u16>, SpsError>)
    requires
        max <= 0xFFFF,
    ensures
        match spec_ue_list(old(r)@, count as nat, name, max) {
            Ok((v, s2)) => res matches Ok(x) && x@ == v && final(r)@ == s2,
            Err(e) => res == Err::<Vec<u16>, SpsError>(e),
        },
{
    let mut list: Vec<u16> = Vec::new();
    let mut k: u32 = 0;
    assert(list@ + Seq::<u16>::empty() =~= list@);
    while k < count
        invariant
            k <= count,
            max <= 0xFFFF,
            spec_ue_list(old(r)@, count as nat, name, max) == match spec_ue_list(r@, (count - k) as nat, name, max) {
                Ok((rest, s2)) => Ok((list@ + rest, s2)),
                Err(e) => Err(e),
            },
        decreases count - k,
    {
        let v = read_ue_bounded(r, name, max)?;
        let ghost prev = list@;
        list.push(v);
        proof {
            match spec_ue_list(r@, (count - k - 1) as nat, name, max) {
                Ok((rest, s2)) => {
                    assert(prev + (seq![v] + rest) =~= list@ + rest);
                },
                Err(e) => {},
            }
        }
        k = k + 1;
    }
    proof {
        assert(list@ + Seq::<u16>::empty() =~= list@);
    }
    Ok(list)
}

/// One view's reference lists: a count of at most 15, then that many view ids, for list 0
/// and then list 1.
pub open spec fn spec_ref_lists(s: BitStream, anchor: bool) -> Result<((Seq<u16>, Seq<u16>), BitStream), SpsError> {
    let n0 = if anchor { "num_anchor_refs_l0" } else { "num_non_anchor_refs_l0" };
    let e0 = if anchor { "anchor_ref_l0" } else { "non_anchor_ref_l0" };
    let n1 = if anchor { "num_anchor_refs_l1" } else { "num_non_anchor_refs_l1" };
    let e1 = if anchor { "anchor_ref_l1" } else { "non_anchor_ref_l1" };
    match spec_read_ue(s, n0) {
        Err(e) => Err(SpsError::RbspReaderError(e)),
        Ok((c0, s1)) => if c0 > 15 {
            Err(SpsError::FieldValueTooLarge { name: n0, value: c0 })
        } else {
            match spec_ue_list(s1, c0 as nat, e0, 1023) {
                Err(e) => Err(e),
                Ok((l0, s2)) => match spec_read_ue(s2, n1) {
                    Err(e) => Err(SpsError::RbspReaderError(e)),
                    Ok((c1, s3)) => if c1 > 15 {
                        Err(SpsError::FieldValueTooLarge { name: n1, value: c1 })
                    } else {
                        match spec_ue_list(s3, c1 as nat, e1, 1023) {
                            Err(e) => Err(e),
                            Ok((l1, s4)) => Ok(((l0, l1), s4)),
                        }
                    },
                },
            }
        },
    }
}

fn read_ref_lists(r: &mut BitReader, anchor: bool) -> (res: Result<(Vec<u16>, Vec<u16>), SpsError>)
    ensures
        match spec_ref_lists(old(r)@, anchor) {
            Ok(((l0, l1), s2)) => res matches Ok((x0, x1)) && x0@ == l0 && x1@ == l1 && final(r)@ == s2,
            Err(e) => res == Err::<(Vec<u16>, Vec<u16>), SpsError>(e),
        },
{
    let n0 = if anchor { "num_anchor_refs_l0" } else { "num_non_anchor_refs_l0" };
    let e0 = if anchor { "anchor_ref_l0" } else { "non_anchor_ref_l0" };
    let n1 = if anchor { "num_anchor_refs_l1" } else { "num_non_anchor_refs_l1" };
    let e1 = if anchor { "anchor_ref_l1" } else { "non_anchor_ref_l1" };
    let c0 = match r.read_ue(n0) {
        Ok(v) => v,
        Err(e) => return Err(SpsError::RbspReaderError(e)),
    };
    if c0 > 15 {
        return Err(SpsError::FieldValueTooLarge { name: n0, value: c0 });
    }
    let l0 = read_ue_list(r, c0, e0, 1023)?;
    let c1 = match r.read_ue(n1) {
        Ok(v) => v,
        Err(e) => return Err(SpsError::RbspReaderError(e)),
    };
    if c1 > 15 {
        return Err(SpsError::FieldValueTooLarge { name: n1, value: c1 });
    }
    let l1 = read_ue_list(r, c1, e1, 1023)?;
    Ok((l0, l1))
}

/// The reference lists of `count` views.
pub open spec fn spec_views_refs(s: BitStream, count: nat, anchor: bool) -> Result<(Seq<(Seq<u16>, Seq<u16>)>, BitStream), SpsError>
    decreases count,
{
    if count == 0 {
        Ok((Seq::empty(), s))
    } else {
        match spec_ref_lists(s, anchor) {
            Err(e) => Err(e),
            Ok((v, s1)) => match spec_views_refs(s1, (count - 1) as nat, anchor) {
                Err(e) => Err(e),
                Ok((rest, s2)) => Ok((seq![v] + rest, s2)),
            },
        }
    }
}

/// The views of pairs of lists.
pub open spec fn list_pairs(l0: Seq<Vec<u16>>, l1: Seq<Vec<u16>>) -> Seq<(Seq<u16>, Seq<u16>)> {
    Seq::new(l0.len(), |i: int| (l0[i]@, l1[i]@))
}

fn read_views_refs(r: &mut BitReader, count: u32, anchor: bool) -> (res: Result<(Vec<Vec<u16>>, Vec<Vec<u16>>), SpsError>)
    ensures
        match spec_views_refs(old(r)@, count as nat, anchor) {
            Ok((v, s2)) => res matches Ok((x0, x1)) && x0@.len() == x1@.len() && list_pairs(x0@, x1@) == v && final(r)@ == s2,
            Err(e) => res == Err::<(Vec<Vec<u16>>, Vec<Vec<u16>>), SpsError>(e),
        },
{
    let mut l0s: Vec<Vec<u16>> = Vec::new();
    let mut l1s: Vec<Vec<u16>> = Vec::new();
    let mut k: u32 = 0;
    assert(list_pairs(l0s@, l1s@) + Seq::<(Seq<u16>, Seq<u16>)>::empty() =~= list_pairs(l0s@, l1s@));
    while k < count
        invariant
            k <= count,
            l0s@.len() == l1s@.len(),
            spec_views_refs(old(r)@, count as nat, anchor) == match spec_views_refs(r@, (count - k) as nat, anchor) {
                Ok((rest, s2)) => Ok((list_pairs(l0s@, l1s@) + rest, s2)),
                Err(e) => Err(e),
            },
        decreases count - k,
    {
        let (a, b) = read_ref_lists(r, anchor)?;
        let ghost prev = list_pairs(l0s@, l1s@);
        let ghost item = (a@, b@);
        l0s.push(a);
        l1s.push(b);
        proof {
            assert(list_pairs(l0s@, l1s@) =~= prev.push(item));
            match spec_views_refs(r@, (count - k - 1) as nat, anchor) {
                Ok((rest, s2)) => {
                    assert(prev + (seq![item] + rest) =~= list_pairs(l0s@, l1s@) + rest);
                },
                Err(e) => {},
            }
        }
        k = k + 1;
    }
    assert(list_pairs(l0s@, l1s@) + Seq::<(Seq<u16>, Seq<u16>)>::empty() =~= list_pairs(l0s@, l1s@));
    Ok((l0s, l1s))
}

/// An applicable operation of a level value.
pub open spec fn spec_applicable_op(s: BitStream) -> Result<(MvcApplicableOpView, BitStream), SpsError> {
    match spec_read_bits(s, 3) {
        None => Err(SpsError::RbspReaderError(crate::rbsp::BitReaderError::ReaderError("applicable_op_temporal_id", s.end))),
        Some((t, s1)) => match spec_ue_bounded(s1, "applicable_op_num_target_views_minus1", 1023) {
            Err(e) => Err(e),
            Ok((n, s2)) => match spec_ue_list(s2, (n + 1) as nat, "applicable_op_target_view_id", 1023) {
                Err(e) => Err(e),
                Ok((ids, s3)) => match spec_ue_bounded(s3, "applicable_op_num_views_minus1", 1023) {
                    Err(e) => Err(e),
                    Ok((m, s4)) => Ok((
                        MvcApplicableOpView {
                            temporal_id: t as u8,
                            num_target_views_minus1: n,
                            target_view_ids: ids,
                            num_views_minus1: m,
                        },
                        s4,
                    )),
                },
            },
        },
    }
}

fn read_applicable_op(r: &mut BitReader) -> (res: Result<MvcApplicableOp, SpsError>)
    ensures
        match spec_applicable_op(old(r)@) {
            Ok((v, s2)) => res matches Ok(x) && x@ == v && final(r)@ == s2,
            Err(e) => res == Err::<MvcApplicableOp, SpsError>(e),
        },
{
    let temporal_id: u8 = match r.read::<3, u8>("applicable_op_temporal_id") {
        Ok(v) => v,
        Err(e) => return Err(SpsError::RbspReaderError(e)),
    };
    let num_target_views_minus1 = read_ue_bounded(r, "applicable_op_num_target_views_minus1", 1023)?;
    let target_view_ids = read_ue_list(r, num_target_views_minus1 as u32 + 1, "applicable_op_target_view_id", 1023)?;
    let num_views_minus1 = read_ue_bounded(r, "applicable_op_num_views_minus1", 1023)?;
    Ok(MvcApplicableOp { temporal_id, num_target_views_minus1, target_view_ids, num_views_minus1 })
}

/// `count` applicable operations.
pub open spec fn spec_applicable_ops(s: BitStream, count: nat) -> Result<(Seq<MvcApplicableOpView>, BitStream), SpsError>
    decreases count,
{
    if count == 0 {
        Ok((Seq::empty(), s))
    } else {
        match spec_applicable_op(s) {
            Err(e) => Err(e),
            Ok((v, s1)) => match spec_applicable_ops(s1, (count - 1) as nat) {
                Err(e) => Err(e),
                Ok((rest, s2)) => Ok((seq![v] + rest, s2)),
            },
        }
    }
}

fn read_applicable_ops(r: &mut BitReader, count: u32) -> (res: Result<Vec<MvcApplicableOp>, SpsError>)
    ensures
        match spec_applicable_ops(old(r)@, count as nat) {
            Ok((v, s2)) => res matches Ok(x) && x@.map_values(|o: MvcApplicableOp| o@) == v && final(r)@ == s2,
            Err(e) => res == Err::<Vec<MvcApplicableOp>, SpsError>(e),
        },
{
    let mut ops: Vec<MvcApplicableOp> = Vec::new();
    let mut k: u32 = 0;
    assert(ops@.map_values(|o: MvcApplicableOp| o@) + Seq::<MvcApplicableOpView>::empty() =~= ops@.map_values(|o: MvcApplicableOp| o@));
    while k < count
        invariant
            k <= count,
            spec_applicable_ops(old(r)@, count as nat) == match spec_applicable_ops(r@, (count - k) as nat) {
                Ok((rest, s2)) => Ok((ops@.map_values(|o: MvcApplicableOp| o@) + rest, s2)),
                Err(e) => Err(e),
            },
        decreases count - k,
    {
        let op = read_applicable_op(r)?;
        let ghost prev = ops@.map_values(|o: MvcApplicableOp| o@);
        let ghost item = op@;
        ops.push(op);
        proof {
            assert(ops@.map_values(|o: MvcApplicableOp| o@) =~= prev.push(item));
            match spec_applicable_ops(r@, (count - k - 1) as nat) {
                Ok((rest, s2)) => {
                    assert(prev + (seq![item] + rest) =~= ops@.map_values(|o: MvcApplicableOp| o@) + rest);
                },
                Err(e) => {},
            }
        }
        k = k + 1;
    }
    assert(ops@.map_values(|o: MvcApplicableOp| o@) + Seq::<MvcApplicableOpView>::empty() =~= ops@.map_values(|o: MvcApplicableOp| o@));
    Ok(ops)
}

/// A level value: its `level_idc` and applicable operations.
pub open spec fn spec_level_value(s: BitStream) -> Result<(MvcLevelValueView, BitStream), SpsError> {
    match spec_read_bits(s, 8) {
        None => Err(SpsError::RbspReaderError(crate::rbsp::BitReaderError::ReaderError("level_idc", s.end))),
        Some((l, s1)) => match spec_read_ue(s1, "num_applicable_ops_minus1") {
            Err(e) => Err(SpsError::RbspReaderError(e)),
            Ok((n, s2)) => if n > 1023 {
                Err(SpsError::FieldValueTooLarge { name: "num_applicable_ops_minus1", value: n })
            } else {
                match spec_applicable_ops(s2, (n + 1) as nat) {
                    Err(e) => Err(e),
                    Ok((ops, s3)) => Ok((MvcLevelValueView { level_idc: l as u8, applicable_ops: ops }, s3)),
                }
            },
        },
    }
}

fn read_level_value(r: &mut BitReader) -> (res: Result<MvcLevelValue, SpsError>)
    ensures
        match spec_level_value(old(r)@) {
            Ok((v, s2)) => res matches Ok(x) && x@ == v && final(r)@ == s2,
            Err(e) => res == Err::<MvcLevelValue, SpsError>(e),
        },
{
    let level_idc: u8 = match r.read::<8, u8>("level_idc") {
        Ok(v) => v,
        Err(e) => return Err(SpsError::RbspReaderError(e)),
    };
    let n = match r.read_ue("num_applicable_ops_minus1") {
        Ok(v) => v,
        Err(e) => return Err(SpsError::RbspReaderError(e)),
    };
    if n > 1023 {
        return Err(SpsError::FieldValueTooLarge { name: "num_applicable_ops_minus1", value: n });
    }
    let applicable_ops = read_applicable_ops(r, n + 1)?;
    Ok(MvcLevelValue { level_idc, applicable_ops })
}

/// `count` level values.
pub open spec fn spec_level_values(s: BitStream, count: nat) -> Result<(Seq<MvcLevelValueView>, BitStream), SpsError>
    decreases count,
{
    if count == 0 {
        Ok((Seq::empty(), s))
    } else {
        match spec_level_value(s) {
            Err(e) => Err(e),
            Ok((v, s1)) => match spec_level_values(s1, (count - 1) as nat) {
                Err(e) => Err(e),
                Ok((rest, s2)) => Ok((seq![v] + rest, s2)),
            },
        }
    }
}

fn read_level_values(r: &mut BitReader, count: u32) -> (res: Result<Vec<MvcLevelValue>, SpsError>)
    ensures
        match spec_level_values(old(r)@, count as nat) {
            Ok((v, s2)) => res matches Ok(x) && x@.map_values(|l: MvcLevelValue| l@) == v && final(r)@ == s2,
            Err(e) => res == Err::<Vec<MvcLevelValue>, SpsError>(e),
        },
{
    let mut vals: Vec<MvcLevelValue> = Vec::new();
    let mut k: u32 = 0;
    assert(vals@.map_values(|l: MvcLevelValue| l@) + Seq::<MvcLevelValueView>::empty() =~= vals@.map_values(|l: MvcLevelValue| l@));
    while k < count
        invariant
            k <= count,
            spec_level_values(old(r)@, count as nat) == match spec_level_values(r@, (count - k) as nat) {
                Ok((rest, s2)) => Ok((vals@.map_values(|l: MvcLevelValue| l@) + rest, s2)),
                Err(e) => Err(e),
            },
        decreases count - k,
    {
        let v = read_level_value(r)?;
        let ghost prev = vals@.map_values(|l: MvcLevelValue| l@);
        let ghost item = v@;
        vals.push(v);
        proof {
            assert(vals@.map_values(|l: MvcLevelValue| l@) =~= prev.push(item));
            match spec_level_values(r@, (count - k - 1) as nat) {
                Ok((rest, s2)) => {
                    assert(prev + (seq![item] + rest) =~= vals@.map_values(|l: MvcLevelValue| l@) + rest);
                },
                Err(e) => {},
            }
        }
        k = k + 1;
    }
    assert(vals@.map_values(|l: MvcLevelValue| l@) + Seq::<MvcLevelValueView>::empty() =~= vals@.map_values(|l: MvcLevelValue| l@));
    Ok(vals)
}

/// The views of an MVC extension: each view id with its anchor and non-anchor reference
/// lists; the first view has none.
pub open spec fn spec_mvc_views(ids: Seq<u16>, anchors: Seq<(Seq<u16>, Seq<u16>)>, non_anchors: Seq<(Seq<u16>, Seq<u16>)>) -> Seq<MvcViewView> {
    Seq::new(ids.len(), |i: int| MvcViewView {
        view_id: ids[i],
        anchor_refs_l0: if i == 0 { Seq::empty() } else { anchors[i - 1].0 },
        anchor_refs_l1: if i == 0 { Seq::empty() } else { anchors[i - 1].1 },
        non_anchor_refs_l0: if i == 0 { Seq::empty() } else { non_anchors[i - 1].0 },
        non_anchor_refs_l1: if i == 0 { Seq::empty() } else { non_anchors[i - 1].1 },
    })
}

/// The views of an MVC extension: their count, ids and reference lists.
pub open spec fn spec_mvc_view_part(s: BitStream) -> Result<(Seq<MvcViewView>, BitStream), SpsError> {
    match spec_read_ue(s, "num_views_minus1") {
        Err(e) => Err(SpsError::RbspReaderError(e)),
        Ok((n, s1)) => if n > 1023 {
            Err(SpsError::FieldValueTooLarge { name: "num_views_minus1", value: n })
        } else {
            match spec_ue_list(s1, (n + 1) as nat, "view_id", 1023) {
                Err(e) => Err(e),
                Ok((ids, s2)) => match spec_views_refs(s2, n as nat, true) {
                    Err(e) => Err(e),
                    Ok((anchors, s3)) => match spec_views_refs(s3, n as nat, false) {
                        Err(e) => Err(e),
                        Ok((non_anchors, s4)) => Ok((spec_mvc_views(ids, anchors, non_anchors), s4)),
                    },
                },
            }
        },
    }
}

/// The level values of an MVC extension: their count and entries.
pub open spec fn spec_mvc_level_part(s: BitStream) -> Result<(Seq<MvcLevelValueView>, BitStream), SpsError> {
    match spec_read_ue(s, "num_level_values_signalled_minus1") {
        Err(e) => Err(SpsError::RbspReaderError(e)),
        Ok((m, s1)) => if m > 63 {
            Err(SpsError::FieldValueTooLarge { name: "num_level_values_signalled_minus1", value: m })
        } else {
            spec_level_values(s1, (m + 1) as nat)
        },
    }
}

/// `seq_parameter_set_mvc_extension()` (G.7.3.2.1.4).
pub open spec fn spec_mvc_extension(s: BitStream) -> Result<(MvcSpsExtensionView, BitStream), SpsError> {
    match spec_mvc_view_part(s) {
        Err(e) => Err(e),
        Ok((views, s1)) => match spec_mvc_level_part(s1) {
            Err(e) => Err(e),
            Ok((levels, s2)) => Ok((MvcSpsExtensionView { views, level_values: levels }, s2)),
        },
    }
}

/// A copy of a list of view ids.
fn copy_ids(v: &Vec<u16>) -> (c: Vec<u16>)
    ensures
        c@ == v@,
{
    let mut c: Vec<u16> = Vec::new();
    let mut k: usize = 0;
    while k < v.len()
        invariant
            k <= v@.len(),
            c@ == v@.take(k as int),
        decreases v@.len() - k,
    {
        c.push(v[k]);
        k = k + 1;
        assert(c@ =~= v@.take(k as int));
    }
    assert(v@.take(v@.len() as int) =~= v@);
    c
}

/// The views of an MVC extension from their ids and reference lists.
fn assemble_views(
    view_ids: &Vec<u16>,
    anchor_l0: &Vec<Vec<u16>>,
    anchor_l1: &Vec<Vec<u16>>,
    non_anchor_l0: &Vec<Vec<u16>>,
    non_anchor_l1: &Vec<Vec<u16>>,
) -> (views: Vec<MvcView>)
    requires
        view_ids@.len() >= 1,
        anchor_l0@.len() == view_ids@.len() - 1 && anchor_l1@.len() == view_ids@.len() - 1,
        non_anchor_l0@.len() == view_ids@.len() - 1 && non_anchor_l1@.len() == view_ids@.len() - 1,
    ensures
        views@.map_values(|v: MvcView| v@) == spec_mvc_views(
            view_ids@,
            list_pairs(anchor_l0@, anchor_l1@),
            list_pairs(non_anchor_l0@, non_anchor_l1@),
        ),
{
    let ghost target = spec_mvc_views(view_ids@, list_pairs(anchor_l0@, anchor_l1@), list_pairs(non_anchor_l0@, non_anchor_l1@));
    let mut views: Vec<MvcView> = Vec::new();
    let mut i: usize = 0;
    assert(views@.map_values(|v: MvcView| v@) =~= target.take(0));
    while i < view_ids.len()
        invariant
            i <= view_ids@.len(),
            view_ids@.len() >= 1,
            anchor_l0@.len() == view_ids@.len() - 1 && anchor_l1@.len() == view_ids@.len() - 1,
            non_anchor_l0@.len() == view_ids@.len() - 1 && non_anchor_l1@.len() == view_ids@.len() - 1,
            target == spec_mvc_views(view_ids@, list_pairs(anchor_l0@, anchor_l1@), list_pairs(non_anchor_l0@, non_anchor_l1@)),
            views@.map_values(|v: MvcView| v@) == target.take(i as int),
        decreases view_ids@.len() - i,
    {
        let view = if i == 0 {
            MvcView {
                view_id: view_ids[0],
                anchor_refs_l0: Vec::new(),
                anchor_refs_l1: Vec::new(),
                non_anchor_refs_l0: Vec::new(),
                non_anchor_refs_l1: Vec::new(),
            }
        } else {
            MvcView {
                view_id: view_ids[i],
                anchor_refs_l0: copy_ids(&anchor_l0[i - 1]),
                anchor_refs_l1: copy_ids(&anchor_l1[i - 1]),
                non_anchor_refs_l0: copy_ids(&non_anchor_l0[i - 1]),
                non_anchor_refs_l1: copy_ids(&non_anchor_l1[i - 1]),
            }
        };
        let ghost prev = views@.map_values(|v: MvcView| v@);
        proof {
            assert(view@.anchor_refs_l0 =~= target[i as int].anchor_refs_l0);
            assert(view@.anchor_refs_l1 =~= target[i as int].anchor_refs_l1);
            assert(view@.non_anchor_refs_l0 =~= target[i as int].non_anchor_refs_l0);
            assert(view@.non_anchor_refs_l1 =~= target[i as int].non_anchor_refs_l1);
            assert(view@ == target[i as int]);
        }
        views.push(view);
        proof {
            assert(views@.map_values(|v: MvcView| v@) =~= prev.push(view@));
            assert(target.take(i + 1) =~= target.take(i as int).push(target[i as int]));
        }
        i = i + 1;
    }
    assert(target.take(target.len() as int) =~= target);
    views
}

/// A list of `count` values has `count` entries.
proof fn lemma_ue_list_len(s: BitStream, count: nat, name: &'static str, max: u32)
    ensures
        spec_ue_list(s, count, name, max) matches Ok((v, _)) ==> v.len() == count,
    decreases count,
{
    if count > 0 {
        match spec_ue_bounded(s, name, max) {
            Err(e) => {},
            Ok((v, s1)) => lemma_ue_list_len(s1, (count - 1) as nat, name, max),
        }
    }
}

/// The reference lists of `count` views have `count` entries.
proof fn lemma_views_refs_len(s: BitStream, count: nat, anchor: bool)
    ensures
        spec_views_refs(s, count, anchor) matches Ok((v, _)) ==> v.len() == count,
    decreases count,
{
    if count > 0 {
        match spec_ref_lists(s, anchor) {
            Err(e) => {},
            Ok((v, s1)) => lemma_views_refs_len(s1, (count - 1) as nat, anchor),
        }
    }
}

fn read_mvc_views(r: &mut BitReader) -> (res: Result<Vec<MvcView>, SpsError>)
    ensures
        match spec_mvc_view_part(old(r)@) {
            Ok((v, s2)) => res matches Ok(x) && x@.map_values(|w: MvcView| w@) == v && final(r)@ == s2,
            Err(e) => res == Err::<Vec<MvcView>, SpsError>(e),
        },
{
    let num_views_minus1 = match r.read_ue("num_views_minus1") {
        Ok(v) => v,
        Err(e) => return Err(SpsError::RbspReaderError(e)),
    };
    if num_views_minus1 > 1023 {
        return Err(SpsError::FieldValueTooLarge { name: "num_views_minus1", value: num_views_minus1 });
    }
    let ghost s1 = r@;
    let view_ids = read_ue_list(r, num_views_minus1 + 1, "view_id", 1023)?;
    let ghost s2 = r@;
    let (anchor_l0, anchor_l1) = read_views_refs(r, num_views_minus1, true)?;
    let ghost s3 = r@;
    let (non_anchor_l0, non_anchor_l1) = read_views_refs(r, num_views_minus1, false)?;
    proof {
        lemma_ue_list_len(s1, (num_views_minus1 + 1) as nat, "view_id", 1023);
        lemma_views_refs_len(s2, num_views_minus1 as nat, true);
        lemma_views_refs_len(s3, num_views_minus1 as nat, false);
    }
    Ok(assemble_views(&view_ids, &anchor_l0, &anchor_l1, &non_anchor_l0, &non_anchor_l1))
}

fn read_mvc_level_values(r: &mut BitReader) -> (res: Result<Vec<MvcLevelValue>, SpsError>)
    ensures
        match spec_mvc_level_part(old(r)@) {
            Ok((v, s2)) => res matches Ok(x) && x@.map_values(|l: MvcLevelValue| l@) == v && final(r)@ == s2,
            Err(e) => res == Err::<Vec<MvcLevelValue>, SpsError>(e),
        },
{
    let num_level_values_signalled_minus1 = match r.read_ue("num_level_values_signalled_minus1") {
        Ok(v) => v,
        Err(e) => return Err(SpsError::RbspReaderError(e)),
    };
    if num_level_values_signalled_minus1 > 63 {
        return Err(SpsError::FieldValueTooLarge {
            name: "num_level_values_signalled_minus1",
            value: num_level_values_signalled_minus1,
        });
    }
    read_level_values(r, num_level_values_signalled_minus1 + 1)
}

fn read_mvc_extension(r: &mut BitReader) -> (res: Result<MvcSpsExtension, SpsError>)
    ensures
        match spec_mvc_extension(old(r)@) {
            Ok((v, s2)) => res matches Ok(x) && x@ == v && final(r)@ == s2,
            Err(e) => res == Err::<MvcSpsExtension, SpsError>(e),
        },
{
    let views = read_mvc_views(r)?;
    let level_values = read_mvc_level_values(r)?;
    Ok(MvcSpsExtension { views, level_values })
}

/// `ChromaArrayType` of the SPS chroma information.
pub open spec fn spec_chroma_array_type(ci: ChromaInfoView) -> u8 {
    if ci.separate_colour_plane_flag { 0 } else { spec_chroma_format_idc(ci.chroma_format) as u8 }
}

/// The default chroma phase when it is not signalled.
pub open spec fn default_chroma_phase_y(cat: u8) -> u8 {
    if cat == 0 { 0 } else { 1 }
}

/// A flag, with the SPS error for a failed read.
pub open spec fn spec_sps_flag(s: BitStream, name: &'static str) -> Result<(bool, BitStream), SpsError> {
    match spec_read_bit(s, name) {
        Err(e) => Err(SpsError::RbspReaderError(e)),
        Ok((b, s1)) => Ok((b, s1)),
    }
}

/// A 2-bit field, with the SPS error for a failed read.
pub open spec fn spec_sps_u2(s: BitStream, name: &'static str) -> Result<(u8, BitStream), SpsError> {
    match spec_read_bits(s, 2) {
        None => Err(SpsError::RbspReaderError(crate::rbsp::BitReaderError::ReaderError(name, s.end))),
        Some((v, s1)) => Ok((v as u8, s1)),
    }
}

/// A signed Exp-Golomb value, with the SPS error for a failed read.
pub open spec fn spec_sps_se(s: BitStream, name: &'static str) -> Result<(i32, BitStream), SpsError> {
    match spec_read_se(s, name) {
        Err(e) => Err(SpsError::RbspReaderError(e)),
        Ok((v, s1)) => Ok((v, s1)),
    }
}

/// The chroma phase fields: the x flag for chroma array types 1 and 2, the y value for type 1.
pub open spec fn spec_chroma_phase(s: BitStream, cat: u8, xname: &'static str, yname: &'static str) -> Result<((bool, u8), BitStream), SpsError> {
    let x = if cat == 1 || cat == 2 { spec_sps_flag(s, xname) } else { Ok((false, s)) };
    match x {
        Err(e) => Err(e),
        Ok((xf, s1)) => if cat == 1 {
            match spec_sps_u2(s1, yname) {
                Err(e) => Err(e),
                Ok((y, s2)) => Ok(((xf, y), s2)),
            }
        } else {
            Ok(((xf, default_chroma_phase_y(cat)), s1))
        },
    }
}

/// The scaled reference layer offsets and chroma phases, signalled when
/// `extended_spatial_scalability_idc == 1`.
pub open spec fn spec_ref_layer(s: BitStream, cat: u8, ess: u8) -> Result<((bool, u8, i32, i32, i32, i32), BitStream), SpsError> {
    if ess != 1 {
        Ok(((false, default_chroma_phase_y(cat), 0, 0, 0, 0), s))
    } else {
        match spec_chroma_phase(s, cat, "seq_ref_layer_chroma_phase_x_plus1_flag", "seq_ref_layer_chroma_phase_y_plus1") {
            Err(e) => Err(e),
            Ok(((x, y), s1)) => match spec_sps_se(s1, "seq_scaled_ref_layer_left_offset") {
                Err(e) => Err(e),
                Ok((l, s2)) => match spec_sps_se(s2, "seq_scaled_ref_layer_top_offset") {
                    Err(e) => Err(e),
                    Ok((t, s3)) => match spec_sps_se(s3, "seq_scaled_ref_layer_right_offset") {
                        Err(e) => Err(e),
                        Ok((rr, s4)) => match spec_sps_se(s4, "seq_scaled_ref_layer_bottom_offset") {
                            Err(e) => Err(e),
                            Ok((b, s5)) => Ok(((x, y, l, t, rr, b), s5)),
                        },
                    },
                },
            },
        }
    }
}

/// The trailing flags of the SVC extension.
pub open spec fn spec_svc_tail(s: BitStream) -> Result<((bool, bool, bool, bool), BitStream), SpsError> {
    match spec_sps_flag(s, "seq_tcoeff_level_prediction_flag") {
        Err(e) => Err(e),
        Ok((tc, s1)) => {
            let a = if tc { spec_sps_flag(s1, "adaptive_tcoeff_level_prediction_flag") } else { Ok((false, s1)) };
            match a {
                Err(e) => Err(e),
                Ok((ad, s2)) => match spec_sps_flag(s2, "slice_header_restriction_flag") {
                    Err(e) => Err(e),
                    Ok((sh, s3)) => match spec_sps_flag(s3, "svc_vui_parameters_present_flag") {
                        Err(e) => Err(e),
                        Ok((vui, s4)) => Ok(((tc, ad, sh, vui), s4)),
                    },
                },
            }
        },
    }
}

/// `seq_parameter_set_svc_extension()` (F.7.3.2.1.4) for an SPS with the given chroma
/// array type.
pub open spec fn spec_svc_extension(s: BitStream, cat: u8) -> Result<(SvcSpsExtension, BitStream), SpsError> {
    match spec_sps_flag(s, "inter_layer_deblocking_filter_control_present_flag") {
        Err(e) => Err(e),
        Ok((il, s1)) => match spec_sps_u2(s1, "extended_spatial_scalability_idc") {
            Err(e) => Err(e),
            Ok((ess, s2)) => match spec_chroma_phase(s2, cat, "chroma_phase_x_plus1_flag", "chroma_phase_y_plus1") {
                Err(e) => Err(e),
                Ok(((px, py), s3)) => match spec_ref_layer(s3, cat, ess) {
                    Err(e) => Err(e),
                    Ok(((rx, ry, l, t, rr, b), s4)) => match spec_svc_tail(s4) {
                        Err(e) => Err(e),
                        Ok(((tc, ad, sh, vui), s5)) => Ok((
                            SvcSpsExtension {
                                inter_layer_deblocking_filter_control_present_flag: il,
                                extended_spatial_scalability_idc: ess,
                                chroma_phase_x_plus1_flag: px,
                                chroma_phase_y_plus1: py,
                                seq_ref_layer_chroma_phase_x_plus1_flag: rx,
                                seq_ref_layer_chroma_phase_y_plus1: ry,
                                seq_scaled_ref_layer_left_offset: l,
                                seq_scaled_ref_layer_top_offset: t,
                                seq_scaled_ref_layer_right_offset: rr,
                                seq_scaled_ref_layer_bottom_offset: b,
                                seq_tcoeff_level_prediction_flag: tc,
                                adaptive_tcoeff_level_prediction_flag: ad,
                                slice_header_restriction_flag: sh,
                                svc_vui_parameters_present_flag: vui,
                            },
                            s5,
                        )),
                    },
                },
            },
        },
    }
}

fn read_flag(r: &mut BitReader, name: &'static str) -> (res: Result<bool, SpsError>)
    ensures
        match spec_sps_flag(old(r)@, name) {
            Ok((v, s2)) => res == Ok::<bool, SpsError>(v) && final(r)@ == s2,
            Err(e) => res == Err::<bool, SpsError>(e),
        },
{
    match r.read_bit(name) {
        Ok(v) => Ok(v),
        Err(e) => Err(SpsError::RbspReaderError(e)),
    }
}

fn read_u2(r: &mut BitReader, name: &'static str) -> (res: Result<u8, SpsError>)
    ensures
        match spec_sps_u2(old(r)@, name) {
            Ok((v, s2)) => res == Ok::<u8, SpsError>(v) && final(r)@ == s2,
            Err(e) => res == Err::<u8, SpsError>(e),
        },
{
    match r.read::<2, u8>(name) {
        Ok(v) => Ok(v),
        Err(e) => Err(SpsError::RbspReaderError(e)),
    }
}

fn read_se(r: &mut BitReader, name: &'static str) -> (res: Result<i32, SpsError>)
    ensures
        match spec_sps_se(old(r)@, name) {
            Ok((v, s2)) => res == Ok::<i32, SpsError>(v) && final(r)@ == s2,
            Err(e) => res == Err::<i32, SpsError>(e),
        },
{
    match r.read_se(name) {
        Ok(v) => Ok(v),
        Err(e) => Err(SpsError::RbspReaderError(e)),
    }
}

fn read_chroma_phase(r: &mut BitReader, cat: u8, xname: &'static str, yname: &'static str) -> (res: Result<(bool, u8), SpsError>)
    ensures
        match spec_chroma_phase(old(r)@, cat, xname, yname) {
            Ok((v, s2)) => res == Ok::<(bool, u8), SpsError>(v) && final(r)@ == s2,
            Err(e) => res == Err::<(bool, u8), SpsError>(e),
        },
{
    let x = if cat == 1 || cat == 2 { read_flag(r, xname)? } else { false };
    let y = if cat == 1 {
        read_u2(r, yname)?
    } else if cat == 0 {
        0
    } else {
        1
    };
    Ok((x, y))
}

fn read_svc_extension(r: &mut BitReader, sps: &SeqParameterSet) -> (res: Result<SvcSpsExtension, SpsError>)
    ensures
        match spec_svc_extension(old(r)@, spec_chroma_array_type(sps@.chroma_info)) {
            Ok((v, s2)) => res == Ok::<SvcSpsExtension, SpsError>(v) && final(r)@ == s2,
            Err(e) => res == Err::<SvcSpsExtension, SpsError>(e),
        },
{
    let inter_layer_deblocking_filter_control_present_flag = read_flag(r, "inter_layer_deblocking_filter_control_present_flag")?;
    let extended_spatial_scalability_idc = read_u2(r, "extended_spatial_scalability_idc")?;
    let chroma_array_type = sps.chroma_info.chroma_array_type();
    let (chroma_phase_x_plus1_flag, chroma_phase_y_plus1) = read_chroma_phase(
        r,
        chroma_array_type,
        "chroma_phase_x_plus1_flag",
        "chroma_phase_y_plus1",
    )?;
    let (
        seq_ref_layer_chroma_phase_x_plus1_flag,
        seq_ref_layer_chroma_phase_y_plus1,
        seq_scaled_ref_layer_left_offset,
        seq_scaled_ref_layer_top_offset,
        seq_scaled_ref_layer_right_offset,
        seq_scaled_ref_layer_bottom_offset,
    ) = if extended_spatial_scalability_idc == 1 {
        let (x, y) = read_chroma_phase(
            r,
            chroma_array_type,
            "seq_ref_layer_chroma_phase_x_plus1_flag",
            "seq_ref_layer_chroma_phase_y_plus1",
        )?;
        let left = read_se(r, "seq_scaled_ref_layer_left_offset")?;
        let top = read_se(r, "seq_scaled_ref_layer_top_offset")?;
        let right = read_se(r, "seq_scaled_ref_layer_right_offset")?;
        let bottom = read_se(r, "seq_scaled_ref_layer_bottom_offset")?;
        (x, y, left, top, right, bottom)
    } else {
        (false, if chroma_array_type == 0 { 0u8 } else { 1u8 }, 0i32, 0i32, 0i32, 0i32)
    };
    let seq_tcoeff_level_prediction_flag = read_flag(r, "seq_tcoeff_level_prediction_flag")?;
    let adaptive_tcoeff_level_prediction_flag = if seq_tcoeff_level_prediction_flag {
        read_flag(r, "adaptive_tcoeff_level_prediction_flag")?
    } else {
        false
    };
    let slice_header_restriction_flag = read_flag(r, "slice_header_restriction_flag")?;
    let svc_vui_parameters_present_flag = read_flag(r, "svc_vui_parameters_present_flag")?;
    Ok(SvcSpsExtension {
        inter_layer_deblocking_filter_control_present_flag,
        extended_spatial_scalability_idc,
        chroma_phase_x_plus1_flag,
        chroma_phase_y_plus1,
        seq_ref_layer_chroma_phase_x_plus1_flag,
        seq_ref_layer_chroma_phase_y_plus1,
        seq_scaled_ref_layer_left_offset,
        seq_scaled_ref_layer_top_offset,
        seq_scaled_ref_layer_right_offset,
        seq_scaled_ref_layer_bottom_offset,
        seq_tcoeff_level_prediction_flag,
        adaptive_tcoeff_level_prediction_flag,
        slice_header_restriction_flag,
        svc_vui_parameters_present_flag,
    })
}

/// The profile-dependent extension of a subset SPS and whether unparsed VUI data follows it.
pub open spec fn spec_subset_extension(s: BitStream, sps: SeqParameterSetView) -> Result<((Option<SubsetSpsExtensionView>, bool), BitStream), SpsError> {
    let p = sps.profile_idc;
    if p == 83 || p == 86 {
        match spec_sps_flag(s, "bit_equal_to_one") {
            Err(e) => Err(e),
            Ok((_, s1)) => match spec_svc_extension(s1, spec_chroma_array_type(sps.chroma_info)) {
                Err(e) => Err(e),
                Ok((ext, s2)) => Ok(((Some(SubsetSpsExtensionView::Svc(ext)), ext.svc_vui_parameters_present_flag), s2)),
            },
        }
    } else if p == 118 || p == 128 || p == 134 {
        match spec_sps_flag(s, "bit_equal_to_one") {
            Err(e) => Err(e),
            Ok((_, s1)) => match spec_mvc_extension(s1) {
                Err(e) => Err(e),
                Ok((ext, s2)) => match spec_sps_flag(s2, "mvc_vui_parameters_present_flag") {
                    Err(e) => Err(e),
                    Ok((vui, s3)) => Ok((
                        (Some(SubsetSpsExtensionView::Mvc { ext, mvc_vui_parameters_present_flag: vui }), vui),
                        s3,
                    )),
                },
            },
        }
    } else if p == 135 || p == 138 || p == 139 {
        match spec_sps_flag(s, "bit_equal_to_one") {
            Err(e) => Err(e),
            Ok((_, s1)) => Ok(((Some(SubsetSpsExtensionView::Mvcd), true), s1)),
        }
    } else {
        Ok(((None, false), s))
    }
}

/// `subset_seq_parameter_set_rbsp()`.
pub open spec fn spec_subset_sps(s: BitStream) -> Result<SubsetSpsView, SpsError> {
    match spec_seq_parameter_set_data(s) {
        Err(e) => Err(e),
        Ok((sps, s1)) => match spec_subset_extension(s1, sps) {
            Err(e) => Err(e),
            Ok(((extension, has_unparsed_vui), s2)) => if has_unparsed_vui {
                Ok(SubsetSpsView { sps, extension, additional_extension2_flag: false })
            } else {
                match spec_sps_flag(s2, "additional_extension2_flag") {
                    Err(e) => Err(e),
                    Ok((flag, s3)) => match spec_finish_rbsp(s3) {
                        Err(e) => Err(SpsError::RbspReaderError(e)),
                        Ok(()) => Ok(SubsetSpsView { sps, extension, additional_extension2_flag: flag }),
                    },
                }
            },
        },
    }
}

fn read_subset_extension(r: &mut BitReader, sps: &SeqParameterSet) -> (res: Result<(Option<SubsetSpsExtension>, bool), SpsError>)
    ensures
        match spec_subset_extension(old(r)@, sps@) {
            Ok(((e, vui), s2)) => res matches Ok((x, v)) && v == vui && final(r)@ == s2 && match x {
                Some(y) => e == Some(y@),
                None => e is None,
            },
            Err(err) => res == Err::<(Option<SubsetSpsExtension>, bool), SpsError>(err),
        },
{
    let profile_idc: u8 = sps.profile_idc.value();
    if profile_idc == 83 || profile_idc == 86 {
        // bit_equal_to_one f(1) per spec F.7.3.2.1.3
        let _bit_equal_to_one = read_flag(r, "bit_equal_to_one")?;
        let ext = read_svc_extension(r, sps)?;
        let has_vui = ext.svc_vui_parameters_present_flag;
        Ok((Some(SubsetSpsExtension::Svc(ext)), has_vui))
    } else if profile_idc == 118 || profile_idc == 128 || profile_idc == 134 {
        // bit_equal_to_one f(1) per spec G.7.3.2.1.3
        let _bit_equal_to_one = read_flag(r, "bit_equal_to_one")?;
        let ext = read_mvc_extension(r)?;
        let mvc_vui_parameters_present_flag = read_flag(r, "mvc_vui_parameters_present_flag")?;
        Ok((Some(SubsetSpsExtension::Mvc { ext, mvc_vui_parameters_present_flag }), mvc_vui_parameters_present_flag))
    } else if profile_idc == 135 || profile_idc == 138 || profile_idc == 139 {
        // bit_equal_to_one f(1) per spec I.7.3.2.1.3
        let _bit_equal_to_one = read_flag(r, "bit_equal_to_one")?;
        // MVCD extension: parsing deferred, the remaining data is skipped.
        Ok((Some(SubsetSpsExtension::Mvcd), true))
    } else {
        Ok((None, false))
    }
}

impl SubsetSps {
    pub fn from_bits(r: BitReader) -> (res: Result<SubsetSps, SpsError>)
        ensures
            match spec_subset_sps(r@) {
                Ok(v) => res matches Ok(x) && x@ == v,
                Err(e) => res == Err::<SubsetSps, SpsError>(e),
            },
    {
        let mut r = r;
        let sps = SeqParameterSet::read_seq_parameter_set_data(&mut r)?;
        let (extension, has_unparsed_vui) = read_subset_extension(&mut r, &sps)?;
        let additional_extension2_flag = if has_unparsed_vui {
            // VUI extension data follows but is not parsed; finish_rbsp() validation is skipped.
            false
        } else {
            let flag = read_flag(&mut r, "additional_extension2_flag")?;
            match r.finish_rbsp() {
                Ok(()) => {},
                Err(e) => return Err(SpsError::RbspReaderError(e)),
            }
            flag
        };
        Ok(SubsetSps { sps, extension, additional_extension2_flag })
    }
}

} // verus!

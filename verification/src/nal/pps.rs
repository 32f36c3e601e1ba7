//! Picture parameter set (spec 7.3.2.2).

use vstd::prelude::*;
use crate::nal::sps::{spec_read_u8, spec_scaling_list, ChromaFormat, ScalingMatrixError, SeqParamSetId, SeqParamSetIdError};
use crate::rbsp::{lemma_read_bit_written, lemma_read_se_bits, lemma_read_ue_bits, lemma_read_value, lemma_reads_split, lemma_value_bits_len, reads, se_bits, ue_bits, value_bits};
use crate::rbsp::{parsed, spec_has_more_rbsp_data, spec_read_bit, spec_read_bits, spec_read_se, spec_read_ue, BitReader, BitReaderError, BitStream};
use crate::{slot_value, Context};

verus! {

#[derive(Debug, Clone, Copy, PartialEq, Eq)]
pub enum PpsError {
    RbspReaderError(BitReaderError),
    InvalidSliceGroupMapType(u32),
    InvalidNumSliceGroupsMinus1(u32),
    InvalidNumRefIdx(&'static str, u32),
    InvalidSliceGroupChangeType(u32),
    UnknownSeqParamSetId(SeqParamSetId),
    BadPicParamSetId(PicParamSetIdError),
    BadSeqParamSetId(SeqParamSetIdError),
    ScalingMatrix(ScalingMatrixError),
}

#[derive(Debug, Clone, Copy, PartialEq, Eq, Structural)]
pub enum SliceGroupChangeType {
    BoxOut,
    RasterScan,
    WipeOut,
}

/// The change type for `slice_group_map_type` `3..=5`.
pub open spec fn spec_slice_group_change_type(id: u32) -> Result<SliceGroupChangeType, PpsError> {
    if id == 3 {
        Ok(SliceGroupChangeType::BoxOut)
    } else if id == 4 {
        Ok(SliceGroupChangeType::RasterScan)
    } else if id == 5 {
        Ok(SliceGroupChangeType::WipeOut)
    } else {
        Err(PpsError::InvalidSliceGroupChangeType(id))
    }
}

impl SliceGroupChangeType {
    fn from_id(id: u32) -> (r: Result<SliceGroupChangeType, PpsError>)
        ensures
            r == spec_slice_group_change_type(id),
    {
        match id {
            3 => Ok(SliceGroupChangeType::BoxOut),
            4 => Ok(SliceGroupChangeType::RasterScan),
            5 => Ok(SliceGroupChangeType::WipeOut),
            _ => Err(PpsError::InvalidSliceGroupChangeType(id)),
        }
    }
}

#[derive(Debug, Clone, Copy, PartialEq, Eq, Structural)]
pub struct SliceRect {
    top_left: u32,
    bottom_right: u32,
}

impl SliceRect {
    /// `(top_left, bottom_right)`.
    pub closed spec fn corners(self) -> (u32, u32) {
        (self.top_left, self.bottom_right)
    }
}

/// One foreground rectangle: `top_left` and `bottom_right`.
pub open spec fn spec_slice_rect(s: BitStream) -> Result<((u32, u32), BitStream), PpsError> {
    match spec_read_ue(s, "top_left") {
        Err(e) => Err(PpsError::RbspReaderError(e)),
        Ok((t, s1)) => match spec_read_ue(s1, "bottom_right") {
            Err(e) => Err(PpsError::RbspReaderError(e)),
            Ok((b, s2)) => Ok(((t, b), s2)),
        },
    }
}

impl SliceRect {
    fn read(r: &mut BitReader) -> (res: Result<SliceRect, PpsError>)
        ensures
            match spec_slice_rect(old(r)@) {
                Ok((v, s2)) => res matches Ok(x) && x.corners() == v && final(r)@ == s2,
                Err(e) => res == Err::<SliceRect, PpsError>(e),
            },
    {
        let top_left = match r.read_ue("top_left") {
            Ok(v) => v,
            Err(e) => return Err(PpsError::RbspReaderError(e)),
        };
        let bottom_right = match r.read_ue("bottom_right") {
            Ok(v) => v,
            Err(e) => return Err(PpsError::RbspReaderError(e)),
        };
        Ok(SliceRect { top_left, bottom_right })
    }
}

#[derive(Debug, Clone, PartialEq, Eq)]
pub enum SliceGroup {
    Interleaved { run_length_minus1: Vec<u32> },
    Dispersed { num_slice_groups_minus1: u32 },
    ForegroundAndLeftover { rectangles: Vec<SliceRect> },
    Changing {
        change_type: SliceGroupChangeType,
        num_slice_groups_minus1: u32,
        slice_group_change_direction_flag: bool,
        slice_group_change_rate_minus1: u32,
    },
    ExplicitAssignment { num_slice_groups_minus1: u32, slice_group_id: Vec<u32> },
}

/// The values of a [`SliceGroup`]; rectangles as `(top_left, bottom_right)`.
pub ghost enum SliceGroupView {
    Interleaved { run_length_minus1: Seq<u32> },
    Dispersed { num_slice_groups_minus1: u32 },
    ForegroundAndLeftover { rectangles: Seq<(u32, u32)> },
    Changing {
        change_type: SliceGroupChangeType,
        num_slice_groups_minus1: u32,
        slice_group_change_direction_flag: bool,
        slice_group_change_rate_minus1: u32,
    },
    ExplicitAssignment { num_slice_groups_minus1: u32, slice_group_id: Seq<u32> },
}

impl View for SliceGroup {
    type V = SliceGroupView;

    open spec fn view(&self) -> SliceGroupView {
        match self {
            SliceGroup::Interleaved { run_length_minus1 } => SliceGroupView::Interleaved { run_length_minus1: run_length_minus1@ },
            SliceGroup::Dispersed { num_slice_groups_minus1 } => SliceGroupView::Dispersed { num_slice_groups_minus1: *num_slice_groups_minus1 },
            SliceGroup::ForegroundAndLeftover { rectangles } => SliceGroupView::ForegroundAndLeftover {
                rectangles: rectangles@.map_values(|r: SliceRect| r.corners()),
            },
            SliceGroup::Changing {
                change_type,
                num_slice_groups_minus1,
                slice_group_change_direction_flag,
                slice_group_change_rate_minus1,
            } => SliceGroupView::Changing {
                change_type: *change_type,
                num_slice_groups_minus1: *num_slice_groups_minus1,
                slice_group_change_direction_flag: *slice_group_change_direction_flag,
                slice_group_change_rate_minus1: *slice_group_change_rate_minus1,
            },
            SliceGroup::ExplicitAssignment { num_slice_groups_minus1, slice_group_id } => SliceGroupView::ExplicitAssignment {
                num_slice_groups_minus1: *num_slice_groups_minus1,
                slice_group_id: slice_group_id@,
            },
        }
    }
}

/// `n` values of `ue(v)` named `name`.
pub open spec fn spec_ue_list(s: BitStream, name: &'static str, n: nat) -> Result<(Seq<u32>, BitStream), PpsError>
    decreases n,
{
    if n == 0 {
        Ok((Seq::empty(), s))
    } else {
        match spec_ue_list(s, name, (n - 1) as nat) {
            Err(e) => Err(e),
            Ok((v, s1)) => match spec_read_ue(s1, name) {
                Err(e) => Err(PpsError::RbspReaderError(e)),
                Ok((x, s2)) => Ok((v.push(x), s2)),
            },
        }
    }
}

/// `n` foreground rectangles.
pub open spec fn spec_rect_list(s: BitStream, n: nat) -> Result<(Seq<(u32, u32)>, BitStream), PpsError>
    decreases n,
{
    if n == 0 {
        Ok((Seq::empty(), s))
    } else {
        match spec_rect_list(s, (n - 1) as nat) {
            Err(e) => Err(e),
            Ok((v, s1)) => match spec_slice_rect(s1) {
                Err(e) => Err(e),
                Ok((x, s2)) => Ok((v.push(x), s2)),
            },
        }
    }
}

/// `n` fields of `bits` bits named `slice_group_id`.
pub open spec fn spec_group_id_list(s: BitStream, bits: nat, n: nat) -> Result<(Seq<u32>, BitStream), PpsError>
    decreases n,
{
    if n == 0 {
        Ok((Seq::empty(), s))
    } else {
        match spec_group_id_list(s, bits, (n - 1) as nat) {
            Err(e) => Err(e),
            Ok((v, s1)) => match spec_read_bits(s1, bits) {
                None => Err(PpsError::RbspReaderError(BitReaderError::ReaderError("slice_group_id", s1.end))),
                Some((x, s2)) => Ok((v.push(x as u32), s2)),
            },
        }
    }
}

proof fn lemma_ue_list_err(s: BitStream, name: &'static str, k: nat, n: nat)
    requires
        k <= n,
        spec_ue_list(s, name, k) is Err,
    ensures
        spec_ue_list(s, name, n) == spec_ue_list(s, name, k),
    decreases n,
{
    if n > k {
        lemma_ue_list_err(s, name, k, (n - 1) as nat);
    }
}

proof fn lemma_rect_list_err(s: BitStream, k: nat, n: nat)
    requires
        k <= n,
        spec_rect_list(s, k) is Err,
    ensures
        spec_rect_list(s, n) == spec_rect_list(s, k),
    decreases n,
{
    if n > k {
        lemma_rect_list_err(s, k, (n - 1) as nat);
    }
}

proof fn lemma_group_id_list_err(s: BitStream, bits: nat, k: nat, n: nat)
    requires
        k <= n,
        spec_group_id_list(s, bits, k) is Err,
    ensures
        spec_group_id_list(s, bits, n) == spec_group_id_list(s, bits, k),
    decreases n,
{
    if n > k {
        lemma_group_id_list_err(s, bits, k, (n - 1) as nat);
    }
}

/// `Ceil( Log2( num_slice_groups_minus1 + 1 ) )`, the size of `slice_group_id`, for up to 8
/// slice groups.
pub open spec fn slice_group_id_bits(num_slice_groups_minus1: u32) -> u32 {
    if num_slice_groups_minus1 == 0 {
        0
    } else if num_slice_groups_minus1 == 1 {
        1
    } else if num_slice_groups_minus1 <= 3 {
        2
    } else {
        3
    }
}

/// The slice group map after `num_slice_groups_minus1` (7.3.2.2).
pub open spec fn spec_slice_group(s: BitStream, n: u32) -> Result<(SliceGroupView, BitStream), PpsError> {
    match spec_read_ue(s, "slice_group_map_type") {
        Err(e) => Err(PpsError::RbspReaderError(e)),
        Ok((t, s1)) => if t == 0 {
            match spec_ue_list(s1, "run_length_minus1", (n + 1) as nat) {
                Err(e) => Err(e),
                Ok((v, s2)) => Ok((SliceGroupView::Interleaved { run_length_minus1: v }, s2)),
            }
        } else if t == 1 {
            Ok((SliceGroupView::Dispersed { num_slice_groups_minus1: n }, s1))
        } else if t == 2 {
            match spec_rect_list(s1, n as nat) {
                Err(e) => Err(e),
                Ok((v, s2)) => Ok((SliceGroupView::ForegroundAndLeftover { rectangles: v }, s2)),
            }
        } else if 3 <= t <= 5 {
            match spec_slice_group_change_type(t) {
                Err(e) => Err(e),
                Ok(ct) => match spec_read_bit(s1, "slice_group_change_direction_flag") {
                    Err(e) => Err(PpsError::RbspReaderError(e)),
                    Ok((d, s2)) => match spec_read_ue(s2, "slice_group_change_rate_minus1") {
                        Err(e) => Err(PpsError::RbspReaderError(e)),
                        Ok((rate, s3)) => Ok((
                            SliceGroupView::Changing {
                                change_type: ct,
                                num_slice_groups_minus1: n,
                                slice_group_change_direction_flag: d,
                                slice_group_change_rate_minus1: rate,
                            },
                            s3,
                        )),
                    },
                },
            }
        } else if t == 6 {
            match spec_read_ue(s1, "pic_size_in_map_units_minus1") {
                Err(e) => Err(PpsError::RbspReaderError(e)),
                Ok((size, s2)) => match spec_group_id_list(s2, slice_group_id_bits(n) as nat, (size + 1) as nat) {
                    Err(e) => Err(e),
                    Ok((ids, s3)) => Ok((SliceGroupView::ExplicitAssignment { num_slice_groups_minus1: n, slice_group_id: ids }, s3)),
                },
            }
        } else {
            Err(PpsError::InvalidSliceGroupMapType(t))
        },
    }
}

impl SliceGroup {
    fn read(r: &mut BitReader, num_slice_groups_minus1: u32) -> (res: Result<SliceGroup, PpsError>)
        requires
            num_slice_groups_minus1 <= 7,
        ensures
            match spec_slice_group(old(r)@, num_slice_groups_minus1) {
                Ok((v, s2)) => res matches Ok(g) && g@ == v && final(r)@ == s2,
                Err(e) => res == Err::<SliceGroup, PpsError>(e),
            },
    {
        let slice_group_map_type = match r.read_ue("slice_group_map_type") {
            Ok(v) => v,
            Err(e) => return Err(PpsError::RbspReaderError(e)),
        };
        match slice_group_map_type {
            0 => match Self::read_run_lengths(r, num_slice_groups_minus1) {
                Ok(v) => Ok(SliceGroup::Interleaved { run_length_minus1: v }),
                Err(e) => Err(e),
            },
            1 => Ok(SliceGroup::Dispersed { num_slice_groups_minus1 }),
            2 => match Self::read_rectangles(r, num_slice_groups_minus1) {
                Ok(v) => Ok(SliceGroup::ForegroundAndLeftover { rectangles: v }),
                Err(e) => Err(e),
            },
            3 | 4 | 5 => {
                let change_type = match SliceGroupChangeType::from_id(slice_group_map_type) {
                    Ok(v) => v,
                    Err(e) => return Err(e),
                };
                let slice_group_change_direction_flag = match r.read_bit("slice_group_change_direction_flag") {
                    Ok(v) => v,
                    Err(e) => return Err(PpsError::RbspReaderError(e)),
                };
                let slice_group_change_rate_minus1 = match r.read_ue("slice_group_change_rate_minus1") {
                    Ok(v) => v,
                    Err(e) => return Err(PpsError::RbspReaderError(e)),
                };
                Ok(SliceGroup::Changing {
                    change_type,
                    num_slice_groups_minus1,
                    slice_group_change_direction_flag,
                    slice_group_change_rate_minus1,
                })
            },
            6 => match Self::read_group_ids(r, num_slice_groups_minus1) {
                Ok(v) => Ok(SliceGroup::ExplicitAssignment { num_slice_groups_minus1, slice_group_id: v }),
                Err(e) => Err(e),
            },
            _ => Err(PpsError::InvalidSliceGroupMapType(slice_group_map_type)),
        }
    }

    fn read_run_lengths(r: &mut BitReader, num_slice_groups_minus1: u32) -> (res: Result<Vec<u32>, PpsError>)
        requires
            num_slice_groups_minus1 <= 7,
        ensures
            match spec_ue_list(old(r)@, "run_length_minus1", (num_slice_groups_minus1 + 1) as nat) {
                Ok((v, s2)) => res matches Ok(w) && w@ == v && final(r)@ == s2,
                Err(e) => res == Err::<Vec<u32>, PpsError>(e),
            },
    {
        let ghost start = r@;
        let n = num_slice_groups_minus1 + 1;
        let mut run_length_minus1: Vec<u32> = Vec::new();
        let mut i: u32 = 0;
        while i < n
            invariant
                start == old(r)@,
                i <= n,
                n == num_slice_groups_minus1 + 1,
                spec_ue_list(start, "run_length_minus1", i as nat) == Ok::<(Seq<u32>, BitStream), PpsError>((run_length_minus1@, r@)),
            decreases n - i,
        {
            let x = match r.read_ue("run_length_minus1") {
                Ok(v) => v,
                Err(e) => {
                    proof { lemma_ue_list_err(start, "run_length_minus1", (i + 1) as nat, n as nat); }
                    return Err(PpsError::RbspReaderError(e));
                },
            };
            run_length_minus1.push(x);
            i = i + 1;
        }
        Ok(run_length_minus1)
    }

    fn read_rectangles(r: &mut BitReader, num_slice_groups_minus1: u32) -> (res: Result<Vec<SliceRect>, PpsError>)
        requires
            num_slice_groups_minus1 <= 7,
        ensures
            match spec_rect_list(old(r)@, num_slice_groups_minus1 as nat) {
                Ok((v, s2)) => res matches Ok(w) && w@.map_values(|x: SliceRect| x.corners()) == v && final(r)@ == s2,
                Err(e) => res == Err::<Vec<SliceRect>, PpsError>(e),
            },
    {
        let ghost start = r@;
        let n = num_slice_groups_minus1;
        let mut rects: Vec<SliceRect> = Vec::new();
        let mut i: u32 = 0;
        assert(rects@.map_values(|x: SliceRect| x.corners()) =~= Seq::<(u32, u32)>::empty());
        while i < n
            invariant
                start == old(r)@,
                i <= n,
                n == num_slice_groups_minus1,
                spec_rect_list(start, i as nat) == Ok::<(Seq<(u32, u32)>, BitStream), PpsError>((rects@.map_values(|x: SliceRect| x.corners()), r@)),
            decreases n - i,
        {
            let x = match SliceRect::read(r) {
                Ok(v) => v,
                Err(e) => {
                    proof { lemma_rect_list_err(start, (i + 1) as nat, n as nat); }
                    return Err(e);
                },
            };
            let ghost prev = rects@;
            rects.push(x);
            assert(rects@.map_values(|x: SliceRect| x.corners()) =~= prev.map_values(|x: SliceRect| x.corners()).push(x.corners()));
            i = i + 1;
        }
        Ok(rects)
    }

    fn read_group_ids(r: &mut BitReader, num_slice_groups_minus1: u32) -> (res: Result<Vec<u32>, PpsError>)
        requires
            num_slice_groups_minus1 <= 7,
        ensures
            match spec_read_ue(old(r)@, "pic_size_in_map_units_minus1") {
                Err(e) => res == Err::<Vec<u32>, PpsError>(PpsError::RbspReaderError(e)),
                Ok((size, s1)) => match spec_group_id_list(s1, slice_group_id_bits(num_slice_groups_minus1) as nat, (size + 1) as nat) {
                    Ok((v, s2)) => res matches Ok(w) && w@ == v && final(r)@ == s2,
                    Err(e) => res == Err::<Vec<u32>, PpsError>(e),
                },
            },
    {
        let pic_size_in_map_units_minus1 = match r.read_ue("pic_size_in_map_units_minus1") {
            Ok(v) => v,
            Err(e) => return Err(PpsError::RbspReaderError(e)),
        };
        let ghost start = r@;
        // Ceil(Log2(num_slice_groups_minus1 + 1))
        let size: u32 = if num_slice_groups_minus1 == 0 {
            0
        } else if num_slice_groups_minus1 == 1 {
            1
        } else if num_slice_groups_minus1 <= 3 {
            2
        } else {
            3
        };
        let n: u64 = pic_size_in_map_units_minus1 as u64 + 1;
        let mut ids: Vec<u32> = Vec::new();
        let mut i: u64 = 0;
        while i < n
            invariant
                spec_read_ue(old(r)@, "pic_size_in_map_units_minus1") == Ok::<(u32, BitStream), BitReaderError>((pic_size_in_map_units_minus1, start)),
                n == pic_size_in_map_units_minus1 + 1,
                size == slice_group_id_bits(num_slice_groups_minus1),
                i <= n,
                spec_group_id_list(start, size as nat, i as nat) == Ok::<(Seq<u32>, BitStream), PpsError>((ids@, r@)),
            decreases n - i,
        {
            let x: u32 = match r.read_var::<u32>(size, "slice_group_id") {
                Ok(v) => v,
                Err(e) => {
                    proof { lemma_group_id_list_err(start, size as nat, (i + 1) as nat, n as nat); }
                    return Err(PpsError::RbspReaderError(e));
                },
            };
            ids.push(x);
            i = i + 1;
        }
        Ok(ids)
    }
}

#[derive(Debug, Clone, Copy, PartialEq, Eq, Structural)]
pub struct PicScalingMatrix {}

/// The size of the `i`-th picture scaling list: six 4x4 lists, then 8x8 lists.
pub open spec fn pic_scaling_list_size(i: nat) -> nat {
    if i < 6 { 16 } else { 64 }
}

/// The first `n` picture scaling lists, each after its presence flag; the values are not kept.
pub open spec fn spec_pic_scaling_lists(s: BitStream, n: nat) -> Result<BitStream, PpsError>
    decreases n,
{
    if n == 0 {
        Ok(s)
    } else {
        match spec_pic_scaling_lists(s, (n - 1) as nat) {
            Err(e) => Err(e),
            Ok(s1) => match spec_read_bit(s1, "seq_scaling_list_present_flag") {
                Err(e) => Err(PpsError::RbspReaderError(e)),
                Ok((present, s2)) => if present {
                    match spec_scaling_list(s2, pic_scaling_list_size((n - 1) as nat)) {
                        Err(e) => Err(PpsError::ScalingMatrix(e)),
                        Ok((_, s3)) => Ok(s3),
                    }
                } else {
                    Ok(s2)
                },
            },
        }
    }
}

proof fn lemma_pic_scaling_lists_err(s: BitStream, k: nat, n: nat)
    requires
        k <= n,
        spec_pic_scaling_lists(s, k) is Err,
    ensures
        spec_pic_scaling_lists(s, n) == spec_pic_scaling_lists(s, k),
    decreases n,
{
    if n > k {
        lemma_pic_scaling_lists_err(s, k, (n - 1) as nat);
    }
}

/// The number of 8x8 picture scaling lists.
pub open spec fn pic_scaling_8x8_count(chroma_format: ChromaFormat, transform_8x8_mode_flag: bool) -> nat {
    if transform_8x8_mode_flag {
        if chroma_format == ChromaFormat::YUV444 { 6 } else { 2 }
    } else {
        0
    }
}

/// The picture scaling matrix after its presence flag.
pub open spec fn spec_pic_scaling_matrix(s: BitStream, chroma_format: ChromaFormat, transform_8x8_mode_flag: bool)
    -> Result<(Option<PicScalingMatrix>, BitStream), PpsError>
{
    match spec_read_bit(s, "pic_scaling_matrix_present_flag") {
        Err(e) => Err(PpsError::RbspReaderError(e)),
        Ok((present, s1)) => if !present {
            Ok((None, s1))
        } else {
            match spec_pic_scaling_lists(s1, 6 + pic_scaling_8x8_count(chroma_format, transform_8x8_mode_flag)) {
                Err(e) => Err(e),
                Ok(s2) => Ok((Some(PicScalingMatrix {}), s2)),
            }
        },
    }
}

impl PicScalingMatrix {
    fn read(r: &mut BitReader, chroma_format: ChromaFormat, transform_8x8_mode_flag: bool)
        -> (res: Result<Option<PicScalingMatrix>, PpsError>)
        ensures
            parsed(res, spec_pic_scaling_matrix(old(r)@, chroma_format, transform_8x8_mode_flag), final(r)@),
    {
        let pic_scaling_matrix_present_flag = match r.read_bit("pic_scaling_matrix_present_flag") {
            Ok(v) => v,
            Err(e) => return Err(PpsError::RbspReaderError(e)),
        };
        if !pic_scaling_matrix_present_flag {
            return Ok(None);
        }
        let ghost start = r@;
        let count: usize = if transform_8x8_mode_flag {
            if chroma_format == ChromaFormat::YUV444 { 6 } else { 2 }
        } else {
            0
        };
        let mut i: usize = 0;
        while i < 6 + count
            invariant
                spec_read_bit(old(r)@, "pic_scaling_matrix_present_flag") == Ok::<(bool, BitStream), BitReaderError>((true, start)),
                count == pic_scaling_8x8_count(chroma_format, transform_8x8_mode_flag),
                i <= 6 + count,
                spec_pic_scaling_lists(start, i as nat) == Ok::<BitStream, PpsError>(r@),
            decreases 6 + count - i,
        {
            let present = match r.read_bit("seq_scaling_list_present_flag") {
                Ok(v) => v,
                Err(e) => {
                    proof { lemma_pic_scaling_lists_err(start, (i + 1) as nat, (6 + count) as nat); }
                    return Err(PpsError::RbspReaderError(e));
                },
            };
            if present {
                let size: usize = if i < 6 { 16 } else { 64 };
                match crate::nal::sps::fill_list(r, size) {
                    Ok(_) => {},
                    Err(e) => {
                        proof { lemma_pic_scaling_lists_err(start, (i + 1) as nat, (6 + count) as nat); }
                        return Err(PpsError::ScalingMatrix(e));
                    },
                }
            }
            i = i + 1;
        }
        Ok(Some(PicScalingMatrix {}))
    }
}

#[derive(Debug, Clone, Copy, PartialEq, Eq, Structural)]
pub struct PicParameterSetExtra {
    pub transform_8x8_mode_flag: bool,
    pub pic_scaling_matrix: Option<PicScalingMatrix>,
    pub second_chroma_qp_index_offset: i32,
}

/// The optional trailing fields of the PPS, present when more RBSP data follows.
pub open spec fn spec_pps_extra(s: BitStream, chroma_format: ChromaFormat) -> Result<(Option<PicParameterSetExtra>, BitStream), PpsError> {
    match spec_has_more_rbsp_data(s, "transform_8x8_mode_flag") {
        Err(e) => Err(PpsError::RbspReaderError(e)),
        Ok(more) => if !more {
            Ok((None, s))
        } else {
            match spec_read_bit(s, "transform_8x8_mode_flag") {
                Err(e) => Err(PpsError::RbspReaderError(e)),
                Ok((t, s1)) => match spec_pic_scaling_matrix(s1, chroma_format, t) {
                    Err(e) => Err(e),
                    Ok((m, s2)) => match spec_read_se(s2, "second_chroma_qp_index_offset") {
                        Err(e) => Err(PpsError::RbspReaderError(e)),
                        Ok((o, s3)) => Ok((
                            Some(PicParameterSetExtra {
                                transform_8x8_mode_flag: t,
                                pic_scaling_matrix: m,
                                second_chroma_qp_index_offset: o,
                            }),
                            s3,
                        )),
                    },
                },
            }
        },
    }
}

impl PicParameterSetExtra {
    fn read(r: &mut BitReader, chroma_format: ChromaFormat) -> (res: Result<Option<PicParameterSetExtra>, PpsError>)
        ensures
            parsed(res, spec_pps_extra(old(r)@, chroma_format), final(r)@),
    {
        let more = match r.has_more_rbsp_data("transform_8x8_mode_flag") {
            Ok(v) => v,
            Err(e) => return Err(PpsError::RbspReaderError(e)),
        };
        if !more {
            return Ok(None);
        }
        let transform_8x8_mode_flag = match r.read_bit("transform_8x8_mode_flag") {
            Ok(v) => v,
            Err(e) => return Err(PpsError::RbspReaderError(e)),
        };
        let pic_scaling_matrix = match PicScalingMatrix::read(r, chroma_format, transform_8x8_mode_flag) {
            Ok(v) => v,
            Err(e) => return Err(e),
        };
        let second_chroma_qp_index_offset = match r.read_se("second_chroma_qp_index_offset") {
            Ok(v) => v,
            Err(e) => return Err(PpsError::RbspReaderError(e)),
        };
        Ok(Some(PicParameterSetExtra { transform_8x8_mode_flag, pic_scaling_matrix, second_chroma_qp_index_offset }))
    }
}

#[derive(Debug, Clone, Copy, PartialEq, Eq, Structural)]
pub enum PicParamSetIdError {
    IdTooLarge(u32),
}

#[derive(Debug, Clone, Copy, PartialEq, Eq, Structural, Hash)]
pub struct PicParamSetId(u8);

/// The identifier with value `id`.
pub closed spec fn spec_pic_param_set_id(id: u8) -> PicParamSetId {
    PicParamSetId(id)
}

/// The identifier named by a value has that value.
pub proof fn lemma_pic_param_set_id_spec(id: u8)
    ensures
        spec_pic_param_set_id(id).spec_id() == id,
{
}

impl PicParamSetId {
    /// The identifier value.
    pub closed spec fn spec_id(self) -> u8 {
        self.0
    }

    pub fn from_u32(id: u32) -> (r: Result<PicParamSetId, PicParamSetIdError>)
        ensures
            id <= 255 ==> r == Ok::<PicParamSetId, PicParamSetIdError>(spec_pic_param_set_id(id as u8)),
            id > 255 ==> r == Err::<PicParamSetId, PicParamSetIdError>(PicParamSetIdError::IdTooLarge(id)),
            id <= 255 ==> (r matches Ok(v) && v.spec_id() == id),
    {
        if id > 255 {
            Err(PicParamSetIdError::IdTooLarge(id))
        } else {
            Ok(PicParamSetId(id as u8))
        }
    }

    pub fn id(self) -> (r: u8)
        ensures
            r == self.spec_id(),
    {
        self.0
    }
}

/// `num_ref_idx_l*_default_active_minus1`, at most 31.
pub open spec fn spec_read_num_ref_idx(s: BitStream, name: &'static str) -> Result<(u32, BitStream), PpsError> {
    match spec_read_ue(s, name) {
        Err(e) => Err(PpsError::RbspReaderError(e)),
        Ok((v, s2)) => if v > 31 { Err(PpsError::InvalidNumRefIdx(name, v)) } else { Ok((v, s2)) },
    }
}

fn read_num_ref_idx(r: &mut BitReader, name: &'static str) -> (res: Result<u32, PpsError>)
    ensures
        parsed(res, spec_read_num_ref_idx(old(r)@, name), final(r)@),
{
    let val = match r.read_ue(name) {
        Ok(v) => v,
        Err(e) => return Err(PpsError::RbspReaderError(e)),
    };
    if val > 31 {
        return Err(PpsError::InvalidNumRefIdx(name, val));
    }
    Ok(val)
}

#[derive(Clone, Debug, PartialEq, Eq)]
pub struct PicParameterSet {
    pub pic_parameter_set_id: PicParamSetId,
    pub seq_parameter_set_id: SeqParamSetId,
    pub entropy_coding_mode_flag: bool,
    pub bottom_field_pic_order_in_frame_present_flag: bool,
    pub slice_groups: Option<SliceGroup>,
    pub num_ref_idx_l0_default_active_minus1: u32,
    pub num_ref_idx_l1_default_active_minus1: u32,
    pub weighted_pred_flag: bool,
    pub weighted_bipred_idc: u8,
    pub pic_init_qp_minus26: i32,
    pub pic_init_qs_minus26: i32,
    pub chroma_qp_index_offset: i32,
    pub deblocking_filter_control_present_flag: bool,
    pub constrained_intra_pred_flag: bool,
    pub redundant_pic_cnt_present_flag: bool,
    pub extension: Option<PicParameterSetExtra>,
}

/// The values of a [`PicParameterSet`].
pub ghost struct PicParameterSetView {
    pub pic_parameter_set_id: u8,
    pub seq_parameter_set_id: u8,
    pub entropy_coding_mode_flag: bool,
    pub bottom_field_pic_order_in_frame_present_flag: bool,
    pub slice_groups: Option<SliceGroupView>,
    pub num_ref_idx_l0_default_active_minus1: u32,
    pub num_ref_idx_l1_default_active_minus1: u32,
    pub weighted_pred_flag: bool,
    pub weighted_bipred_idc: u8,
    pub pic_init_qp_minus26: i32,
    pub pic_init_qs_minus26: i32,
    pub chroma_qp_index_offset: i32,
    pub deblocking_filter_control_present_flag: bool,
    pub constrained_intra_pred_flag: bool,
    pub redundant_pic_cnt_present_flag: bool,
    pub extension: Option<PicParameterSetExtra>,
}

impl View for PicParameterSet {
    type V = PicParameterSetView;

    open spec fn view(&self) -> PicParameterSetView {
        PicParameterSetView {
            pic_parameter_set_id: self.pic_parameter_set_id.spec_id(),
            seq_parameter_set_id: self.seq_parameter_set_id.spec_id(),
            entropy_coding_mode_flag: self.entropy_coding_mode_flag,
            bottom_field_pic_order_in_frame_present_flag: self.bottom_field_pic_order_in_frame_present_flag,
            slice_groups: match self.slice_groups {
                Some(g) => Some(g@),
                None => None,
            },
            num_ref_idx_l0_default_active_minus1: self.num_ref_idx_l0_default_active_minus1,
            num_ref_idx_l1_default_active_minus1: self.num_ref_idx_l1_default_active_minus1,
            weighted_pred_flag: self.weighted_pred_flag,
            weighted_bipred_idc: self.weighted_bipred_idc,
            pic_init_qp_minus26: self.pic_init_qp_minus26,
            pic_init_qs_minus26: self.pic_init_qs_minus26,
            chroma_qp_index_offset: self.chroma_qp_index_offset,
            deblocking_filter_control_present_flag: self.deblocking_filter_control_present_flag,
            constrained_intra_pred_flag: self.constrained_intra_pred_flag,
            redundant_pic_cnt_present_flag: self.redundant_pic_cnt_present_flag,
            extension: self.extension,
        }
    }
}

/// `num_slice_groups_minus1` (at most 7) and the slice group map when there are several groups.
pub open spec fn spec_slice_groups(s: BitStream) -> Result<(Option<SliceGroupView>, BitStream), PpsError> {
    match spec_read_ue(s, "num_slice_groups_minus1") {
        Err(e) => Err(PpsError::RbspReaderError(e)),
        Ok((n, s1)) => if n > 7 {
            Err(PpsError::InvalidNumSliceGroupsMinus1(n))
        } else if n > 0 {
            match spec_slice_group(s1, n) {
                Err(e) => Err(e),
                Ok((g, s2)) => Ok((Some(g), s2)),
            }
        } else {
            Ok((None, s1))
        },
    }
}

/// `pic_parameter_set_id` and `seq_parameter_set_id`.
pub open spec fn spec_pps_ids(s: BitStream) -> Result<((u32, u32), BitStream), PpsError> {
    match spec_read_ue(s, "pic_parameter_set_id") {
        Err(e) => Err(PpsError::RbspReaderError(e)),
        Ok((p, s1)) => if p > 255 {
            Err(PpsError::BadPicParamSetId(PicParamSetIdError::IdTooLarge(p)))
        } else {
            match spec_read_ue(s1, "seq_parameter_set_id") {
                Err(e) => Err(PpsError::RbspReaderError(e)),
                Ok((q, s2)) => if q > 31 {
                    Err(PpsError::BadSeqParamSetId(SeqParamSetIdError::IdTooLarge(q)))
                } else {
                    Ok(((p, q), s2))
                },
            }
        },
    }
}

/// The PPS fields from `entropy_coding_mode_flag` to `weighted_bipred_idc`.
pub open spec fn spec_pps_part1(s: BitStream) -> Result<((bool, bool, Option<SliceGroupView>, u32, u32, bool, u8), BitStream), PpsError> {
    match spec_read_bit(s, "entropy_coding_mode_flag") {
        Err(e) => Err(PpsError::RbspReaderError(e)),
        Ok((a, s1)) => match spec_read_bit(s1, "bottom_field_pic_order_in_frame_present_flag") {
            Err(e) => Err(PpsError::RbspReaderError(e)),
            Ok((b, s2)) => match spec_slice_groups(s2) {
                Err(e) => Err(e),
                Ok((g, s3)) => match spec_read_num_ref_idx(s3, "num_ref_idx_l0_default_active_minus1") {
                    Err(e) => Err(e),
                    Ok((l0, s4)) => match spec_read_num_ref_idx(s4, "num_ref_idx_l1_default_active_minus1") {
                        Err(e) => Err(e),
                        Ok((l1, s5)) => match spec_read_bit(s5, "weighted_pred_flag") {
                            Err(e) => Err(PpsError::RbspReaderError(e)),
                            Ok((w, s6)) => match spec_read_u8(s6, 2, "weighted_bipred_idc") {
                                Err(e) => Err(PpsError::RbspReaderError(e)),
                                Ok((wb, s7)) => Ok(((a, b, g, l0, l1, w, wb), s7)),
                            },
                        },
                    },
                },
            },
        },
    }
}

/// The PPS fields from `pic_init_qp_minus26` to `redundant_pic_cnt_present_flag`.
pub open spec fn spec_pps_part2(s: BitStream) -> Result<((i32, i32, i32, bool, bool, bool), BitStream), BitReaderError> {
    match spec_read_se(s, "pic_init_qp_minus26") {
        Err(e) => Err(e),
        Ok((qp, s1)) => match spec_read_se(s1, "pic_init_qs_minus26") {
            Err(e) => Err(e),
            Ok((qs, s2)) => match spec_read_se(s2, "chroma_qp_index_offset") {
                Err(e) => Err(e),
                Ok((c, s3)) => match spec_read_bit(s3, "deblocking_filter_control_present_flag") {
                    Err(e) => Err(e),
                    Ok((d, s4)) => match spec_read_bit(s4, "constrained_intra_pred_flag") {
                        Err(e) => Err(e),
                        Ok((ci, s5)) => match spec_read_bit(s5, "redundant_pic_cnt_present_flag") {
                            Err(e) => Err(e),
                            Ok((rp, s6)) => Ok(((qp, qs, c, d, ci, rp), s6)),
                        },
                    },
                },
            },
        },
    }
}

/// Reading the PPS ids where `pic_parameter_set_id` and then `seq_parameter_set_id` were
/// written as `ue(v)` (7.3.2.2) gives both back, in that order, when they are in range.
pub proof fn lemma_pps_ids_written(s: BitStream, pic_parameter_set_id: u32, seq_parameter_set_id: u32, s2: BitStream)
    requires
        pic_parameter_set_id <= 255,
        seq_parameter_set_id <= 31,
        reads(s, ue_bits(pic_parameter_set_id) + ue_bits(seq_parameter_set_id), s2),
    ensures
        spec_pps_ids(s) == Ok::<((u32, u32), BitStream), PpsError>(((pic_parameter_set_id, seq_parameter_set_id), s2)),
{
    lemma_reads_split(s, ue_bits(pic_parameter_set_id), ue_bits(seq_parameter_set_id), s2);
    lemma_read_ue_bits(s, pic_parameter_set_id, "pic_parameter_set_id");
    lemma_read_ue_bits(s.at(s.pos + ue_bits(pic_parameter_set_id).len()), seq_parameter_set_id, "seq_parameter_set_id");
}

/// Reading the PPS fields from `entropy_coding_mode_flag` to `weighted_bipred_idc` of a
/// picture with one slice group, where they were written in the order of 7.3.2.2
/// (`entropy_coding_mode_flag`, `bottom_field_pic_order_in_frame_present_flag`,
/// `num_slice_groups_minus1` = 0, the two `num_ref_idx_l*_default_active_minus1` as `ue(v)`,
/// `weighted_pred_flag`, then `weighted_bipred_idc` in 2 bits), gives each value back in its
/// own field.
#[verifier::spinoff_prover]
pub proof fn lemma_pps_part1_written(
    s: BitStream,
    entropy_coding_mode_flag: bool,
    bottom_field_pic_order_in_frame_present_flag: bool,
    num_ref_idx_l0_default_active_minus1: u32,
    num_ref_idx_l1_default_active_minus1: u32,
    weighted_pred_flag: bool,
    weighted_bipred_idc: u8,
    s2: BitStream,
)
    requires
        num_ref_idx_l0_default_active_minus1 <= 31,
        num_ref_idx_l1_default_active_minus1 <= 31,
        weighted_bipred_idc < 4,
        reads(
            s,
            seq![entropy_coding_mode_flag] + (seq![bottom_field_pic_order_in_frame_present_flag] + (ue_bits(0) + (ue_bits(
                num_ref_idx_l0_default_active_minus1,
            ) + (ue_bits(num_ref_idx_l1_default_active_minus1) + (seq![weighted_pred_flag] + value_bits(weighted_bipred_idc as nat, 2)))))),
            s2,
        ),
    ensures
        spec_pps_part1(s) == Ok::<((bool, bool, Option<SliceGroupView>, u32, u32, bool, u8), BitStream), PpsError>((
            (
                entropy_coding_mode_flag,
                bottom_field_pic_order_in_frame_present_flag,
                None,
                num_ref_idx_l0_default_active_minus1,
                num_ref_idx_l1_default_active_minus1,
                weighted_pred_flag,
                weighted_bipred_idc,
            ),
            s2,
        )),
{
    let (a, b, l0, l1, w, wb) = (
        entropy_coding_mode_flag,
        bottom_field_pic_order_in_frame_present_flag,
        num_ref_idx_l0_default_active_minus1,
        num_ref_idx_l1_default_active_minus1,
        weighted_pred_flag,
        weighted_bipred_idc,
    );
    let tail4 = seq![w] + value_bits(wb as nat, 2);
    let tail3 = ue_bits(l1) + tail4;
    let tail2 = ue_bits(l0) + tail3;
    let tail1 = ue_bits(0) + tail2;
    let tail0 = seq![b] + tail1;
    lemma_reads_split(s, seq![a], tail0, s2);
    let s1 = s.at(s.pos + 1);
    lemma_read_bit_written(s, a, s1, "entropy_coding_mode_flag");
    lemma_reads_split(s1, seq![b], tail1, s2);
    let t2 = s1.at(s1.pos + 1);
    lemma_read_bit_written(s1, b, t2, "bottom_field_pic_order_in_frame_present_flag");
    lemma_reads_split(t2, ue_bits(0), tail2, s2);
    let t3 = t2.at(t2.pos + ue_bits(0).len());
    lemma_read_ue_bits(t2, 0, "num_slice_groups_minus1");
    lemma_reads_split(t3, ue_bits(l0), tail3, s2);
    let t4 = t3.at(t3.pos + ue_bits(l0).len());
    lemma_read_ue_bits(t3, l0, "num_ref_idx_l0_default_active_minus1");
    lemma_reads_split(t4, ue_bits(l1), tail4, s2);
    let t5 = t4.at(t4.pos + ue_bits(l1).len());
    lemma_read_ue_bits(t4, l1, "num_ref_idx_l1_default_active_minus1");
    lemma_reads_split(t5, seq![w], value_bits(wb as nat, 2), s2);
    let t6 = t5.at(t5.pos + 1);
    lemma_read_bit_written(t5, w, t6, "weighted_pred_flag");
    vstd::arithmetic::power2::lemma2_to64();
    lemma_read_value(t6, wb as nat, 2);
    lemma_value_bits_len(wb as nat, 2);
}

/// Reading the PPS fields from `pic_init_qp_minus26` on, where they were written in the order
/// of 7.3.2.2 (`pic_init_qp_minus26`, `pic_init_qs_minus26` and `chroma_qp_index_offset` as
/// `se(v)`, then the deblocking filter control, constrained intra prediction and redundant
/// picture count flags), gives each value back in its own field and ends right after them.
#[verifier::spinoff_prover]
pub proof fn lemma_pps_part2_written(
    s: BitStream,
    pic_init_qp_minus26: i32,
    pic_init_qs_minus26: i32,
    chroma_qp_index_offset: i32,
    deblocking_filter_control_present_flag: bool,
    constrained_intra_pred_flag: bool,
    redundant_pic_cnt_present_flag: bool,
    s2: BitStream,
)
    requires
        pic_init_qp_minus26 > i32::MIN,
        pic_init_qs_minus26 > i32::MIN,
        chroma_qp_index_offset > i32::MIN,
        reads(
            s,
            se_bits(pic_init_qp_minus26) + (se_bits(pic_init_qs_minus26) + (se_bits(chroma_qp_index_offset) + seq![
                deblocking_filter_control_present_flag,
                constrained_intra_pred_flag,
                redundant_pic_cnt_present_flag,
            ])),
            s2,
        ),
    ensures
        spec_pps_part2(s) == Ok::<((i32, i32, i32, bool, bool, bool), BitStream), BitReaderError>((
            (
                pic_init_qp_minus26,
                pic_init_qs_minus26,
                chroma_qp_index_offset,
                deblocking_filter_control_present_flag,
                constrained_intra_pred_flag,
                redundant_pic_cnt_present_flag,
            ),
            s2,
        )),
{
    let (qp, qs, c) = (pic_init_qp_minus26, pic_init_qs_minus26, chroma_qp_index_offset);
    let (d, ci, rp) = (deblocking_filter_control_present_flag, constrained_intra_pred_flag, redundant_pic_cnt_present_flag);
    let flags = seq![d, ci, rp];
    lemma_reads_split(s, se_bits(qp), se_bits(qs) + (se_bits(c) + flags), s2);
    let s1 = s.at(s.pos + se_bits(qp).len());
    lemma_read_se_bits(s, qp, "pic_init_qp_minus26");
    lemma_reads_split(s1, se_bits(qs), se_bits(c) + flags, s2);
    let s2a = s1.at(s1.pos + se_bits(qs).len());
    lemma_read_se_bits(s1, qs, "pic_init_qs_minus26");
    lemma_reads_split(s2a, se_bits(c), flags, s2);
    let s3 = s2a.at(s2a.pos + se_bits(c).len());
    lemma_read_se_bits(s2a, c, "chroma_qp_index_offset");
    assert(flags =~= seq![d] + seq![ci, rp]);
    lemma_reads_split(s3, seq![d], seq![ci, rp], s2);
    let s4 = s3.at(s3.pos + 1);
    lemma_read_bit_written(s3, d, s4, "deblocking_filter_control_present_flag");
    assert(seq![ci, rp] =~= seq![ci] + seq![rp]);
    lemma_reads_split(s4, seq![ci], seq![rp], s2);
    let s5 = s4.at(s4.pos + 1);
    lemma_read_bit_written(s4, ci, s5, "constrained_intra_pred_flag");
    lemma_read_bit_written(s5, rp, s2, "redundant_pic_cnt_present_flag");
}

/// A picture parameter set RBSP, given the sequence parameter sets by id.
pub open spec fn spec_pic_parameter_set(sps_slots: Seq<Option<crate::nal::sps::SeqParameterSet>>, s: BitStream) -> Result<PicParameterSetView, PpsError> {
    match spec_pps_ids(s) {
        Err(e) => Err(e),
        Ok(((p, q), s1)) => match slot_value(sps_slots, q as int) {
            None => Err(PpsError::UnknownSeqParamSetId(crate::nal::sps::spec_seq_param_set_id(q as u8))),
            Some(sps) => match spec_pps_part1(s1) {
                Err(e) => Err(e),
                Ok(((a, b, g, l0, l1, w, wb), s2)) => match spec_pps_part2(s2) {
                    Err(e) => Err(PpsError::RbspReaderError(e)),
                    Ok(((qp, qs, c, d, ci, rp), s3)) => match spec_pps_extra(s3, sps.chroma_info.chroma_format) {
                        Err(e) => Err(e),
                        Ok((x, s4)) => match crate::rbsp::spec_finish_rbsp(s4) {
                            Err(e) => Err(PpsError::RbspReaderError(e)),
                            Ok(()) => Ok(PicParameterSetView {
                                pic_parameter_set_id: p as u8,
                                seq_parameter_set_id: q as u8,
                                entropy_coding_mode_flag: a,
                                bottom_field_pic_order_in_frame_present_flag: b,
                                slice_groups: g,
                                num_ref_idx_l0_default_active_minus1: l0,
                                num_ref_idx_l1_default_active_minus1: l1,
                                weighted_pred_flag: w,
                                weighted_bipred_idc: wb,
                                pic_init_qp_minus26: qp,
                                pic_init_qs_minus26: qs,
                                chroma_qp_index_offset: c,
                                deblocking_filter_control_present_flag: d,
                                constrained_intra_pred_flag: ci,
                                redundant_pic_cnt_present_flag: rp,
                                extension: x,
                            }),
                        },
                    },
                },
            },
        },
    }
}

impl PicParameterSet {
    fn read_ids(r: &mut BitReader) -> (res: Result<(PicParamSetId, SeqParamSetId), PpsError>)
        ensures
            match spec_pps_ids(old(r)@) {
                Ok(((p, q), s2)) => res matches Ok((pp, qq)) && pp.spec_id() == p && qq.spec_id() == q && final(r)@ == s2,
                Err(e) => res == Err::<(PicParamSetId, SeqParamSetId), PpsError>(e),
            },
    {
        let p = match r.read_ue("pic_parameter_set_id") {
            Ok(v) => v,
            Err(e) => return Err(PpsError::RbspReaderError(e)),
        };
        let pic_parameter_set_id = match PicParamSetId::from_u32(p) {
            Ok(v) => v,
            Err(e) => return Err(PpsError::BadPicParamSetId(e)),
        };
        let q = match r.read_ue("seq_parameter_set_id") {
            Ok(v) => v,
            Err(e) => return Err(PpsError::RbspReaderError(e)),
        };
        let seq_parameter_set_id = match SeqParamSetId::from_u32(q) {
            Ok(v) => v,
            Err(e) => return Err(PpsError::BadSeqParamSetId(e)),
        };
        Ok((pic_parameter_set_id, seq_parameter_set_id))
    }

    fn read_part1(r: &mut BitReader) -> (res: Result<(bool, bool, Option<SliceGroup>, u32, u32, bool, u8), PpsError>)
        ensures
            match spec_pps_part1(old(r)@) {
                Ok(((a, b, g, l0, l1, w, wb), s2)) => res matches Ok((ea, eb, eg, el0, el1, ew, ewb))
                    && ea == a && eb == b && el0 == l0 && el1 == l1 && ew == w && ewb == wb && final(r)@ == s2
                    && match eg {
                        Some(x) => g == Some(x@),
                        None => g is None,
                    },
                Err(e) => res == Err::<(bool, bool, Option<SliceGroup>, u32, u32, bool, u8), PpsError>(e),
            },
    {
        let entropy_coding_mode_flag = match r.read_bit("entropy_coding_mode_flag") {
            Ok(v) => v,
            Err(e) => return Err(PpsError::RbspReaderError(e)),
        };
        let bottom = match r.read_bit("bottom_field_pic_order_in_frame_present_flag") {
            Ok(v) => v,
            Err(e) => return Err(PpsError::RbspReaderError(e)),
        };
        let slice_groups = match Self::read_slice_groups(r) {
            Ok(v) => v,
            Err(e) => return Err(e),
        };
        let l0 = match read_num_ref_idx(r, "num_ref_idx_l0_default_active_minus1") {
            Ok(v) => v,
            Err(e) => return Err(e),
        };
        let l1 = match read_num_ref_idx(r, "num_ref_idx_l1_default_active_minus1") {
            Ok(v) => v,
            Err(e) => return Err(e),
        };
        let weighted_pred_flag = match r.read_bit("weighted_pred_flag") {
            Ok(v) => v,
            Err(e) => return Err(PpsError::RbspReaderError(e)),
        };
        let weighted_bipred_idc: u8 = match r.read_var::<u8>(2, "weighted_bipred_idc") {
            Ok(v) => v,
            Err(e) => return Err(PpsError::RbspReaderError(e)),
        };
        Ok((entropy_coding_mode_flag, bottom, slice_groups, l0, l1, weighted_pred_flag, weighted_bipred_idc))
    }

    fn read_part2(r: &mut BitReader) -> (res: Result<(i32, i32, i32, bool, bool, bool), BitReaderError>)
        ensures
            parsed(res, spec_pps_part2(old(r)@), final(r)@),
    {
        let qp = match r.read_se("pic_init_qp_minus26") {
            Ok(v) => v,
            Err(e) => return Err(e),
        };
        let qs = match r.read_se("pic_init_qs_minus26") {
            Ok(v) => v,
            Err(e) => return Err(e),
        };
        let c = match r.read_se("chroma_qp_index_offset") {
            Ok(v) => v,
            Err(e) => return Err(e),
        };
        let d = match r.read_bit("deblocking_filter_control_present_flag") {
            Ok(v) => v,
            Err(e) => return Err(e),
        };
        let ci = match r.read_bit("constrained_intra_pred_flag") {
            Ok(v) => v,
            Err(e) => return Err(e),
        };
        let rp = match r.read_bit("redundant_pic_cnt_present_flag") {
            Ok(v) => v,
            Err(e) => return Err(e),
        };
        Ok((qp, qs, c, d, ci, rp))
    }

    pub fn from_bits(ctx: &Context, r: BitReader) -> (res: Result<PicParameterSet, PpsError>)
        ensures
            match spec_pic_parameter_set(ctx.sps_slots(), r@) {
                Ok(v) => res matches Ok(pps) && pps@ == v,
                Err(e) => res == Err::<PicParameterSet, PpsError>(e),
            },
    {
        let mut r = r;
        let (pic_parameter_set_id, seq_parameter_set_id) = match Self::read_ids(&mut r) {
            Ok(v) => v,
            Err(e) => return Err(e),
        };
        proof { crate::nal::sps::lemma_seq_param_set_id_spec(seq_parameter_set_id); }
        let seq_parameter_set = match ctx.sps_by_id(seq_parameter_set_id) {
            Some(s) => s,
            None => return Err(PpsError::UnknownSeqParamSetId(seq_parameter_set_id)),
        };
        let (entropy_coding_mode_flag, bottom, slice_groups, l0, l1, weighted_pred_flag, weighted_bipred_idc) = match Self::read_part1(&mut r) {
            Ok(v) => v,
            Err(e) => return Err(e),
        };
        let (pic_init_qp_minus26, pic_init_qs_minus26, chroma_qp_index_offset, deblocking, constrained, redundant) = match Self::read_part2(&mut r) {
            Ok(v) => v,
            Err(e) => return Err(PpsError::RbspReaderError(e)),
        };
        let extension = match PicParameterSetExtra::read(&mut r, seq_parameter_set.chroma_info.chroma_format) {
            Ok(v) => v,
            Err(e) => return Err(e),
        };
        let pps = PicParameterSet {
            pic_parameter_set_id,
            seq_parameter_set_id,
            entropy_coding_mode_flag,
            bottom_field_pic_order_in_frame_present_flag: bottom,
            slice_groups,
            num_ref_idx_l0_default_active_minus1: l0,
            num_ref_idx_l1_default_active_minus1: l1,
            weighted_pred_flag,
            weighted_bipred_idc,
            pic_init_qp_minus26,
            pic_init_qs_minus26,
            chroma_qp_index_offset,
            deblocking_filter_control_present_flag: deblocking,
            constrained_intra_pred_flag: constrained,
            redundant_pic_cnt_present_flag: redundant,
            extension,
        };
        match r.finish_rbsp() {
            Ok(()) => Ok(pps),
            Err(e) => Err(PpsError::RbspReaderError(e)),
        }
    }

    fn read_slice_groups(r: &mut BitReader) -> (res: Result<Option<SliceGroup>, PpsError>)
        ensures
            match spec_slice_groups(old(r)@) {
                Ok((v, s2)) => res matches Ok(o) && final(r)@ == s2 && match o {
                    Some(g) => v == Some(g@),
                    None => v is None,
                },
                Err(e) => res == Err::<Option<SliceGroup>, PpsError>(e),
            },
    {
        let num_slice_groups_minus1 = match r.read_ue("num_slice_groups_minus1") {
            Ok(v) => v,
            Err(e) => return Err(PpsError::RbspReaderError(e)),
        };
        if num_slice_groups_minus1 > 7 {
            // 7 is the maximum allowed in any profile; some profiles restrict it to 0.
            return Err(PpsError::InvalidNumSliceGroupsMinus1(num_slice_groups_minus1));
        }
        if num_slice_groups_minus1 > 0 {
            match SliceGroup::read(r, num_slice_groups_minus1) {
                Ok(g) => Ok(Some(g)),
                Err(e) => Err(e),
            }
        } else {
            Ok(None)
        }
    }
}

} // verus!

//! Sequence parameter set (spec 7.3.2.1).

use vstd::prelude::*;
use crate::rbsp::{
    parsed, parsed_view, se_bits, spec_read_bit, spec_read_bits, spec_read_se, spec_read_ue, trailing_bits, ue_bits,
    value_bits, BitReader, BitReaderError, BitStream, BitWriter, ErrorKind, IoError,
};
use vstd::std_specs::convert::FromSpecImpl;

verus! {

#[derive(Debug, Clone, Copy, PartialEq, Eq, Structural)]
pub enum SeqParamSetIdError {
    IdTooLarge(u32),
}

#[derive(Debug, Clone, Copy, PartialEq, Eq, Structural, Hash)]
pub struct SeqParamSetId(u8);

impl SeqParamSetId {
    /// The identifier value.
    pub closed spec fn spec_id(self) -> u8 {
        self.0
    }

    pub fn from_u32(id: u32) -> (r: Result<SeqParamSetId, SeqParamSetIdError>)
        ensures
            id > 31 ==> r == Err::<SeqParamSetId, SeqParamSetIdError>(SeqParamSetIdError::IdTooLarge(id)),
            id <= 31 ==> (r matches Ok(v) && v.spec_id() == id),
    {
        if id > 31 {
            Err(SeqParamSetIdError::IdTooLarge(id))
        } else {
            Ok(SeqParamSetId(id as u8))
        }
    }

    pub fn id(self) -> (r: u8)
        ensures
            r == self.spec_id(),
            r <= 31,
    {
        proof { use_type_invariant(self); }
        self.0
    }

    #[verifier::type_invariant]
    closed spec fn inv(self) -> bool {
        self.0 <= 31
    }
}

/// The identifier with value `id`.
pub closed spec fn spec_seq_param_set_id(id: u8) -> SeqParamSetId {
    SeqParamSetId(id)
}

/// An identifier is the one named by its value.
pub proof fn lemma_seq_param_set_id_spec(x: SeqParamSetId)
    ensures
        spec_seq_param_set_id(x.spec_id()) == x,
{
}

#[derive(Debug, Clone, Copy, PartialEq, Eq)]
pub enum SpsError {
    /// Signals that bit_depth_luma_minus8 was greater than the max value, 6
    BitDepthOutOfRange(u32),
    RbspReaderError(BitReaderError),
    PicOrderCnt(PicOrderCntError),
    ScalingMatrix(ScalingMatrixError),
    /// log2_max_frame_num_minus4 must be between 0 and 12
    Log2MaxFrameNumMinus4OutOfRange(u32),
    BadSeqParamSetId(SeqParamSetIdError),
    UnknownSeqParamSetId(SeqParamSetId),
    /// A field in the bitstream had a value too large for a subsequent calculation
    FieldValueTooLarge { name: &'static str, value: u32 },
    /// A field in the bitstream had a value that is too small
    FieldValueTooSmall { name: &'static str, value: u32 },
    /// The frame-cropping values are too large vs. the coded picture size,
    CroppingError(FrameCropping),
    /// The `cpb_cnt_minus1` field must be between 0 and 31 inclusive.
    CpbCountOutOfRange(u32),
}

#[derive(Debug, Clone, Copy, PartialEq, Eq, Structural)]
pub enum Profile {
    Unknown(u8),
    Baseline,
    ConstrainedBaseline,
    Main,
    High,
    ProgressiveHigh,
    ConstrainedHigh,
    High422,
    High422Intra,
    High10,
    High10Intra,
    High444,
    High444Intra,
    Extended,
    ScalableBase,
    ScalableConstrainedBaseline,
    ScalableHigh,
    ScalableConstrainedHigh,
    ScalableHighIntra,
    MultiviewHigh,
    StereoHigh,
    CavlcIntra444,
    MFCHigh,
    MFCDepthHigh,
    MultiviewDepthHigh,
    EnhancedMultiviewDepthHigh,
}


/// The profile named by `profile_idc` and the constraint flags (Annex A, G, H, I).
pub open spec fn spec_profile(profile_idc: u8, flags: u8) -> Profile {
    let f1 = (flags / 64) % 2 == 1;
    let f3 = (flags / 16) % 2 == 1;
    let f4 = (flags / 8) % 2 == 1;
    let f5 = (flags / 4) % 2 == 1;
    if profile_idc == 66 {
        if f1 { Profile::ConstrainedBaseline } else { Profile::Baseline }
    } else if profile_idc == 77 {
        Profile::Main
    } else if profile_idc == 100 {
        if f4 && f5 { Profile::ConstrainedHigh } else if f4 { Profile::ProgressiveHigh } else { Profile::High }
    } else if profile_idc == 110 {
        if f3 { Profile::High10Intra } else { Profile::High10 }
    } else if profile_idc == 122 {
        if f3 { Profile::High422Intra } else { Profile::High422 }
    } else if profile_idc == 244 {
        if f3 { Profile::High444Intra } else { Profile::High444 }
    } else if profile_idc == 88 {
        Profile::Extended
    } else if profile_idc == 83 {
        if f5 { Profile::ScalableConstrainedBaseline } else { Profile::ScalableBase }
    } else if profile_idc == 86 {
        if f3 { Profile::ScalableHighIntra } else if f5 { Profile::ScalableConstrainedHigh } else { Profile::ScalableHigh }
    } else if profile_idc == 118 {
        Profile::MultiviewHigh
    } else if profile_idc == 128 {
        Profile::StereoHigh
    } else if profile_idc == 44 {
        Profile::CavlcIntra444
    } else if profile_idc == 134 {
        Profile::MFCHigh
    } else if profile_idc == 135 {
        Profile::MFCDepthHigh
    } else if profile_idc == 138 {
        Profile::MultiviewDepthHigh
    } else if profile_idc == 139 {
        Profile::EnhancedMultiviewDepthHigh
    } else {
        Profile::Unknown(profile_idc)
    }
}

/// The `profile_idc` of a profile.
pub open spec fn spec_profile_idc(p: Profile) -> u8 {
    match p {
        Profile::Baseline | Profile::ConstrainedBaseline => 66,
        Profile::Main => 77,
        Profile::High | Profile::ProgressiveHigh | Profile::ConstrainedHigh => 100,
        Profile::High422 | Profile::High422Intra => 122,
        Profile::High10 | Profile::High10Intra => 110,
        Profile::High444 | Profile::High444Intra => 244,
        Profile::Extended => 88,
        Profile::ScalableBase | Profile::ScalableConstrainedBaseline => 83,
        Profile::ScalableHigh | Profile::ScalableConstrainedHigh | Profile::ScalableHighIntra => 86,
        Profile::MultiviewHigh => 118,
        Profile::StereoHigh => 128,
        Profile::CavlcIntra444 => 44,
        Profile::MFCHigh => 134,
        Profile::MFCDepthHigh => 135,
        Profile::MultiviewDepthHigh => 138,
        Profile::EnhancedMultiviewDepthHigh => 139,
        Profile::Unknown(profile_idc) => profile_idc,
    }
}

impl Profile {
    pub fn from_profile_idc(profile_idc: ProfileIdc, constraint_flags: ConstraintFlags) -> (r: Profile)
        ensures
            r == spec_profile(profile_idc.spec_value(), constraint_flags.spec_value()),
    {
        let f1 = constraint_flags.flag1();
        let f3 = constraint_flags.flag3();
        let f4 = constraint_flags.flag4();
        let f5 = constraint_flags.flag5();
        match profile_idc.0 {
            66 => if f1 { Profile::ConstrainedBaseline } else { Profile::Baseline },
            77 => Profile::Main,
            100 => if f4 && f5 { Profile::ConstrainedHigh } else if f4 { Profile::ProgressiveHigh } else { Profile::High },
            110 => if f3 { Profile::High10Intra } else { Profile::High10 },
            122 => if f3 { Profile::High422Intra } else { Profile::High422 },
            244 => if f3 { Profile::High444Intra } else { Profile::High444 },
            88 => Profile::Extended,
            83 => if f5 { Profile::ScalableConstrainedBaseline } else { Profile::ScalableBase },
            86 => if f3 { Profile::ScalableHighIntra } else if f5 { Profile::ScalableConstrainedHigh } else { Profile::ScalableHigh },
            118 => Profile::MultiviewHigh,
            128 => Profile::StereoHigh,
            44 => Profile::CavlcIntra444,
            134 => Profile::MFCHigh,
            135 => Profile::MFCDepthHigh,
            138 => Profile::MultiviewDepthHigh,
            139 => Profile::EnhancedMultiviewDepthHigh,
            other => Profile::Unknown(other),
        }
    }

    pub fn profile_idc(&self) -> (r: u8)
        ensures
            r == spec_profile_idc(*self),
    {
        match *self {
            Profile::Baseline | Profile::ConstrainedBaseline => 66,
            Profile::Main => 77,
            Profile::High | Profile::ProgressiveHigh | Profile::ConstrainedHigh => 100,
            Profile::High422 | Profile::High422Intra => 122,
            Profile::High10 | Profile::High10Intra => 110,
            Profile::High444 | Profile::High444Intra => 244,
            Profile::Extended => 88,
            Profile::ScalableBase | Profile::ScalableConstrainedBaseline => 83,
            Profile::ScalableHigh | Profile::ScalableConstrainedHigh | Profile::ScalableHighIntra => 86,
            Profile::MultiviewHigh => 118,
            Profile::StereoHigh => 128,
            Profile::CavlcIntra444 => 44,
            Profile::MFCHigh => 134,
            Profile::MFCDepthHigh => 135,
            Profile::MultiviewDepthHigh => 138,
            Profile::EnhancedMultiviewDepthHigh => 139,
            Profile::Unknown(profile_idc) => profile_idc,
        }
    }
}

/// The profile read from any `profile_idc` and constraint flags gives back that `profile_idc`.
pub proof fn lemma_profile_idc_roundtrip(profile_idc: u8, flags: u8)
    ensures
        spec_profile_idc(spec_profile(profile_idc, flags)) == profile_idc,
{
}

#[derive(Copy, Clone, PartialEq, Eq, Structural, Debug)]
pub struct ConstraintFlags(pub(crate) u8);

impl From<u8> for ConstraintFlags {
    fn from(v: u8) -> (r: Self)
        ensures
            r.spec_value() == v,
    {
        ConstraintFlags(v)
    }
}

impl FromSpecImpl<u8> for ConstraintFlags {
    open spec fn obeys_from_spec() -> bool {
        true
    }

    closed spec fn from_spec(v: u8) -> Self {
        ConstraintFlags(v)
    }
}

impl From<ConstraintFlags> for u8 {
    fn from(v: ConstraintFlags) -> (r: Self) {
        v.0
    }
}

impl FromSpecImpl<ConstraintFlags> for u8 {
    open spec fn obeys_from_spec() -> bool {
        true
    }

    closed spec fn from_spec(v: ConstraintFlags) -> Self {
        v.0
    }
}

impl ConstraintFlags {
    /// The flags byte.
    pub closed spec fn spec_value(self) -> u8 {
        self.0
    }

    pub fn flag0(self) -> (r: bool)
        ensures
            r == ((self.spec_value() / 128) % 2 == 1),
    {
        let v = self.0;
        assert((v & 0b1000_0000 != 0) == ((v / 128) % 2 == 1)) by (bit_vector);
        v & 0b1000_0000 != 0
    }

    pub fn flag1(self) -> (r: bool)
        ensures
            r == ((self.spec_value() / 64) % 2 == 1),
    {
        let v = self.0;
        assert((v & 0b0100_0000 != 0) == ((v / 64) % 2 == 1)) by (bit_vector);
        v & 0b0100_0000 != 0
    }

    pub fn flag2(self) -> (r: bool)
        ensures
            r == ((self.spec_value() / 32) % 2 == 1),
    {
        let v = self.0;
        assert((v & 0b0010_0000 != 0) == ((v / 32) % 2 == 1)) by (bit_vector);
        v & 0b0010_0000 != 0
    }

    pub fn flag3(self) -> (r: bool)
        ensures
            r == ((self.spec_value() / 16) % 2 == 1),
    {
        let v = self.0;
        assert((v & 0b0001_0000 != 0) == ((v / 16) % 2 == 1)) by (bit_vector);
        v & 0b0001_0000 != 0
    }

    pub fn flag4(self) -> (r: bool)
        ensures
            r == ((self.spec_value() / 8) % 2 == 1),
    {
        let v = self.0;
        assert((v & 0b0000_1000 != 0) == ((v / 8) % 2 == 1)) by (bit_vector);
        v & 0b0000_1000 != 0
    }

    pub fn flag5(self) -> (r: bool)
        ensures
            r == ((self.spec_value() / 4) % 2 == 1),
    {
        let v = self.0;
        assert((v & 0b0000_0100 != 0) == ((v / 4) % 2 == 1)) by (bit_vector);
        v & 0b0000_0100 != 0
    }

    pub fn reserved_zero_two_bits(self) -> (r: u8)
        ensures
            r == self.spec_value() % 4,
    {
        let v = self.0;
        assert(v & 0b0000_0011 == v % 4) by (bit_vector);
        v & 0b0000_0011
    }
}

#[derive(Debug, Clone, Copy, PartialEq, Eq, Structural, Hash)]
#[allow(non_camel_case_types)]
pub enum Level {
    Unknown(u8),
    L1,
    L1_b,
    L1_1,
    L1_2,
    L1_3,
    L2,
    L2_1,
    L2_2,
    L3,
    L3_1,
    L3_2,
    L4,
    L4_1,
    L4_2,
    L5,
    L5_1,
    L5_2,
    L6,
    L6_1,
    L6_2,
}

/// The level named by `level_idc`; `11` with `constraint_set3_flag` is level 1b.
pub open spec fn spec_level(flags: u8, level_idc: u8) -> Level {
    if level_idc == 10 { Level::L1 }
    else if level_idc == 11 { if (flags / 16) % 2 == 1 { Level::L1_b } else { Level::L1_1 } }
    else if level_idc == 12 { Level::L1_2 }
    else if level_idc == 13 { Level::L1_3 }
    else if level_idc == 20 { Level::L2 }
    else if level_idc == 21 { Level::L2_1 }
    else if level_idc == 22 { Level::L2_2 }
    else if level_idc == 30 { Level::L3 }
    else if level_idc == 31 { Level::L3_1 }
    else if level_idc == 32 { Level::L3_2 }
    else if level_idc == 40 { Level::L4 }
    else if level_idc == 41 { Level::L4_1 }
    else if level_idc == 42 { Level::L4_2 }
    else if level_idc == 50 { Level::L5 }
    else if level_idc == 51 { Level::L5_1 }
    else if level_idc == 52 { Level::L5_2 }
    else if level_idc == 60 { Level::L6 }
    else if level_idc == 61 { Level::L6_1 }
    else if level_idc == 62 { Level::L6_2 }
    else { Level::Unknown(level_idc) }
}

/// The `level_idc` of a level.
pub open spec fn spec_level_idc(l: Level) -> u8 {
    match l {
        Level::L1 => 10,
        Level::L1_1 | Level::L1_b => 11,
        Level::L1_2 => 12,
        Level::L1_3 => 13,
        Level::L2 => 20,
        Level::L2_1 => 21,
        Level::L2_2 => 22,
        Level::L3 => 30,
        Level::L3_1 => 31,
        Level::L3_2 => 32,
        Level::L4 => 40,
        Level::L4_1 => 41,
        Level::L4_2 => 42,
        Level::L5 => 50,
        Level::L5_1 => 51,
        Level::L5_2 => 52,
        Level::L6 => 60,
        Level::L6_1 => 61,
        Level::L6_2 => 62,
        Level::Unknown(level_idc) => level_idc,
    }
}

impl Level {
    pub fn from_constraint_flags_and_level_idc(constraint_flags: ConstraintFlags, level_idc: u8) -> (r: Level)
        ensures
            r == spec_level(constraint_flags.spec_value(), level_idc),
    {
        match level_idc {
            10 => Level::L1,
            11 => {
                if constraint_flags.flag3() {
                    Level::L1_b
                } else {
                    Level::L1_1
                }
            },
            12 => Level::L1_2,
            13 => Level::L1_3,
            20 => Level::L2,
            21 => Level::L2_1,
            22 => Level::L2_2,
            30 => Level::L3,
            31 => Level::L3_1,
            32 => Level::L3_2,
            40 => Level::L4,
            41 => Level::L4_1,
            42 => Level::L4_2,
            50 => Level::L5,
            51 => Level::L5_1,
            52 => Level::L5_2,
            60 => Level::L6,
            61 => Level::L6_1,
            62 => Level::L6_2,
            _ => Level::Unknown(level_idc),
        }
    }

    pub fn level_idc(&self) -> (r: u8)
        ensures
            r == spec_level_idc(*self),
    {
        match *self {
            Level::L1 => 10,
            Level::L1_1 | Level::L1_b => 11,
            Level::L1_2 => 12,
            Level::L1_3 => 13,
            Level::L2 => 20,
            Level::L2_1 => 21,
            Level::L2_2 => 22,
            Level::L3 => 30,
            Level::L3_1 => 31,
            Level::L3_2 => 32,
            Level::L4 => 40,
            Level::L4_1 => 41,
            Level::L4_2 => 42,
            Level::L5 => 50,
            Level::L5_1 => 51,
            Level::L5_2 => 52,
            Level::L6 => 60,
            Level::L6_1 => 61,
            Level::L6_2 => 62,
            Level::Unknown(level_idc) => level_idc,
        }
    }
}

/// The level read from any `level_idc` and constraint flags gives back that `level_idc`.
pub proof fn lemma_level_idc_roundtrip(flags: u8, level_idc: u8)
    ensures
        spec_level_idc(spec_level(flags, level_idc)) == level_idc,
{
}

#[derive(Clone, Copy, Debug, PartialEq, Eq, Structural)]
pub enum ChromaFormat {
    Monochrome,
    YUV420,
    YUV422,
    YUV444,
    Invalid(u32),
}

impl Default for ChromaFormat {
    fn default() -> (r: Self)
        ensures
            r == ChromaFormat::YUV420,
    {
        ChromaFormat::YUV420
    }
}

/// The chroma format for `chroma_format_idc`.
pub open spec fn spec_chroma_format(chroma_format_idc: u32) -> ChromaFormat {
    if chroma_format_idc == 0 {
        ChromaFormat::Monochrome
    } else if chroma_format_idc == 1 {
        ChromaFormat::YUV420
    } else if chroma_format_idc == 2 {
        ChromaFormat::YUV422
    } else if chroma_format_idc == 3 {
        ChromaFormat::YUV444
    } else {
        ChromaFormat::Invalid(chroma_format_idc)
    }
}

/// The `chroma_format_idc` of a chroma format.
pub open spec fn spec_chroma_format_idc(f: ChromaFormat) -> u32 {
    match f {
        ChromaFormat::Monochrome => 0,
        ChromaFormat::YUV420 => 1,
        ChromaFormat::YUV422 => 2,
        ChromaFormat::YUV444 => 3,
        ChromaFormat::Invalid(chroma_format_idc) => chroma_format_idc,
    }
}

impl ChromaFormat {
    fn from_chroma_format_idc(chroma_format_idc: u32) -> (r: ChromaFormat)
        ensures
            r == spec_chroma_format(chroma_format_idc),
    {
        match chroma_format_idc {
            0 => ChromaFormat::Monochrome,
            1 => ChromaFormat::YUV420,
            2 => ChromaFormat::YUV422,
            3 => ChromaFormat::YUV444,
            _ => ChromaFormat::Invalid(chroma_format_idc),
        }
    }

    pub fn to_u32(self) -> (r: u32)
        ensures
            r == spec_chroma_format_idc(self),
    {
        match self {
            ChromaFormat::Monochrome => 0,
            ChromaFormat::YUV420 => 1,
            ChromaFormat::YUV422 => 2,
            ChromaFormat::YUV444 => 3,
            ChromaFormat::Invalid(chroma_format_idc) => chroma_format_idc,
        }
    }
}

/// Any `chroma_format_idc` survives the round trip through its chroma format.
pub proof fn lemma_chroma_format_roundtrip(chroma_format_idc: u32)
    ensures
        spec_chroma_format_idc(spec_chroma_format(chroma_format_idc)) == chroma_format_idc,
{
}

/// _Profile Indication_ value
#[derive(Copy, Clone, Debug, PartialEq, Eq, Structural)]
pub struct ProfileIdc(pub(crate) u8);

/// Whether the profile's `seq_parameter_set_data()` carries chroma format information.
pub open spec fn spec_has_chroma_info(profile_idc: u8) -> bool {
    profile_idc == 100 || profile_idc == 110 || profile_idc == 122 || profile_idc == 244 || profile_idc == 44
        || profile_idc == 83 || profile_idc == 86 || profile_idc == 118 || profile_idc == 128 || profile_idc == 134
        || profile_idc == 135 || profile_idc == 138 || profile_idc == 139
}

impl ProfileIdc {
    /// The `profile_idc` byte.
    pub closed spec fn spec_value(self) -> u8 {
        self.0
    }

    /// The `profile_idc` byte.
    pub fn value(self) -> (r: u8)
        ensures
            r == self.spec_value(),
    {
        self.0
    }

    pub fn has_chroma_info(self) -> (r: bool)
        ensures
            r == spec_has_chroma_info(self.spec_value()),
    {
        match self.0 {
            100 | 110 | 122 | 244 | 44 | 83 | 86 | 118 | 128 | 134 | 135 | 138 | 139 => true,
            _ => false,
        }
    }
}

impl From<u8> for ProfileIdc {
    fn from(v: u8) -> (r: Self)
        ensures
            r.spec_value() == v,
    {
        ProfileIdc(v)
    }
}

impl FromSpecImpl<u8> for ProfileIdc {
    open spec fn obeys_from_spec() -> bool {
        true
    }

    closed spec fn from_spec(v: u8) -> Self {
        ProfileIdc(v)
    }
}

impl From<ProfileIdc> for u8 {
    fn from(v: ProfileIdc) -> (r: Self) {
        v.0
    }
}

impl FromSpecImpl<ProfileIdc> for u8 {
    open spec fn obeys_from_spec() -> bool {
        true
    }

    closed spec fn from_spec(v: ProfileIdc) -> Self {
        v.0
    }
}

#[derive(Debug, Clone, Copy, PartialEq, Eq)]
pub enum ScalingMatrixError {
    ReaderError(BitReaderError),
    /// The `delta_scale` field must be between -128 and 127 inclusive.
    DeltaScaleOutOfRange(i32),
}

/// The `next_scale` values of one scaling list after `k` positions: the values, the stream,
/// `lastScale`, and whether the list was frozen by a zero.
pub open spec fn spec_fill_list(s: BitStream, k: nat) -> Result<(Seq<u8>, BitStream, u8, bool), ScalingMatrixError>
    decreases k,
{
    if k == 0 {
        Ok((Seq::empty(), s, 8u8, false))
    } else {
        match spec_fill_list(s, (k - 1) as nat) {
            Err(e) => Err(e),
            Ok((v, s1, last, done)) => if done {
                Ok((v.push(0u8), s1, last, true))
            } else {
                match spec_read_se(s1, "delta_scale") {
                    Err(e) => Err(ScalingMatrixError::ReaderError(e)),
                    Ok((d, s2)) => if d < -128 || d > 127 {
                        Err(ScalingMatrixError::DeltaScaleOutOfRange(d))
                    } else {
                        let next = ((last + d + 256) % 256) as u8;
                        Ok((v.push(next), s2, next, next == 0))
                    },
                }
            },
        }
    }
}

/// `scaling_list()` (7.3.2.1.1.1) of `size` entries.
pub open spec fn spec_scaling_list(s: BitStream, size: nat) -> Result<(Seq<u8>, BitStream), ScalingMatrixError> {
    match spec_fill_list(s, size) {
        Err(e) => Err(e),
        Ok((v, s2, _, _)) => Ok((v, s2)),
    }
}

/// `count` scaling lists of `size` entries, each preceded by its presence flag.
pub open spec fn spec_scaling_lists(s: BitStream, size: nat, count: nat) -> Result<(Seq<Option<Seq<u8>>>, BitStream), ScalingMatrixError>
    decreases count,
{
    if count == 0 {
        Ok((Seq::empty(), s))
    } else {
        match spec_scaling_lists(s, size, (count - 1) as nat) {
            Err(e) => Err(e),
            Ok((ls, s1)) => match spec_read_bit(s1, "*_scaling_list_present_flag") {
                Err(e) => Err(ScalingMatrixError::ReaderError(e)),
                Ok((present, s2)) => if present {
                    match spec_scaling_list(s2, size) {
                        Err(e) => Err(e),
                        Ok((l, s3)) => Ok((ls.push(Some(l)), s3)),
                    }
                } else {
                    Ok((ls.push(None), s2))
                },
            },
        }
    }
}

proof fn lemma_fill_list_err(s: BitStream, k: nat, n: nat)
    requires
        k <= n,
        spec_fill_list(s, k) is Err,
    ensures
        spec_fill_list(s, n) == spec_fill_list(s, k),
    decreases n,
{
    if n > k {
        lemma_fill_list_err(s, k, (n - 1) as nat);
    }
}

proof fn lemma_scaling_lists_err(s: BitStream, size: nat, k: nat, n: nat)
    requires
        k <= n,
        spec_scaling_lists(s, size, k) is Err,
    ensures
        spec_scaling_lists(s, size, n) == spec_scaling_lists(s, size, k),
    decreases n,
{
    if n > k {
        lemma_scaling_lists_err(s, size, k, (n - 1) as nat);
    }
}

/// Fills one scaling list of `size` entries: the values of `next_scale`, and zeros from the
/// first zero on.
pub(crate) fn fill_list(r: &mut BitReader, size: usize) -> (res: Result<Vec<u8>, ScalingMatrixError>)
    ensures
        match spec_scaling_list(old(r)@, size as nat) {
            Ok((v, s2)) => res matches Ok(w) && w@ == v && final(r)@ == s2,
            Err(e) => res == Err::<Vec<u8>, ScalingMatrixError>(e),
        },
{
    let ghost start = r@;
    let mut list: Vec<u8> = Vec::new();
    let mut last_scale: u8 = 8;
    let mut done = false;
    let mut j: usize = 0;
    while j < size
        invariant
            start == old(r)@,
            j <= size,
            spec_fill_list(start, j as nat) == Ok::<(Seq<u8>, BitStream, u8, bool), ScalingMatrixError>((list@, r@, last_scale, done)),
        decreases size - j,
    {
        if done {
            list.push(0);
        } else {
            let delta_scale = match r.read_se("delta_scale") {
                Ok(v) => v,
                Err(e) => {
                    proof { lemma_fill_list_err(start, (j + 1) as nat, size as nat); }
                    return Err(ScalingMatrixError::ReaderError(e));
                },
            };
            if delta_scale < -128 || delta_scale > 127 {
                proof { lemma_fill_list_err(start, (j + 1) as nat, size as nat); }
                return Err(ScalingMatrixError::DeltaScaleOutOfRange(delta_scale));
            }
            last_scale = ((last_scale as i32 + delta_scale + 256) % 256) as u8;
            list.push(last_scale);
            if last_scale == 0 {
                // following values are implicitly 0 also.
                done = true;
            }
        }
        j = j + 1;
    }
    Ok(list)
}

fn read_lists(r: &mut BitReader, size: usize, count: usize) -> (res: Result<Vec<Option<Vec<u8>>>, ScalingMatrixError>)
    ensures
        match spec_scaling_lists(old(r)@, size as nat, count as nat) {
            Ok((v, s2)) => res matches Ok(w) && lists_view(w@) == v && final(r)@ == s2,
            Err(e) => res == Err::<Vec<Option<Vec<u8>>>, ScalingMatrixError>(e),
        },
{
    let ghost start = r@;
    let mut lists: Vec<Option<Vec<u8>>> = Vec::new();
    let mut i: usize = 0;
    assert(lists_view(lists@) =~= Seq::<Option<Seq<u8>>>::empty());
    while i < count
        invariant
            start == old(r)@,
            i <= count,
            spec_scaling_lists(start, size as nat, i as nat) == Ok::<(Seq<Option<Seq<u8>>>, BitStream), ScalingMatrixError>((lists_view(lists@), r@)),
        decreases count - i,
    {
        let present = match r.read_bit("*_scaling_list_present_flag") {
            Ok(b) => b,
            Err(e) => {
                proof { lemma_scaling_lists_err(start, size as nat, (i + 1) as nat, count as nat); }
                return Err(ScalingMatrixError::ReaderError(e));
            },
        };
        let ghost prev = lists@;
        if present {
            let l = match fill_list(r, size) {
                Ok(l) => l,
                Err(e) => {
                    proof { lemma_scaling_lists_err(start, size as nat, (i + 1) as nat, count as nat); }
                    return Err(e);
                },
            };
            lists.push(Some(l));
        } else {
            lists.push(None);
        }
        assert(lists_view(lists@) =~= lists_view(prev).push(lists_view(lists@).last()));
        i = i + 1;
    }
    Ok(lists)
}

/// The scaling lists' values.
pub open spec fn lists_view(v: Seq<Option<Vec<u8>>>) -> Seq<Option<Seq<u8>>> {
    v.map_values(|o: Option<Vec<u8>>| match o {
        Some(l) => Some(l@),
        None => None,
    })
}

/// Each `u8` is the `next_scale` intermediate value at that position (see H.264
/// spec 7.3.2.1.1). A value of `0` at position `j` means the list was frozen at
/// `j`; all positions from `j` onward will also be `0`. A value of `0` at position
/// 0 means the list is entirely the default value.
#[derive(Clone, Debug, Default, PartialEq, Eq)]
pub struct ScalingLists4x4(Vec<Option<Vec<u8>>>);

impl View for ScalingLists4x4 {
    type V = Seq<Option<Seq<u8>>>;

    closed spec fn view(&self) -> Seq<Option<Seq<u8>>> {
        lists_view(self.0@)
    }
}

impl ScalingLists4x4 {
    /// Six 4x4 scaling lists of `next_scale` values; `None` for a list not present.
    pub fn new(lists: Vec<Option<Vec<u8>>>) -> (r: ScalingLists4x4)
        ensures
            r@ == lists_view(lists@),
    {
        ScalingLists4x4(lists)
    }

    pub(crate) fn read(r: &mut BitReader) -> (res: Result<Self, ScalingMatrixError>)
        ensures
            parsed_view(res, spec_scaling_lists(old(r)@, 16, 6), final(r)@),
    {
        match read_lists(r, 16, 6) {
            Ok(l) => Ok(ScalingLists4x4(l)),
            Err(e) => Err(e),
        }
    }
}

/// As with [`ScalingLists4x4`], each `u8` is a `next_scale` intermediate value.
#[derive(Clone, Debug, PartialEq, Eq)]
pub enum ScalingLists8x8 {
    /// 8x8 scaling lists for formats other than [`ChromaFormat::YUV444`], used only for luma (Y) components.
    Y(Vec<Option<Vec<u8>>>),
    /// 8x8 scaling lists for [`ChromaFormat::YUV444`], used for both luma (Y) and chroma (Cb/Cr) components.
    YCbCr(Vec<Option<Vec<u8>>>),
}

/// The values of a set of 8x8 scaling lists: whether they cover chroma too, and the lists.
pub ghost struct ScalingLists8x8View {
    pub ycbcr: bool,
    pub lists: Seq<Option<Seq<u8>>>,
}

impl View for ScalingLists8x8 {
    type V = ScalingLists8x8View;

    closed spec fn view(&self) -> ScalingLists8x8View {
        match self {
            ScalingLists8x8::Y(l) => ScalingLists8x8View { ycbcr: false, lists: lists_view(l@) },
            ScalingLists8x8::YCbCr(l) => ScalingLists8x8View { ycbcr: true, lists: lists_view(l@) },
        }
    }
}

/// The 8x8 scaling lists: six for 4:4:4, else two.
pub open spec fn spec_scaling_lists_8x8(s: BitStream, chroma_format: ChromaFormat) -> Result<(ScalingLists8x8View, BitStream), ScalingMatrixError> {
    let ycbcr = chroma_format == ChromaFormat::YUV444;
    match spec_scaling_lists(s, 64, if ycbcr { 6 } else { 2 }) {
        Err(e) => Err(e),
        Ok((l, s2)) => Ok((ScalingLists8x8View { ycbcr, lists: l }, s2)),
    }
}

impl ScalingLists8x8 {
    pub(crate) fn read(r: &mut BitReader, chroma_format: ChromaFormat) -> (res: Result<Self, ScalingMatrixError>)
        ensures
            parsed_view(res, spec_scaling_lists_8x8(old(r)@, chroma_format), final(r)@),
    {
        match chroma_format {
            ChromaFormat::YUV444 => match read_lists(r, 64, 6) {
                Ok(l) => Ok(Self::YCbCr(l)),
                Err(e) => Err(e),
            },
            _ => match read_lists(r, 64, 2) {
                Ok(l) => Ok(Self::Y(l)),
                Err(e) => Err(e),
            },
        }
    }
}

/// Matrix of scaling values.
#[derive(Clone, Debug, PartialEq, Eq)]
pub struct SeqScalingMatrix {
    scaling_lists4x4: ScalingLists4x4,
    scaling_lists8x8: ScalingLists8x8,
}

/// The values of a scaling matrix.
pub ghost struct SeqScalingMatrixView {
    pub lists4x4: Seq<Option<Seq<u8>>>,
    pub lists8x8: ScalingLists8x8View,
}

impl View for SeqScalingMatrix {
    type V = SeqScalingMatrixView;

    closed spec fn view(&self) -> SeqScalingMatrixView {
        SeqScalingMatrixView { lists4x4: self.scaling_lists4x4@, lists8x8: self.scaling_lists8x8@ }
    }
}

/// The scaling matrix of a sequence (7.3.2.1.1).
pub open spec fn spec_seq_scaling_matrix(s: BitStream, chroma_format: ChromaFormat) -> Result<(SeqScalingMatrixView, BitStream), ScalingMatrixError> {
    match spec_scaling_lists(s, 16, 6) {
        Err(e) => Err(e),
        Ok((l4, s1)) => match spec_scaling_lists_8x8(s1, chroma_format) {
            Err(e) => Err(e),
            Ok((l8, s2)) => Ok((SeqScalingMatrixView { lists4x4: l4, lists8x8: l8 }, s2)),
        },
    }
}

impl SeqScalingMatrix {
    pub fn new(scaling_lists4x4: ScalingLists4x4, scaling_lists8x8: ScalingLists8x8) -> (r: SeqScalingMatrix)
        ensures
            r@ == (SeqScalingMatrixView { lists4x4: scaling_lists4x4@, lists8x8: scaling_lists8x8@ }),
    {
        SeqScalingMatrix { scaling_lists4x4, scaling_lists8x8 }
    }

    fn read(r: &mut BitReader, chroma_format: ChromaFormat) -> (res: Result<SeqScalingMatrix, ScalingMatrixError>)
        ensures
            parsed_view(res, spec_seq_scaling_matrix(old(r)@, chroma_format), final(r)@),
    {
        let scaling_lists4x4 = match ScalingLists4x4::read(r) {
            Ok(v) => v,
            Err(e) => return Err(e),
        };
        let scaling_lists8x8 = match ScalingLists8x8::read(r, chroma_format) {
            Ok(v) => v,
            Err(e) => return Err(e),
        };
        Ok(SeqScalingMatrix { scaling_lists4x4, scaling_lists8x8 })
    }
}

#[derive(Debug, Default, Clone, PartialEq, Eq)]
pub struct ChromaInfo {
    pub chroma_format: ChromaFormat,
    pub separate_colour_plane_flag: bool,
    pub bit_depth_luma_minus8: u8,
    pub bit_depth_chroma_minus8: u8,
    pub qpprime_y_zero_transform_bypass_flag: bool,
    pub scaling_matrix: Option<Box<SeqScalingMatrix>>,
}

/// The values of a [`ChromaInfo`].
pub ghost struct ChromaInfoView {
    pub chroma_format: ChromaFormat,
    pub separate_colour_plane_flag: bool,
    pub bit_depth_luma_minus8: u8,
    pub bit_depth_chroma_minus8: u8,
    pub qpprime_y_zero_transform_bypass_flag: bool,
    pub scaling_matrix: Option<SeqScalingMatrixView>,
}

impl View for ChromaInfo {
    type V = ChromaInfoView;

    open spec fn view(&self) -> ChromaInfoView {
        ChromaInfoView {
            chroma_format: self.chroma_format,
            separate_colour_plane_flag: self.separate_colour_plane_flag,
            bit_depth_luma_minus8: self.bit_depth_luma_minus8,
            bit_depth_chroma_minus8: self.bit_depth_chroma_minus8,
            qpprime_y_zero_transform_bypass_flag: self.qpprime_y_zero_transform_bypass_flag,
            scaling_matrix: match self.scaling_matrix {
                Some(m) => Some(m@),
                None => None,
            },
        }
    }
}

/// The chroma information of profiles without it: 4:2:0, 8 bits, no scaling matrix.
pub open spec fn default_chroma_info() -> ChromaInfoView {
    ChromaInfoView {
        chroma_format: ChromaFormat::YUV420,
        separate_colour_plane_flag: false,
        bit_depth_luma_minus8: 0,
        bit_depth_chroma_minus8: 0,
        qpprime_y_zero_transform_bypass_flag: false,
        scaling_matrix: None,
    }
}

/// `bit_depth_*_minus8`, at most 6.
pub open spec fn spec_bit_depth_minus8(s: BitStream) -> Result<(u8, BitStream), SpsError> {
    match spec_read_ue(s, "read_bit_depth_minus8") {
        Err(e) => Err(SpsError::RbspReaderError(e)),
        Ok((v, s2)) => if v > 6 { Err(SpsError::BitDepthOutOfRange(v)) } else { Ok((v as u8, s2)) },
    }
}

/// The optional scaling matrix after its presence flag.
pub open spec fn spec_opt_scaling_matrix(s: BitStream, chroma_format: ChromaFormat) -> Result<(Option<SeqScalingMatrixView>, BitStream), SpsError> {
    match spec_read_bit(s, "scaling_matrix_present_flag") {
        Err(e) => Err(SpsError::RbspReaderError(e)),
        Ok((present, s1)) => if present {
            match spec_seq_scaling_matrix(s1, chroma_format) {
                Err(e) => Err(SpsError::ScalingMatrix(e)),
                Ok((m, s2)) => Ok((Some(m), s2)),
            }
        } else {
            Ok((None, s1))
        },
    }
}

/// The chroma information of `seq_parameter_set_data()` for the given profile.
pub open spec fn spec_chroma_info(s: BitStream, profile_idc: u8) -> Result<(ChromaInfoView, BitStream), SpsError> {
    if !spec_has_chroma_info(profile_idc) {
        Ok((default_chroma_info(), s))
    } else {
        match spec_read_ue(s, "chroma_format_idc") {
            Err(e) => Err(SpsError::RbspReaderError(e)),
            Ok((idc, s1)) => {
                let sep = if idc == 3 { spec_read_bit(s1, "separate_colour_plane_flag") } else { Ok((false, s1)) };
                match sep {
                    Err(e) => Err(SpsError::RbspReaderError(e)),
                    Ok((separate_colour_plane_flag, s2)) => match spec_bit_depth_minus8(s2) {
                        Err(e) => Err(e),
                        Ok((bit_depth_luma_minus8, s3)) => match spec_bit_depth_minus8(s3) {
                            Err(e) => Err(e),
                            Ok((bit_depth_chroma_minus8, s4)) => match spec_read_bit(s4, "qpprime_y_zero_transform_bypass_flag") {
                                Err(e) => Err(SpsError::RbspReaderError(e)),
                                Ok((qpprime_y_zero_transform_bypass_flag, s5)) => match spec_opt_scaling_matrix(s5, spec_chroma_format(idc)) {
                                    Err(e) => Err(e),
                                    Ok((scaling_matrix, s6)) => Ok((
                                        ChromaInfoView {
                                            chroma_format: spec_chroma_format(idc),
                                            separate_colour_plane_flag,
                                            bit_depth_luma_minus8,
                                            bit_depth_chroma_minus8,
                                            qpprime_y_zero_transform_bypass_flag,
                                            scaling_matrix,
                                        },
                                        s6,
                                    )),
                                },
                            },
                        },
                    },
                }
            },
        }
    }
}

impl ChromaInfo {
    /// Returns `ChromaArrayType` as defined by the spec: 0 if `separate_colour_plane_flag` is
    /// true, otherwise equal to `chroma_format_idc`.
    pub fn chroma_array_type(&self) -> (r: u8)
        ensures
            r == if self.separate_colour_plane_flag { 0u8 } else { spec_chroma_format_idc(self.chroma_format) as u8 },
    {
        if self.separate_colour_plane_flag {
            0
        } else {
            self.chroma_format.to_u32() as u8
        }
    }

    pub fn read(r: &mut BitReader, profile_idc: ProfileIdc) -> (res: Result<ChromaInfo, SpsError>)
        ensures
            parsed_view(res, spec_chroma_info(old(r)@, profile_idc.spec_value()), final(r)@),
    {
        if profile_idc.has_chroma_info() {
            let chroma_format_idc = match r.read_ue("chroma_format_idc") {
                Ok(v) => v,
                Err(e) => return Err(SpsError::RbspReaderError(e)),
            };
            let chroma_format = ChromaFormat::from_chroma_format_idc(chroma_format_idc);
            let separate_colour_plane_flag = if chroma_format_idc == 3 {
                match r.read_bit("separate_colour_plane_flag") {
                    Ok(v) => v,
                    Err(e) => return Err(SpsError::RbspReaderError(e)),
                }
            } else {
                false
            };
            let bit_depth_luma_minus8 = match Self::read_bit_depth_minus8(r) {
                Ok(v) => v,
                Err(e) => return Err(e),
            };
            let bit_depth_chroma_minus8 = match Self::read_bit_depth_minus8(r) {
                Ok(v) => v,
                Err(e) => return Err(e),
            };
            let qpprime_y_zero_transform_bypass_flag = match r.read_bit("qpprime_y_zero_transform_bypass_flag") {
                Ok(v) => v,
                Err(e) => return Err(SpsError::RbspReaderError(e)),
            };
            let scaling_matrix = match Self::read_scaling_matrix(r, chroma_format) {
                Ok(v) => v,
                Err(e) => return Err(e),
            };
            Ok(ChromaInfo {
                chroma_format,
                separate_colour_plane_flag,
                bit_depth_luma_minus8,
                bit_depth_chroma_minus8,
                qpprime_y_zero_transform_bypass_flag,
                scaling_matrix,
            })
        } else {
            Ok(ChromaInfo {
                chroma_format: ChromaFormat::YUV420,
                separate_colour_plane_flag: false,
                bit_depth_luma_minus8: 0,
                bit_depth_chroma_minus8: 0,
                qpprime_y_zero_transform_bypass_flag: false,
                scaling_matrix: None,
            })
        }
    }

    fn read_bit_depth_minus8(r: &mut BitReader) -> (res: Result<u8, SpsError>)
        ensures
            parsed(res, spec_bit_depth_minus8(old(r)@), final(r)@),
    {
        let value = match r.read_ue("read_bit_depth_minus8") {
            Ok(v) => v,
            Err(e) => return Err(SpsError::RbspReaderError(e)),
        };
        if value > 6 {
            Err(SpsError::BitDepthOutOfRange(value))
        } else {
            Ok(value as u8)
        }
    }

    fn read_scaling_matrix(r: &mut BitReader, chroma_format: ChromaFormat) -> (res: Result<Option<Box<SeqScalingMatrix>>, SpsError>)
        ensures
            match spec_opt_scaling_matrix(old(r)@, chroma_format) {
                Ok((v, s2)) => res matches Ok(o) && final(r)@ == s2 && match o {
                    Some(m) => v == Some(m@),
                    None => v is None,
                },
                Err(e) => res == Err::<Option<Box<SeqScalingMatrix>>, SpsError>(e),
            },
    {
        let scaling_matrix_present_flag = match r.read_bit("scaling_matrix_present_flag") {
            Ok(v) => v,
            Err(e) => return Err(SpsError::RbspReaderError(e)),
        };
        if scaling_matrix_present_flag {
            match SeqScalingMatrix::read(r, chroma_format) {
                Ok(m) => Ok(Some(Box::new(m))),
                Err(e) => Err(SpsError::ScalingMatrix(e)),
            }
        } else {
            Ok(None)
        }
    }
}

#[derive(Debug, Clone, Copy, PartialEq, Eq)]
pub enum PicOrderCntError {
    InvalidPicOrderCountType(u32),
    ReaderError(BitReaderError),
    /// log2_max_pic_order_cnt_lsb_minus4 must be between 0 and 12
    Log2MaxPicOrderCntLsbMinus4OutOfRange(u32),
    /// num_ref_frames_in_pic_order_cnt_cycle must be between 0 and 255
    NumRefFramesInPicOrderCntCycleOutOfRange(u32),
}

#[derive(Clone, Debug, PartialEq, Eq)]
pub enum PicOrderCntType {
    TypeZero { log2_max_pic_order_cnt_lsb_minus4: u8 },
    TypeOne {
        delta_pic_order_always_zero_flag: bool,
        offset_for_non_ref_pic: i32,
        offset_for_top_to_bottom_field: i32,
        offsets_for_ref_frame: Vec<i32>,
    },
    TypeTwo,
}

/// The values of a [`PicOrderCntType`].
pub ghost enum PicOrderCntTypeView {
    TypeZero { log2_max_pic_order_cnt_lsb_minus4: u8 },
    TypeOne {
        delta_pic_order_always_zero_flag: bool,
        offset_for_non_ref_pic: i32,
        offset_for_top_to_bottom_field: i32,
        offsets_for_ref_frame: Seq<i32>,
    },
    TypeTwo,
}

impl View for PicOrderCntType {
    type V = PicOrderCntTypeView;

    open spec fn view(&self) -> PicOrderCntTypeView {
        match self {
            PicOrderCntType::TypeZero { log2_max_pic_order_cnt_lsb_minus4 } => PicOrderCntTypeView::TypeZero {
                log2_max_pic_order_cnt_lsb_minus4: *log2_max_pic_order_cnt_lsb_minus4,
            },
            PicOrderCntType::TypeOne {
                delta_pic_order_always_zero_flag,
                offset_for_non_ref_pic,
                offset_for_top_to_bottom_field,
                offsets_for_ref_frame,
            } => PicOrderCntTypeView::TypeOne {
                delta_pic_order_always_zero_flag: *delta_pic_order_always_zero_flag,
                offset_for_non_ref_pic: *offset_for_non_ref_pic,
                offset_for_top_to_bottom_field: *offset_for_top_to_bottom_field,
                offsets_for_ref_frame: offsets_for_ref_frame@,
            },
            PicOrderCntType::TypeTwo => PicOrderCntTypeView::TypeTwo,
        }
    }
}

/// `n` values of `offset_for_ref_frame`.
pub open spec fn spec_offsets_for_ref_frame(s: BitStream, n: nat) -> Result<(Seq<i32>, BitStream), PicOrderCntError>
    decreases n,
{
    if n == 0 {
        Ok((Seq::empty(), s))
    } else {
        match spec_offsets_for_ref_frame(s, (n - 1) as nat) {
            Err(e) => Err(e),
            Ok((v, s1)) => match spec_read_se(s1, "offset_for_ref_frame") {
                Err(e) => Err(PicOrderCntError::ReaderError(e)),
                Ok((o, s2)) => Ok((v.push(o), s2)),
            },
        }
    }
}

proof fn lemma_offsets_err(s: BitStream, k: nat, n: nat)
    requires
        k <= n,
        spec_offsets_for_ref_frame(s, k) is Err,
    ensures
        spec_offsets_for_ref_frame(s, n) == spec_offsets_for_ref_frame(s, k),
    decreases n,
{
    if n > k {
        lemma_offsets_err(s, k, (n - 1) as nat);
    }
}

/// The picture order count fields of `seq_parameter_set_data()`.
pub open spec fn spec_pic_order_cnt(s: BitStream) -> Result<(PicOrderCntTypeView, BitStream), PicOrderCntError> {
    match spec_read_ue(s, "pic_order_cnt_type") {
        Err(e) => Err(PicOrderCntError::ReaderError(e)),
        Ok((t, s1)) => if t == 0 {
            match spec_read_ue(s1, "log2_max_pic_order_cnt_lsb_minus4") {
                Err(e) => Err(PicOrderCntError::ReaderError(e)),
                Ok((v, s2)) => if v > 12 {
                    Err(PicOrderCntError::Log2MaxPicOrderCntLsbMinus4OutOfRange(v))
                } else {
                    Ok((PicOrderCntTypeView::TypeZero { log2_max_pic_order_cnt_lsb_minus4: v as u8 }, s2))
                },
            }
        } else if t == 1 {
            match spec_read_bit(s1, "delta_pic_order_always_zero_flag") {
                Err(e) => Err(PicOrderCntError::ReaderError(e)),
                Ok((f, s2)) => match spec_read_se(s2, "offset_for_non_ref_pic") {
                    Err(e) => Err(PicOrderCntError::ReaderError(e)),
                    Ok((o1, s3)) => match spec_read_se(s3, "offset_for_top_to_bottom_field") {
                        Err(e) => Err(PicOrderCntError::ReaderError(e)),
                        Ok((o2, s4)) => match spec_read_ue(s4, "num_ref_frames_in_pic_order_cnt_cycle") {
                            Err(e) => Err(PicOrderCntError::ReaderError(e)),
                            Ok((n, s5)) => if n > 255 {
                                Err(PicOrderCntError::NumRefFramesInPicOrderCntCycleOutOfRange(n))
                            } else {
                                match spec_offsets_for_ref_frame(s5, n as nat) {
                                    Err(e) => Err(e),
                                    Ok((offs, s6)) => Ok((
                                        PicOrderCntTypeView::TypeOne {
                                            delta_pic_order_always_zero_flag: f,
                                            offset_for_non_ref_pic: o1,
                                            offset_for_top_to_bottom_field: o2,
                                            offsets_for_ref_frame: offs,
                                        },
                                        s6,
                                    )),
                                }
                            },
                        },
                    },
                },
            }
        } else if t == 2 {
            Ok((PicOrderCntTypeView::TypeTwo, s1))
        } else {
            Err(PicOrderCntError::InvalidPicOrderCountType(t))
        },
    }
}

impl PicOrderCntType {
    fn read(r: &mut BitReader) -> (res: Result<PicOrderCntType, PicOrderCntError>)
        ensures
            parsed_view(res, spec_pic_order_cnt(old(r)@), final(r)@),
    {
        let pic_order_cnt_type = match r.read_ue("pic_order_cnt_type") {
            Ok(v) => v,
            Err(e) => return Err(PicOrderCntError::ReaderError(e)),
        };
        match pic_order_cnt_type {
            0 => {
                let val = match r.read_ue("log2_max_pic_order_cnt_lsb_minus4") {
                    Ok(v) => v,
                    Err(e) => return Err(PicOrderCntError::ReaderError(e)),
                };
                if val > 12 {
                    return Err(PicOrderCntError::Log2MaxPicOrderCntLsbMinus4OutOfRange(val));
                }
                Ok(PicOrderCntType::TypeZero { log2_max_pic_order_cnt_lsb_minus4: val as u8 })
            },
            1 => {
                let delta_pic_order_always_zero_flag = match r.read_bit("delta_pic_order_always_zero_flag") {
                    Ok(v) => v,
                    Err(e) => return Err(PicOrderCntError::ReaderError(e)),
                };
                let offset_for_non_ref_pic = match r.read_se("offset_for_non_ref_pic") {
                    Ok(v) => v,
                    Err(e) => return Err(PicOrderCntError::ReaderError(e)),
                };
                let offset_for_top_to_bottom_field = match r.read_se("offset_for_top_to_bottom_field") {
                    Ok(v) => v,
                    Err(e) => return Err(PicOrderCntError::ReaderError(e)),
                };
                let offsets_for_ref_frame = match Self::read_offsets_for_ref_frame(r) {
                    Ok(v) => v,
                    Err(e) => return Err(e),
                };
                Ok(PicOrderCntType::TypeOne {
                    delta_pic_order_always_zero_flag,
                    offset_for_non_ref_pic,
                    offset_for_top_to_bottom_field,
                    offsets_for_ref_frame,
                })
            },
            2 => Ok(PicOrderCntType::TypeTwo),
            _ => Err(PicOrderCntError::InvalidPicOrderCountType(pic_order_cnt_type)),
        }
    }

    fn read_offsets_for_ref_frame(r: &mut BitReader) -> (res: Result<Vec<i32>, PicOrderCntError>)
        ensures
            match spec_read_ue(old(r)@, "num_ref_frames_in_pic_order_cnt_cycle") {
                Err(e) => res == Err::<Vec<i32>, PicOrderCntError>(PicOrderCntError::ReaderError(e)),
                Ok((n, s1)) => if n > 255 {
                    res == Err::<Vec<i32>, PicOrderCntError>(PicOrderCntError::NumRefFramesInPicOrderCntCycleOutOfRange(n))
                } else {
                    match spec_offsets_for_ref_frame(s1, n as nat) {
                        Ok((v, s2)) => res matches Ok(w) && w@ == v && final(r)@ == s2,
                        Err(e) => res == Err::<Vec<i32>, PicOrderCntError>(e),
                    }
                },
            },
    {
        let num_ref_frames_in_pic_order_cnt_cycle = match r.read_ue("num_ref_frames_in_pic_order_cnt_cycle") {
            Ok(v) => v,
            Err(e) => return Err(PicOrderCntError::ReaderError(e)),
        };
        if num_ref_frames_in_pic_order_cnt_cycle > 255 {
            return Err(PicOrderCntError::NumRefFramesInPicOrderCntCycleOutOfRange(num_ref_frames_in_pic_order_cnt_cycle));
        }
        let ghost start = r@;
        let mut offsets: Vec<i32> = Vec::new();
        let mut i: u32 = 0;
        while i < num_ref_frames_in_pic_order_cnt_cycle
            invariant
                spec_read_ue(old(r)@, "num_ref_frames_in_pic_order_cnt_cycle")
                    == Ok::<(u32, BitStream), BitReaderError>((num_ref_frames_in_pic_order_cnt_cycle, start)),
                num_ref_frames_in_pic_order_cnt_cycle <= 255,
                i <= num_ref_frames_in_pic_order_cnt_cycle,
                spec_offsets_for_ref_frame(start, i as nat) == Ok::<(Seq<i32>, BitStream), PicOrderCntError>((offsets@, r@)),
            decreases num_ref_frames_in_pic_order_cnt_cycle - i,
        {
            let o = match r.read_se("offset_for_ref_frame") {
                Ok(v) => v,
                Err(e) => {
                    proof { lemma_offsets_err(start, (i + 1) as nat, num_ref_frames_in_pic_order_cnt_cycle as nat); }
                    return Err(PicOrderCntError::ReaderError(e));
                },
            };
            offsets.push(o);
            i = i + 1;
        }
        Ok(offsets)
    }
}

#[derive(Clone, Copy, Debug, PartialEq, Eq, Structural)]
pub enum FrameMbsFlags {
    Frames,
    Fields { mb_adaptive_frame_field_flag: bool },
}

/// `frame_mbs_only_flag`, then `mb_adaptive_frame_field_flag` for fields.
pub open spec fn spec_frame_mbs_flags(s: BitStream) -> Result<(FrameMbsFlags, BitStream), BitReaderError> {
    match spec_read_bit(s, "frame_mbs_only_flag") {
        Err(e) => Err(e),
        Ok((frames, s1)) => if frames {
            Ok((FrameMbsFlags::Frames, s1))
        } else {
            match spec_read_bit(s1, "mb_adaptive_frame_field_flag") {
                Err(e) => Err(e),
                Ok((f, s2)) => Ok((FrameMbsFlags::Fields { mb_adaptive_frame_field_flag: f }, s2)),
            }
        },
    }
}

impl FrameMbsFlags {
    fn read(r: &mut BitReader) -> (res: Result<FrameMbsFlags, BitReaderError>)
        ensures
            parsed(res, spec_frame_mbs_flags(old(r)@), final(r)@),
    {
        let frame_mbs_only_flag = match r.read_bit("frame_mbs_only_flag") {
            Ok(v) => v,
            Err(e) => return Err(e),
        };
        if frame_mbs_only_flag {
            Ok(FrameMbsFlags::Frames)
        } else {
            match r.read_bit("mb_adaptive_frame_field_flag") {
                Ok(v) => Ok(FrameMbsFlags::Fields { mb_adaptive_frame_field_flag: v }),
                Err(e) => Err(e),
            }
        }
    }
}

#[derive(Clone, Copy, Debug, Default, PartialEq, Eq, Structural)]
pub struct FrameCropping {
    pub left_offset: u32,
    pub right_offset: u32,
    pub top_offset: u32,
    pub bottom_offset: u32,
}

/// The frame cropping offsets after their presence flag.
pub open spec fn spec_frame_cropping(s: BitStream) -> Result<(Option<FrameCropping>, BitStream), BitReaderError> {
    match spec_read_bit(s, "frame_cropping_flag") {
        Err(e) => Err(e),
        Ok((present, s1)) => if !present {
            Ok((None, s1))
        } else {
            match spec_read_ue(s1, "left_offset") {
                Err(e) => Err(e),
                Ok((l, s2)) => match spec_read_ue(s2, "right_offset") {
                    Err(e) => Err(e),
                    Ok((rt, s3)) => match spec_read_ue(s3, "top_offset") {
                        Err(e) => Err(e),
                        Ok((t, s4)) => match spec_read_ue(s4, "bottom_offset") {
                            Err(e) => Err(e),
                            Ok((b, s5)) => Ok((
                                Some(FrameCropping { left_offset: l, right_offset: rt, top_offset: t, bottom_offset: b }),
                                s5,
                            )),
                        },
                    },
                },
            }
        },
    }
}

impl FrameCropping {
    fn read(r: &mut BitReader) -> (res: Result<Option<FrameCropping>, BitReaderError>)
        ensures
            parsed(res, spec_frame_cropping(old(r)@), final(r)@),
    {
        let frame_cropping_flag = match r.read_bit("frame_cropping_flag") {
            Ok(v) => v,
            Err(e) => return Err(e),
        };
        if !frame_cropping_flag {
            return Ok(None);
        }
        let left_offset = match r.read_ue("left_offset") {
            Ok(v) => v,
            Err(e) => return Err(e),
        };
        let right_offset = match r.read_ue("right_offset") {
            Ok(v) => v,
            Err(e) => return Err(e),
        };
        let top_offset = match r.read_ue("top_offset") {
            Ok(v) => v,
            Err(e) => return Err(e),
        };
        let bottom_offset = match r.read_ue("bottom_offset") {
            Ok(v) => v,
            Err(e) => return Err(e),
        };
        Ok(Some(FrameCropping { left_offset, right_offset, top_offset, bottom_offset }))
    }
}

#[derive(Clone, Copy, Debug, PartialEq, Eq, Structural)]
pub enum AspectRatioInfo {
    Unspecified,
    Ratio1_1,
    Ratio12_11,
    Ratio10_11,
    Ratio16_11,
    Ratio40_33,
    Ratio24_11,
    Ratio20_11,
    Ratio32_11,
    Ratio80_33,
    Ratio18_11,
    Ratio15_11,
    Ratio64_33,
    Ratio160_99,
    Ratio4_3,
    Ratio3_2,
    Ratio2_1,
    Reserved(u8),
    Extended(u16, u16),
}

impl Default for AspectRatioInfo {
    fn default() -> (r: Self)
        ensures
            r == AspectRatioInfo::Unspecified,
    {
        AspectRatioInfo::Unspecified
    }
}

/// The aspect ratio for `aspect_ratio_idc` other than `255` (Table E-1).
pub open spec fn spec_aspect_ratio(idc: u8) -> AspectRatioInfo {
    if idc == 0 { AspectRatioInfo::Unspecified }
    else if idc == 1 { AspectRatioInfo::Ratio1_1 }
    else if idc == 2 { AspectRatioInfo::Ratio12_11 }
    else if idc == 3 { AspectRatioInfo::Ratio10_11 }
    else if idc == 4 { AspectRatioInfo::Ratio16_11 }
    else if idc == 5 { AspectRatioInfo::Ratio40_33 }
    else if idc == 6 { AspectRatioInfo::Ratio24_11 }
    else if idc == 7 { AspectRatioInfo::Ratio20_11 }
    else if idc == 8 { AspectRatioInfo::Ratio32_11 }
    else if idc == 9 { AspectRatioInfo::Ratio80_33 }
    else if idc == 10 { AspectRatioInfo::Ratio18_11 }
    else if idc == 11 { AspectRatioInfo::Ratio15_11 }
    else if idc == 12 { AspectRatioInfo::Ratio64_33 }
    else if idc == 13 { AspectRatioInfo::Ratio160_99 }
    else if idc == 14 { AspectRatioInfo::Ratio4_3 }
    else if idc == 15 { AspectRatioInfo::Ratio3_2 }
    else if idc == 16 { AspectRatioInfo::Ratio2_1 }
    else { AspectRatioInfo::Reserved(idc) }
}

/// The sample aspect ratio as `(width, height)` (Table E-1).
pub open spec fn spec_aspect_ratio_get(a: AspectRatioInfo) -> Option<(u16, u16)> {
    match a {
        AspectRatioInfo::Unspecified => None,
        AspectRatioInfo::Ratio1_1 => Some((1, 1)),
        AspectRatioInfo::Ratio12_11 => Some((12, 11)),
        AspectRatioInfo::Ratio10_11 => Some((10, 11)),
        AspectRatioInfo::Ratio16_11 => Some((16, 11)),
        AspectRatioInfo::Ratio40_33 => Some((40, 33)),
        AspectRatioInfo::Ratio24_11 => Some((24, 11)),
        AspectRatioInfo::Ratio20_11 => Some((20, 11)),
        AspectRatioInfo::Ratio32_11 => Some((32, 11)),
        AspectRatioInfo::Ratio80_33 => Some((80, 33)),
        AspectRatioInfo::Ratio18_11 => Some((18, 11)),
        AspectRatioInfo::Ratio15_11 => Some((15, 11)),
        AspectRatioInfo::Ratio64_33 => Some((64, 33)),
        AspectRatioInfo::Ratio160_99 => Some((160, 99)),
        AspectRatioInfo::Ratio4_3 => Some((4, 3)),
        AspectRatioInfo::Ratio3_2 => Some((3, 2)),
        AspectRatioInfo::Ratio2_1 => Some((2, 1)),
        AspectRatioInfo::Reserved(_) => None,
        AspectRatioInfo::Extended(width, height) => if width == 0 || height == 0 {
            None
        } else {
            Some((width, height))
        },
    }
}

/// The `aspect_ratio_idc` of an aspect ratio.
pub open spec fn spec_aspect_ratio_idc(a: AspectRatioInfo) -> u8 {
    match a {
        AspectRatioInfo::Unspecified => 0,
        AspectRatioInfo::Ratio1_1 => 1,
        AspectRatioInfo::Ratio12_11 => 2,
        AspectRatioInfo::Ratio10_11 => 3,
        AspectRatioInfo::Ratio16_11 => 4,
        AspectRatioInfo::Ratio40_33 => 5,
        AspectRatioInfo::Ratio24_11 => 6,
        AspectRatioInfo::Ratio20_11 => 7,
        AspectRatioInfo::Ratio32_11 => 8,
        AspectRatioInfo::Ratio80_33 => 9,
        AspectRatioInfo::Ratio18_11 => 10,
        AspectRatioInfo::Ratio15_11 => 11,
        AspectRatioInfo::Ratio64_33 => 12,
        AspectRatioInfo::Ratio160_99 => 13,
        AspectRatioInfo::Ratio4_3 => 14,
        AspectRatioInfo::Ratio3_2 => 15,
        AspectRatioInfo::Ratio2_1 => 16,
        AspectRatioInfo::Reserved(aspect_ratio_idc) => aspect_ratio_idc,
        AspectRatioInfo::Extended(..) => 255,
    }
}

/// The aspect ratio information after its presence flag.
pub open spec fn spec_aspect_ratio_info(s: BitStream) -> Result<(Option<AspectRatioInfo>, BitStream), BitReaderError> {
    match spec_read_bit(s, "aspect_ratio_info_present_flag") {
        Err(e) => Err(e),
        Ok((present, s1)) => if !present {
            Ok((None, s1))
        } else {
            match spec_read_bits(s1, 8) {
                None => Err(BitReaderError::ReaderError("aspect_ratio_idc", s1.end)),
                Some((idc, s2)) => if idc == 255 {
                    match spec_read_bits(s2, 16) {
                        None => Err(BitReaderError::ReaderError("sar_width", s2.end)),
                        Some((w, s3)) => match spec_read_bits(s3, 16) {
                            None => Err(BitReaderError::ReaderError("sar_height", s3.end)),
                            Some((h, s4)) => Ok((Some(AspectRatioInfo::Extended(w as u16, h as u16)), s4)),
                        },
                    }
                } else {
                    Ok((Some(spec_aspect_ratio(idc as u8)), s2))
                },
            }
        },
    }
}

impl AspectRatioInfo {
    fn read(r: &mut BitReader) -> (res: Result<Option<AspectRatioInfo>, BitReaderError>)
        ensures
            parsed(res, spec_aspect_ratio_info(old(r)@), final(r)@),
    {
        let aspect_ratio_info_present_flag = match r.read_bit("aspect_ratio_info_present_flag") {
            Ok(v) => v,
            Err(e) => return Err(e),
        };
        if !aspect_ratio_info_present_flag {
            return Ok(None);
        }
        let aspect_ratio_idc: u8 = match r.read::<8, u8>("aspect_ratio_idc") {
            Ok(v) => v,
            Err(e) => return Err(e),
        };
        let ghost s2 = r@;
        proof {
            crate::rbsp::lemma_bits_value_bound(old(r)@.data, old(r)@.pos + 1, 8);
            vstd::arithmetic::power2::lemma2_to64();
        }
        let a = match aspect_ratio_idc {
            0 => AspectRatioInfo::Unspecified,
            1 => AspectRatioInfo::Ratio1_1,
            2 => AspectRatioInfo::Ratio12_11,
            3 => AspectRatioInfo::Ratio10_11,
            4 => AspectRatioInfo::Ratio16_11,
            5 => AspectRatioInfo::Ratio40_33,
            6 => AspectRatioInfo::Ratio24_11,
            7 => AspectRatioInfo::Ratio20_11,
            8 => AspectRatioInfo::Ratio32_11,
            9 => AspectRatioInfo::Ratio80_33,
            10 => AspectRatioInfo::Ratio18_11,
            11 => AspectRatioInfo::Ratio15_11,
            12 => AspectRatioInfo::Ratio64_33,
            13 => AspectRatioInfo::Ratio160_99,
            14 => AspectRatioInfo::Ratio4_3,
            15 => AspectRatioInfo::Ratio3_2,
            16 => AspectRatioInfo::Ratio2_1,
            255 => {
                let w: u16 = match r.read::<16, u16>("sar_width") {
                    Ok(v) => v,
                    Err(e) => return Err(e),
                };
                let h: u16 = match r.read::<16, u16>("sar_height") {
                    Ok(v) => v,
                    Err(e) => return Err(e),
                };
                AspectRatioInfo::Extended(w, h)
            },
            _ => AspectRatioInfo::Reserved(aspect_ratio_idc),
        };
        Ok(Some(a))
    }

    /// Returns the aspect ratio as `(width, height)`, if specified.
    pub fn get(&self) -> (r: Option<(u16, u16)>)
        ensures
            r == spec_aspect_ratio_get(*self),
    {
        match self {
            AspectRatioInfo::Unspecified => None,
            AspectRatioInfo::Ratio1_1 => Some((1, 1)),
            AspectRatioInfo::Ratio12_11 => Some((12, 11)),
            AspectRatioInfo::Ratio10_11 => Some((10, 11)),
            AspectRatioInfo::Ratio16_11 => Some((16, 11)),
            AspectRatioInfo::Ratio40_33 => Some((40, 33)),
            AspectRatioInfo::Ratio24_11 => Some((24, 11)),
            AspectRatioInfo::Ratio20_11 => Some((20, 11)),
            AspectRatioInfo::Ratio32_11 => Some((32, 11)),
            AspectRatioInfo::Ratio80_33 => Some((80, 33)),
            AspectRatioInfo::Ratio18_11 => Some((18, 11)),
            AspectRatioInfo::Ratio15_11 => Some((15, 11)),
            AspectRatioInfo::Ratio64_33 => Some((64, 33)),
            AspectRatioInfo::Ratio160_99 => Some((160, 99)),
            AspectRatioInfo::Ratio4_3 => Some((4, 3)),
            AspectRatioInfo::Ratio3_2 => Some((3, 2)),
            AspectRatioInfo::Ratio2_1 => Some((2, 1)),
            AspectRatioInfo::Reserved(_) => None,
            AspectRatioInfo::Extended(width, height) => {
                // ISO/IEC 14496-10 section E.2.1: "When ... sar_width is equal to 0 or sar_height
                // is equal to 0, the sample aspect ratio shall be considered unspecified by this
                // Recommendation | International Standard."
                if *width == 0 || *height == 0 {
                    None
                } else {
                    Some((*width, *height))
                }
            },
        }
    }

    pub fn to_u8(&self) -> (r: u8)
        ensures
            r == spec_aspect_ratio_idc(*self),
    {
        match self {
            AspectRatioInfo::Unspecified => 0,
            AspectRatioInfo::Ratio1_1 => 1,
            AspectRatioInfo::Ratio12_11 => 2,
            AspectRatioInfo::Ratio10_11 => 3,
            AspectRatioInfo::Ratio16_11 => 4,
            AspectRatioInfo::Ratio40_33 => 5,
            AspectRatioInfo::Ratio24_11 => 6,
            AspectRatioInfo::Ratio20_11 => 7,
            AspectRatioInfo::Ratio32_11 => 8,
            AspectRatioInfo::Ratio80_33 => 9,
            AspectRatioInfo::Ratio18_11 => 10,
            AspectRatioInfo::Ratio15_11 => 11,
            AspectRatioInfo::Ratio64_33 => 12,
            AspectRatioInfo::Ratio160_99 => 13,
            AspectRatioInfo::Ratio4_3 => 14,
            AspectRatioInfo::Ratio3_2 => 15,
            AspectRatioInfo::Ratio2_1 => 16,
            AspectRatioInfo::Reserved(aspect_ratio_idc) => *aspect_ratio_idc,
            AspectRatioInfo::Extended(..) => 255,
        }
    }
}

/// Every `aspect_ratio_idc` other than `255` survives the round trip through its aspect ratio.
pub proof fn lemma_aspect_ratio_idc_roundtrip(idc: u8)
    requires
        idc != 255,
    ensures
        spec_aspect_ratio_idc(spec_aspect_ratio(idc)) == idc,
{
}

#[derive(Clone, Copy, Debug, PartialEq, Eq, Structural)]
pub enum OverscanAppropriate {
    Unspecified,
    Appropriate,
    Inappropriate,
}

impl Default for OverscanAppropriate {
    fn default() -> (r: Self)
        ensures
            r == OverscanAppropriate::Unspecified,
    {
        OverscanAppropriate::Unspecified
    }
}

/// Overscan information after its presence flag.
pub open spec fn spec_overscan(s: BitStream) -> Result<(OverscanAppropriate, BitStream), BitReaderError> {
    match spec_read_bit(s, "overscan_info_present_flag") {
        Err(e) => Err(e),
        Ok((present, s1)) => if !present {
            Ok((OverscanAppropriate::Unspecified, s1))
        } else {
            match spec_read_bit(s1, "overscan_appropriate_flag") {
                Err(e) => Err(e),
                Ok((a, s2)) => Ok((if a { OverscanAppropriate::Appropriate } else { OverscanAppropriate::Inappropriate }, s2)),
            }
        },
    }
}

impl OverscanAppropriate {
    fn read(r: &mut BitReader) -> (res: Result<OverscanAppropriate, BitReaderError>)
        ensures
            parsed(res, spec_overscan(old(r)@), final(r)@),
    {
        let overscan_info_present_flag = match r.read_bit("overscan_info_present_flag") {
            Ok(v) => v,
            Err(e) => return Err(e),
        };
        if !overscan_info_present_flag {
            return Ok(OverscanAppropriate::Unspecified);
        }
        match r.read_bit("overscan_appropriate_flag") {
            Ok(true) => Ok(OverscanAppropriate::Appropriate),
            Ok(false) => Ok(OverscanAppropriate::Inappropriate),
            Err(e) => Err(e),
        }
    }
}

#[derive(Clone, Copy, Debug, PartialEq, Eq, Structural)]
pub enum VideoFormat {
    Component,
    PAL,
    NTSC,
    SECAM,
    MAC,
    Unspecified,
    Reserved(u8),
}

impl Default for VideoFormat {
    fn default() -> (r: Self)
        ensures
            r == VideoFormat::Component,
    {
        VideoFormat::Component
    }
}

/// The video format for `video_format` in `0..=7` (Table E-2).
pub open spec fn spec_video_format(v: u8) -> VideoFormat {
    if v == 0 { VideoFormat::Component }
    else if v == 1 { VideoFormat::PAL }
    else if v == 2 { VideoFormat::NTSC }
    else if v == 3 { VideoFormat::SECAM }
    else if v == 4 { VideoFormat::MAC }
    else if v == 5 { VideoFormat::Unspecified }
    else { VideoFormat::Reserved(v) }
}

/// The `video_format` value of a video format.
pub open spec fn spec_video_format_value(f: VideoFormat) -> u8 {
    match f {
        VideoFormat::Component => 0,
        VideoFormat::PAL => 1,
        VideoFormat::NTSC => 2,
        VideoFormat::SECAM => 3,
        VideoFormat::MAC => 4,
        VideoFormat::Unspecified => 5,
        VideoFormat::Reserved(video_format) => video_format,
    }
}

impl VideoFormat {
    fn from(video_format: u8) -> (r: VideoFormat)
        requires
            video_format <= 7,
        ensures
            r == spec_video_format(video_format),
    {
        match video_format {
            0 => VideoFormat::Component,
            1 => VideoFormat::PAL,
            2 => VideoFormat::NTSC,
            3 => VideoFormat::SECAM,
            4 => VideoFormat::MAC,
            5 => VideoFormat::Unspecified,
            _ => VideoFormat::Reserved(video_format),
        }
    }

    pub fn to_u8(&self) -> (r: u8)
        ensures
            r == spec_video_format_value(*self),
    {
        match self {
            VideoFormat::Component => 0,
            VideoFormat::PAL => 1,
            VideoFormat::NTSC => 2,
            VideoFormat::SECAM => 3,
            VideoFormat::MAC => 4,
            VideoFormat::Unspecified => 5,
            VideoFormat::Reserved(video_format) => *video_format,
        }
    }
}

/// Every 3-bit `video_format` survives the round trip through its video format.
pub proof fn lemma_video_format_roundtrip(v: u8)
    requires
        v <= 7,
    ensures
        spec_video_format_value(spec_video_format(v)) == v,
{
}

#[derive(Clone, Copy, Debug, Default, PartialEq, Eq, Structural)]
pub struct ColourDescription {
    pub colour_primaries: u8,
    pub transfer_characteristics: u8,
    pub matrix_coefficients: u8,
}

/// The colour description after its presence flag.
pub open spec fn spec_colour_description(s: BitStream) -> Result<(Option<ColourDescription>, BitStream), BitReaderError> {
    match spec_read_bit(s, "colour_description_present_flag") {
        Err(e) => Err(e),
        Ok((present, s1)) => if !present {
            Ok((None, s1))
        } else {
            match spec_read_bits(s1, 8) {
                None => Err(BitReaderError::ReaderError("colour_primaries", s1.end)),
                Some((cp, s2)) => match spec_read_bits(s2, 8) {
                    None => Err(BitReaderError::ReaderError("transfer_characteristics", s2.end)),
                    Some((tc, s3)) => match spec_read_bits(s3, 8) {
                        None => Err(BitReaderError::ReaderError("matrix_coefficients", s3.end)),
                        Some((mc, s4)) => Ok((
                            Some(ColourDescription {
                                colour_primaries: cp as u8,
                                transfer_characteristics: tc as u8,
                                matrix_coefficients: mc as u8,
                            }),
                            s4,
                        )),
                    },
                },
            }
        },
    }
}

impl ColourDescription {
    fn read(r: &mut BitReader) -> (res: Result<Option<ColourDescription>, BitReaderError>)
        ensures
            parsed(res, spec_colour_description(old(r)@), final(r)@),
    {
        let present = match r.read_bit("colour_description_present_flag") {
            Ok(v) => v,
            Err(e) => return Err(e),
        };
        if !present {
            return Ok(None);
        }
        let colour_primaries: u8 = match r.read::<8, u8>("colour_primaries") {
            Ok(v) => v,
            Err(e) => return Err(e),
        };
        let transfer_characteristics: u8 = match r.read::<8, u8>("transfer_characteristics") {
            Ok(v) => v,
            Err(e) => return Err(e),
        };
        let matrix_coefficients: u8 = match r.read::<8, u8>("matrix_coefficients") {
            Ok(v) => v,
            Err(e) => return Err(e),
        };
        Ok(Some(ColourDescription { colour_primaries, transfer_characteristics, matrix_coefficients }))
    }
}

#[derive(Clone, Copy, Debug, Default, PartialEq, Eq, Structural)]
pub struct VideoSignalType {
    pub video_format: VideoFormat,
    pub video_full_range_flag: bool,
    pub colour_description: Option<ColourDescription>,
}

/// The video signal type after its presence flag.
pub open spec fn spec_video_signal_type(s: BitStream) -> Result<(Option<VideoSignalType>, BitStream), BitReaderError> {
    match spec_read_bit(s, "video_signal_type_present_flag") {
        Err(e) => Err(e),
        Ok((present, s1)) => if !present {
            Ok((None, s1))
        } else {
            match spec_read_bits(s1, 3) {
                None => Err(BitReaderError::ReaderError("video_format", s1.end)),
                Some((vf, s2)) => match spec_read_bit(s2, "video_full_range_flag") {
                    Err(e) => Err(e),
                    Ok((full, s3)) => match spec_colour_description(s3) {
                        Err(e) => Err(e),
                        Ok((cd, s4)) => Ok((
                            Some(VideoSignalType {
                                video_format: spec_video_format(vf as u8),
                                video_full_range_flag: full,
                                colour_description: cd,
                            }),
                            s4,
                        )),
                    },
                },
            }
        },
    }
}

impl VideoSignalType {
    fn read(r: &mut BitReader) -> (res: Result<Option<VideoSignalType>, BitReaderError>)
        ensures
            parsed(res, spec_video_signal_type(old(r)@), final(r)@),
    {
        let present = match r.read_bit("video_signal_type_present_flag") {
            Ok(v) => v,
            Err(e) => return Err(e),
        };
        if !present {
            return Ok(None);
        }
        let ghost s1 = r@;
        let vf: u8 = match r.read::<3, u8>("video_format") {
            Ok(v) => v,
            Err(e) => return Err(e),
        };
        proof {
            crate::rbsp::lemma_bits_value_bound(s1.data, s1.pos, 3);
            vstd::arithmetic::power2::lemma2_to64();
        }
        let video_format = VideoFormat::from(vf);
        let video_full_range_flag = match r.read_bit("video_full_range_flag") {
            Ok(v) => v,
            Err(e) => return Err(e),
        };
        let colour_description = match ColourDescription::read(r) {
            Ok(v) => v,
            Err(e) => return Err(e),
        };
        Ok(Some(VideoSignalType { video_format, video_full_range_flag, colour_description }))
    }
}

#[derive(Clone, Copy, Debug, Default, PartialEq, Eq, Structural)]
pub struct ChromaLocInfo {
    pub chroma_sample_loc_type_top_field: u32,
    pub chroma_sample_loc_type_bottom_field: u32,
}

/// The chroma sample locations after their presence flag.
pub open spec fn spec_chroma_loc_info(s: BitStream) -> Result<(Option<ChromaLocInfo>, BitStream), BitReaderError> {
    match spec_read_bit(s, "chroma_loc_info_present_flag") {
        Err(e) => Err(e),
        Ok((present, s1)) => if !present {
            Ok((None, s1))
        } else {
            match spec_read_ue(s1, "chroma_sample_loc_type_top_field") {
                Err(e) => Err(e),
                Ok((t, s2)) => match spec_read_ue(s2, "chroma_sample_loc_type_bottom_field") {
                    Err(e) => Err(e),
                    Ok((b, s3)) => Ok((
                        Some(ChromaLocInfo { chroma_sample_loc_type_top_field: t, chroma_sample_loc_type_bottom_field: b }),
                        s3,
                    )),
                },
            }
        },
    }
}

impl ChromaLocInfo {
    fn read(r: &mut BitReader) -> (res: Result<Option<ChromaLocInfo>, BitReaderError>)
        ensures
            parsed(res, spec_chroma_loc_info(old(r)@), final(r)@),
    {
        let present = match r.read_bit("chroma_loc_info_present_flag") {
            Ok(v) => v,
            Err(e) => return Err(e),
        };
        if !present {
            return Ok(None);
        }
        let t = match r.read_ue("chroma_sample_loc_type_top_field") {
            Ok(v) => v,
            Err(e) => return Err(e),
        };
        let b = match r.read_ue("chroma_sample_loc_type_bottom_field") {
            Ok(v) => v,
            Err(e) => return Err(e),
        };
        Ok(Some(ChromaLocInfo { chroma_sample_loc_type_top_field: t, chroma_sample_loc_type_bottom_field: b }))
    }
}

#[derive(Clone, Copy, Debug, Default, PartialEq, Eq, Structural)]
pub struct TimingInfo {
    pub num_units_in_tick: u32,
    pub time_scale: u32,
    pub fixed_frame_rate_flag: bool,
}

/// The timing information after its presence flag.
pub open spec fn spec_timing_info(s: BitStream) -> Result<(Option<TimingInfo>, BitStream), BitReaderError> {
    match spec_read_bit(s, "timing_info_present_flag") {
        Err(e) => Err(e),
        Ok((present, s1)) => if !present {
            Ok((None, s1))
        } else {
            match spec_read_bits(s1, 32) {
                None => Err(BitReaderError::ReaderError("num_units_in_tick", s1.end)),
                Some((n, s2)) => match spec_read_bits(s2, 32) {
                    None => Err(BitReaderError::ReaderError("time_scale", s2.end)),
                    Some((t, s3)) => match spec_read_bit(s3, "fixed_frame_rate_flag") {
                        Err(e) => Err(e),
                        Ok((f, s4)) => Ok((
                            Some(TimingInfo { num_units_in_tick: n as u32, time_scale: t as u32, fixed_frame_rate_flag: f }),
                            s4,
                        )),
                    },
                },
            }
        },
    }
}

impl TimingInfo {
    pub(crate) fn read(r: &mut BitReader) -> (res: Result<Option<TimingInfo>, BitReaderError>)
        ensures
            parsed(res, spec_timing_info(old(r)@), final(r)@),
    {
        let present = match r.read_bit("timing_info_present_flag") {
            Ok(v) => v,
            Err(e) => return Err(e),
        };
        if !present {
            return Ok(None);
        }
        let num_units_in_tick: u32 = match r.read::<32, u32>("num_units_in_tick") {
            Ok(v) => v,
            Err(e) => return Err(e),
        };
        let time_scale: u32 = match r.read::<32, u32>("time_scale") {
            Ok(v) => v,
            Err(e) => return Err(e),
        };
        let fixed_frame_rate_flag = match r.read_bit("fixed_frame_rate_flag") {
            Ok(v) => v,
            Err(e) => return Err(e),
        };
        Ok(Some(TimingInfo { num_units_in_tick, time_scale, fixed_frame_rate_flag }))
    }
}

#[derive(Clone, Copy, Debug, Default, PartialEq, Eq, Structural)]
pub struct CpbSpec {
    pub bit_rate_value_minus1: u32,
    pub cpb_size_value_minus1: u32,
    pub cbr_flag: bool,
}

/// One coded picture buffer specification of `hrd_parameters()`.
pub open spec fn spec_cpb_spec(s: BitStream) -> Result<(CpbSpec, BitStream), BitReaderError> {
    match spec_read_ue(s, "bit_rate_value_minus1") {
        Err(e) => Err(e),
        Ok((b, s1)) => match spec_read_ue(s1, "cpb_size_value_minus1") {
            Err(e) => Err(e),
            Ok((c, s2)) => match spec_read_bit(s2, "cbr_flag") {
                Err(e) => Err(e),
                Ok((f, s3)) => Ok((CpbSpec { bit_rate_value_minus1: b, cpb_size_value_minus1: c, cbr_flag: f }, s3)),
            },
        },
    }
}

/// `n` coded picture buffer specifications.
pub open spec fn spec_cpb_specs(s: BitStream, n: nat) -> Result<(Seq<CpbSpec>, BitStream), BitReaderError>
    decreases n,
{
    if n == 0 {
        Ok((Seq::empty(), s))
    } else {
        match spec_cpb_specs(s, (n - 1) as nat) {
            Err(e) => Err(e),
            Ok((v, s1)) => match spec_cpb_spec(s1) {
                Err(e) => Err(e),
                Ok((c, s2)) => Ok((v.push(c), s2)),
            },
        }
    }
}

proof fn lemma_cpb_specs_err(s: BitStream, k: nat, n: nat)
    requires
        k <= n,
        spec_cpb_specs(s, k) is Err,
    ensures
        spec_cpb_specs(s, n) == spec_cpb_specs(s, k),
    decreases n,
{
    if n > k {
        lemma_cpb_specs_err(s, k, (n - 1) as nat);
    }
}

impl CpbSpec {
    fn read(r: &mut BitReader) -> (res: Result<CpbSpec, BitReaderError>)
        ensures
            parsed(res, spec_cpb_spec(old(r)@), final(r)@),
    {
        let bit_rate_value_minus1 = match r.read_ue("bit_rate_value_minus1") {
            Ok(v) => v,
            Err(e) => return Err(e),
        };
        let cpb_size_value_minus1 = match r.read_ue("cpb_size_value_minus1") {
            Ok(v) => v,
            Err(e) => return Err(e),
        };
        let cbr_flag = match r.read_bit("cbr_flag") {
            Ok(v) => v,
            Err(e) => return Err(e),
        };
        Ok(CpbSpec { bit_rate_value_minus1, cpb_size_value_minus1, cbr_flag })
    }
}

#[derive(Clone, Debug, Default, PartialEq, Eq)]
pub struct HrdParameters {
    pub bit_rate_scale: u8,
    pub cpb_size_scale: u8,
    pub cpb_specs: Vec<CpbSpec>,
    pub initial_cpb_removal_delay_length_minus1: u8,
    pub cpb_removal_delay_length_minus1: u8,
    pub dpb_output_delay_length_minus1: u8,
    pub time_offset_length: u8,
}

/// The values of [`HrdParameters`].
pub ghost struct HrdParametersView {
    pub bit_rate_scale: u8,
    pub cpb_size_scale: u8,
    pub cpb_specs: Seq<CpbSpec>,
    pub initial_cpb_removal_delay_length_minus1: u8,
    pub cpb_removal_delay_length_minus1: u8,
    pub dpb_output_delay_length_minus1: u8,
    pub time_offset_length: u8,
}

impl View for HrdParameters {
    type V = HrdParametersView;

    open spec fn view(&self) -> HrdParametersView {
        HrdParametersView {
            bit_rate_scale: self.bit_rate_scale,
            cpb_size_scale: self.cpb_size_scale,
            cpb_specs: self.cpb_specs@,
            initial_cpb_removal_delay_length_minus1: self.initial_cpb_removal_delay_length_minus1,
            cpb_removal_delay_length_minus1: self.cpb_removal_delay_length_minus1,
            dpb_output_delay_length_minus1: self.dpb_output_delay_length_minus1,
            time_offset_length: self.time_offset_length,
        }
    }
}

/// The view of an optional value.
pub open spec fn opt_view<T: View>(o: Option<T>) -> Option<T::V> {
    match o {
        Some(v) => Some(v@),
        None => None,
    }
}

/// A field of `n` bits read as a `u8`, named `name` in errors.
pub open spec fn spec_read_u8(s: BitStream, n: nat, name: &'static str) -> Result<(u8, BitStream), BitReaderError> {
    match spec_read_bits(s, n) {
        None => Err(BitReaderError::ReaderError(name, s.end)),
        Some((v, s2)) => Ok((v as u8, s2)),
    }
}

/// The body of `hrd_parameters()` (E.1.2) after its presence flag.
#[verifier::opaque]
pub open spec fn spec_hrd_body(s: BitStream) -> Result<(HrdParametersView, BitStream), SpsError> {
    match spec_read_ue(s, "cpb_cnt_minus1") {
        Err(e) => Err(SpsError::RbspReaderError(e)),
        Ok((cpb_cnt_minus1, s1)) => if cpb_cnt_minus1 > 31 {
            Err(SpsError::CpbCountOutOfRange(cpb_cnt_minus1))
        } else {
            match spec_read_u8(s1, 4, "bit_rate_scale") {
                Err(e) => Err(SpsError::RbspReaderError(e)),
                Ok((bit_rate_scale, s2)) => match spec_read_u8(s2, 4, "cpb_size_scale") {
                    Err(e) => Err(SpsError::RbspReaderError(e)),
                    Ok((cpb_size_scale, s3)) => match spec_cpb_specs(s3, (cpb_cnt_minus1 + 1) as nat) {
                        Err(e) => Err(SpsError::RbspReaderError(e)),
                        Ok((cpb_specs, s4)) => match spec_read_u8(s4, 5, "initial_cpb_removal_delay_length_minus1") {
                            Err(e) => Err(SpsError::RbspReaderError(e)),
                            Ok((a, s5)) => match spec_read_u8(s5, 5, "cpb_removal_delay_length_minus1") {
                                Err(e) => Err(SpsError::RbspReaderError(e)),
                                Ok((b, s6)) => match spec_read_u8(s6, 5, "dpb_output_delay_length_minus1") {
                                    Err(e) => Err(SpsError::RbspReaderError(e)),
                                    Ok((c, s7)) => match spec_read_u8(s7, 5, "time_offset_length") {
                                        Err(e) => Err(SpsError::RbspReaderError(e)),
                                        Ok((d, s8)) => Ok((
                                            HrdParametersView {
                                                bit_rate_scale,
                                                cpb_size_scale,
                                                cpb_specs,
                                                initial_cpb_removal_delay_length_minus1: a,
                                                cpb_removal_delay_length_minus1: b,
                                                dpb_output_delay_length_minus1: c,
                                                time_offset_length: d,
                                            },
                                            s8,
                                        )),
                                    },
                                },
                            },
                        },
                    },
                },
            }
        },
    }
}

/// `hrd_parameters()` after its presence flag: the parameters, the stream, and the flag.
pub open spec fn spec_hrd_parameters(s: BitStream) -> Result<(Option<HrdParametersView>, BitStream, bool), SpsError> {
    match spec_read_bit(s, "hrd_parameters_present_flag") {
        Err(e) => Err(SpsError::RbspReaderError(e)),
        Ok((present, s1)) => if !present {
            Ok((None, s1, false))
        } else {
            match spec_hrd_body(s1) {
                Err(e) => Err(e),
                Ok((h, s2)) => Ok((Some(h), s2, true)),
            }
        },
    }
}

impl HrdParameters {
    pub(crate) fn read(r: &mut BitReader, hrd_parameters_present: &mut bool) -> (res: Result<Option<HrdParameters>, SpsError>)
        ensures
            match spec_hrd_parameters(old(r)@) {
                Ok((v, s2, present)) => res matches Ok(o) && opt_view(o) == v && final(r)@ == s2
                    && *final(hrd_parameters_present) == (*old(hrd_parameters_present) || present),
                Err(e) => res == Err::<Option<HrdParameters>, SpsError>(e),
            },
    {
        reveal(spec_hrd_body);
        let hrd_parameters_present_flag = match r.read_bit("hrd_parameters_present_flag") {
            Ok(v) => v,
            Err(e) => return Err(SpsError::RbspReaderError(e)),
        };
        *hrd_parameters_present = *hrd_parameters_present || hrd_parameters_present_flag;
        if !hrd_parameters_present_flag {
            return Ok(None);
        }
        let cpb_cnt_minus1 = match r.read_ue("cpb_cnt_minus1") {
            Ok(v) => v,
            Err(e) => return Err(SpsError::RbspReaderError(e)),
        };
        if cpb_cnt_minus1 > 31 {
            return Err(SpsError::CpbCountOutOfRange(cpb_cnt_minus1));
        }
        let cpb_cnt = cpb_cnt_minus1 + 1;
        let bit_rate_scale: u8 = match r.read::<4, u8>("bit_rate_scale") {
            Ok(v) => v,
            Err(e) => return Err(SpsError::RbspReaderError(e)),
        };
        let cpb_size_scale: u8 = match r.read::<4, u8>("cpb_size_scale") {
            Ok(v) => v,
            Err(e) => return Err(SpsError::RbspReaderError(e)),
        };
        let cpb_specs = match Self::read_cpb_specs(r, cpb_cnt) {
            Ok(v) => v,
            Err(e) => return Err(SpsError::RbspReaderError(e)),
        };
        let initial_cpb_removal_delay_length_minus1: u8 = match r.read::<5, u8>("initial_cpb_removal_delay_length_minus1") {
            Ok(v) => v,
            Err(e) => return Err(SpsError::RbspReaderError(e)),
        };
        let cpb_removal_delay_length_minus1: u8 = match r.read::<5, u8>("cpb_removal_delay_length_minus1") {
            Ok(v) => v,
            Err(e) => return Err(SpsError::RbspReaderError(e)),
        };
        let dpb_output_delay_length_minus1: u8 = match r.read::<5, u8>("dpb_output_delay_length_minus1") {
            Ok(v) => v,
            Err(e) => return Err(SpsError::RbspReaderError(e)),
        };
        let time_offset_length: u8 = match r.read::<5, u8>("time_offset_length") {
            Ok(v) => v,
            Err(e) => return Err(SpsError::RbspReaderError(e)),
        };
        Ok(Some(HrdParameters {
            bit_rate_scale,
            cpb_size_scale,
            cpb_specs,
            initial_cpb_removal_delay_length_minus1,
            cpb_removal_delay_length_minus1,
            dpb_output_delay_length_minus1,
            time_offset_length,
        }))
    }

    fn read_cpb_specs(r: &mut BitReader, cpb_cnt: u32) -> (res: Result<Vec<CpbSpec>, BitReaderError>)
        ensures
            match spec_cpb_specs(old(r)@, cpb_cnt as nat) {
                Ok((v, s2)) => res matches Ok(w) && w@ == v && final(r)@ == s2,
                Err(e) => res == Err::<Vec<CpbSpec>, BitReaderError>(e),
            },
    {
        let ghost start = r@;
        let mut cpb_specs: Vec<CpbSpec> = Vec::new();
        let mut i: u32 = 0;
        while i < cpb_cnt
            invariant
                start == old(r)@,
                i <= cpb_cnt,
                spec_cpb_specs(start, i as nat) == Ok::<(Seq<CpbSpec>, BitStream), BitReaderError>((cpb_specs@, r@)),
            decreases cpb_cnt - i,
        {
            let c = match CpbSpec::read(r) {
                Ok(v) => v,
                Err(e) => {
                    proof { lemma_cpb_specs_err(start, (i + 1) as nat, cpb_cnt as nat); }
                    return Err(e);
                },
            };
            cpb_specs.push(c);
            i = i + 1;
        }
        Ok(cpb_specs)
    }
}

#[derive(Clone, Copy, Debug, Default, PartialEq, Eq, Structural)]
pub struct BitstreamRestrictions {
    pub motion_vectors_over_pic_boundaries_flag: bool,
    pub max_bytes_per_pic_denom: u32,
    pub max_bits_per_mb_denom: u32,
    pub log2_max_mv_length_horizontal: u32,
    pub log2_max_mv_length_vertical: u32,
    pub max_num_reorder_frames: u32,
    pub max_dec_frame_buffering: u32,
}

/// A `ue(v)` field that must not exceed `max`.
pub open spec fn spec_read_ue_max(s: BitStream, name: &'static str, max: u32) -> Result<(u32, BitStream), SpsError> {
    match spec_read_ue(s, name) {
        Err(e) => Err(SpsError::RbspReaderError(e)),
        Ok((v, s2)) => if v > max { Err(SpsError::FieldValueTooLarge { name, value: v }) } else { Ok((v, s2)) },
    }
}

/// The bitstream restrictions after their presence flag, for a sequence with
/// `max_num_ref_frames` reference frames.
#[verifier::opaque]
pub open spec fn spec_bitstream_restrictions(s: BitStream, max_num_ref_frames: u32) -> Result<(Option<BitstreamRestrictions>, BitStream), SpsError> {
    match spec_read_bit(s, "bitstream_restriction_flag") {
        Err(e) => Err(SpsError::RbspReaderError(e)),
        Ok((present, s1)) => if !present {
            Ok((None, s1))
        } else {
            match spec_read_bit(s1, "motion_vectors_over_pic_boundaries_flag") {
                Err(e) => Err(SpsError::RbspReaderError(e)),
                Ok((mv, s2)) => match spec_read_ue_max(s2, "max_bytes_per_pic_denom", 16) {
                    Err(e) => Err(e),
                    Ok((bytes, s3)) => match spec_read_ue_max(s3, "max_bits_per_mb_denom", 16) {
                        Err(e) => Err(e),
                        Ok((bits, s4)) => match spec_read_ue_max(s4, "log2_max_mv_length_horizontal", 16) {
                            Err(e) => Err(e),
                            Ok((h, s5)) => match spec_read_ue_max(s5, "log2_max_mv_length_vertical", 16) {
                                Err(e) => Err(e),
                                Ok((v, s6)) => match spec_read_ue(s6, "max_num_reorder_frames") {
                                    Err(e) => Err(SpsError::RbspReaderError(e)),
                                    Ok((reorder, s7)) => match spec_read_ue(s7, "max_dec_frame_buffering") {
                                        Err(e) => Err(SpsError::RbspReaderError(e)),
                                        Ok((dec, s8)) => if reorder > dec {
                                            Err(SpsError::FieldValueTooLarge { name: "max_num_reorder_frames", value: reorder })
                                        } else if dec < max_num_ref_frames {
                                            Err(SpsError::FieldValueTooSmall { name: "max_dec_frame_buffering", value: dec })
                                        } else {
                                            Ok((
                                                Some(BitstreamRestrictions {
                                                    motion_vectors_over_pic_boundaries_flag: mv,
                                                    max_bytes_per_pic_denom: bytes,
                                                    max_bits_per_mb_denom: bits,
                                                    log2_max_mv_length_horizontal: h,
                                                    log2_max_mv_length_vertical: v,
                                                    max_num_reorder_frames: reorder,
                                                    max_dec_frame_buffering: dec,
                                                }),
                                                s8,
                                            ))
                                        },
                                    },
                                },
                            },
                        },
                    },
                },
            }
        },
    }
}

fn read_ue_max(r: &mut BitReader, name: &'static str, max: u32) -> (res: Result<u32, SpsError>)
    ensures
        parsed(res, spec_read_ue_max(old(r)@, name, max), final(r)@),
{
    let v = match r.read_ue(name) {
        Ok(v) => v,
        Err(e) => return Err(SpsError::RbspReaderError(e)),
    };
    if v > max {
        return Err(SpsError::FieldValueTooLarge { name, value: v });
    }
    Ok(v)
}

impl BitstreamRestrictions {
    fn read(r: &mut BitReader, max_num_ref_frames: u32) -> (res: Result<Option<BitstreamRestrictions>, SpsError>)
        ensures
            parsed(res, spec_bitstream_restrictions(old(r)@, max_num_ref_frames), final(r)@),
    {
        reveal(spec_bitstream_restrictions);
        let bitstream_restriction_flag = match r.read_bit("bitstream_restriction_flag") {
            Ok(v) => v,
            Err(e) => return Err(SpsError::RbspReaderError(e)),
        };
        if !bitstream_restriction_flag {
            return Ok(None);
        }
        let motion_vectors_over_pic_boundaries_flag = match r.read_bit("motion_vectors_over_pic_boundaries_flag") {
            Ok(v) => v,
            Err(e) => return Err(SpsError::RbspReaderError(e)),
        };
        let max_bytes_per_pic_denom = match read_ue_max(r, "max_bytes_per_pic_denom", 16) {
            Ok(v) => v,
            Err(e) => return Err(e),
        };
        let max_bits_per_mb_denom = match read_ue_max(r, "max_bits_per_mb_denom", 16) {
            Ok(v) => v,
            Err(e) => return Err(e),
        };
        // more recent versions of the spec say log2_max_mv_length_horizontal and
        // log2_max_mv_length_vertical - "shall be in the range of 0 to 15, inclusive."
        // However, older versions of the spec say 0 to 16, and real bitstreams present 16, so
        // we apply the more-permissive check to avoid rejecting real files.
        let log2_max_mv_length_horizontal = match read_ue_max(r, "log2_max_mv_length_horizontal", 16) {
            Ok(v) => v,
            Err(e) => return Err(e),
        };
        let log2_max_mv_length_vertical = match read_ue_max(r, "log2_max_mv_length_vertical", 16) {
            Ok(v) => v,
            Err(e) => return Err(e),
        };
        let max_num_reorder_frames = match r.read_ue("max_num_reorder_frames") {
            Ok(v) => v,
            Err(e) => return Err(SpsError::RbspReaderError(e)),
        };
        let max_dec_frame_buffering = match r.read_ue("max_dec_frame_buffering") {
            Ok(v) => v,
            Err(e) => return Err(SpsError::RbspReaderError(e)),
        };
        if max_num_reorder_frames > max_dec_frame_buffering {
            return Err(SpsError::FieldValueTooLarge { name: "max_num_reorder_frames", value: max_num_reorder_frames });
        }
        // "The value of max_dec_frame_buffering shall be greater than or equal to
        // max_num_ref_frames."
        if max_dec_frame_buffering < max_num_ref_frames {
            return Err(SpsError::FieldValueTooSmall { name: "max_dec_frame_buffering", value: max_dec_frame_buffering });
        }
        Ok(Some(BitstreamRestrictions {
            motion_vectors_over_pic_boundaries_flag,
            max_bytes_per_pic_denom,
            max_bits_per_mb_denom,
            log2_max_mv_length_horizontal,
            log2_max_mv_length_vertical,
            max_num_reorder_frames,
            max_dec_frame_buffering,
        }))
    }
}

#[derive(Clone, Debug, Default, PartialEq, Eq)]
pub struct VuiParameters {
    pub aspect_ratio_info: Option<AspectRatioInfo>,
    pub overscan_appropriate: OverscanAppropriate,
    pub video_signal_type: Option<VideoSignalType>,
    pub chroma_loc_info: Option<ChromaLocInfo>,
    pub timing_info: Option<TimingInfo>,
    pub nal_hrd_parameters: Option<HrdParameters>,
    pub vcl_hrd_parameters: Option<HrdParameters>,
    pub low_delay_hrd_flag: Option<bool>,
    pub pic_struct_present_flag: bool,
    pub bitstream_restrictions: Option<BitstreamRestrictions>,
}

/// The values of [`VuiParameters`].
pub ghost struct VuiParametersView {
    pub aspect_ratio_info: Option<AspectRatioInfo>,
    pub overscan_appropriate: OverscanAppropriate,
    pub video_signal_type: Option<VideoSignalType>,
    pub chroma_loc_info: Option<ChromaLocInfo>,
    pub timing_info: Option<TimingInfo>,
    pub nal_hrd_parameters: Option<HrdParametersView>,
    pub vcl_hrd_parameters: Option<HrdParametersView>,
    pub low_delay_hrd_flag: Option<bool>,
    pub pic_struct_present_flag: bool,
    pub bitstream_restrictions: Option<BitstreamRestrictions>,
}

impl View for VuiParameters {
    type V = VuiParametersView;

    open spec fn view(&self) -> VuiParametersView {
        VuiParametersView {
            aspect_ratio_info: self.aspect_ratio_info,
            overscan_appropriate: self.overscan_appropriate,
            video_signal_type: self.video_signal_type,
            chroma_loc_info: self.chroma_loc_info,
            timing_info: self.timing_info,
            nal_hrd_parameters: opt_view(self.nal_hrd_parameters),
            vcl_hrd_parameters: opt_view(self.vcl_hrd_parameters),
            low_delay_hrd_flag: self.low_delay_hrd_flag,
            pic_struct_present_flag: self.pic_struct_present_flag,
            bitstream_restrictions: self.bitstream_restrictions,
        }
    }
}

/// The VUI fields up to the timing information.
#[verifier::opaque]
pub open spec fn spec_vui_head(s: BitStream) -> Result<((Option<AspectRatioInfo>, OverscanAppropriate, Option<VideoSignalType>, Option<ChromaLocInfo>, Option<TimingInfo>), BitStream), BitReaderError> {
    match spec_aspect_ratio_info(s) {
        Err(e) => Err(e),
        Ok((a, s1)) => match spec_overscan(s1) {
            Err(e) => Err(e),
            Ok((o, s2)) => match spec_video_signal_type(s2) {
                Err(e) => Err(e),
                Ok((v, s3)) => match spec_chroma_loc_info(s3) {
                    Err(e) => Err(e),
                    Ok((c, s4)) => match spec_timing_info(s4) {
                        Err(e) => Err(e),
                        Ok((t, s5)) => Ok(((a, o, v, c, t), s5)),
                    },
                },
            },
        },
    }
}

/// `vui_parameters()` (E.1.1) after its presence flag.
#[verifier::opaque]
pub open spec fn spec_vui_body(s: BitStream, max_num_ref_frames: u32) -> Result<(VuiParametersView, BitStream), SpsError> {
    match spec_vui_head(s) {
        Err(e) => Err(SpsError::RbspReaderError(e)),
        Ok(((a, o, v, c, t), s1)) => match spec_hrd_parameters(s1) {
            Err(e) => Err(e),
            Ok((nal, s2, p1)) => match spec_hrd_parameters(s2) {
                Err(e) => Err(e),
                Ok((vcl, s3, p2)) => {
                    let low = if p1 || p2 {
                        match spec_read_bit(s3, "low_delay_hrd_flag") {
                            Err(e) => Err(e),
                            Ok((f, s4)) => Ok((Some(f), s4)),
                        }
                    } else {
                        Ok((None, s3))
                    };
                    match low {
                        Err(e) => Err(SpsError::RbspReaderError(e)),
                        Ok((low_delay_hrd_flag, s4)) => match spec_read_bit(s4, "pic_struct_present_flag") {
                            Err(e) => Err(SpsError::RbspReaderError(e)),
                            Ok((pic_struct_present_flag, s5)) => match spec_bitstream_restrictions(s5, max_num_ref_frames) {
                                Err(e) => Err(e),
                                Ok((b, s6)) => Ok((
                                    VuiParametersView {
                                        aspect_ratio_info: a,
                                        overscan_appropriate: o,
                                        video_signal_type: v,
                                        chroma_loc_info: c,
                                        timing_info: t,
                                        nal_hrd_parameters: nal,
                                        vcl_hrd_parameters: vcl,
                                        low_delay_hrd_flag,
                                        pic_struct_present_flag,
                                        bitstream_restrictions: b,
                                    },
                                    s6,
                                )),
                            },
                        },
                    }
                },
            },
        },
    }
}

/// `vui_parameters()` after `vui_parameters_present_flag`.
pub open spec fn spec_vui_parameters(s: BitStream, max_num_ref_frames: u32) -> Result<(Option<VuiParametersView>, BitStream), SpsError> {
    match spec_read_bit(s, "vui_parameters_present_flag") {
        Err(e) => Err(SpsError::RbspReaderError(e)),
        Ok((present, s1)) => if !present {
            Ok((None, s1))
        } else {
            match spec_vui_body(s1, max_num_ref_frames) {
                Err(e) => Err(e),
                Ok((v, s2)) => Ok((Some(v), s2)),
            }
        },
    }
}

impl VuiParameters {
    fn read(r: &mut BitReader, max_num_ref_frames: u32) -> (res: Result<Option<VuiParameters>, SpsError>)
        ensures
            match spec_vui_parameters(old(r)@, max_num_ref_frames) {
                Ok((v, s2)) => res matches Ok(o) && opt_view(o) == v && final(r)@ == s2,
                Err(e) => res == Err::<Option<VuiParameters>, SpsError>(e),
            },
    {
        reveal(spec_vui_body);
        reveal(spec_vui_head);
        let vui_parameters_present_flag = match r.read_bit("vui_parameters_present_flag") {
            Ok(v) => v,
            Err(e) => return Err(SpsError::RbspReaderError(e)),
        };
        if !vui_parameters_present_flag {
            return Ok(None);
        }
        let mut hrd_parameters_present = false;
        let aspect_ratio_info = match AspectRatioInfo::read(r) {
            Ok(v) => v,
            Err(e) => return Err(SpsError::RbspReaderError(e)),
        };
        let overscan_appropriate = match OverscanAppropriate::read(r) {
            Ok(v) => v,
            Err(e) => return Err(SpsError::RbspReaderError(e)),
        };
        let video_signal_type = match VideoSignalType::read(r) {
            Ok(v) => v,
            Err(e) => return Err(SpsError::RbspReaderError(e)),
        };
        let chroma_loc_info = match ChromaLocInfo::read(r) {
            Ok(v) => v,
            Err(e) => return Err(SpsError::RbspReaderError(e)),
        };
        let timing_info = match TimingInfo::read(r) {
            Ok(v) => v,
            Err(e) => return Err(SpsError::RbspReaderError(e)),
        };
        let nal_hrd_parameters = match HrdParameters::read(r, &mut hrd_parameters_present) {
            Ok(v) => v,
            Err(e) => return Err(e),
        };
        let vcl_hrd_parameters = match HrdParameters::read(r, &mut hrd_parameters_present) {
            Ok(v) => v,
            Err(e) => return Err(e),
        };
        let low_delay_hrd_flag = if hrd_parameters_present {
            match r.read_bit("low_delay_hrd_flag") {
                Ok(v) => Some(v),
                Err(e) => return Err(SpsError::RbspReaderError(e)),
            }
        } else {
            None
        };
        let pic_struct_present_flag = match r.read_bit("pic_struct_present_flag") {
            Ok(v) => v,
            Err(e) => return Err(SpsError::RbspReaderError(e)),
        };
        let bitstream_restrictions = match BitstreamRestrictions::read(r, max_num_ref_frames) {
            Ok(v) => v,
            Err(e) => return Err(e),
        };
        Ok(Some(VuiParameters {
            aspect_ratio_info,
            overscan_appropriate,
            video_signal_type,
            chroma_loc_info,
            timing_info,
            nal_hrd_parameters,
            vcl_hrd_parameters,
            low_delay_hrd_flag,
            pic_struct_present_flag,
            bitstream_restrictions,
        }))
    }
}

#[derive(Clone, Debug, PartialEq, Eq)]
pub struct SeqParameterSet {
    pub profile_idc: ProfileIdc,
    pub constraint_flags: ConstraintFlags,
    pub level_idc: u8,
    pub seq_parameter_set_id: SeqParamSetId,
    pub chroma_info: ChromaInfo,
    pub log2_max_frame_num_minus4: u8,
    pub pic_order_cnt: PicOrderCntType,
    pub max_num_ref_frames: u32,
    pub gaps_in_frame_num_value_allowed_flag: bool,
    pub pic_width_in_mbs_minus1: u32,
    pub pic_height_in_map_units_minus1: u32,
    pub frame_mbs_flags: FrameMbsFlags,
    pub direct_8x8_inference_flag: bool,
    pub frame_cropping: Option<FrameCropping>,
    pub vui_parameters: Option<VuiParameters>,
}

/// The values of a [`SeqParameterSet`].
pub ghost struct SeqParameterSetView {
    pub profile_idc: u8,
    pub constraint_flags: u8,
    pub level_idc: u8,
    pub seq_parameter_set_id: u8,
    pub chroma_info: ChromaInfoView,
    pub log2_max_frame_num_minus4: u8,
    pub pic_order_cnt: PicOrderCntTypeView,
    pub max_num_ref_frames: u32,
    pub gaps_in_frame_num_value_allowed_flag: bool,
    pub pic_width_in_mbs_minus1: u32,
    pub pic_height_in_map_units_minus1: u32,
    pub frame_mbs_flags: FrameMbsFlags,
    pub direct_8x8_inference_flag: bool,
    pub frame_cropping: Option<FrameCropping>,
    pub vui_parameters: Option<VuiParametersView>,
}

impl View for SeqParameterSet {
    type V = SeqParameterSetView;

    open spec fn view(&self) -> SeqParameterSetView {
        SeqParameterSetView {
            profile_idc: self.profile_idc.spec_value(),
            constraint_flags: self.constraint_flags.spec_value(),
            level_idc: self.level_idc,
            seq_parameter_set_id: self.seq_parameter_set_id.spec_id(),
            chroma_info: self.chroma_info@,
            log2_max_frame_num_minus4: self.log2_max_frame_num_minus4,
            pic_order_cnt: self.pic_order_cnt@,
            max_num_ref_frames: self.max_num_ref_frames,
            gaps_in_frame_num_value_allowed_flag: self.gaps_in_frame_num_value_allowed_flag,
            pic_width_in_mbs_minus1: self.pic_width_in_mbs_minus1,
            pic_height_in_map_units_minus1: self.pic_height_in_map_units_minus1,
            frame_mbs_flags: self.frame_mbs_flags,
            direct_8x8_inference_flag: self.direct_8x8_inference_flag,
            frame_cropping: self.frame_cropping,
            vui_parameters: opt_view(self.vui_parameters),
        }
    }
}

/// `log2_max_frame_num_minus4`, at most 12.
pub open spec fn spec_log2_max_frame_num_minus4(s: BitStream) -> Result<(u8, BitStream), SpsError> {
    match spec_read_ue(s, "log2_max_frame_num_minus4") {
        Err(e) => Err(SpsError::RbspReaderError(e)),
        Ok((v, s2)) => if v > 12 { Err(SpsError::Log2MaxFrameNumMinus4OutOfRange(v)) } else { Ok((v as u8, s2)) },
    }
}

/// `seq_parameter_set_data()` up to `seq_parameter_set_id`: profile, constraint flags, level and id.
#[verifier::opaque]
pub open spec fn spec_sps_ids(s: BitStream) -> Result<((u8, u8, u8, u32), BitStream), SpsError> {
    match spec_read_u8(s, 8, "profile_idc") {
        Err(e) => Err(SpsError::RbspReaderError(e)),
        Ok((p, s1)) => match spec_read_u8(s1, 8, "constraint_flags") {
            Err(e) => Err(SpsError::RbspReaderError(e)),
            Ok((c, s2)) => match spec_read_u8(s2, 8, "level_idc") {
                Err(e) => Err(SpsError::RbspReaderError(e)),
                Ok((l, s3)) => match spec_read_ue(s3, "seq_parameter_set_id") {
                    Err(e) => Err(SpsError::RbspReaderError(e)),
                    Ok((id, s4)) => if id > 31 {
                        Err(SpsError::BadSeqParamSetId(SeqParamSetIdError::IdTooLarge(id)))
                    } else {
                        Ok(((p, c, l, id), s4))
                    },
                },
            },
        },
    }
}

/// `seq_parameter_set_data()` from the chroma information to `max_num_ref_frames`.
#[verifier::opaque]
pub open spec fn spec_sps_middle(s: BitStream, profile_idc: u8) -> Result<((ChromaInfoView, u8, PicOrderCntTypeView, u32), BitStream), SpsError> {
    match spec_chroma_info(s, profile_idc) {
        Err(e) => Err(e),
        Ok((ci, s1)) => match spec_log2_max_frame_num_minus4(s1) {
            Err(e) => Err(e),
            Ok((l, s2)) => match spec_pic_order_cnt(s2) {
                Err(e) => Err(SpsError::PicOrderCnt(e)),
                Ok((poc, s3)) => match spec_read_ue(s3, "max_num_ref_frames") {
                    Err(e) => Err(SpsError::RbspReaderError(e)),
                    Ok((m, s4)) => Ok(((ci, l, poc, m), s4)),
                },
            },
        },
    }
}

/// `seq_parameter_set_data()` from `gaps_in_frame_num_value_allowed_flag` to the frame cropping.
#[verifier::opaque]
pub open spec fn spec_sps_frame(s: BitStream) -> Result<((bool, u32, u32, FrameMbsFlags, bool, Option<FrameCropping>), BitStream), BitReaderError> {
    match spec_read_bit(s, "gaps_in_frame_num_value_allowed_flag") {
        Err(e) => Err(e),
        Ok((g, s1)) => match spec_read_ue(s1, "pic_width_in_mbs_minus1") {
            Err(e) => Err(e),
            Ok((w, s2)) => match spec_read_ue(s2, "pic_height_in_map_units_minus1") {
                Err(e) => Err(e),
                Ok((h, s3)) => match spec_frame_mbs_flags(s3) {
                    Err(e) => Err(e),
                    Ok((f, s4)) => match spec_read_bit(s4, "direct_8x8_inference_flag") {
                        Err(e) => Err(e),
                        Ok((d, s5)) => match spec_frame_cropping(s5) {
                            Err(e) => Err(e),
                            Ok((c, s6)) => Ok(((g, w, h, f, d, c), s6)),
                        },
                    },
                },
            },
        },
    }
}

/// `seq_parameter_set_data()` (7.3.2.1.1), without the RBSP trailing bits.
#[verifier::opaque]
pub open spec fn spec_seq_parameter_set_data(s: BitStream) -> Result<(SeqParameterSetView, BitStream), SpsError> {
    match spec_sps_ids(s) {
        Err(e) => Err(e),
        Ok(((p, c, l, id), s1)) => match spec_sps_middle(s1, p) {
            Err(e) => Err(e),
            Ok(((ci, log2, poc, m), s2)) => match spec_sps_frame(s2) {
                Err(e) => Err(SpsError::RbspReaderError(e)),
                Ok(((g, w, h, f, d, crop), s3)) => match spec_vui_parameters(s3, m) {
                    Err(e) => Err(e),
                    Ok((vui, s4)) => Ok((
                        SeqParameterSetView {
                            profile_idc: p,
                            constraint_flags: c,
                            level_idc: l,
                            seq_parameter_set_id: id as u8,
                            chroma_info: ci,
                            log2_max_frame_num_minus4: log2,
                            pic_order_cnt: poc,
                            max_num_ref_frames: m,
                            gaps_in_frame_num_value_allowed_flag: g,
                            pic_width_in_mbs_minus1: w,
                            pic_height_in_map_units_minus1: h,
                            frame_mbs_flags: f,
                            direct_8x8_inference_flag: d,
                            frame_cropping: crop,
                            vui_parameters: vui,
                        },
                        s4,
                    )),
                },
            },
        },
    }
}

/// A sequence parameter set RBSP: the data, then only the trailing bits.
pub open spec fn spec_seq_parameter_set(s: BitStream) -> Result<SeqParameterSetView, SpsError> {
    match spec_seq_parameter_set_data(s) {
        Err(e) => Err(e),
        Ok((v, s2)) => match crate::rbsp::spec_finish_rbsp(s2) {
            Err(e) => Err(SpsError::RbspReaderError(e)),
            Ok(()) => Ok(v),
        },
    }
}

/// The pixel dimensions of the cropped picture (7.4.2.1.1, `CropUnitX` and `CropUnitY`).
pub open spec fn spec_pixel_dimensions(sps: SeqParameterSetView) -> Result<(u32, u32), SpsError> {
    let width: int = (sps.pic_width_in_mbs_minus1 + 1) * 16;
    let mul: int = if sps.frame_mbs_flags is Fields { 2 } else { 1 };
    let cf = sps.chroma_info.chroma_format;
    let step_x: int = if cf == ChromaFormat::YUV420 || cf == ChromaFormat::YUV422 { 2 } else { 1 };
    let step_y: int = mul * if cf == ChromaFormat::YUV420 { 2int } else { 1int };
    let height: int = (sps.pic_height_in_map_units_minus1 + 1) * (mul * 16);
    if width > u32::MAX {
        Err(SpsError::FieldValueTooLarge { name: "pic_width_in_mbs_minus1", value: sps.pic_width_in_mbs_minus1 })
    } else if height > u32::MAX {
        Err(SpsError::FieldValueTooLarge { name: "pic_height_in_map_units_minus1", value: sps.pic_height_in_map_units_minus1 })
    } else {
        match sps.frame_cropping {
            None => Ok((width as u32, height as u32)),
            Some(crop) => if crop.left_offset * step_x > u32::MAX {
                Err(SpsError::FieldValueTooLarge { name: "left_offset", value: crop.left_offset })
            } else if crop.right_offset * step_x > u32::MAX {
                Err(SpsError::FieldValueTooLarge { name: "right_offset", value: crop.right_offset })
            } else if crop.top_offset * step_y > u32::MAX {
                Err(SpsError::FieldValueTooLarge { name: "top_offset", value: crop.top_offset })
            } else if crop.bottom_offset * step_y > u32::MAX {
                Err(SpsError::FieldValueTooLarge { name: "bottom_offset", value: crop.bottom_offset })
            } else {
                let w = width - crop.left_offset * step_x - crop.right_offset * step_x;
                let h = height - crop.top_offset * step_y - crop.bottom_offset * step_y;
                if w >= 0 && h >= 0 {
                    Ok((w as u32, h as u32))
                } else {
                    Err(SpsError::CroppingError(crop))
                }
            },
        }
    }
}

/// The picture size in luma samples, as H.264 derives it (7-18 to 7-21, 7.4.2.1.1): a
/// macroblock is 16 samples square; without `frame_mbs_only_flag` a map unit is a pair of
/// field macroblocks, twice as tall; the cropping offsets count in units of `CropUnitX`
/// (`SubWidthC`) and `CropUnitY` (`SubHeightC * (2 - frame_mbs_only_flag)`), where 4:2:0
/// halves the chroma in both directions and 4:2:2 horizontally only. The size is refused when
/// a term does not fit in 32 bits or the cropping exceeds the picture.
pub proof fn lemma_pixel_dimensions_picture_size(sps: SeqParameterSetView)
    ensures
        ({
            let frame_mbs_only_flag: int = if sps.frame_mbs_flags is Frames { 1 } else { 0 };
            let cf = sps.chroma_info.chroma_format;
            let sub_width_c: int = if cf == ChromaFormat::YUV420 || cf == ChromaFormat::YUV422 { 2 } else { 1 };
            let sub_height_c: int = if cf == ChromaFormat::YUV420 { 2 } else { 1 };
            let crop_unit_x: int = sub_width_c;
            let crop_unit_y: int = sub_height_c * (2 - frame_mbs_only_flag);
            let full_width: int = 16 * (sps.pic_width_in_mbs_minus1 + 1);
            let full_height: int = (2 - frame_mbs_only_flag) * 16 * (sps.pic_height_in_map_units_minus1 + 1);
            let (l, r, t, b): (int, int, int, int) = match sps.frame_cropping {
                None => (0, 0, 0, 0),
                Some(c) => (c.left_offset as int, c.right_offset as int, c.top_offset as int, c.bottom_offset as int),
            };
            &&& spec_pixel_dimensions(sps) matches Ok((w, h)) ==> {
                &&& w == full_width - crop_unit_x * (l + r)
                &&& h == full_height - crop_unit_y * (t + b)
            }
            &&& spec_pixel_dimensions(sps) is Ok <==> {
                &&& full_width <= u32::MAX
                &&& full_height <= u32::MAX
                &&& crop_unit_x * l <= u32::MAX && crop_unit_x * r <= u32::MAX
                &&& crop_unit_y * t <= u32::MAX && crop_unit_y * b <= u32::MAX
                &&& crop_unit_x * (l + r) <= full_width
                &&& crop_unit_y * (t + b) <= full_height
            }
        }),
{
    let ph: int = sps.pic_height_in_map_units_minus1 + 1;
    let cf = sps.chroma_info.chroma_format;
    let fmo: int = if sps.frame_mbs_flags is Frames { 1 } else { 0 };
    let mul: int = if sps.frame_mbs_flags is Fields { 2 } else { 1 };
    let sub_h: int = if cf == ChromaFormat::YUV420 { 2 } else { 1 };
    let step_x: int = if cf == ChromaFormat::YUV420 || cf == ChromaFormat::YUV422 { 2 } else { 1 };
    assert(mul == 2 - fmo);
    assert(mul * sub_h == sub_h * (2 - fmo)) by (nonlinear_arith)
        requires mul == 2 - fmo;
    assert(ph * (mul * 16) == (2 - fmo) * 16 * ph) by (nonlinear_arith)
        requires mul == 2 - fmo;
    let step_y: int = mul * sub_h;
    if let Some(c) = sps.frame_cropping {
        let (l, r, t, bo): (int, int, int, int) = (c.left_offset as int, c.right_offset as int, c.top_offset as int, c.bottom_offset as int);
        assert(l * step_x == step_x * l && r * step_x == step_x * r) by (nonlinear_arith);
        assert(t * step_y == step_y * t && bo * step_y == step_y * bo) by (nonlinear_arith);
        assert(step_x * (l + r) == step_x * l + step_x * r) by (nonlinear_arith);
        assert(step_y * (t + bo) == step_y * t + step_y * bo) by (nonlinear_arith);
    }
}

/// Names the codec of an AVC stream with the given profile, constraint flags and level.
pub uninterp spec fn avc1_codec(profile_idc: u8, constraint_flags: u8, level_idc: u8) -> rfc6381_codec::Codec;

#[verifier::external_type_specification]
#[verifier::external_body]
pub struct ExCodec(rfc6381_codec::Codec);

/// Calls `rfc6381_codec::Codec::avc1`, which builds the `avc1` codec description from its
/// three bytes; the contract claims only that the result is a function of those bytes.
#[verifier::external_body]
fn codec_avc1(profile_idc: u8, constraint_flags: u8, level_idc: u8) -> (c: rfc6381_codec::Codec)
    ensures
        c == avc1_codec(profile_idc, constraint_flags, level_idc),
{
    rfc6381_codec::Codec::avc1(profile_idc, constraint_flags, level_idc)
}

impl SeqParameterSet {
    fn read_ids(r: &mut BitReader) -> (res: Result<(u8, u8, u8, u32), SpsError>)
        ensures
            parsed(res, spec_sps_ids(old(r)@), final(r)@),
            res matches Ok((_, _, _, id)) ==> id <= 31,
    {
        reveal(spec_sps_ids);
        let ghost s0 = r@;
        let profile_idc: u8 = match r.read::<8, u8>("profile_idc") {
            Ok(v) => v,
            Err(e) => return Err(SpsError::RbspReaderError(e)),
        };
        let constraint_flags: u8 = match r.read::<8, u8>("constraint_flags") {
            Ok(v) => v,
            Err(e) => return Err(SpsError::RbspReaderError(e)),
        };
        let level_idc: u8 = match r.read::<8, u8>("level_idc") {
            Ok(v) => v,
            Err(e) => return Err(SpsError::RbspReaderError(e)),
        };
        let id = match r.read_ue("seq_parameter_set_id") {
            Ok(v) => v,
            Err(e) => return Err(SpsError::RbspReaderError(e)),
        };
        if id > 31 {
            return Err(SpsError::BadSeqParamSetId(SeqParamSetIdError::IdTooLarge(id)));
        }
        Ok((profile_idc, constraint_flags, level_idc, id))
    }

    fn read_middle(r: &mut BitReader, profile_idc: ProfileIdc) -> (res: Result<(ChromaInfo, u8, PicOrderCntType, u32), SpsError>)
        ensures
            match spec_sps_middle(old(r)@, profile_idc.spec_value()) {
                Ok(((ci, l, poc, m), s2)) => res matches Ok((eci, el, epoc, em)) && eci@ == ci && el == l && epoc@ == poc && em == m && final(r)@ == s2,
                Err(e) => res == Err::<(ChromaInfo, u8, PicOrderCntType, u32), SpsError>(e),
            },
    {
        reveal(spec_sps_middle);
        let chroma_info = match ChromaInfo::read(r, profile_idc) {
            Ok(v) => v,
            Err(e) => return Err(e),
        };
        let log2_max_frame_num_minus4 = match Self::read_log2_max_frame_num_minus4(r) {
            Ok(v) => v,
            Err(e) => return Err(e),
        };
        let pic_order_cnt = match PicOrderCntType::read(r) {
            Ok(v) => v,
            Err(e) => return Err(SpsError::PicOrderCnt(e)),
        };
        let max_num_ref_frames = match r.read_ue("max_num_ref_frames") {
            Ok(v) => v,
            Err(e) => return Err(SpsError::RbspReaderError(e)),
        };
        Ok((chroma_info, log2_max_frame_num_minus4, pic_order_cnt, max_num_ref_frames))
    }

    fn read_frame(r: &mut BitReader) -> (res: Result<(bool, u32, u32, FrameMbsFlags, bool, Option<FrameCropping>), BitReaderError>)
        ensures
            parsed(res, spec_sps_frame(old(r)@), final(r)@),
    {
        reveal(spec_sps_frame);
        let gaps = match r.read_bit("gaps_in_frame_num_value_allowed_flag") {
            Ok(v) => v,
            Err(e) => return Err(e),
        };
        let w = match r.read_ue("pic_width_in_mbs_minus1") {
            Ok(v) => v,
            Err(e) => return Err(e),
        };
        let h = match r.read_ue("pic_height_in_map_units_minus1") {
            Ok(v) => v,
            Err(e) => return Err(e),
        };
        let f = match FrameMbsFlags::read(r) {
            Ok(v) => v,
            Err(e) => return Err(e),
        };
        let d = match r.read_bit("direct_8x8_inference_flag") {
            Ok(v) => v,
            Err(e) => return Err(e),
        };
        let c = match FrameCropping::read(r) {
            Ok(v) => v,
            Err(e) => return Err(e),
        };
        Ok((gaps, w, h, f, d, c))
    }

    /// Parses `seq_parameter_set_data()` (spec 7.3.2.1.1) without consuming the RBSP trailing
    /// bits. This is used by both `from_bits()` and `subset_seq_parameter_set_rbsp()` parsing.
    pub(crate) fn read_seq_parameter_set_data(r: &mut BitReader) -> (res: Result<SeqParameterSet, SpsError>)
        ensures
            parsed_view(res, spec_seq_parameter_set_data(old(r)@), final(r)@),
    {
        reveal(spec_seq_parameter_set_data);
        let (p, c, level_idc, id) = match Self::read_ids(r) {
            Ok(v) => v,
            Err(e) => return Err(e),
        };
        let profile_idc = ProfileIdc(p);
        let constraint_flags = ConstraintFlags(c);
        let seq_parameter_set_id = SeqParamSetId(id as u8);
        let (chroma_info, log2_max_frame_num_minus4, pic_order_cnt, max_num_ref_frames) = match Self::read_middle(r, profile_idc) {
            Ok(v) => v,
            Err(e) => return Err(e),
        };
        let (gaps, w, h, frame_mbs_flags, direct_8x8_inference_flag, frame_cropping) = match Self::read_frame(r) {
            Ok(v) => v,
            Err(e) => return Err(SpsError::RbspReaderError(e)),
        };
        // the bitstream restriction checks within the VUI parameters need the maximum number
        // of reference frames from the basic SPS data
        let vui_parameters = match VuiParameters::read(r, max_num_ref_frames) {
            Ok(v) => v,
            Err(e) => return Err(e),
        };
        Ok(SeqParameterSet {
            profile_idc,
            constraint_flags,
            level_idc,
            seq_parameter_set_id,
            chroma_info,
            log2_max_frame_num_minus4,
            pic_order_cnt,
            max_num_ref_frames,
            gaps_in_frame_num_value_allowed_flag: gaps,
            pic_width_in_mbs_minus1: w,
            pic_height_in_map_units_minus1: h,
            frame_mbs_flags,
            direct_8x8_inference_flag,
            frame_cropping,
            vui_parameters,
        })
    }

    pub fn from_bits(r: BitReader) -> (res: Result<SeqParameterSet, SpsError>)
        ensures
            match spec_seq_parameter_set(r@) {
                Ok(v) => res matches Ok(sps) && sps@ == v,
                Err(e) => res == Err::<SeqParameterSet, SpsError>(e),
            },
    {
        let mut r = r;
        let sps = match Self::read_seq_parameter_set_data(&mut r) {
            Ok(v) => v,
            Err(e) => return Err(e),
        };
        match r.finish_rbsp() {
            Ok(()) => Ok(sps),
            Err(e) => Err(SpsError::RbspReaderError(e)),
        }
    }

    pub fn id(&self) -> (r: SeqParamSetId)
        ensures
            r == self.seq_parameter_set_id,
    {
        self.seq_parameter_set_id
    }

    fn read_log2_max_frame_num_minus4(r: &mut BitReader) -> (res: Result<u8, SpsError>)
        ensures
            parsed(res, spec_log2_max_frame_num_minus4(old(r)@), final(r)@),
    {
        let val = match r.read_ue("log2_max_frame_num_minus4") {
            Ok(v) => v,
            Err(e) => return Err(SpsError::RbspReaderError(e)),
        };
        if val > 12 {
            Err(SpsError::Log2MaxFrameNumMinus4OutOfRange(val))
        } else {
            Ok(val as u8)
        }
    }

    pub fn profile(&self) -> (r: Profile)
        ensures
            r == spec_profile(self@.profile_idc, self@.constraint_flags),
    {
        Profile::from_profile_idc(self.profile_idc, self.constraint_flags)
    }

    pub fn level(&self) -> (r: Level)
        ensures
            r == spec_level(self@.constraint_flags, self.level_idc),
    {
        Level::from_constraint_flags_and_level_idc(self.constraint_flags, self.level_idc)
    }

    /// returned value will be in the range 4 to 16 inclusive
    pub fn log2_max_frame_num(&self) -> (r: u8)
        requires
            self.log2_max_frame_num_minus4 <= 12,
        ensures
            r == self.log2_max_frame_num_minus4 + 4,
            4 <= r <= 16,
    {
        self.log2_max_frame_num_minus4 + 4
    }

    /// Helper to calculate the pixel-dimensions of the video image specified by this SPS, taking
    /// into account sample-format, interlacing and cropping.
    pub fn pixel_dimensions(&self) -> (res: Result<(u32, u32), SpsError>)
        requires
            self.pic_height_in_map_units_minus1 < u32::MAX,
        ensures
            res == spec_pixel_dimensions(self@),
    {
        let width: u64 = (self.pic_width_in_mbs_minus1 as u64 + 1) * 16;
        if width > u32::MAX as u64 {
            return Err(SpsError::FieldValueTooLarge { name: "pic_width_in_mbs_minus1", value: self.pic_width_in_mbs_minus1 });
        }
        let mul: u64 = match self.frame_mbs_flags {
            FrameMbsFlags::Fields { .. } => 2,
            FrameMbsFlags::Frames => 1,
        };
        let cf = self.chroma_info.chroma_format;
        let vsub: u64 = if cf == ChromaFormat::YUV420 { 1 } else { 0 };
        let hsub: u64 = if cf == ChromaFormat::YUV420 || cf == ChromaFormat::YUV422 { 1 } else { 0 };
        let step_x: u64 = if hsub == 1 { 2 } else { 1 };
        let step_y: u64 = if vsub == 1 { mul * 2 } else { mul };
        assert((self.pic_height_in_map_units_minus1 as u64 + 1) * (mul * 16) <= 0x1_0000_0000u64 * 32) by (nonlinear_arith)
            requires
                self.pic_height_in_map_units_minus1 < 0x1_0000_0000u64,
                mul <= 2,
        ;
        let height: u64 = (self.pic_height_in_map_units_minus1 as u64 + 1) * (mul * 16);
        if height > u32::MAX as u64 {
            return Err(SpsError::FieldValueTooLarge {
                name: "pic_height_in_map_units_minus1",
                value: self.pic_height_in_map_units_minus1,
            });
        }
        match self.frame_cropping {
            None => Ok((width as u32, height as u32)),
            Some(crop) => {
                let left_offset: u64 = crop.left_offset as u64 * step_x;
                if left_offset > u32::MAX as u64 {
                    return Err(SpsError::FieldValueTooLarge { name: "left_offset", value: crop.left_offset });
                }
                let right_offset: u64 = crop.right_offset as u64 * step_x;
                if right_offset > u32::MAX as u64 {
                    return Err(SpsError::FieldValueTooLarge { name: "right_offset", value: crop.right_offset });
                }
                assert(crop.top_offset as u64 * step_y <= 0x1_0000_0000u64 * 4) by (nonlinear_arith)
                    requires
                        crop.top_offset < 0x1_0000_0000u64,
                        step_y <= 4,
                ;
                assert(crop.bottom_offset as u64 * step_y <= 0x1_0000_0000u64 * 4) by (nonlinear_arith)
                    requires
                        crop.bottom_offset < 0x1_0000_0000u64,
                        step_y <= 4,
                ;
                let top_offset: u64 = crop.top_offset as u64 * step_y;
                if top_offset > u32::MAX as u64 {
                    return Err(SpsError::FieldValueTooLarge { name: "top_offset", value: crop.top_offset });
                }
                let bottom_offset: u64 = crop.bottom_offset as u64 * step_y;
                if bottom_offset > u32::MAX as u64 {
                    return Err(SpsError::FieldValueTooLarge { name: "bottom_offset", value: crop.bottom_offset });
                }
                if width >= left_offset + right_offset && height >= top_offset + bottom_offset {
                    Ok(((width - left_offset - right_offset) as u32, (height - top_offset - bottom_offset) as u32))
                } else {
                    Err(SpsError::CroppingError(crop))
                }
            },
        }
    }

    /// The RFC 6381 codec description of the stream.
    pub fn rfc6381(&self) -> (c: rfc6381_codec::Codec)
        ensures
            c == avc1_codec(self@.profile_idc, self@.constraint_flags, self.level_idc),
    {
        codec_avc1(self.profile_idc.0, self.constraint_flags.0, self.level_idc)
    }

    pub fn pic_width_in_mbs(&self) -> (r: u32)
        requires
            self.pic_width_in_mbs_minus1 < u32::MAX,
        ensures
            r == self.pic_width_in_mbs_minus1 + 1,
    {
        self.pic_width_in_mbs_minus1 + 1
    }

    /// From the spec: `PicHeightInMapUnits = pic_height_in_map_units_minus1 + 1`
    pub fn pic_height_in_map_units(&self) -> (r: u32)
        requires
            self.pic_height_in_map_units_minus1 < u32::MAX,
        ensures
            r == self.pic_height_in_map_units_minus1 + 1,
    {
        self.pic_height_in_map_units_minus1 + 1
    }

    /// From the spec: `PicSizeInMapUnits = PicWidthInMbs * PicHeightInMapUnits`
    pub fn pic_size_in_map_units(&self) -> (r: u32)
        requires
            (self.pic_width_in_mbs_minus1 + 1) * (self.pic_height_in_map_units_minus1 + 1) <= u32::MAX,
        ensures
            r == (self.pic_width_in_mbs_minus1 + 1) * (self.pic_height_in_map_units_minus1 + 1),
    {
        proof {
            assert(self.pic_width_in_mbs_minus1 + 1 <= (self.pic_width_in_mbs_minus1 + 1) * (self.pic_height_in_map_units_minus1 + 1)) by (nonlinear_arith)
                requires self.pic_height_in_map_units_minus1 + 1 >= 1;
            assert(self.pic_height_in_map_units_minus1 + 1 <= (self.pic_width_in_mbs_minus1 + 1) * (self.pic_height_in_map_units_minus1 + 1)) by (nonlinear_arith)
                requires self.pic_width_in_mbs_minus1 + 1 >= 1;
        }
        self.pic_width_in_mbs() * self.pic_height_in_map_units()
    }
}



/// A write that appended `bits` when `fits`, or else failed with an invalid input.
pub open spec fn wrote_if(r: Result<(), IoError>, before: Seq<bool>, after: Seq<bool>, fits: bool, bits: Seq<bool>) -> bool {
    if fits {
        r is Ok && after == before + bits
    } else {
        r == Err::<(), IoError>(IoError { kind: ErrorKind::InvalidInput })
    }
}

/// A write that appended `expect`, or failed with its error kind.
pub open spec fn wrote(r: Result<(), IoError>, before: Seq<bool>, after: Seq<bool>, expect: Result<Seq<bool>, ErrorKind>) -> bool {
    match expect {
        Ok(b) => r is Ok && after == before + b,
        Err(k) => r == Err::<(), IoError>(IoError { kind: k }),
    }
}

/// The signed difference from `last` to `next` modulo 256, as `delta_scale` codes it.
pub open spec fn scale_delta(last: u8, next: u8) -> i32 {
    let d = (next - last + 256) % 256;
    if d >= 128 {
        (d - 256) as i32
    } else {
        d as i32
    }
}

/// The `delta_scale` codes of the `next_scale` values `l`, after `last`, up to and including
/// the first zero.
pub open spec fn scaling_deltas_bits(l: Seq<u8>, last: u8) -> Seq<bool>
    decreases l.len(),
{
    if l.len() == 0 {
        Seq::empty()
    } else {
        let d = se_bits(scale_delta(last, l[0]));
        if l[0] == 0 {
            d
        } else {
            d + scaling_deltas_bits(l.skip(1), l[0])
        }
    }
}

/// One scaling list with its presence flag.
pub open spec fn scaling_list_bits(o: Option<Seq<u8>>) -> Seq<bool> {
    match o {
        None => seq![false],
        Some(l) => seq![true] + scaling_deltas_bits(l, 8),
    }
}

/// Scaling lists, each with its presence flag.
pub open spec fn scaling_lists_bits(ls: Seq<Option<Seq<u8>>>) -> Seq<bool>
    decreases ls.len(),
{
    if ls.len() == 0 {
        Seq::empty()
    } else {
        scaling_lists_bits(ls.drop_last()) + scaling_list_bits(ls.last())
    }
}

/// The 8x8 scaling lists, which must cover chroma exactly for 4:4:4, or the failure of lists
/// that do not.
pub open spec fn scaling_lists_8x8_bits(v: ScalingLists8x8View, chroma_format: ChromaFormat) -> Result<Seq<bool>, ErrorKind> {
    if v.ycbcr == (chroma_format == ChromaFormat::YUV444) {
        Ok(scaling_lists_bits(v.lists))
    } else {
        Err(ErrorKind::InvalidData)
    }
}

pub open spec fn scaling_matrix_bits(v: SeqScalingMatrixView, chroma_format: ChromaFormat) -> Result<Seq<bool>, ErrorKind> {
    match scaling_lists_8x8_bits(v.lists8x8, chroma_format) {
        Err(e) => Err(e),
        Ok(b) => Ok(scaling_lists_bits(v.lists4x4) + b),
    }
}

/// Whether the chroma information can be coded without overflow.
pub open spec fn chroma_info_writable(c: ChromaInfoView) -> bool {
    spec_chroma_format_idc(c.chroma_format) < u32::MAX
}

/// The chroma information of `seq_parameter_set_data()` for the given profile.
#[verifier::opaque]
pub open spec fn chroma_info_bits(c: ChromaInfoView, profile_idc: u8) -> Result<Seq<bool>, ErrorKind> {
    if !spec_has_chroma_info(profile_idc) {
        Ok(Seq::empty())
    } else {
        let idc = spec_chroma_format_idc(c.chroma_format);
        let head = ue_bits(idc) + (if idc == 3 { seq![c.separate_colour_plane_flag] } else { Seq::empty() })
            + ue_bits(c.bit_depth_luma_minus8 as u32) + ue_bits(c.bit_depth_chroma_minus8 as u32)
            + seq![c.qpprime_y_zero_transform_bypass_flag];
        match c.scaling_matrix {
            None => Ok(head.push(false)),
            Some(m) => match scaling_matrix_bits(m, c.chroma_format) {
                Err(e) => Err(e),
                Ok(b) => Ok(head.push(true) + b),
            },
        }
    }
}

/// `se(v)` codes of each value.
pub open spec fn se_list_bits(l: Seq<i32>) -> Seq<bool>
    decreases l.len(),
{
    if l.len() == 0 {
        Seq::empty()
    } else {
        se_list_bits(l.drop_last()) + se_bits(l.last())
    }
}

/// Whether the picture order count fields can be coded without overflow.
pub open spec fn pic_order_cnt_writable(p: PicOrderCntTypeView) -> bool {
    match p {
        PicOrderCntTypeView::TypeOne { offset_for_non_ref_pic, offset_for_top_to_bottom_field, offsets_for_ref_frame, .. } => {
            &&& offset_for_non_ref_pic > i32::MIN
            &&& offset_for_top_to_bottom_field > i32::MIN
            &&& offsets_for_ref_frame.len() < u32::MAX
            &&& forall|i: int| 0 <= i < offsets_for_ref_frame.len() ==> #[trigger] offsets_for_ref_frame[i] > i32::MIN
        },
        _ => true,
    }
}

#[verifier::opaque]
pub open spec fn pic_order_cnt_bits(p: PicOrderCntTypeView) -> Seq<bool> {
    match p {
        PicOrderCntTypeView::TypeZero { log2_max_pic_order_cnt_lsb_minus4 } => ue_bits(0) + ue_bits(log2_max_pic_order_cnt_lsb_minus4 as u32),
        PicOrderCntTypeView::TypeOne {
            delta_pic_order_always_zero_flag,
            offset_for_non_ref_pic,
            offset_for_top_to_bottom_field,
            offsets_for_ref_frame,
        } => ue_bits(1) + seq![delta_pic_order_always_zero_flag] + se_bits(offset_for_non_ref_pic)
            + se_bits(offset_for_top_to_bottom_field) + ue_bits(offsets_for_ref_frame.len() as u32)
            + se_list_bits(offsets_for_ref_frame),
        PicOrderCntTypeView::TypeTwo => ue_bits(2),
    }
}

#[verifier::opaque]
pub open spec fn frame_mbs_flags_bits(f: FrameMbsFlags) -> Seq<bool> {
    match f {
        FrameMbsFlags::Frames => seq![true],
        FrameMbsFlags::Fields { mb_adaptive_frame_field_flag } => seq![false, mb_adaptive_frame_field_flag],
    }
}

pub open spec fn frame_cropping_writable(c: Option<FrameCropping>) -> bool {
    c matches Some(c) ==> c.left_offset < u32::MAX && c.right_offset < u32::MAX && c.top_offset < u32::MAX
        && c.bottom_offset < u32::MAX
}

#[verifier::opaque]
pub open spec fn frame_cropping_bits(c: Option<FrameCropping>) -> Seq<bool> {
    match c {
        None => seq![false],
        Some(c) => seq![true] + ue_bits(c.left_offset) + ue_bits(c.right_offset) + ue_bits(c.top_offset) + ue_bits(c.bottom_offset),
    }
}

#[verifier::opaque]
pub open spec fn aspect_ratio_info_bits(a: Option<AspectRatioInfo>) -> Seq<bool> {
    match a {
        None => seq![false],
        Some(a) => seq![true] + value_bits(spec_aspect_ratio_idc(a) as nat, 8) + match a {
            AspectRatioInfo::Extended(w, h) => value_bits(w as nat, 16) + value_bits(h as nat, 16),
            _ => Seq::empty(),
        },
    }
}

#[verifier::opaque]
pub open spec fn overscan_bits(o: OverscanAppropriate) -> Seq<bool> {
    match o {
        OverscanAppropriate::Unspecified => seq![false],
        OverscanAppropriate::Appropriate => seq![true, true],
        OverscanAppropriate::Inappropriate => seq![true, false],
    }
}

#[verifier::opaque]
pub open spec fn colour_description_bits(c: Option<ColourDescription>) -> Seq<bool> {
    match c {
        None => seq![false],
        Some(c) => seq![true] + value_bits(c.colour_primaries as nat, 8) + value_bits(c.transfer_characteristics as nat, 8)
            + value_bits(c.matrix_coefficients as nat, 8),
    }
}

/// Whether the `u(n)` fields of the video signal type hold their values.
pub open spec fn video_signal_type_fits(v: Option<VideoSignalType>) -> bool {
    v matches Some(v) ==> spec_video_format_value(v.video_format) < 8
}

#[verifier::opaque]
pub open spec fn video_signal_type_bits(v: Option<VideoSignalType>) -> Seq<bool> {
    match v {
        None => seq![false],
        Some(v) => seq![true] + value_bits(spec_video_format_value(v.video_format) as nat, 3)
            + seq![v.video_full_range_flag] + colour_description_bits(v.colour_description),
    }
}

pub open spec fn chroma_loc_info_writable(c: Option<ChromaLocInfo>) -> bool {
    c matches Some(c) ==> c.chroma_sample_loc_type_top_field < u32::MAX && c.chroma_sample_loc_type_bottom_field < u32::MAX
}

#[verifier::opaque]
pub open spec fn chroma_loc_info_bits(c: Option<ChromaLocInfo>) -> Seq<bool> {
    match c {
        None => seq![false],
        Some(c) => seq![true] + ue_bits(c.chroma_sample_loc_type_top_field) + ue_bits(c.chroma_sample_loc_type_bottom_field),
    }
}

#[verifier::opaque]
pub open spec fn timing_info_bits(t: Option<TimingInfo>) -> Seq<bool> {
    match t {
        None => seq![false],
        Some(t) => seq![true] + value_bits(t.num_units_in_tick as nat, 32) + value_bits(t.time_scale as nat, 32)
            + seq![t.fixed_frame_rate_flag],
    }
}

pub open spec fn cpb_spec_writable(c: CpbSpec) -> bool {
    c.bit_rate_value_minus1 < u32::MAX && c.cpb_size_value_minus1 < u32::MAX
}

pub open spec fn cpb_specs_bits(l: Seq<CpbSpec>) -> Seq<bool>
    decreases l.len(),
{
    if l.len() == 0 {
        Seq::empty()
    } else {
        cpb_specs_bits(l.drop_last()) + ue_bits(l.last().bit_rate_value_minus1) + ue_bits(l.last().cpb_size_value_minus1)
            + seq![l.last().cbr_flag]
    }
}

pub open spec fn hrd_writable(h: Option<HrdParametersView>) -> bool {
    h matches Some(h) ==> {
        &&& 1 <= h.cpb_specs.len() <= u32::MAX
        &&& forall|i: int| 0 <= i < h.cpb_specs.len() ==> cpb_spec_writable(#[trigger] h.cpb_specs[i])
    }
}

/// Whether the `u(n)` fields of the HRD parameters hold their values.
pub open spec fn hrd_fits(h: Option<HrdParametersView>) -> bool {
    h matches Some(h) ==> {
        &&& h.bit_rate_scale < 16
        &&& h.cpb_size_scale < 16
        &&& h.initial_cpb_removal_delay_length_minus1 < 32
        &&& h.cpb_removal_delay_length_minus1 < 32
        &&& h.dpb_output_delay_length_minus1 < 32
        &&& h.time_offset_length < 32
    }
}

#[verifier::opaque]
pub open spec fn hrd_bits(h: Option<HrdParametersView>) -> Seq<bool> {
    match h {
        None => seq![false],
        Some(h) => seq![true] + ue_bits((h.cpb_specs.len() - 1) as u32) + value_bits(h.bit_rate_scale as nat, 4)
            + value_bits(h.cpb_size_scale as nat, 4) + cpb_specs_bits(h.cpb_specs)
            + value_bits(h.initial_cpb_removal_delay_length_minus1 as nat, 5)
            + value_bits(h.cpb_removal_delay_length_minus1 as nat, 5)
            + value_bits(h.dpb_output_delay_length_minus1 as nat, 5) + value_bits(h.time_offset_length as nat, 5),
    }
}

pub open spec fn bitstream_restrictions_writable(b: Option<BitstreamRestrictions>) -> bool {
    b matches Some(b) ==> {
        &&& b.max_bytes_per_pic_denom < u32::MAX
        &&& b.max_bits_per_mb_denom < u32::MAX
        &&& b.log2_max_mv_length_horizontal < u32::MAX
        &&& b.log2_max_mv_length_vertical < u32::MAX
        &&& b.max_num_reorder_frames < u32::MAX
        &&& b.max_dec_frame_buffering < u32::MAX
    }
}

#[verifier::opaque]
pub open spec fn bitstream_restrictions_bits(b: Option<BitstreamRestrictions>) -> Seq<bool> {
    match b {
        None => seq![false],
        Some(b) => seq![true, b.motion_vectors_over_pic_boundaries_flag] + ue_bits(b.max_bytes_per_pic_denom)
            + ue_bits(b.max_bits_per_mb_denom) + ue_bits(b.log2_max_mv_length_horizontal)
            + ue_bits(b.log2_max_mv_length_vertical) + ue_bits(b.max_num_reorder_frames)
            + ue_bits(b.max_dec_frame_buffering),
    }
}

pub open spec fn vui_writable(v: Option<VuiParametersView>) -> bool {
    v matches Some(v) ==> {
        &&& chroma_loc_info_writable(v.chroma_loc_info)
        &&& hrd_writable(v.nal_hrd_parameters)
        &&& hrd_writable(v.vcl_hrd_parameters)
        &&& bitstream_restrictions_writable(v.bitstream_restrictions)
    }
}

/// Whether the `u(n)` fields of the VUI parameters hold their values.
pub open spec fn vui_fits(v: Option<VuiParametersView>) -> bool {
    v matches Some(v) ==> {
        &&& video_signal_type_fits(v.video_signal_type)
        &&& hrd_fits(v.nal_hrd_parameters)
        &&& hrd_fits(v.vcl_hrd_parameters)
    }
}

pub open spec fn vui_bits(v: Option<VuiParametersView>) -> Seq<bool> {
    match v {
        None => seq![false],
        Some(v) => seq![true] + vui_head_bits(v) + vui_tail_bits(v),
    }
}

/// Whether every field of the sequence parameter set can be coded without overflow.
pub open spec fn sps_writable(v: SeqParameterSetView) -> bool {
    &&& chroma_info_writable(v.chroma_info)
    &&& pic_order_cnt_writable(v.pic_order_cnt)
    &&& v.max_num_ref_frames < u32::MAX
    &&& v.pic_width_in_mbs_minus1 < u32::MAX
    &&& v.pic_height_in_map_units_minus1 < u32::MAX
    &&& frame_cropping_writable(v.frame_cropping)
    &&& vui_writable(v.vui_parameters)
}

/// The fields of `seq_parameter_set_data()`, before the trailing bits; or the failure of
/// scaling lists that do not match the chroma format, else of a `u(n)` field too large for it.
pub open spec fn sps_data_bits(v: SeqParameterSetView) -> Result<Seq<bool>, ErrorKind> {
    match chroma_info_bits(v.chroma_info, v.profile_idc) {
        Err(e) => Err(e),
        Ok(c) => if !vui_fits(v.vui_parameters) {
            Err(ErrorKind::InvalidInput)
        } else {
            Ok(sps_head_bits(v) + c + sps_frame_bits(v) + vui_bits(v.vui_parameters))
        },
    }
}

/// The fields of `seq_parameter_set_data()` before the chroma information.
pub open spec fn sps_head_bits(v: SeqParameterSetView) -> Seq<bool> {
    value_bits(v.profile_idc as nat, 8) + value_bits(v.constraint_flags as nat, 8) + value_bits(v.level_idc as nat, 8)
        + ue_bits(v.seq_parameter_set_id as u32)
}

/// The fields of `seq_parameter_set_data()` from `log2_max_frame_num_minus4` to the frame
/// cropping.
pub open spec fn sps_frame_bits(v: SeqParameterSetView) -> Seq<bool> {
    ue_bits(v.log2_max_frame_num_minus4 as u32) + pic_order_cnt_bits(v.pic_order_cnt) + ue_bits(v.max_num_ref_frames)
        + seq![v.gaps_in_frame_num_value_allowed_flag] + ue_bits(v.pic_width_in_mbs_minus1)
        + ue_bits(v.pic_height_in_map_units_minus1) + frame_mbs_flags_bits(v.frame_mbs_flags)
        + seq![v.direct_8x8_inference_flag] + frame_cropping_bits(v.frame_cropping)
}

/// The RBSP of a sequence parameter set written after `start` bits: its fields, then the
/// trailing bits.
pub open spec fn sps_rbsp_bits(v: SeqParameterSetView, start: nat) -> Result<Seq<bool>, ErrorKind> {
    match sps_data_bits(v) {
        Err(e) => Err(e),
        Ok(b) => Ok(b + trailing_bits(start + b.len())),
    }
}

/// Writes the `delta_scale` codes of one scaling list.
fn write_list(next_scale: &Vec<u8>, w: &mut BitWriter)
    requires
        old(w).wf(),
    ensures
        final(w).wf(),
        final(w)@ == old(w)@ + scaling_deltas_bits(next_scale@, 8),
{
    let ghost start = w@;
    let ghost l = next_scale@;
    let mut last_scale: u8 = 8;
    let mut i: usize = 0;
    assert(l.skip(0) =~= l);
    assert(w@ =~= start + Seq::<bool>::empty());
    while i < next_scale.len()
        invariant
            w.wf(),
            start == old(w)@,
            i <= l.len(),
            l == next_scale@,
            w@ + scaling_deltas_bits(l.skip(i as int), last_scale) == start + scaling_deltas_bits(l, 8),
        decreases l.len() - i,
    {
        let ns = next_scale[i];
        let ghost rest = l.skip(i as int);
        assert(rest.len() > 0);
        assert(rest[0] == ns);
        assert(rest.skip(1) =~= l.skip(i + 1));
        // nextScale = ( lastScale + delta_scale + 256 ) % 256
        let delta: i32 = if ns >= last_scale {
            let d = ns - last_scale;
            if d >= 128 { d as i32 - 256 } else { d as i32 }
        } else {
            let d = 256 - (last_scale - ns) as i32;
            if d >= 128 { d - 256 } else { d }
        };
        assert(delta == scale_delta(last_scale, ns));
        let ghost before = w@;
        w.write_se(delta);
        if ns == 0 {
            // Freeze: a zero next_scale ends the explicit deltas.
            assert(w@ =~= before + scaling_deltas_bits(rest, last_scale));
            assert(w@ =~= start + scaling_deltas_bits(l, 8));
            return;
        }
        assert(w@ + scaling_deltas_bits(l.skip(i + 1), ns) =~= before + scaling_deltas_bits(rest, last_scale));
        last_scale = ns;
        i = i + 1;
    }
    assert(l.skip(i as int) =~= Seq::<u8>::empty());
    assert(w@ =~= w@ + Seq::<bool>::empty());
}

fn write_lists(lists: &Vec<Option<Vec<u8>>>, w: &mut BitWriter)
    requires
        old(w).wf(),
    ensures
        final(w).wf(),
        final(w)@ == old(w)@ + scaling_lists_bits(lists_view(lists@)),
{
    let ghost start = w@;
    let ghost ls = lists_view(lists@);
    let mut i: usize = 0;
    assert(ls.take(0) =~= Seq::<Option<Seq<u8>>>::empty());
    assert(w@ =~= start + scaling_lists_bits(ls.take(0)));
    while i < lists.len()
        invariant
            w.wf(),
            start == old(w)@,
            i <= lists@.len(),
            ls == lists_view(lists@),
            ls.len() == lists@.len(),
            w@ == start + scaling_lists_bits(ls.take(i as int)),
        decreases lists@.len() - i,
    {
        let ghost before = w@;
        match &lists[i] {
            None => {
                w.write_bit(false);
            },
            Some(l) => {
                w.write_bit(true);
                write_list(l, w);
            },
        }
        proof {
            let t = ls.take(i + 1);
            assert(t.drop_last() =~= ls.take(i as int));
            assert(t.last() == ls[i as int]);
            assert(w@ =~= before + scaling_list_bits(ls[i as int]));
        }
        i = i + 1;
    }
    assert(ls.take(i as int) =~= ls);
}

impl ScalingLists4x4 {
    pub(crate) fn write(&self, w: &mut BitWriter) -> (r: Result<(), IoError>)
        requires
            old(w).wf(),
        ensures
            final(w).wf(),
            wrote(r, old(w)@, final(w)@, Ok(scaling_lists_bits(self@))),
    {
        write_lists(&self.0, w);
        Ok(())
    }
}

impl ScalingLists8x8 {
    pub(crate) fn write(&self, w: &mut BitWriter, chroma_format: ChromaFormat) -> (r: Result<(), IoError>)
        requires
            old(w).wf(),
        ensures
            final(w).wf(),
            wrote(r, old(w)@, final(w)@, scaling_lists_8x8_bits(self@, chroma_format)),
    {
        let expect_full = chroma_format == ChromaFormat::YUV444;
        match self {
            ScalingLists8x8::Y(ls) => {
                if expect_full {
                    return Err(IoError { kind: ErrorKind::InvalidData });
                }
                write_lists(ls, w);
                Ok(())
            },
            ScalingLists8x8::YCbCr(ls) => {
                if !expect_full {
                    return Err(IoError { kind: ErrorKind::InvalidData });
                }
                write_lists(ls, w);
                Ok(())
            },
        }
    }
}

impl SeqScalingMatrix {
    fn write(&self, w: &mut BitWriter, chroma_format: ChromaFormat) -> (r: Result<(), IoError>)
        requires
            old(w).wf(),
        ensures
            final(w).wf(),
            wrote(r, old(w)@, final(w)@, scaling_matrix_bits(self@, chroma_format)),
    {
        let ghost start = w@;
        self.scaling_lists4x4.write(w)?;
        if let Err(e) = self.scaling_lists8x8.write(w, chroma_format) {
            return Err(e);
        }
        assert(w@ =~= start + (scaling_lists_bits(self@.lists4x4) + scaling_lists_bits(self@.lists8x8.lists)));
        Ok(())
    }
}

impl ChromaInfo {
    #[verifier::spinoff_prover]
    #[verifier::rlimit(40)]
    fn write(&self, w: &mut BitWriter, profile_idc: ProfileIdc) -> (r: Result<(), IoError>)
        requires
            old(w).wf(),
            chroma_info_writable(self@),
        ensures
            final(w).wf(),
            wrote(r, old(w)@, final(w)@, chroma_info_bits(self@, profile_idc.spec_value())),
    {
        reveal(chroma_info_bits);
        let ghost start = w@;
        if profile_idc.has_chroma_info() {
            let chroma_format_idc = self.chroma_format.to_u32();
            w.write_ue(chroma_format_idc)?;
            if chroma_format_idc == 3 {
                w.write_bit(self.separate_colour_plane_flag)?;
            }
            w.write_ue(self.bit_depth_luma_minus8 as u32)?;
            w.write_ue(self.bit_depth_chroma_minus8 as u32)?;
            w.write_bit(self.qpprime_y_zero_transform_bypass_flag)?;
            let ghost head = w@;
            let ghost c = self@;
            let ghost head_bits = ue_bits(chroma_format_idc) + (if chroma_format_idc == 3 { seq![c.separate_colour_plane_flag] } else { Seq::empty() })
                + ue_bits(c.bit_depth_luma_minus8 as u32) + ue_bits(c.bit_depth_chroma_minus8 as u32)
                + seq![c.qpprime_y_zero_transform_bypass_flag];
            assert(head =~= start + head_bits);
            match &self.scaling_matrix {
                None => {
                    w.write_bit(false)?;
                    assert(w@ =~= start + head_bits.push(false));
                },
                Some(matrix) => {
                    w.write_bit(true)?;
                    let ghost mid = w@;
                    let mr = matrix.write(w, self.chroma_format);
                    if let Err(e) = mr {
                        return Err(e);
                    }
                    proof {
                        match scaling_matrix_bits(matrix@, self.chroma_format) {
                            Ok(b) => {
                                assert(w@ =~= start + (head_bits.push(true) + b));
                            },
                            Err(_) => {},
                        }
                    }
                },
            }
        } else {
            assert(w@ =~= start + Seq::<bool>::empty());
        }
        Ok(())
    }
}

impl PicOrderCntType {
    fn write(&self, w: &mut BitWriter) -> (r: Result<(), IoError>)
        requires
            old(w).wf(),
            pic_order_cnt_writable(self@),
        ensures
            final(w).wf(),
            wrote(r, old(w)@, final(w)@, Ok(pic_order_cnt_bits(self@))),
    {
        reveal(pic_order_cnt_bits);
        let ghost start = w@;
        match self {
            PicOrderCntType::TypeZero { log2_max_pic_order_cnt_lsb_minus4 } => {
                w.write_ue(0)?;
                w.write_ue(*log2_max_pic_order_cnt_lsb_minus4 as u32)?;
            },
            PicOrderCntType::TypeOne {
                delta_pic_order_always_zero_flag,
                offset_for_non_ref_pic,
                offset_for_top_to_bottom_field,
                offsets_for_ref_frame,
            } => {
                w.write_ue(1)?;
                w.write_bit(*delta_pic_order_always_zero_flag)?;
                w.write_se(*offset_for_non_ref_pic)?;
                w.write_se(*offset_for_top_to_bottom_field)?;
                w.write_ue(offsets_for_ref_frame.len() as u32)?;
                let ghost head = w@;
                let ghost offs = offsets_for_ref_frame@;
                assert(head =~= start + (ue_bits(1) + seq![*delta_pic_order_always_zero_flag] + se_bits(*offset_for_non_ref_pic)
                    + se_bits(*offset_for_top_to_bottom_field) + ue_bits(offs.len() as u32)));
                let mut i: usize = 0;
                assert(offs.take(0) =~= Seq::<i32>::empty());
                assert(w@ =~= head + se_list_bits(offs.take(0)));
                while i < offsets_for_ref_frame.len()
                    invariant
                        w.wf(),
                        start == old(w)@,
                        head == start + (ue_bits(1) + seq![*delta_pic_order_always_zero_flag] + se_bits(*offset_for_non_ref_pic)
                            + se_bits(*offset_for_top_to_bottom_field) + ue_bits(offs.len() as u32)),
                        i <= offs.len(),
                        offs == offsets_for_ref_frame@,
                        forall|j: int| 0 <= j < offs.len() ==> #[trigger] offs[j] > i32::MIN,
                        w@ == head + se_list_bits(offs.take(i as int)),
                    decreases offs.len() - i,
                {
                    let offset = offsets_for_ref_frame[i];
                    w.write_se(offset)?;
                    proof {
                        let t = offs.take(i + 1);
                        assert(t.drop_last() =~= offs.take(i as int));
                        assert(t.last() == offset);
                    }
                    i = i + 1;
                }
                assert(offs.take(i as int) =~= offs);
            },
            PicOrderCntType::TypeTwo => {
                w.write_ue(2)?;
            },
        }
        assert(w@ =~= start + pic_order_cnt_bits(self@));
        Ok(())
    }
}

impl FrameMbsFlags {
    fn write(&self, w: &mut BitWriter) -> (r: Result<(), IoError>)
        requires
            old(w).wf(),
        ensures
            final(w).wf(),
            wrote(r, old(w)@, final(w)@, Ok(frame_mbs_flags_bits(*self))),
    {
        reveal(frame_mbs_flags_bits);
        let ghost start = w@;
        match self {
            FrameMbsFlags::Frames => {
                w.write_bit(true)?;
            },
            FrameMbsFlags::Fields { mb_adaptive_frame_field_flag } => {
                w.write_bit(false)?;
                w.write_bit(*mb_adaptive_frame_field_flag)?;
            },
        }
        assert(w@ =~= start + frame_mbs_flags_bits(*self));
        Ok(())
    }
}

impl FrameCropping {
    fn write(this: Option<&Self>, w: &mut BitWriter) -> (r: Result<(), IoError>)
        requires
            old(w).wf(),
            frame_cropping_writable(match this { Some(c) => Some(*c), None => None }),
        ensures
            final(w).wf(),
            wrote(r, old(w)@, final(w)@, Ok(frame_cropping_bits(match this { Some(c) => Some(*c), None => None }))),
    {
        reveal(frame_cropping_bits);
        let ghost start = w@;
        match this {
            None => {
                w.write_bit(false)?;
            },
            Some(crop) => {
                w.write_bit(true)?;
                w.write_ue(crop.left_offset)?;
                w.write_ue(crop.right_offset)?;
                w.write_ue(crop.top_offset)?;
                w.write_ue(crop.bottom_offset)?;
            },
        }
        assert(w@ =~= start + frame_cropping_bits(match this { Some(c) => Some(*c), None => None }));
        Ok(())
    }
}

impl AspectRatioInfo {
    fn write(this: Option<&Self>, w: &mut BitWriter) -> (r: Result<(), IoError>)
        requires
            old(w).wf(),
        ensures
            final(w).wf(),
            wrote(r, old(w)@, final(w)@, Ok(aspect_ratio_info_bits(match this { Some(a) => Some(*a), None => None }))),
    {
        reveal(aspect_ratio_info_bits);
        let ghost start = w@;
        proof {
            vstd::arithmetic::power2::lemma2_to64();
        }
        match this {
            None => {
                w.write_bit(false)?;
            },
            Some(ari) => {
                w.write_bit(true)?;
                w.write::<8, u8>(ari.to_u8())?;
                if let AspectRatioInfo::Extended(width, height) = ari {
                    w.write::<16, u16>(*width)?;
                    w.write::<16, u16>(*height)?;
                }
            },
        }
        assert(w@ =~= start + aspect_ratio_info_bits(match this { Some(a) => Some(*a), None => None }));
        Ok(())
    }
}

impl OverscanAppropriate {
    fn write(&self, w: &mut BitWriter) -> (r: Result<(), IoError>)
        requires
            old(w).wf(),
        ensures
            final(w).wf(),
            wrote(r, old(w)@, final(w)@, Ok(overscan_bits(*self))),
    {
        reveal(overscan_bits);
        let ghost start = w@;
        match self {
            OverscanAppropriate::Unspecified => {
                w.write_bit(false)?;
            },
            OverscanAppropriate::Appropriate => {
                w.write_bit(true)?;
                w.write_bit(true)?;
            },
            OverscanAppropriate::Inappropriate => {
                w.write_bit(true)?;
                w.write_bit(false)?;
            },
        }
        assert(w@ =~= start + overscan_bits(*self));
        Ok(())
    }
}

impl ColourDescription {
    fn write(this: Option<&Self>, w: &mut BitWriter) -> (r: Result<(), IoError>)
        requires
            old(w).wf(),
        ensures
            final(w).wf(),
            wrote(r, old(w)@, final(w)@, Ok(colour_description_bits(match this { Some(c) => Some(*c), None => None }))),
    {
        reveal(colour_description_bits);
        let ghost start = w@;
        proof {
            vstd::arithmetic::power2::lemma2_to64();
        }
        match this {
            None => {
                w.write_bit(false)?;
            },
            Some(cd) => {
                w.write_bit(true)?;
                w.write::<8, u8>(cd.colour_primaries)?;
                w.write::<8, u8>(cd.transfer_characteristics)?;
                w.write::<8, u8>(cd.matrix_coefficients)?;
            },
        }
        assert(w@ =~= start + colour_description_bits(match this { Some(c) => Some(*c), None => None }));
        Ok(())
    }
}

impl VideoSignalType {
    fn write(this: Option<&Self>, w: &mut BitWriter) -> (r: Result<(), IoError>)
        requires
            old(w).wf(),
        ensures
            final(w).wf(),
            wrote_if(r, old(w)@, final(w)@, video_signal_type_fits(match this { Some(v) => Some(*v), None => None }),
                video_signal_type_bits(match this { Some(v) => Some(*v), None => None })),
    {
        reveal(video_signal_type_bits);
        let ghost start = w@;
        proof {
            vstd::arithmetic::power2::lemma2_to64();
        }
        match this {
            None => {
                w.write_bit(false)?;
                assert(w@ =~= start + seq![false]);
            },
            Some(vst) => {
                w.write_bit(true)?;
                if let Err(e) = w.write::<3, u8>(vst.video_format.to_u8()) {
                    return Err(e);
                }
                w.write_bit(vst.video_full_range_flag)?;
                ColourDescription::write(vst.colour_description.as_ref(), w)?;
                assert(w@ =~= start + video_signal_type_bits(Some(*vst)));
            },
        }
        Ok(())
    }
}

impl ChromaLocInfo {
    fn write(this: Option<&Self>, w: &mut BitWriter) -> (r: Result<(), IoError>)
        requires
            old(w).wf(),
            chroma_loc_info_writable(match this { Some(c) => Some(*c), None => None }),
        ensures
            final(w).wf(),
            wrote(r, old(w)@, final(w)@, Ok(chroma_loc_info_bits(match this { Some(c) => Some(*c), None => None }))),
    {
        reveal(chroma_loc_info_bits);
        let ghost start = w@;
        match this {
            None => {
                w.write_bit(false)?;
            },
            Some(cli) => {
                w.write_bit(true)?;
                w.write_ue(cli.chroma_sample_loc_type_top_field)?;
                w.write_ue(cli.chroma_sample_loc_type_bottom_field)?;
            },
        }
        assert(w@ =~= start + chroma_loc_info_bits(match this { Some(c) => Some(*c), None => None }));
        Ok(())
    }
}

impl TimingInfo {
    fn write(this: Option<&Self>, w: &mut BitWriter) -> (r: Result<(), IoError>)
        requires
            old(w).wf(),
        ensures
            final(w).wf(),
            wrote(r, old(w)@, final(w)@, Ok(timing_info_bits(match this { Some(t) => Some(*t), None => None }))),
    {
        reveal(timing_info_bits);
        let ghost start = w@;
        proof {
            vstd::arithmetic::power2::lemma2_to64();
        }
        match this {
            None => {
                w.write_bit(false)?;
            },
            Some(ti) => {
                w.write_bit(true)?;
                w.write::<32, u32>(ti.num_units_in_tick)?;
                w.write::<32, u32>(ti.time_scale)?;
                w.write_bit(ti.fixed_frame_rate_flag)?;
            },
        }
        assert(w@ =~= start + timing_info_bits(match this { Some(t) => Some(*t), None => None }));
        Ok(())
    }
}

impl HrdParameters {
    fn write_cpb_specs(specs: &Vec<CpbSpec>, w: &mut BitWriter)
        requires
            old(w).wf(),
            forall|i: int| 0 <= i < specs@.len() ==> cpb_spec_writable(#[trigger] specs@[i]),
        ensures
            final(w).wf(),
            final(w)@ == old(w)@ + cpb_specs_bits(specs@),
    {
        let ghost start = w@;
        let mut i: usize = 0;
        assert(specs@.take(0) =~= Seq::<CpbSpec>::empty());
        assert(w@ =~= start + cpb_specs_bits(specs@.take(0)));
        while i < specs.len()
            invariant
                w.wf(),
                start == old(w)@,
                i <= specs@.len(),
                forall|j: int| 0 <= j < specs@.len() ==> cpb_spec_writable(#[trigger] specs@[j]),
                w@ == start + cpb_specs_bits(specs@.take(i as int)),
            decreases specs@.len() - i,
        {
            let spec = specs[i];
            assert(cpb_spec_writable(specs@[i as int]));
            w.write_ue(spec.bit_rate_value_minus1);
            w.write_ue(spec.cpb_size_value_minus1);
            w.write_bit(spec.cbr_flag);
            proof {
                let t = specs@.take(i + 1);
                assert(t.drop_last() =~= specs@.take(i as int));
                assert(t.last() == spec);
                assert(w@ =~= start + cpb_specs_bits(t));
            }
            i = i + 1;
        }
        assert(specs@.take(i as int) =~= specs@);
    }

    fn write(this: Option<&Self>, w: &mut BitWriter) -> (r: Result<(), IoError>)
        requires
            old(w).wf(),
            hrd_writable(match this { Some(h) => Some(h@), None => None }),
        ensures
            final(w).wf(),
            wrote_if(r, old(w)@, final(w)@, hrd_fits(match this { Some(h) => Some(h@), None => None }),
                hrd_bits(match this { Some(h) => Some(h@), None => None })),
    {
        reveal(hrd_bits);
        let ghost start = w@;
        proof {
            vstd::arithmetic::power2::lemma2_to64();
        }
        match this {
            None => {
                w.write_bit(false)?;
                assert(w@ =~= start + seq![false]);
            },
            Some(hrd) => {
                w.write_bit(true)?;
                w.write_ue(hrd.cpb_specs.len() as u32 - 1)?;
                let ghost h = hrd@;
                let ghost s0 = w@;
                assert(s0 =~= start + (seq![true] + ue_bits((h.cpb_specs.len() - 1) as u32)));
                if let Err(e) = w.write::<4, u8>(hrd.bit_rate_scale) {
                    return Err(e);
                }
                if let Err(e) = w.write::<4, u8>(hrd.cpb_size_scale) {
                    return Err(e);
                }
                Self::write_cpb_specs(&hrd.cpb_specs, w);
                let ghost s1 = w@;
                assert(s1 =~= s0 + (value_bits(h.bit_rate_scale as nat, 4) + value_bits(h.cpb_size_scale as nat, 4)
                    + cpb_specs_bits(h.cpb_specs)));
                if let Err(e) = w.write::<5, u8>(hrd.initial_cpb_removal_delay_length_minus1) {
                    return Err(e);
                }
                if let Err(e) = w.write::<5, u8>(hrd.cpb_removal_delay_length_minus1) {
                    return Err(e);
                }
                if let Err(e) = w.write::<5, u8>(hrd.dpb_output_delay_length_minus1) {
                    return Err(e);
                }
                if let Err(e) = w.write::<5, u8>(hrd.time_offset_length) {
                    return Err(e);
                }
                assert(w@ =~= s1 + (value_bits(h.initial_cpb_removal_delay_length_minus1 as nat, 5)
                    + value_bits(h.cpb_removal_delay_length_minus1 as nat, 5)
                    + value_bits(h.dpb_output_delay_length_minus1 as nat, 5) + value_bits(h.time_offset_length as nat, 5)));
                assert(w@ =~= start + hrd_bits(Some(h)));
            },
        }
        Ok(())
    }
}

impl BitstreamRestrictions {
    fn write(this: Option<&Self>, w: &mut BitWriter) -> (r: Result<(), IoError>)
        requires
            old(w).wf(),
            bitstream_restrictions_writable(match this { Some(b) => Some(*b), None => None }),
        ensures
            final(w).wf(),
            wrote(r, old(w)@, final(w)@, Ok(bitstream_restrictions_bits(match this { Some(b) => Some(*b), None => None }))),
    {
        reveal(bitstream_restrictions_bits);
        let ghost start = w@;
        match this {
            None => {
                w.write_bit(false)?;
            },
            Some(br) => {
                w.write_bit(true)?;
                w.write_bit(br.motion_vectors_over_pic_boundaries_flag)?;
                w.write_ue(br.max_bytes_per_pic_denom)?;
                w.write_ue(br.max_bits_per_mb_denom)?;
                w.write_ue(br.log2_max_mv_length_horizontal)?;
                w.write_ue(br.log2_max_mv_length_vertical)?;
                w.write_ue(br.max_num_reorder_frames)?;
                w.write_ue(br.max_dec_frame_buffering)?;
            },
        }
        assert(w@ =~= start + bitstream_restrictions_bits(match this { Some(b) => Some(*b), None => None }));
        Ok(())
    }
}

/// The VUI fields up to the timing information.
pub open spec fn vui_head_bits(v: VuiParametersView) -> Seq<bool> {
    aspect_ratio_info_bits(v.aspect_ratio_info) + overscan_bits(v.overscan_appropriate)
        + video_signal_type_bits(v.video_signal_type) + chroma_loc_info_bits(v.chroma_loc_info)
        + timing_info_bits(v.timing_info)
}

/// The VUI fields from the HRD parameters on.
pub open spec fn vui_tail_bits(v: VuiParametersView) -> Seq<bool> {
    let has_hrd = v.nal_hrd_parameters is Some || v.vcl_hrd_parameters is Some;
    let low_delay = match v.low_delay_hrd_flag {
        Some(f) => f,
        None => false,
    };
    hrd_bits(v.nal_hrd_parameters) + hrd_bits(v.vcl_hrd_parameters)
        + (if has_hrd { seq![low_delay] } else { Seq::empty() }) + seq![v.pic_struct_present_flag]
        + bitstream_restrictions_bits(v.bitstream_restrictions)
}

impl VuiParameters {
    fn write_head(&self, w: &mut BitWriter) -> (r: Result<(), IoError>)
        requires
            old(w).wf(),
            chroma_loc_info_writable(self.chroma_loc_info),
        ensures
            final(w).wf(),
            wrote_if(r, old(w)@, final(w)@, video_signal_type_fits(self.video_signal_type), vui_head_bits(self@)),
    {
        let ghost start = w@;
        AspectRatioInfo::write(self.aspect_ratio_info.as_ref(), w)?;
        let ghost s0 = w@;
        self.overscan_appropriate.write(w)?;
        let ghost s1 = w@;
        if let Err(e) = VideoSignalType::write(self.video_signal_type.as_ref(), w) {
            return Err(e);
        }
        let ghost s2 = w@;
        ChromaLocInfo::write(self.chroma_loc_info.as_ref(), w)?;
        let ghost s3 = w@;
        TimingInfo::write(self.timing_info.as_ref(), w)?;
        proof {
            let v = self@;
            assert(s0 == start + aspect_ratio_info_bits(v.aspect_ratio_info));
            assert(s1 == s0 + overscan_bits(v.overscan_appropriate));
            assert(s2 == s1 + video_signal_type_bits(v.video_signal_type));
            assert(s3 == s2 + chroma_loc_info_bits(v.chroma_loc_info));
            assert(w@ == s3 + timing_info_bits(v.timing_info));
            assert(w@ =~= start + vui_head_bits(v));
        }
        Ok(())
    }

    fn write_tail(&self, w: &mut BitWriter) -> (r: Result<(), IoError>)
        requires
            old(w).wf(),
            hrd_writable(opt_view(self.nal_hrd_parameters)),
            hrd_writable(opt_view(self.vcl_hrd_parameters)),
            bitstream_restrictions_writable(self.bitstream_restrictions),
        ensures
            final(w).wf(),
            wrote_if(r, old(w)@, final(w)@, hrd_fits(opt_view(self.nal_hrd_parameters)) && hrd_fits(opt_view(self.vcl_hrd_parameters)),
                vui_tail_bits(self@)),
    {
        let ghost start = w@;
        if let Err(e) = HrdParameters::write(self.nal_hrd_parameters.as_ref(), w) {
            return Err(e);
        }
        let ghost s0 = w@;
        if let Err(e) = HrdParameters::write(self.vcl_hrd_parameters.as_ref(), w) {
            return Err(e);
        }
        let ghost s1 = w@;
        let has_hrd = self.nal_hrd_parameters.is_some() || self.vcl_hrd_parameters.is_some();
        if has_hrd {
            let low_delay = match self.low_delay_hrd_flag {
                Some(f) => f,
                None => false,
            };
            w.write_bit(low_delay)?;
        }
        w.write_bit(self.pic_struct_present_flag)?;
        let ghost s2 = w@;
        BitstreamRestrictions::write(self.bitstream_restrictions.as_ref(), w)?;
        proof {
            let v = self@;
            let has_hrd = v.nal_hrd_parameters is Some || v.vcl_hrd_parameters is Some;
            let low_delay = match v.low_delay_hrd_flag {
                Some(f) => f,
                None => false,
            };
            assert(s0 == start + hrd_bits(v.nal_hrd_parameters));
            assert(s1 == s0 + hrd_bits(v.vcl_hrd_parameters));
            assert(s2 =~= s1 + ((if has_hrd { seq![low_delay] } else { Seq::empty() }) + seq![v.pic_struct_present_flag]));
            assert(w@ == s2 + bitstream_restrictions_bits(v.bitstream_restrictions));
            assert(w@ =~= start + vui_tail_bits(v));
        }
        Ok(())
    }

    fn write(this: Option<&Self>, w: &mut BitWriter) -> (r: Result<(), IoError>)
        requires
            old(w).wf(),
            vui_writable(match this { Some(v) => Some(v@), None => None }),
        ensures
            final(w).wf(),
            wrote_if(r, old(w)@, final(w)@, vui_fits(match this { Some(v) => Some(v@), None => None }),
                vui_bits(match this { Some(v) => Some(v@), None => None })),
    {
        let ghost start = w@;
        match this {
            None => {
                w.write_bit(false)?;
                assert(w@ =~= start + seq![false]);
            },
            Some(vui) => {
                w.write_bit(true)?;
                let ghost s0 = w@;
                if let Err(e) = vui.write_head(w) {
                    return Err(e);
                }
                let ghost s1 = w@;
                if let Err(e) = vui.write_tail(w) {
                    return Err(e);
                }
                proof {
                    let v = vui@;
                    assert(w@ =~= start + (seq![true] + vui_head_bits(v) + vui_tail_bits(v)));
                    assert(vui_bits(Some(v)) =~= seq![true] + vui_head_bits(v) + vui_tail_bits(v));
                }
            },
        }
        Ok(())
    }
}

impl SeqParameterSet {
    fn write_head(&self, w: &mut BitWriter) -> (r: Result<(), IoError>)
        requires
            old(w).wf(),
        ensures
            final(w).wf(),
            r is Ok,
            final(w)@ == old(w)@ + sps_head_bits(self@),
    {
        let ghost start = w@;
        proof {
            vstd::arithmetic::power2::lemma2_to64();
        }
        w.write::<8, u8>(self.profile_idc.0)?;
        w.write::<8, u8>(self.constraint_flags.0)?;
        w.write::<8, u8>(self.level_idc)?;
        w.write_ue(self.seq_parameter_set_id.id() as u32)?;
        assert(w@ =~= start + sps_head_bits(self@));
        Ok(())
    }

    #[verifier::rlimit(40)]
    fn write_frame_fields(&self, w: &mut BitWriter) -> (r: Result<(), IoError>)
        requires
            old(w).wf(),
            sps_writable(self@),
        ensures
            final(w).wf(),
            r is Ok,
            final(w)@ == old(w)@ + sps_frame_bits(self@),
    {
        let ghost start = w@;
        w.write_ue(self.log2_max_frame_num_minus4 as u32)?;
        let ghost s0 = w@;
        self.pic_order_cnt.write(w)?;
        let ghost s1 = w@;
        w.write_ue(self.max_num_ref_frames)?;
        w.write_bit(self.gaps_in_frame_num_value_allowed_flag)?;
        w.write_ue(self.pic_width_in_mbs_minus1)?;
        w.write_ue(self.pic_height_in_map_units_minus1)?;
        let ghost s2 = w@;
        self.frame_mbs_flags.write(w)?;
        let ghost s3 = w@;
        w.write_bit(self.direct_8x8_inference_flag)?;
        let ghost s4 = w@;
        FrameCropping::write(self.frame_cropping.as_ref(), w)?;
        proof {
            let v = self@;
            assert(s0 == start + ue_bits(v.log2_max_frame_num_minus4 as u32));
            assert(s1 == s0 + pic_order_cnt_bits(v.pic_order_cnt));
            assert(s2 =~= s1 + (ue_bits(v.max_num_ref_frames) + seq![v.gaps_in_frame_num_value_allowed_flag]
                + ue_bits(v.pic_width_in_mbs_minus1) + ue_bits(v.pic_height_in_map_units_minus1)));
            assert(s3 == s2 + frame_mbs_flags_bits(v.frame_mbs_flags));
            assert(s4 == s3.push(v.direct_8x8_inference_flag));
            assert(w@ == s4 + frame_cropping_bits(v.frame_cropping));
            assert(w@ =~= start + sps_frame_bits(v));
        }
        Ok(())
    }

    /// Writes the RBSP of this sequence parameter set: its fields, then the trailing bits.
    pub fn write_bits(&self, w: &mut BitWriter) -> (r: Result<(), IoError>)
        requires
            old(w).wf(),
            sps_writable(self@),
        ensures
            final(w).wf(),
            wrote(r, old(w)@, final(w)@, sps_rbsp_bits(self@, old(w)@.len())),
    {
        let ghost start = w@;
        let ghost v = self@;
        self.write_head(w)?;
        let ghost s1 = w@;
        let cr = self.chroma_info.write(w, self.profile_idc);
        if let Err(e) = cr {
            return Err(e);
        }
        let ghost s2 = w@;
        self.write_frame_fields(w)?;
        let ghost s3 = w@;
        let vr = VuiParameters::write(self.vui_parameters.as_ref(), w);
        if let Err(e) = vr {
            return Err(e);
        }
        let ghost s4 = w@;
        w.write_rbsp_trailing_bits()?;
        proof {
            let c = s2.skip(s1.len() as int);
            match chroma_info_bits(v.chroma_info, v.profile_idc) {
                Ok(b) => {
                    assert(c =~= b);
                },
                Err(_) => {},
            }
            let data = sps_head_bits(v) + c + sps_frame_bits(v) + vui_bits(v.vui_parameters);
            assert(s4 =~= start + data);
            assert(sps_data_bits(v) == Ok::<Seq<bool>, ErrorKind>(data));
            assert(w@ =~= start + (data + trailing_bits(start.len() + data.len())));
        }
        Ok(())
    }
}

} // verus!

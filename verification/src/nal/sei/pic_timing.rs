//! The `pic_timing()` SEI message.

use vstd::prelude::*;
use crate::nal::sei::{HeaderType, SeiMessage};
use crate::nal::sps::{SeqParameterSet, SeqParameterSetView};
use crate::rbsp::{lemma_read_value, lemma_reads_split, lemma_value_bits_len, reads, value_bits};
use crate::rbsp::{
    spec_finish_sei_payload, spec_read_bit, spec_read_bits, spec_read_i32_bits, spec_read_u32_bits, BitReader,
    BitReaderError, BitStream, ErrorKind,
};

verus! {

#[derive(Debug, Clone, Copy, PartialEq, Eq)]
pub enum PicTimingError {
    RbspError(BitReaderError),
    InvalidPicStructId(u8),
}

#[derive(Debug, Clone, Copy, PartialEq, Eq, Structural)]
pub struct Delays {
    pub cpb_removal_delay: u32,
    pub dpb_output_delay: u32,
}

#[derive(Debug, Clone, Copy, PartialEq, Eq, Structural)]
pub enum PicStructType {
    Frame,
    TopField,
    BottomField,
    TopFieldBottomField,
    BottomFieldTopField,
    TopFieldBottomFieldTopFieldRepeated,
    BottomFieldTopFieldBottomFieldRepeated,
    FrameDoubling,
    FrameTripling,
    Reserved(u8),
}

/// The `pic_struct` for a value, or `None` above 15.
pub open spec fn spec_pic_struct_type(id: u8) -> Option<PicStructType> {
    match id {
        0 => Some(PicStructType::Frame),
        1 => Some(PicStructType::TopField),
        2 => Some(PicStructType::BottomField),
        3 => Some(PicStructType::TopFieldBottomField),
        4 => Some(PicStructType::BottomFieldTopField),
        5 => Some(PicStructType::TopFieldBottomFieldTopFieldRepeated),
        6 => Some(PicStructType::BottomFieldTopFieldBottomFieldRepeated),
        7 => Some(PicStructType::FrameDoubling),
        8 => Some(PicStructType::FrameTripling),
        _ => if id <= 15 { Some(PicStructType::Reserved(id)) } else { None },
    }
}

/// The number of clock timestamps (`NumClockTS`) of a `pic_struct`.
pub open spec fn spec_num_clock_timestamps(t: PicStructType) -> u8 {
    match t {
        PicStructType::Frame => 1,
        PicStructType::TopField => 1,
        PicStructType::BottomField => 1,
        PicStructType::TopFieldBottomField => 2,
        PicStructType::BottomFieldTopField => 2,
        PicStructType::TopFieldBottomFieldTopFieldRepeated => 3,
        PicStructType::BottomFieldTopFieldBottomFieldRepeated => 3,
        PicStructType::FrameDoubling => 2,
        PicStructType::FrameTripling => 3,
        PicStructType::Reserved(_) => 0,
    }
}

impl PicStructType {
    pub fn from_id(id: u8) -> (r: Result<PicStructType, PicTimingError>)
        ensures
            match spec_pic_struct_type(id) {
                Some(t) => r == Ok::<PicStructType, PicTimingError>(t),
                None => r == Err::<PicStructType, PicTimingError>(PicTimingError::InvalidPicStructId(id)),
            },
    {
        match id {
            0 => Ok(PicStructType::Frame),
            1 => Ok(PicStructType::TopField),
            2 => Ok(PicStructType::BottomField),
            3 => Ok(PicStructType::TopFieldBottomField),
            4 => Ok(PicStructType::BottomFieldTopField),
            5 => Ok(PicStructType::TopFieldBottomFieldTopFieldRepeated),
            6 => Ok(PicStructType::BottomFieldTopFieldBottomFieldRepeated),
            7 => Ok(PicStructType::FrameDoubling),
            8 => Ok(PicStructType::FrameTripling),
            _ => if id <= 15 {
                Ok(PicStructType::Reserved(id))
            } else {
                Err(PicTimingError::InvalidPicStructId(id))
            },
        }
    }

    pub fn num_clock_timestamps(&self) -> (n: u8)
        ensures
            n == spec_num_clock_timestamps(*self),
    {
        match *self {
            PicStructType::Frame => 1,
            PicStructType::TopField => 1,
            PicStructType::BottomField => 1,
            PicStructType::TopFieldBottomField => 2,
            PicStructType::BottomFieldTopField => 2,
            PicStructType::TopFieldBottomFieldTopFieldRepeated => 3,
            PicStructType::BottomFieldTopFieldBottomFieldRepeated => 3,
            PicStructType::FrameDoubling => 2,
            PicStructType::FrameTripling => 3,
            PicStructType::Reserved(_) => 0,
        }
    }
}

#[derive(Debug, Clone, Copy, PartialEq, Eq, Structural)]
pub enum CtType {
    Progressive,
    Interlaced,
    Unknown,
    Reserved,
}

pub open spec fn spec_ct_type(id: u8) -> CtType {
    match id {
        0 => CtType::Progressive,
        1 => CtType::Interlaced,
        2 => CtType::Unknown,
        _ => CtType::Reserved,
    }
}

impl CtType {
    pub fn from_id(id: u8) -> (r: CtType)
        requires
            id <= 3,
        ensures
            r == spec_ct_type(id),
    {
        match id {
            0 => CtType::Progressive,
            1 => CtType::Interlaced,
            2 => CtType::Unknown,
            _ => CtType::Reserved,
        }
    }
}

#[derive(Debug, Clone, Copy, PartialEq, Eq, Structural)]
pub enum CountingType {
    /// no dropping of `n_frames` values, and no use of `time_offset`
    NoDroppingNoOffset,
    /// no dropping of `n_frames` values
    NoDropping,
    /// dropping of individual '0' `n_frames` values
    DroppingIndividualZero,
    /// dropping of individual 'maxFPS - 1' `n_frames` values
    DroppingIndividualMax,
    /// dropping of individual '0' and '1' `n_frames` values
    DroppingTwoLowest,
    /// dropping of individual unspecified `n_frames` values
    DroppingIndividual,
    /// dropping of unspecified numbers of unspecified `n_frames` values
    Dropping,
    Reserved(u8),
}

pub open spec fn spec_counting_type(id: u8) -> CountingType {
    match id {
        0 => CountingType::NoDroppingNoOffset,
        1 => CountingType::NoDropping,
        2 => CountingType::DroppingIndividualZero,
        3 => CountingType::DroppingIndividualMax,
        4 => CountingType::DroppingTwoLowest,
        5 => CountingType::DroppingIndividual,
        6 => CountingType::Dropping,
        _ => CountingType::Reserved(id),
    }
}

impl CountingType {
    pub fn from_id(id: u8) -> (r: CountingType)
        requires
            id <= 31,
        ensures
            r == spec_counting_type(id),
    {
        match id {
            0 => CountingType::NoDroppingNoOffset,
            1 => CountingType::NoDropping,
            2 => CountingType::DroppingIndividualZero,
            3 => CountingType::DroppingIndividualMax,
            4 => CountingType::DroppingTwoLowest,
            5 => CountingType::DroppingIndividual,
            6 => CountingType::Dropping,
            _ => CountingType::Reserved(id),
        }
    }
}

#[derive(Debug, Clone, Copy, PartialEq, Eq, Structural)]
pub enum SecMinHour {
    Absent,
    S(u8),
    SM(u8, u8),
    SMH(u8, u8, u8),
}

impl SecMinHour {
    pub fn seconds(&self) -> (r: u8)
        ensures
            r == match *self {
                SecMinHour::Absent => 0,
                SecMinHour::S(s) => s,
                SecMinHour::SM(s, _) => s,
                SecMinHour::SMH(s, _, _) => s,
            },
    {
        match self {
            SecMinHour::Absent => 0,
            SecMinHour::S(s) => *s,
            SecMinHour::SM(s, _) => *s,
            SecMinHour::SMH(s, _, _) => *s,
        }
    }

    pub fn minutes(&self) -> (r: u8)
        ensures
            r == match *self {
                SecMinHour::SM(_, m) => m,
                SecMinHour::SMH(_, m, _) => m,
                _ => 0,
            },
    {
        match self {
            SecMinHour::Absent => 0,
            SecMinHour::S(_) => 0,
            SecMinHour::SM(_, m) => *m,
            SecMinHour::SMH(_, m, _) => *m,
        }
    }

    pub fn hours(&self) -> (r: u8)
        ensures
            r == match *self {
                SecMinHour::SMH(_, _, h) => h,
                _ => 0,
            },
    {
        match self {
            SecMinHour::Absent => 0,
            SecMinHour::S(_) => 0,
            SecMinHour::SM(_, _) => 0,
            SecMinHour::SMH(_, _, h) => *h,
        }
    }
}

#[derive(Debug, Clone, Copy, PartialEq, Eq, Structural)]
pub struct ClockTimestamp {
    pub ct_type: CtType,
    pub nuit_field_based_flag: bool,
    pub counting_type: CountingType,
    pub discontinuity_flag: bool,
    pub cnt_dropped_flag: bool,
    pub n_frames: u8,
    pub smh: SecMinHour,
    pub time_offset: Option<i32>,
}

/// An unsigned field of `n` bits (at most 8) read as a `u8`.
pub open spec fn spec_field_u8(s: BitStream, n: nat, name: &'static str) -> Result<(u8, BitStream), PicTimingError> {
    match spec_read_bits(s, n) {
        None => Err(PicTimingError::RbspError(BitReaderError::ReaderError(name, s.end))),
        Some((v, s2)) => Ok((v as u8, s2)),
    }
}

/// A flag.
pub open spec fn spec_flag(s: BitStream, name: &'static str) -> Result<(bool, BitStream), PicTimingError> {
    match spec_read_bit(s, name) {
        Err(e) => Err(PicTimingError::RbspError(e)),
        Ok((b, s2)) => Ok((b, s2)),
    }
}

/// Seconds, minutes and hours: all three when `full`, else each behind its presence flag.
pub open spec fn spec_smh(s: BitStream, full: bool) -> Result<(SecMinHour, BitStream), PicTimingError> {
    if full {
        match spec_field_u8(s, 6, "seconds_value") {
            Err(e) => Err(e),
            Ok((sec, s1)) => match spec_field_u8(s1, 6, "minutes_value") {
                Err(e) => Err(e),
                Ok((min, s2)) => match spec_field_u8(s2, 5, "hours_value") {
                    Err(e) => Err(e),
                    Ok((h, s3)) => Ok((SecMinHour::SMH(sec, min, h), s3)),
                },
            },
        }
    } else {
        match spec_flag(s, "seconds_flag") {
            Err(e) => Err(e),
            Ok((false, s1)) => Ok((SecMinHour::Absent, s1)),
            Ok((true, s1)) => match spec_field_u8(s1, 6, "seconds_value") {
                Err(e) => Err(e),
                Ok((sec, s2)) => match spec_flag(s2, "minutes_flag") {
                    Err(e) => Err(e),
                    Ok((false, s3)) => Ok((SecMinHour::S(sec), s3)),
                    Ok((true, s3)) => match spec_field_u8(s3, 6, "minutes_value") {
                        Err(e) => Err(e),
                        Ok((min, s4)) => match spec_flag(s4, "hours_flag") {
                            Err(e) => Err(e),
                            Ok((false, s5)) => Ok((SecMinHour::SM(sec, min), s5)),
                            Ok((true, s5)) => match spec_field_u8(s5, 5, "hours_value") {
                                Err(e) => Err(e),
                                Ok((h, s6)) => Ok((SecMinHour::SMH(sec, min, h), s6)),
                            },
                        },
                    },
                },
            },
        }
    }
}

/// The `time_offset_length` that applies: from the NAL HRD parameters, else the VCL ones,
/// else 24.
pub open spec fn spec_time_offset_length(sps: SeqParameterSetView) -> u8 {
    match sps.vui_parameters {
        Some(vui) => match vui.nal_hrd_parameters {
            Some(hrd) => hrd.time_offset_length,
            None => match vui.vcl_hrd_parameters {
                Some(hrd) => hrd.time_offset_length,
                None => 24,
            },
        },
        None => 24,
    }
}

/// The `time_offset` field, absent when its length is 0.
pub open spec fn spec_time_offset(s: BitStream, len: u8) -> Result<(Option<i32>, BitStream), PicTimingError> {
    if len == 0 {
        Ok((None, s))
    } else {
        match spec_read_i32_bits(s, len as nat, "time_offset_length") {
            Err(e) => Err(PicTimingError::RbspError(e)),
            Ok((v, s2)) => Ok((Some(v), s2)),
        }
    }
}

/// The `clock_timestamp` syntax (D.1.3).
pub open spec fn spec_clock_timestamp(s: BitStream, sps: SeqParameterSetView) -> Result<(ClockTimestamp, BitStream), PicTimingError> {
    match spec_field_u8(s, 2, "ct_type") {
        Err(e) => Err(e),
        Ok((ct, s1)) => match spec_flag(s1, "nuit_field_based_flag") {
            Err(e) => Err(e),
            Ok((nuit, s2)) => match spec_field_u8(s2, 5, "counting_type") {
                Err(e) => Err(e),
                Ok((counting, s3)) => match spec_flag(s3, "full_timestamp_flag") {
                    Err(e) => Err(e),
                    Ok((full, s4)) => match spec_flag(s4, "discontinuity_flag") {
                        Err(e) => Err(e),
                        Ok((disc, s5)) => match spec_flag(s5, "cnt_dropped_flag") {
                            Err(e) => Err(e),
                            Ok((dropped, s6)) => match spec_field_u8(s6, 8, "n_frames") {
                                Err(e) => Err(e),
                                Ok((n_frames, s7)) => match spec_smh(s7, full) {
                                    Err(e) => Err(e),
                                    Ok((smh, s8)) => match spec_time_offset(s8, spec_time_offset_length(sps)) {
                                        Err(e) => Err(e),
                                        Ok((time_offset, s9)) => Ok((
                                            ClockTimestamp {
                                                ct_type: spec_ct_type(ct),
                                                nuit_field_based_flag: nuit,
                                                counting_type: spec_counting_type(counting),
                                                discontinuity_flag: disc,
                                                cnt_dropped_flag: dropped,
                                                n_frames,
                                                smh,
                                                time_offset,
                                            },
                                            s9,
                                        )),
                                    },
                                },
                            },
                        },
                    },
                },
            },
        },
    }
}

fn read_field_u8(r: &mut BitReader, n: u32, name: &'static str) -> (res: Result<u8, PicTimingError>)
    requires
        n <= 8,
    ensures
        match spec_field_u8(old(r)@, n as nat, name) {
            Ok((v, s2)) => res == Ok::<u8, PicTimingError>(v) && final(r)@ == s2,
            Err(e) => res == Err::<u8, PicTimingError>(e),
        },
{
    match r.read_var::<u8>(n, name) {
        Ok(v) => Ok(v),
        Err(e) => Err(PicTimingError::RbspError(e)),
    }
}

fn read_flag(r: &mut BitReader, name: &'static str) -> (res: Result<bool, PicTimingError>)
    ensures
        match spec_flag(old(r)@, name) {
            Ok((v, s2)) => res == Ok::<bool, PicTimingError>(v) && final(r)@ == s2,
            Err(e) => res == Err::<bool, PicTimingError>(e),
        },
{
    match r.read_bit(name) {
        Ok(v) => Ok(v),
        Err(e) => Err(PicTimingError::RbspError(e)),
    }
}

fn read_smh(r: &mut BitReader, full: bool) -> (res: Result<SecMinHour, PicTimingError>)
    ensures
        match spec_smh(old(r)@, full) {
            Ok((v, s2)) => res == Ok::<SecMinHour, PicTimingError>(v) && final(r)@ == s2,
            Err(e) => res == Err::<SecMinHour, PicTimingError>(e),
        },
{
    if full {
        let seconds = read_field_u8(r, 6, "seconds_value")?;
        let minutes = read_field_u8(r, 6, "minutes_value")?;
        let hours = read_field_u8(r, 5, "hours_value")?;
        return Ok(SecMinHour::SMH(seconds, minutes, hours));
    }
    if !read_flag(r, "seconds_flag")? {
        return Ok(SecMinHour::Absent);
    }
    let seconds = read_field_u8(r, 6, "seconds_value")?;
    if !read_flag(r, "minutes_flag")? {
        return Ok(SecMinHour::S(seconds));
    }
    let minutes = read_field_u8(r, 6, "minutes_value")?;
    if !read_flag(r, "hours_flag")? {
        return Ok(SecMinHour::SM(seconds, minutes));
    }
    let hours = read_field_u8(r, 5, "hours_value")?;
    Ok(SecMinHour::SMH(seconds, minutes, hours))
}

fn time_offset_length(sps: &SeqParameterSet) -> (len: u8)
    ensures
        len == spec_time_offset_length(sps@),
{
    match &sps.vui_parameters {
        Some(vui) => match &vui.nal_hrd_parameters {
            Some(hrd) => hrd.time_offset_length,
            None => match &vui.vcl_hrd_parameters {
                Some(hrd) => hrd.time_offset_length,
                None => 24,
            },
        },
        None => 24,
    }
}

impl ClockTimestamp {
    pub fn read(r: &mut BitReader, sps: &SeqParameterSet) -> (res: Result<ClockTimestamp, PicTimingError>)
        ensures
            match spec_clock_timestamp(old(r)@, sps@) {
                Ok((v, s2)) => res == Ok::<ClockTimestamp, PicTimingError>(v) && final(r)@ == s2,
                Err(e) => res == Err::<ClockTimestamp, PicTimingError>(e),
            },
    {
        let ct = read_field_u8(r, 2, "ct_type")?;
        proof { crate::rbsp::lemma_bits_value_bound(old(r)@.data, old(r)@.pos, 2); vstd::arithmetic::power2::lemma2_to64(); }
        let ct_type = CtType::from_id(ct);
        let nuit_field_based_flag = read_flag(r, "nuit_field_based_flag")?;
        let ghost s2 = r@;
        let counting = read_field_u8(r, 5, "counting_type")?;
        proof { crate::rbsp::lemma_bits_value_bound(s2.data, s2.pos, 5); vstd::arithmetic::power2::lemma2_to64(); }
        let counting_type = CountingType::from_id(counting);
        let full_timestamp_flag = read_flag(r, "full_timestamp_flag")?;
        let discontinuity_flag = read_flag(r, "discontinuity_flag")?;
        let cnt_dropped_flag = read_flag(r, "cnt_dropped_flag")?;
        let n_frames = read_field_u8(r, 8, "n_frames")?;
        let smh = read_smh(r, full_timestamp_flag)?;
        let len = time_offset_length(sps);
        let time_offset = if len == 0 {
            None
        } else {
            match r.read_i32_bits(len as u32, "time_offset_length") {
                Ok(v) => Some(v),
                Err(e) => return Err(PicTimingError::RbspError(e)),
            }
        };
        Ok(ClockTimestamp {
            ct_type,
            nuit_field_based_flag,
            counting_type,
            discontinuity_flag,
            cnt_dropped_flag,
            n_frames,
            smh,
            time_offset,
        })
    }
}

#[derive(Debug, Clone, PartialEq, Eq)]
pub struct PicStruct {
    pub pic_struct: PicStructType,
    pub clock_timestamps: Vec<Option<ClockTimestamp>>,
}

/// The values of a [`PicStruct`].
pub ghost struct PicStructView {
    pub pic_struct: PicStructType,
    pub clock_timestamps: Seq<Option<ClockTimestamp>>,
}

impl View for PicStruct {
    type V = PicStructView;

    open spec fn view(&self) -> PicStructView {
        PicStructView { pic_struct: self.pic_struct, clock_timestamps: self.clock_timestamps@ }
    }
}

#[derive(Debug, Clone, PartialEq, Eq)]
pub struct PicTiming {
    pub delays: Option<Delays>,
    pub pic_struct: Option<PicStruct>,
}

/// The values of a [`PicTiming`].
pub ghost struct PicTimingView {
    pub delays: Option<Delays>,
    pub pic_struct: Option<PicStructView>,
}

impl View for PicTiming {
    type V = PicTimingView;

    open spec fn view(&self) -> PicTimingView {
        PicTimingView {
            delays: self.delays,
            pic_struct: match self.pic_struct {
                Some(p) => Some(p@),
                None => None,
            },
        }
    }
}

/// The CPB and DPB delays, present when the SPS has NAL HRD parameters, or else VCL HRD
/// parameters, whose delay lengths they take.
pub open spec fn spec_delays(s: BitStream, sps: SeqParameterSetView) -> Result<(Option<Delays>, BitStream), PicTimingError> {
    match sps.vui_parameters {
        None => Ok((None, s)),
        Some(vui) => match (if vui.nal_hrd_parameters is Some { vui.nal_hrd_parameters } else { vui.vcl_hrd_parameters }) {
            None => Ok((None, s)),
            Some(hrd) => match spec_read_u32_bits(s, (hrd.cpb_removal_delay_length_minus1 + 1) as nat, "cpb_removal_delay") {
                Err(e) => Err(PicTimingError::RbspError(e)),
                Ok((cpb, s1)) => match spec_read_u32_bits(s1, (hrd.dpb_output_delay_length_minus1 + 1) as nat, "dpb_output_delay") {
                    Err(e) => Err(PicTimingError::RbspError(e)),
                    Ok((dpb, s2)) => Ok((Some(Delays { cpb_removal_delay: cpb, dpb_output_delay: dpb }), s2)),
                },
            },
        },
    }
}

/// When the SPS has HRD parameters (the NAL ones when present, else the VCL ones), a
/// `pic_timing` message starts with `cpb_removal_delay` and then `dpb_output_delay`, in the
/// widths those parameters give (D.2.3): reading them where they were written gives both back
/// in that order.
pub proof fn lemma_delays_written(s: BitStream, sps: SeqParameterSetView, cpb_removal_delay: u32, dpb_output_delay: u32, s2: BitStream)
    requires
        sps.vui_parameters matches Some(vui) && (if vui.nal_hrd_parameters is Some { vui.nal_hrd_parameters } else { vui.vcl_hrd_parameters }) matches Some(hrd) && {
            let n1 = (hrd.cpb_removal_delay_length_minus1 + 1) as nat;
            let n2 = (hrd.dpb_output_delay_length_minus1 + 1) as nat;
            &&& n1 <= 32 && n2 <= 32
            &&& cpb_removal_delay < vstd::arithmetic::power2::pow2(n1)
            &&& dpb_output_delay < vstd::arithmetic::power2::pow2(n2)
            &&& reads(s, value_bits(cpb_removal_delay as nat, n1) + value_bits(dpb_output_delay as nat, n2), s2)
        },
    ensures
        spec_delays(s, sps) == Ok::<(Option<Delays>, BitStream), PicTimingError>((
            Some(Delays { cpb_removal_delay, dpb_output_delay }),
            s2,
        )),
{
    let vui = sps.vui_parameters->Some_0;
    let hrd = (if vui.nal_hrd_parameters is Some { vui.nal_hrd_parameters } else { vui.vcl_hrd_parameters })->Some_0;
    let n1 = (hrd.cpb_removal_delay_length_minus1 + 1) as nat;
    let n2 = (hrd.dpb_output_delay_length_minus1 + 1) as nat;
    lemma_reads_split(s, value_bits(cpb_removal_delay as nat, n1), value_bits(dpb_output_delay as nat, n2), s2);
    lemma_value_bits_len(cpb_removal_delay as nat, n1);
    lemma_read_value(s, cpb_removal_delay as nat, n1);
    lemma_value_bits_len(dpb_output_delay as nat, n2);
    lemma_read_value(s.at(s.pos + n1), dpb_output_delay as nat, n2);
}

/// `count` clock timestamps, each behind its `clock_timestamp_flag`.
pub open spec fn spec_clock_timestamps(s: BitStream, sps: SeqParameterSetView, count: nat) -> Result<(Seq<Option<ClockTimestamp>>, BitStream), PicTimingError>
    decreases count,
{
    if count == 0 {
        Ok((Seq::empty(), s))
    } else {
        match spec_clock_timestamps(s, sps, (count - 1) as nat) {
            Err(e) => Err(e),
            Ok((list, s1)) => match spec_flag(s1, "clock_timestamp_flag") {
                Err(e) => Err(e),
                Ok((false, s2)) => Ok((list.push(None), s2)),
                Ok((true, s2)) => match spec_clock_timestamp(s2, sps) {
                    Err(e) => Err(e),
                    Ok((ts, s3)) => Ok((list.push(Some(ts)), s3)),
                },
            },
        }
    }
}

/// `NumClockTS` for a `pic_struct` value, as Table D-1 of H.264 gives it: one timestamp for a
/// frame or a single field (0 to 2), two for a field pair or a doubled frame (3, 4, 7), three
/// for a field pair with a repeated field or a tripled frame (5, 6, 8); none for the reserved
/// values.
pub open spec fn table_d1_num_clock_ts(pic_struct: u8) -> nat {
    if pic_struct <= 2 {
        1
    } else if pic_struct == 3 || pic_struct == 4 || pic_struct == 7 {
        2
    } else if pic_struct <= 8 {
        3
    } else {
        0
    }
}

/// The `pic_struct` value of a picture structure, from Table D-1 of H.264: a frame 0, a top
/// field 1, a bottom field 2, top then bottom field 3, bottom then top field 4, top, bottom,
/// top repeated 5, bottom, top, bottom repeated 6, frame doubling 7, frame tripling 8; a
/// reserved structure keeps its value.
pub open spec fn pic_struct_number(t: PicStructType) -> u8 {
    match t {
        PicStructType::Frame => 0,
        PicStructType::TopField => 1,
        PicStructType::BottomField => 2,
        PicStructType::TopFieldBottomField => 3,
        PicStructType::BottomFieldTopField => 4,
        PicStructType::TopFieldBottomFieldTopFieldRepeated => 5,
        PicStructType::BottomFieldTopFieldBottomFieldRepeated => 6,
        PicStructType::FrameDoubling => 7,
        PicStructType::FrameTripling => 8,
        PicStructType::Reserved(id) => id,
    }
}

/// A `pic_struct` value names a structure exactly when it is at most 15; the structure has
/// that value, and is reserved exactly for the values 9 to 15.
pub proof fn lemma_pic_struct_number(pic_struct: u8)
    ensures
        spec_pic_struct_type(pic_struct) is Some <==> pic_struct <= 15,
        spec_pic_struct_type(pic_struct) matches Some(t) ==> pic_struct_number(t) == pic_struct
            && (t is Reserved <==> pic_struct >= 9),
{
}

/// Every `pic_struct` value up to 15 names a picture structure with the number of clock
/// timestamps that Table D-1 gives it.
pub proof fn lemma_num_clock_timestamps_table(pic_struct: u8)
    requires
        pic_struct <= 15,
    ensures
        spec_pic_struct_type(pic_struct) matches Some(t) && spec_num_clock_timestamps(t) == table_d1_num_clock_ts(pic_struct),
{
}

proof fn lemma_clock_timestamps_len(s: BitStream, sps: SeqParameterSetView, count: nat)
    ensures
        spec_clock_timestamps(s, sps, count) matches Ok((list, _)) ==> list.len() == count,
    decreases count,
{
    if count > 0 {
        lemma_clock_timestamps_len(s, sps, (count - 1) as nat);
    }
}

/// A picture structure read from a `pic_timing` message is the one that its 4-bit `pic_struct`
/// value names, and it holds one clock timestamp entry for each of the `NumClockTS` that
/// Table D-1 gives that value.
pub proof fn lemma_pic_struct_clock_timestamps(s: BitStream, sps: SeqParameterSetView)
    ensures
        spec_pic_struct(s, sps) matches Ok((Some(v), _)) ==> spec_field_u8(s, 4, "pic_struct") matches Ok((id, _)) && {
            &&& id <= 15
            &&& spec_pic_struct_type(id) == Some(v.pic_struct)
            &&& v.clock_timestamps.len() == table_d1_num_clock_ts(id)
        },
{
    if let Ok((id, s1)) = spec_field_u8(s, 4, "pic_struct") {
        if let Some(t) = spec_pic_struct_type(id) {
            lemma_num_clock_timestamps_table(id);
            lemma_clock_timestamps_len(s1, sps, spec_num_clock_timestamps(t) as nat);
        }
    }
}

/// The picture structure and its clock timestamps, present when the SPS says so.
pub open spec fn spec_pic_struct(s: BitStream, sps: SeqParameterSetView) -> Result<(Option<PicStructView>, BitStream), PicTimingError> {
    match sps.vui_parameters {
        None => Ok((None, s)),
        Some(vui) => if !vui.pic_struct_present_flag {
            Ok((None, s))
        } else {
            match spec_field_u8(s, 4, "pic_struct") {
                Err(e) => Err(e),
                Ok((id, s1)) => match spec_pic_struct_type(id) {
                    None => Err(PicTimingError::InvalidPicStructId(id)),
                    Some(t) => match spec_clock_timestamps(s1, sps, spec_num_clock_timestamps(t) as nat) {
                        Err(e) => Err(e),
                        Ok((ts, s2)) => Ok((Some(PicStructView { pic_struct: t, clock_timestamps: ts }), s2)),
                    },
                },
            }
        },
    }
}

/// The `pic_timing()` syntax of a payload, given the active SPS.
pub open spec fn spec_pic_timing(sps: SeqParameterSetView, payload: Seq<u8>) -> Result<PicTimingView, PicTimingError> {
    let s = BitStream { data: payload, end: ErrorKind::UnexpectedEof, pos: 0 };
    match spec_delays(s, sps) {
        Err(e) => Err(e),
        Ok((delays, s1)) => match spec_pic_struct(s1, sps) {
            Err(e) => Err(e),
            Ok((pic_struct, s2)) => match spec_finish_sei_payload(s2) {
                Err(e) => Err(PicTimingError::RbspError(e)),
                Ok(()) => Ok(PicTimingView { delays, pic_struct }),
            },
        },
    }
}

/// A list that fails after `k` entries fails with the same error when longer.
proof fn lemma_clock_timestamps_fail(s: BitStream, sps: SeqParameterSetView, k: nat, more: nat)
    requires
        more >= 1,
        spec_clock_timestamps(s, sps, k + 1) is Err,
    ensures
        spec_clock_timestamps(s, sps, k + more) == spec_clock_timestamps(s, sps, k + 1),
    decreases more,
{
    if more > 1 {
        lemma_clock_timestamps_fail(s, sps, k, (more - 1) as nat);
    }
}

impl PicTiming {
    /// Parses a `PicTiming` from the given SEI message.
    /// The caller is expected to have found the correct SPS by buffering the `SeiMessage`
    /// until after examining the following slice header.
    pub fn read(sps: &SeqParameterSet, msg: &SeiMessage<'_>) -> (res: Result<PicTiming, PicTimingError>)
        requires
            msg.payload_type == HeaderType::PicTiming,
        ensures
            match spec_pic_timing(sps@, msg.payload@) {
                Ok(v) => res matches Ok(p) && p@ == v,
                Err(e) => res == Err::<PicTiming, PicTimingError>(e),
            },
    {
        let mut r = BitReader::new(msg.payload);
        let delays = PicTiming::read_delays(&mut r, sps)?;
        let pic_struct = PicTiming::read_pic_struct(&mut r, sps)?;
        match r.finish_sei_payload() {
            Ok(()) => {},
            Err(e) => return Err(PicTimingError::RbspError(e)),
        }
        Ok(PicTiming { delays, pic_struct })
    }

    fn read_delays(r: &mut BitReader, sps: &SeqParameterSet) -> (res: Result<Option<Delays>, PicTimingError>)
        ensures
            match spec_delays(old(r)@, sps@) {
                Ok((v, s2)) => res == Ok::<Option<Delays>, PicTimingError>(v) && final(r)@ == s2,
                Err(e) => res == Err::<Option<Delays>, PicTimingError>(e),
            },
    {
        match &sps.vui_parameters {
            None => Ok(None),
            Some(vui) => match (if vui.nal_hrd_parameters.is_some() { &vui.nal_hrd_parameters } else { &vui.vcl_hrd_parameters }) {
                None => Ok(None),
                Some(hrd) => {
                    let cpb_removal_delay = match r.read_u32_bits(hrd.cpb_removal_delay_length_minus1 as u32 + 1, "cpb_removal_delay") {
                        Ok(v) => v,
                        Err(e) => return Err(PicTimingError::RbspError(e)),
                    };
                    let dpb_output_delay = match r.read_u32_bits(hrd.dpb_output_delay_length_minus1 as u32 + 1, "dpb_output_delay") {
                        Ok(v) => v,
                        Err(e) => return Err(PicTimingError::RbspError(e)),
                    };
                    Ok(Some(Delays { cpb_removal_delay, dpb_output_delay }))
                },
            },
        }
    }

    fn read_pic_struct(r: &mut BitReader, sps: &SeqParameterSet) -> (res: Result<Option<PicStruct>, PicTimingError>)
        ensures
            match spec_pic_struct(old(r)@, sps@) {
                Ok((v, s2)) => res matches Ok(x) && (match x { Some(p) => v == Some(p@), None => v is None }) && final(r)@ == s2,
                Err(e) => res == Err::<Option<PicStruct>, PicTimingError>(e),
            },
    {
        match &sps.vui_parameters {
            None => Ok(None),
            Some(vui) => {
                if !vui.pic_struct_present_flag {
                    return Ok(None);
                }
                let id = read_field_u8(r, 4, "pic_struct")?;
                let pic_struct = PicStructType::from_id(id)?;
                let clock_timestamps = PicTiming::read_clock_timestamps(r, &pic_struct, sps)?;
                Ok(Some(PicStruct { pic_struct, clock_timestamps }))
            },
        }
    }

    fn read_clock_timestamps(r: &mut BitReader, pic_struct: &PicStructType, sps: &SeqParameterSet) -> (res: Result<Vec<Option<ClockTimestamp>>, PicTimingError>)
        ensures
            match spec_clock_timestamps(old(r)@, sps@, spec_num_clock_timestamps(*pic_struct) as nat) {
                Ok((v, s2)) => res matches Ok(x) && x@ == v && final(r)@ == s2,
                Err(e) => res == Err::<Vec<Option<ClockTimestamp>>, PicTimingError>(e),
            },
    {
        let count = pic_struct.num_clock_timestamps();
        let mut res: Vec<Option<ClockTimestamp>> = Vec::new();
        let mut k: u8 = 0;
        while k < count
            invariant
                k <= count,
                count == spec_num_clock_timestamps(*pic_struct),
                spec_clock_timestamps(old(r)@, sps@, k as nat) == Ok::<(Seq<Option<ClockTimestamp>>, BitStream), PicTimingError>((res@, r@)),
            decreases count - k,
        {
            let flag = match read_flag(r, "clock_timestamp_flag") {
                Ok(v) => v,
                Err(e) => {
                    proof { lemma_clock_timestamps_fail(old(r)@, sps@, k as nat, (count - k) as nat); }
                    return Err(e);
                },
            };
            if flag {
                let ts = match ClockTimestamp::read(r, sps) {
                    Ok(v) => v,
                    Err(e) => {
                        proof { lemma_clock_timestamps_fail(old(r)@, sps@, k as nat, (count - k) as nat); }
                        return Err(e);
                    },
                };
                res.push(Some(ts));
            } else {
                res.push(None);
            }
            k = k + 1;
        }
        Ok(res)
    }
}

} // verus!

//! The `buffering_period()` SEI message.

use vstd::prelude::*;
use crate::nal::sei::{HeaderType, SeiMessage};
use crate::nal::sps::{HrdParameters, HrdParametersView, SeqParamSetId, SeqParamSetIdError, SeqParameterSet};
use crate::rbsp::{
    parsed_view, spec_finish_sei_payload, spec_read_u32_bits, spec_read_ue, BitReader, BitReaderError, BitStream,
    ErrorKind,
};
use crate::{slot_value, Context};

verus! {

#[derive(Debug, Clone, Copy, PartialEq, Eq)]
pub enum BufferingPeriodError {
    ReaderError(BitReaderError),
    UndefinedSeqParamSetId(SeqParamSetId),
    InvalidSeqParamSetId(SeqParamSetIdError),
}

#[derive(Debug, Clone, Copy, PartialEq, Eq, Structural)]
pub struct InitialCpbRemoval {
    pub initial_cpb_removal_delay: u32,
    pub initial_cpb_removal_delay_offset: u32,
}

/// `count` pairs of `initial_cpb_removal_delay` and `initial_cpb_removal_delay_offset` of
/// `length` bits each.
pub open spec fn spec_cpb_removal_delay_list(s: BitStream, count: nat, length: nat) -> Result<(Seq<InitialCpbRemoval>, BitStream), BitReaderError>
    decreases count,
{
    if count == 0 {
        Ok((Seq::empty(), s))
    } else {
        match spec_cpb_removal_delay_list(s, (count - 1) as nat, length) {
            Err(e) => Err(e),
            Ok((list, s1)) => match spec_read_u32_bits(s1, length, "initial_cpb_removal_delay") {
                Err(e) => Err(e),
                Ok((delay, s2)) => match spec_read_u32_bits(s2, length, "initial_cpb_removal_delay_offset") {
                    Err(e) => Err(e),
                    Ok((offset, s3)) => Ok((
                        list.push(InitialCpbRemoval { initial_cpb_removal_delay: delay, initial_cpb_removal_delay_offset: offset }),
                        s3,
                    )),
                },
            },
        }
    }
}

fn read_cpb_removal_delay_list(r: &mut BitReader, count: usize, length: u32) -> (res: Result<Vec<InitialCpbRemoval>, BitReaderError>)
    ensures
        parsed_view(res, spec_cpb_removal_delay_list(old(r)@, count as nat, length as nat), final(r)@),
{
    let mut res: Vec<InitialCpbRemoval> = Vec::new();
    let mut k: usize = 0;
    while k < count
        invariant
            k <= count,
            spec_cpb_removal_delay_list(old(r)@, k as nat, length as nat) == Ok::<(Seq<InitialCpbRemoval>, BitStream), BitReaderError>((res@, r@)),
        decreases count - k,
    {
        let initial_cpb_removal_delay = match r.read_u32_bits(length, "initial_cpb_removal_delay") {
            Ok(v) => v,
            Err(e) => {
                proof { lemma_cpb_list_fails(old(r)@, k as nat, (count - k) as nat, length as nat); }
                return Err(e);
            },
        };
        let initial_cpb_removal_delay_offset = match r.read_u32_bits(length, "initial_cpb_removal_delay_offset") {
            Ok(v) => v,
            Err(e) => {
                proof { lemma_cpb_list_fails(old(r)@, k as nat, (count - k) as nat, length as nat); }
                return Err(e);
            },
        };
        res.push(InitialCpbRemoval { initial_cpb_removal_delay, initial_cpb_removal_delay_offset });
        k = k + 1;
    }
    Ok(res)
}

/// A list that fails after `k` entries fails with the same error when longer.
proof fn lemma_cpb_list_fails(s: BitStream, k: nat, more: nat, length: nat)
    requires
        more >= 1,
        spec_cpb_removal_delay_list(s, k + 1, length) is Err,
    ensures
        spec_cpb_removal_delay_list(s, k + more, length) == spec_cpb_removal_delay_list(s, k + 1, length),
    decreases more,
{
    if more > 1 {
        lemma_cpb_list_fails(s, k, (more - 1) as nat, length);
    }
}

#[derive(Debug, PartialEq, Eq)]
pub struct BufferingPeriod {
    pub nal_hrd_bp: Option<Vec<InitialCpbRemoval>>,
    pub vcl_hrd_bp: Option<Vec<InitialCpbRemoval>>,
}

/// The values of a [`BufferingPeriod`].
pub ghost struct BufferingPeriodView {
    pub nal_hrd_bp: Option<Seq<InitialCpbRemoval>>,
    pub vcl_hrd_bp: Option<Seq<InitialCpbRemoval>>,
}

/// The view of an optional vector.
pub open spec fn opt_seq<T>(v: Option<Vec<T>>) -> Option<Seq<T>> {
    match v {
        Some(x) => Some(x@),
        None => None,
    }
}

impl View for BufferingPeriod {
    type V = BufferingPeriodView;

    open spec fn view(&self) -> BufferingPeriodView {
        BufferingPeriodView { nal_hrd_bp: opt_seq(self.nal_hrd_bp), vcl_hrd_bp: opt_seq(self.vcl_hrd_bp) }
    }
}

/// The removal-delay list for one set of HRD parameters, if present.
pub open spec fn spec_hrd_bp(s: BitStream, hrd: Option<HrdParametersView>) -> Result<(Option<Seq<InitialCpbRemoval>>, BitStream), BitReaderError> {
    match hrd {
        None => Ok((None, s)),
        Some(p) => match spec_cpb_removal_delay_list(s, p.cpb_specs.len(), (p.initial_cpb_removal_delay_length_minus1 + 1) as nat) {
            Err(e) => Err(e),
            Ok((list, s1)) => Ok((Some(list), s1)),
        },
    }
}

/// The `buffering_period()` syntax of a payload, with the SPS it names among `sps_slots`.
pub open spec fn spec_buffering_period(sps_slots: Seq<Option<SeqParameterSet>>, payload: Seq<u8>) -> Result<BufferingPeriodView, BufferingPeriodError> {
    let s = BitStream { data: payload, end: ErrorKind::UnexpectedEof, pos: 0 };
    match spec_read_ue(s, "seq_parameter_set_id") {
        Err(e) => Err(BufferingPeriodError::ReaderError(e)),
        Ok((id, s1)) => if id > 31 {
            Err(BufferingPeriodError::InvalidSeqParamSetId(SeqParamSetIdError::IdTooLarge(id)))
        } else {
            match slot_value(sps_slots, id as int) {
                None => Err(BufferingPeriodError::UndefinedSeqParamSetId(crate::nal::sps::spec_seq_param_set_id(id as u8))),
                Some(sps) => {
                    let vui = sps@.vui_parameters;
                    let nal = match vui { Some(v) => v.nal_hrd_parameters, None => None };
                    let vcl = match vui { Some(v) => v.vcl_hrd_parameters, None => None };
                    match spec_hrd_bp(s1, nal) {
                        Err(e) => Err(BufferingPeriodError::ReaderError(e)),
                        Ok((nal_hrd_bp, s2)) => match spec_hrd_bp(s2, vcl) {
                            Err(e) => Err(BufferingPeriodError::ReaderError(e)),
                            Ok((vcl_hrd_bp, s3)) => match spec_finish_sei_payload(s3) {
                                Err(e) => Err(BufferingPeriodError::ReaderError(e)),
                                Ok(()) => Ok(BufferingPeriodView { nal_hrd_bp, vcl_hrd_bp }),
                            },
                        },
                    }
                },
            }
        },
    }
}

fn read_hrd_bp(r: &mut BitReader, hrd: &Option<HrdParameters>) -> (res: Result<Option<Vec<InitialCpbRemoval>>, BitReaderError>)
    ensures
        match spec_hrd_bp(old(r)@, crate::nal::sps::opt_view(*hrd)) {
            Ok((v, s2)) => res matches Ok(x) && opt_seq(x) == v && final(r)@ == s2,
            Err(e) => res == Err::<Option<Vec<InitialCpbRemoval>>, BitReaderError>(e),
        },
{
    match hrd {
        None => Ok(None),
        Some(p) => {
            let length = p.initial_cpb_removal_delay_length_minus1 as u32 + 1;
            match read_cpb_removal_delay_list(r, p.cpb_specs.len(), length) {
                Ok(list) => Ok(Some(list)),
                Err(e) => Err(e),
            }
        },
    }
}

impl BufferingPeriod {
    /// Parses a buffering period message, using the SPS that it names.
    pub fn read(ctx: &Context, msg: &SeiMessage<'_>) -> (res: Result<BufferingPeriod, BufferingPeriodError>)
        requires
            msg.payload_type == HeaderType::BufferingPeriod,
        ensures
            match spec_buffering_period(ctx.sps_slots(), msg.payload@) {
                Ok(v) => res matches Ok(b) && b@ == v,
                Err(e) => res == Err::<BufferingPeriod, BufferingPeriodError>(e),
            },
    {
        let mut r = BitReader::new(msg.payload);
        let id = match r.read_ue("seq_parameter_set_id") {
            Ok(v) => v,
            Err(e) => return Err(BufferingPeriodError::ReaderError(e)),
        };
        let seq_parameter_set_id = match SeqParamSetId::from_u32(id) {
            Ok(v) => v,
            Err(e) => return Err(BufferingPeriodError::InvalidSeqParamSetId(e)),
        };
        let sps = match ctx.sps_by_id(seq_parameter_set_id) {
            Some(s) => s,
            None => {
                proof { crate::nal::sps::lemma_seq_param_set_id_spec(seq_parameter_set_id); }
                return Err(BufferingPeriodError::UndefinedSeqParamSetId(seq_parameter_set_id));
            },
        };
        let nal_hrd_bp = match &sps.vui_parameters {
            Some(v) => match read_hrd_bp(&mut r, &v.nal_hrd_parameters) {
                Ok(x) => x,
                Err(e) => return Err(BufferingPeriodError::ReaderError(e)),
            },
            None => None,
        };
        let vcl_hrd_bp = match &sps.vui_parameters {
            Some(v) => match read_hrd_bp(&mut r, &v.vcl_hrd_parameters) {
                Ok(x) => x,
                Err(e) => return Err(BufferingPeriodError::ReaderError(e)),
            },
            None => None,
        };
        match r.finish_sei_payload() {
            Ok(()) => {},
            Err(e) => return Err(BufferingPeriodError::ReaderError(e)),
        }
        Ok(BufferingPeriod { nal_hrd_bp, vcl_hrd_bp })
    }
}

} // verus!

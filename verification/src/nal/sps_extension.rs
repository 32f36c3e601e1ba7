//! Parser for `seq_parameter_set_extension_rbsp()` (NAL type 13, spec 7.3.2.1.2).

use vstd::prelude::*;
use crate::nal::sps::{spec_seq_param_set_id, SeqParamSetId, SeqParamSetIdError, SpsError};
use crate::rbsp::{spec_finish_rbsp, spec_read_bit, spec_read_u32_bits, spec_read_ue, BitReader, BitStream};

verus! {

/// Auxiliary format information, present when `aux_format_idc != 0`.
#[derive(Clone, Copy, Debug, PartialEq, Eq, Structural)]
pub struct AuxFormatInfo {
    pub bit_depth_aux_minus8: u8,
    pub alpha_incr_flag: bool,
    pub alpha_opaque_value: u32,
    pub alpha_transparent_value: u32,
}

/// Parsed `seq_parameter_set_extension_rbsp()` (NAL unit type 13).
#[derive(Clone, Copy, Debug, PartialEq, Eq, Structural)]
pub struct SeqParameterSetExtension {
    pub seq_parameter_set_id: SeqParamSetId,
    pub aux_format_idc: u32,
    pub aux_format_info: Option<AuxFormatInfo>,
    pub additional_extension_flag: bool,
}

/// The auxiliary format information after `aux_format_idc`, if that is not 0.
pub open spec fn spec_aux_format_info(s: BitStream, aux_format_idc: u32) -> Result<(Option<AuxFormatInfo>, BitStream), SpsError> {
    if aux_format_idc == 0 {
        Ok((None, s))
    } else {
        match spec_read_ue(s, "bit_depth_aux_minus8") {
            Err(e) => Err(SpsError::RbspReaderError(e)),
            Ok((depth, s1)) => if depth > 4 {
                Err(SpsError::BitDepthOutOfRange(depth))
            } else {
                match spec_read_bit(s1, "alpha_incr_flag") {
                    Err(e) => Err(SpsError::RbspReaderError(e)),
                    Ok((incr, s2)) => match spec_read_u32_bits(s2, (depth + 9) as nat, "alpha_opaque_value") {
                        Err(e) => Err(SpsError::RbspReaderError(e)),
                        Ok((opaque, s3)) => match spec_read_u32_bits(s3, (depth + 9) as nat, "alpha_transparent_value") {
                            Err(e) => Err(SpsError::RbspReaderError(e)),
                            Ok((transparent, s4)) => Ok((
                                Some(AuxFormatInfo {
                                    bit_depth_aux_minus8: depth as u8,
                                    alpha_incr_flag: incr,
                                    alpha_opaque_value: opaque,
                                    alpha_transparent_value: transparent,
                                }),
                                s4,
                            )),
                        },
                    },
                }
            },
        }
    }
}

/// The `seq_parameter_set_extension_rbsp()` syntax.
pub open spec fn spec_sps_extension(s: BitStream) -> Result<SeqParameterSetExtension, SpsError> {
    match spec_read_ue(s, "seq_parameter_set_id") {
        Err(e) => Err(SpsError::RbspReaderError(e)),
        Ok((id, s1)) => if id > 31 {
            Err(SpsError::BadSeqParamSetId(SeqParamSetIdError::IdTooLarge(id)))
        } else {
            match spec_read_ue(s1, "aux_format_idc") {
                Err(e) => Err(SpsError::RbspReaderError(e)),
                Ok((aux_format_idc, s2)) => match spec_aux_format_info(s2, aux_format_idc) {
                    Err(e) => Err(e),
                    Ok((aux_format_info, s3)) => match spec_read_bit(s3, "additional_extension_flag") {
                        Err(e) => Err(SpsError::RbspReaderError(e)),
                        Ok((flag, s4)) => match spec_finish_rbsp(s4) {
                            Err(e) => Err(SpsError::RbspReaderError(e)),
                            Ok(()) => Ok(SeqParameterSetExtension {
                                seq_parameter_set_id: spec_seq_param_set_id(id as u8),
                                aux_format_idc,
                                aux_format_info,
                                additional_extension_flag: flag,
                            }),
                        },
                    },
                },
            }
        },
    }
}

fn read_aux_format_info(r: &mut BitReader, aux_format_idc: u32) -> (res: Result<Option<AuxFormatInfo>, SpsError>)
    ensures
        match spec_aux_format_info(old(r)@, aux_format_idc) {
            Ok((v, s2)) => res == Ok::<Option<AuxFormatInfo>, SpsError>(v) && final(r)@ == s2,
            Err(e) => res == Err::<Option<AuxFormatInfo>, SpsError>(e),
        },
{
    if aux_format_idc == 0 {
        return Ok(None);
    }
    let depth = match r.read_ue("bit_depth_aux_minus8") {
        Ok(v) => v,
        Err(e) => return Err(SpsError::RbspReaderError(e)),
    };
    if depth > 4 {
        return Err(SpsError::BitDepthOutOfRange(depth));
    }
    let bit_depth_aux_minus8 = depth as u8;
    let alpha_incr_flag = match r.read_bit("alpha_incr_flag") {
        Ok(v) => v,
        Err(e) => return Err(SpsError::RbspReaderError(e)),
    };
    let v = depth + 9;
    let alpha_opaque_value = match r.read_u32_bits(v, "alpha_opaque_value") {
        Ok(x) => x,
        Err(e) => return Err(SpsError::RbspReaderError(e)),
    };
    let alpha_transparent_value = match r.read_u32_bits(v, "alpha_transparent_value") {
        Ok(x) => x,
        Err(e) => return Err(SpsError::RbspReaderError(e)),
    };
    Ok(Some(AuxFormatInfo { bit_depth_aux_minus8, alpha_incr_flag, alpha_opaque_value, alpha_transparent_value }))
}

impl SeqParameterSetExtension {
    pub fn from_bits(r: BitReader) -> (res: Result<SeqParameterSetExtension, SpsError>)
        ensures
            res == spec_sps_extension(r@),
    {
        let mut r = r;
        let id = match r.read_ue("seq_parameter_set_id") {
            Ok(v) => v,
            Err(e) => return Err(SpsError::RbspReaderError(e)),
        };
        let seq_parameter_set_id = match SeqParamSetId::from_u32(id) {
            Ok(v) => v,
            Err(e) => return Err(SpsError::BadSeqParamSetId(e)),
        };
        proof { crate::nal::sps::lemma_seq_param_set_id_spec(seq_parameter_set_id); }
        let aux_format_idc = match r.read_ue("aux_format_idc") {
            Ok(v) => v,
            Err(e) => return Err(SpsError::RbspReaderError(e)),
        };
        let aux_format_info = read_aux_format_info(&mut r, aux_format_idc)?;
        let additional_extension_flag = match r.read_bit("additional_extension_flag") {
            Ok(v) => v,
            Err(e) => return Err(SpsError::RbspReaderError(e)),
        };
        match r.finish_rbsp() {
            Ok(()) => {},
            Err(e) => return Err(SpsError::RbspReaderError(e)),
        }
        Ok(SeqParameterSetExtension { seq_parameter_set_id, aux_format_idc, aux_format_info, additional_extension_flag })
    }
}

} // verus!

//! The `recovery_point()` SEI message.

use vstd::prelude::*;
use crate::nal::sei::{HeaderType, SeiMessage};
use crate::rbsp::{
    parsed, spec_finish_sei_payload, spec_read_bit, spec_read_bits, spec_read_ue, BitReader, BitReaderError,
    BitStream,
};

verus! {

#[derive(Debug, Clone, Copy, PartialEq, Eq)]
pub enum RecoveryPointError {
    ReaderError(BitReaderError),
}

/// Parsed `recovery_point()` SEI message (payloadType == 6, spec D.1.7).
///
/// Signals a recovery point in the bitstream, allowing decoders to identify
/// open-GOP random access points where correct decoding can begin.
#[derive(Debug, Clone, Copy, PartialEq, Eq, Structural)]
pub struct RecoveryPoint {
    pub recovery_frame_cnt: u32,
    pub exact_match_flag: bool,
    pub broken_link_flag: bool,
    pub changing_slice_group_idc: u8,
}

/// The `recovery_point()` syntax read from the start of a payload.
pub open spec fn spec_recovery_point(payload: Seq<u8>) -> Result<RecoveryPoint, RecoveryPointError> {
    let s = BitStream { data: payload, end: crate::rbsp::ErrorKind::UnexpectedEof, pos: 0 };
    match spec_read_ue(s, "recovery_frame_cnt") {
        Err(e) => Err(RecoveryPointError::ReaderError(e)),
        Ok((cnt, s1)) => match spec_read_bit(s1, "exact_match_flag") {
            Err(e) => Err(RecoveryPointError::ReaderError(e)),
            Ok((exact, s2)) => match spec_read_bit(s2, "broken_link_flag") {
                Err(e) => Err(RecoveryPointError::ReaderError(e)),
                Ok((broken, s3)) => match spec_read_bits(s3, 2) {
                    None => Err(RecoveryPointError::ReaderError(BitReaderError::ReaderError("changing_slice_group_idc", s3.end))),
                    Some((idc, s4)) => match spec_finish_sei_payload(s4) {
                        Err(e) => Err(RecoveryPointError::ReaderError(e)),
                        Ok(()) => Ok(RecoveryPoint {
                            recovery_frame_cnt: cnt,
                            exact_match_flag: exact,
                            broken_link_flag: broken,
                            changing_slice_group_idc: idc as u8,
                        }),
                    },
                },
            },
        },
    }
}

impl RecoveryPoint {
    /// Parses a recovery point message.
    pub fn read(msg: &SeiMessage<'_>) -> (r: Result<RecoveryPoint, RecoveryPointError>)
        requires
            msg.payload_type == HeaderType::RecoveryPoint,
        ensures
            r == spec_recovery_point(msg.payload@),
    {
        let mut r = BitReader::new(msg.payload);
        let recovery_frame_cnt = match r.read_ue("recovery_frame_cnt") {
            Ok(v) => v,
            Err(e) => return Err(RecoveryPointError::ReaderError(e)),
        };
        let exact_match_flag = match r.read_bit("exact_match_flag") {
            Ok(v) => v,
            Err(e) => return Err(RecoveryPointError::ReaderError(e)),
        };
        let broken_link_flag = match r.read_bit("broken_link_flag") {
            Ok(v) => v,
            Err(e) => return Err(RecoveryPointError::ReaderError(e)),
        };
        let changing_slice_group_idc: u8 = match r.read::<2, u8>("changing_slice_group_idc") {
            Ok(v) => v,
            Err(e) => return Err(RecoveryPointError::ReaderError(e)),
        };
        match r.finish_sei_payload() {
            Ok(()) => {},
            Err(e) => return Err(RecoveryPointError::ReaderError(e)),
        }
        Ok(RecoveryPoint { recovery_frame_cnt, exact_match_flag, broken_link_flag, changing_slice_group_idc })
    }
}

} // verus!

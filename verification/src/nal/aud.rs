//! Parser for `access_unit_delimiter_rbsp()` (NAL type 9, spec 7.3.2.4).

use vstd::prelude::*;
use crate::rbsp::{spec_finish_rbsp, spec_read_bits, BitReader, BitReaderError, BitStream};

verus! {

/// Indicates which slice types may be present in the primary coded picture
/// of the access unit (Table 7-5).
#[derive(Clone, Copy, Debug, PartialEq, Eq, Structural)]
pub enum PrimaryPicType {
    /// I slices only
    I,
    /// I, P slices
    IP,
    /// I, P, B slices
    IPB,
    /// SI slices only
    SI,
    /// SI, SP slices
    SISP,
    /// I, SI slices
    ISI,
    /// I, SI, P, SP slices
    ISIPSP,
    /// I, SI, P, SP, B slices
    ISIPSPB,
}

/// Error returned when a `primary_pic_type` value is out of range.
#[derive(Debug, Clone, Copy, PartialEq, Eq)]
pub struct PrimaryPicTypeError(pub u8);

/// The picture type for a `primary_pic_type` value, if it is in range.
pub open spec fn spec_primary_pic_type(id: u8) -> Option<PrimaryPicType> {
    match id {
        0 => Some(PrimaryPicType::I),
        1 => Some(PrimaryPicType::IP),
        2 => Some(PrimaryPicType::IPB),
        3 => Some(PrimaryPicType::SI),
        4 => Some(PrimaryPicType::SISP),
        5 => Some(PrimaryPicType::ISI),
        6 => Some(PrimaryPicType::ISIPSP),
        7 => Some(PrimaryPicType::ISIPSPB),
        _ => None,
    }
}

/// The `primary_pic_type` value of a picture type.
pub open spec fn spec_primary_pic_type_id(t: PrimaryPicType) -> u8 {
    match t {
        PrimaryPicType::I => 0,
        PrimaryPicType::IP => 1,
        PrimaryPicType::IPB => 2,
        PrimaryPicType::SI => 3,
        PrimaryPicType::SISP => 4,
        PrimaryPicType::ISI => 5,
        PrimaryPicType::ISIPSP => 6,
        PrimaryPicType::ISIPSPB => 7,
    }
}

/// Every picture type is recovered from its value, and every value in range names one.
pub proof fn lemma_primary_pic_type_roundtrip(t: PrimaryPicType, id: u8)
    ensures
        spec_primary_pic_type(spec_primary_pic_type_id(t)) == Some(t),
        id <= 7 ==> (spec_primary_pic_type(id) matches Some(u) && spec_primary_pic_type_id(u) == id),
        id > 7 ==> spec_primary_pic_type(id) is None,
{
}

impl PrimaryPicType {
    pub fn from_id(id: u8) -> (r: Result<PrimaryPicType, PrimaryPicTypeError>)
        ensures
            match spec_primary_pic_type(id) {
                Some(t) => r == Ok::<PrimaryPicType, PrimaryPicTypeError>(t),
                None => r == Err::<PrimaryPicType, PrimaryPicTypeError>(PrimaryPicTypeError(id)),
            },
    {
        match id {
            0 => Ok(PrimaryPicType::I),
            1 => Ok(PrimaryPicType::IP),
            2 => Ok(PrimaryPicType::IPB),
            3 => Ok(PrimaryPicType::SI),
            4 => Ok(PrimaryPicType::SISP),
            5 => Ok(PrimaryPicType::ISI),
            6 => Ok(PrimaryPicType::ISIPSP),
            7 => Ok(PrimaryPicType::ISIPSPB),
            _ => Err(PrimaryPicTypeError(id)),
        }
    }

    pub fn id(self) -> (r: u8)
        ensures
            r == spec_primary_pic_type_id(self),
    {
        match self {
            PrimaryPicType::I => 0,
            PrimaryPicType::IP => 1,
            PrimaryPicType::IPB => 2,
            PrimaryPicType::SI => 3,
            PrimaryPicType::SISP => 4,
            PrimaryPicType::ISI => 5,
            PrimaryPicType::ISIPSP => 6,
            PrimaryPicType::ISIPSPB => 7,
        }
    }
}

/// Parsed `access_unit_delimiter_rbsp()` (NAL unit type 9).
#[derive(Clone, Copy, Debug, PartialEq, Eq, Structural)]
pub struct AccessUnitDelimiter {
    pub primary_pic_type: PrimaryPicType,
}

/// Error type for AUD parsing.
#[derive(Debug, Clone, Copy, PartialEq, Eq)]
pub enum AudError {
    InvalidPrimaryPicType(PrimaryPicTypeError),
    RbspError(BitReaderError),
}

/// The `access_unit_delimiter_rbsp()` syntax.
pub open spec fn spec_access_unit_delimiter(s: BitStream) -> Result<AccessUnitDelimiter, AudError> {
    match spec_read_bits(s, 3) {
        None => Err(AudError::RbspError(BitReaderError::ReaderError("primary_pic_type", s.end))),
        Some((v, s1)) => match spec_primary_pic_type(v as u8) {
            None => Err(AudError::InvalidPrimaryPicType(PrimaryPicTypeError(v as u8))),
            Some(t) => match spec_finish_rbsp(s1) {
                Err(e) => Err(AudError::RbspError(e)),
                Ok(()) => Ok(AccessUnitDelimiter { primary_pic_type: t }),
            },
        },
    }
}

impl AccessUnitDelimiter {
    pub fn from_bits(r: BitReader) -> (res: Result<AccessUnitDelimiter, AudError>)
        ensures
            res == spec_access_unit_delimiter(r@),
    {
        let mut r = r;
        let val: u8 = match r.read::<3, u8>("primary_pic_type") {
            Ok(v) => v,
            Err(e) => return Err(AudError::RbspError(e)),
        };
        let primary_pic_type = match PrimaryPicType::from_id(val) {
            Ok(t) => t,
            Err(e) => return Err(AudError::InvalidPrimaryPicType(e)),
        };
        match r.finish_rbsp() {
            Ok(()) => {},
            Err(e) => return Err(AudError::RbspError(e)),
        }
        Ok(AccessUnitDelimiter { primary_pic_type })
    }
}

} // verus!

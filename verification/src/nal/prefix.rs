//! Parser for `prefix_nal_unit_rbsp()` (NAL unit type 14, spec 7.3.2.12).
//!
//! A prefix NAL unit carries an MVC/SVC NAL header extension. When the
//! extension is SVC and `nal_ref_idc != 0`, it also carries reference
//! picture base marking information (`prefix_nal_unit_svc()`, spec
//! F.7.3.2.12.1). MVC prefix NALs have an empty RBSP body.

use vstd::prelude::*;
use crate::nal::{
    header_extension_of, parse_nal_header_extension, rbsp_bits_of, Nal, NalHeader, NalHeaderError, NalHeaderExtension, RefNal,
};
use crate::rbsp::{body_after, spec_read_bit, spec_read_ue, unescape, BitReader, BitReaderError, BitStream, ErrorKind, IoError};

verus! {

/// Parsed `prefix_nal_unit_rbsp()` (NAL unit type 14).
#[derive(Clone, Debug, PartialEq, Eq)]
pub struct PrefixNalUnit {
    pub header_extension: NalHeaderExtension,
    /// Present when `nal_ref_idc != 0` and the extension is SVC.
    pub ref_base_pic: Option<PrefixNalUnitRef>,
}

/// Reference base picture information within an SVC prefix NAL unit
/// (spec F.7.3.2.12.1, `prefix_nal_unit_svc()` when `nal_ref_idc != 0`).
#[derive(Clone, Debug, PartialEq, Eq)]
pub struct PrefixNalUnitRef {
    pub store_ref_base_pic_flag: bool,
    pub dec_ref_base_pic_marking: Option<DecRefBasePicMarking>,
    pub additional_prefix_nal_unit_extension_flag: bool,
}

/// Decoded reference base picture marking syntax (spec G.7.3.3.5,
/// `dec_ref_base_pic_marking`).
#[derive(Clone, Debug, PartialEq, Eq)]
pub struct DecRefBasePicMarking {
    pub operations: Vec<DecRefBasePicMarkingOp>,
}

/// A single operation in `dec_ref_base_pic_marking()`.
#[derive(Clone, Copy, Debug, PartialEq, Eq, Structural)]
pub enum DecRefBasePicMarkingOp {
    /// `memory_management_base_control_operation == 1`:
    /// Mark a short-term reference base picture as unused.
    ShortTermUnusedForRef { difference_of_base_pic_nums_minus1: u32 },
    /// `memory_management_base_control_operation == 2`:
    /// Mark a long-term reference base picture as unused.
    LongTermUnusedForRef { long_term_base_pic_num: u32 },
}

#[derive(Debug, Clone, Copy, PartialEq, Eq)]
pub enum PrefixNalUnitError {
    RbspError(BitReaderError),
    IoError(IoError),
    HeaderError(NalHeaderError),
    /// `memory_management_base_control_operation` had an invalid value.
    InvalidMemoryManagementBaseControlOperation(u32),
}

/// The values of a [`PrefixNalUnitRef`].
pub ghost struct PrefixNalUnitRefView {
    pub store_ref_base_pic_flag: bool,
    pub dec_ref_base_pic_marking: Option<Seq<DecRefBasePicMarkingOp>>,
    pub additional_prefix_nal_unit_extension_flag: bool,
}

impl View for PrefixNalUnitRef {
    type V = PrefixNalUnitRefView;

    open spec fn view(&self) -> PrefixNalUnitRefView {
        PrefixNalUnitRefView {
            store_ref_base_pic_flag: self.store_ref_base_pic_flag,
            dec_ref_base_pic_marking: match self.dec_ref_base_pic_marking {
                Some(m) => Some(m.operations@),
                None => None,
            },
            additional_prefix_nal_unit_extension_flag: self.additional_prefix_nal_unit_extension_flag,
        }
    }
}

/// The marking operations from `s` up to operation `0`.
pub open spec fn spec_base_marking_ops(s: BitStream) -> Result<(Seq<DecRefBasePicMarkingOp>, BitStream), PrefixNalUnitError>
    decreases s.len_bits() - s.pos,
{
    match spec_read_ue(s, "memory_management_base_control_operation") {
        Err(e) => Err(PrefixNalUnitError::RbspError(e)),
        Ok((op, s1)) => if op == 0 {
            Ok((Seq::empty(), s1))
        } else if op == 1 || op == 2 {
            match spec_read_ue(s1, if op == 1 { "difference_of_base_pic_nums_minus1" } else { "long_term_base_pic_num" }) {
                Err(e) => Err(PrefixNalUnitError::RbspError(e)),
                Ok((v, s2)) => {
                    let m = if op == 1 {
                        DecRefBasePicMarkingOp::ShortTermUnusedForRef { difference_of_base_pic_nums_minus1: v }
                    } else {
                        DecRefBasePicMarkingOp::LongTermUnusedForRef { long_term_base_pic_num: v }
                    };
                    match spec_base_marking_ops(s2) {
                        Err(e) => Err(e),
                        Ok((rest, s3)) => Ok((seq![m] + rest, s3)),
                    }
                },
            }
        } else {
            Err(PrefixNalUnitError::InvalidMemoryManagementBaseControlOperation(op))
        },
    }
}

/// `prefix_nal_unit_svc()` for a reference NAL.
pub open spec fn spec_prefix_ref(s: BitStream) -> Result<PrefixNalUnitRefView, PrefixNalUnitError> {
    match spec_read_bit(s, "store_ref_base_pic_flag") {
        Err(e) => Err(PrefixNalUnitError::RbspError(e)),
        Ok((store, s1)) => {
            let marking = if store {
                match spec_base_marking_ops(s1) {
                    Err(e) => Err(e),
                    Ok((ops, s2)) => Ok((Some(ops), s2)),
                }
            } else {
                Ok((None, s1))
            };
            match marking {
                Err(e) => Err(e),
                Ok((m, s2)) => match spec_read_bit(s2, "additional_prefix_nal_unit_extension_flag") {
                    Err(e) => Err(PrefixNalUnitError::RbspError(e)),
                    Ok((additional, _)) => Ok(PrefixNalUnitRefView {
                        store_ref_base_pic_flag: store,
                        dec_ref_base_pic_marking: m,
                        additional_prefix_nal_unit_extension_flag: additional,
                    }),
                },
            }
        },
    }
}

/// Read `dec_ref_base_pic_marking()` syntax (spec G.7.3.3.5).
fn read_dec_ref_base_pic_marking(r: &mut BitReader) -> (res: Result<DecRefBasePicMarking, PrefixNalUnitError>)
    ensures
        match spec_base_marking_ops(old(r)@) {
            Ok((ops, s2)) => res matches Ok(m) && m.operations@ == ops && final(r)@ == s2,
            Err(e) => res == Err::<DecRefBasePicMarking, PrefixNalUnitError>(e),
        },
{
    r.check_wf();
    let ghost start = r@;
    let mut operations: Vec<DecRefBasePicMarkingOp> = Vec::new();
    loop
        invariant
            start == old(r)@,
            r@.wf(),
            r@.data == start.data,
            r@.end == start.end,
            spec_base_marking_ops(start) == match spec_base_marking_ops(r@) {
                Ok((rest, s4)) => Ok((operations@ + rest, s4)),
                Err(e) => Err(e),
            },
        decreases r@.len_bits() - r@.pos,
    {
        let op = match r.read_ue("memory_management_base_control_operation") {
            Ok(v) => v,
            Err(e) => return Err(PrefixNalUnitError::RbspError(e)),
        };
        let m = if op == 0 {
            assert(operations@ + Seq::<DecRefBasePicMarkingOp>::empty() =~= operations@);
            return Ok(DecRefBasePicMarking { operations });
        } else if op == 1 {
            let difference_of_base_pic_nums_minus1 = match r.read_ue("difference_of_base_pic_nums_minus1") {
                Ok(v) => v,
                Err(e) => return Err(PrefixNalUnitError::RbspError(e)),
            };
            DecRefBasePicMarkingOp::ShortTermUnusedForRef { difference_of_base_pic_nums_minus1 }
        } else if op == 2 {
            let long_term_base_pic_num = match r.read_ue("long_term_base_pic_num") {
                Ok(v) => v,
                Err(e) => return Err(PrefixNalUnitError::RbspError(e)),
            };
            DecRefBasePicMarkingOp::LongTermUnusedForRef { long_term_base_pic_num }
        } else {
            return Err(PrefixNalUnitError::InvalidMemoryManagementBaseControlOperation(op));
        };
        r.check_wf();
        let ghost prev = operations@;
        operations.push(m);
        proof {
            match spec_base_marking_ops(r@) {
                Ok((rest, s4)) => {
                    assert(prev + (seq![m] + rest) =~= operations@ + rest);
                },
                Err(e) => {},
            }
        }
    }
}

/// The RBSP body of a prefix NAL unit, given its header and header extension.
pub open spec fn spec_prefix_body(header: NalHeader, ext: NalHeaderExtension, s: BitStream) -> Result<Option<PrefixNalUnitRefView>, PrefixNalUnitError> {
    match ext {
        NalHeaderExtension::Svc(_) => if header.spec_nal_ref_idc() != 0 {
            match spec_prefix_ref(s) {
                Err(e) => Err(e),
                Ok(v) => Ok(Some(v)),
            }
        } else {
            Ok(None)
        },
        NalHeaderExtension::Mvc(_) => Ok(None),
    }
}

impl PrefixNalUnit {
    /// Parses the RBSP body of a prefix NAL unit whose header and header extension have
    /// been read; `r` reads the body.
    pub fn from_parts(header: NalHeader, header_extension: NalHeaderExtension, r: BitReader) -> (res: Result<PrefixNalUnit, PrefixNalUnitError>)
        ensures
            match spec_prefix_body(header, header_extension, r@) {
                Ok(v) => res matches Ok(p) && p.header_extension == header_extension && match p.ref_base_pic {
                    Some(x) => v == Some(x@),
                    None => v is None,
                },
                Err(e) => res == Err::<PrefixNalUnit, PrefixNalUnitError>(e),
            },
    {
        let mut r = r;
        let ref_base_pic = match header_extension {
            NalHeaderExtension::Svc(_) => {
                // SVC prefix NAL: parse prefix_nal_unit_svc() per F.7.3.2.12.1
                if header.nal_ref_idc() != 0 {
                    let store_ref_base_pic_flag = match r.read_bit("store_ref_base_pic_flag") {
                        Ok(v) => v,
                        Err(e) => return Err(PrefixNalUnitError::RbspError(e)),
                    };
                    let dec_ref_base_pic_marking = if store_ref_base_pic_flag {
                        Some(read_dec_ref_base_pic_marking(&mut r)?)
                    } else {
                        None
                    };
                    let additional_prefix_nal_unit_extension_flag = match r.read_bit(
                        "additional_prefix_nal_unit_extension_flag",
                    ) {
                        Ok(v) => v,
                        Err(e) => return Err(PrefixNalUnitError::RbspError(e)),
                    };
                    Some(PrefixNalUnitRef {
                        store_ref_base_pic_flag,
                        dec_ref_base_pic_marking,
                        additional_prefix_nal_unit_extension_flag,
                    })
                } else {
                    None
                }
            },
            // MVC prefix NAL: RBSP body is empty per 7.3.2.12
            NalHeaderExtension::Mvc(_) => None,
        };
        Ok(PrefixNalUnit { header_extension, ref_base_pic })
    }

    /// Parses a prefix NAL unit from its raw NAL representation.
    ///
    /// The NAL must have `nal_unit_type == 14`. The 3-byte header extension is read first,
    /// then the RBSP body is parsed if applicable.
    pub fn from_nal(nal: &RefNal<'_>) -> (res: Result<PrefixNalUnit, PrefixNalUnitError>)
        ensures
            nal.bytes()[0] >= 128 ==> res == Err::<PrefixNalUnit, PrefixNalUnitError>(
                PrefixNalUnitError::HeaderError(NalHeaderError::ForbiddenZeroBit),
            ),
            nal.bytes()[0] < 128 && nal.bytes().len() < 4 ==> res == Err::<PrefixNalUnit, PrefixNalUnitError>(
                PrefixNalUnitError::IoError(IoError {
                    kind: if nal.spec_complete() { ErrorKind::UnexpectedEof } else { ErrorKind::WouldBlock },
                }),
            ),
            res matches Ok(p) ==> nal.bytes().len() >= 4 && header_extension_of(p.header_extension, nal.bytes().subrange(1, 4)),
            // The body is parsed from the bits that the NAL's reader yields: a prefix of the
            // RBSP of the bytes after the header extension, all of it for a complete NAL with
            // valid emulation prevention.
            nal.bytes()[0] < 128 && nal.bytes().len() >= 4
                ==> (exists|h: NalHeader, e: NalHeaderExtension, s: BitStream| {
                    &&& h.spec_value() == nal.bytes()[0]
                    &&& header_extension_of(e, nal.bytes().subrange(1, 4))
                    &&& rbsp_bits_of(s, unescape(nal.bytes().skip(4)), nal.spec_complete())
                    &&& match spec_prefix_body(h, e, s) {
                        Ok(v) => res matches Ok(p) && p.header_extension == e && match p.ref_base_pic {
                            Some(x) => v == Some(x@),
                            None => v is None,
                        },
                        Err(err) => res == Err::<PrefixNalUnit, PrefixNalUnitError>(err),
                    }
                }),
            // For a complete NAL with valid emulation prevention, the body is parsed from its
            // RBSP exactly.
            nal.bytes()[0] < 128 && nal.bytes().len() >= 4 && nal.spec_complete() && !unescape(nal.bytes().skip(4)).failed
                ==> (exists|h: NalHeader, e: NalHeaderExtension| {
                    &&& h.spec_value() == nal.bytes()[0]
                    &&& header_extension_of(e, nal.bytes().subrange(1, 4))
                    &&& match spec_prefix_body(h, e, BitStream { data: unescape(nal.bytes().skip(4)).out, end: ErrorKind::UnexpectedEof, pos: 0 }) {
                        Ok(v) => res matches Ok(p) && p.header_extension == e && match p.ref_base_pic {
                            Some(x) => v == Some(x@),
                            None => v is None,
                        },
                        Err(err) => res == Err::<PrefixNalUnit, PrefixNalUnitError>(err),
                    }
                }),
    {
        let header_res = nal.header();
        assert(nal.bytes()[0] == nal.head_view()[0]);
        let header = match header_res {
            Ok(h) => h,
            Err(e) => return Err(PrefixNalUnitError::HeaderError(e)),
        };
        let (header_extension, rbsp_reader) = match parse_nal_header_extension(nal) {
            Ok(v) => v,
            Err(e) => return Err(PrefixNalUnitError::IoError(e)),
        };
        let ghost bv = rbsp_reader@;
        let r = BitReader::from_byte_reader(rbsp_reader);
        proof {
            assert(bv.delivered() =~= Seq::<u8>::empty());
            assert(bv.delivered() + r@.data =~= r@.data);
            assert(body_after(bv.src, 0) =~= nal.bytes().skip(4));
            assert(bv.rbsp() == unescape(nal.bytes().skip(4)));
            assert(rbsp_bits_of(r@, unescape(nal.bytes().skip(4)), nal.spec_complete()));
            if nal.spec_complete() && !unescape(nal.bytes().skip(4)).failed {
                assert(r@.data == unescape(nal.bytes().skip(4)).out);
                assert(r@ == BitStream { data: unescape(nal.bytes().skip(4)).out, end: ErrorKind::UnexpectedEof, pos: 0 });
            }
        }
        PrefixNalUnit::from_parts(header, header_extension, r)
    }
}

} // verus!

//! Types for reading H.264 _Network Abstraction Layer_ units (NAL units).

use vstd::prelude::*;
use crate::rbsp::{
    body_after, is_prefix, unescape, BitReader, BitStream, ByteReader, ByteReaderView, ErrorKind, IoError,
    Unescaped,
};
use hex_slice::AsHex;
use vstd::string::StringExecFns;
use vstd::std_specs::convert::FromSpecImpl;

pub mod aud;
pub mod pps;
pub mod prefix;
pub mod sei;
pub mod slice;
pub mod sps;
pub mod sps_extension;
pub mod sps_roundtrip;
pub mod subset_sps;

verus! {

/// The `nal_unit_type` of a NAL unit.
#[derive(PartialEq, Eq, Structural, Hash, Debug, Copy, Clone)]
pub enum UnitType {
    /// The values `0` and `24`-`31` are unspecified in the H264 spec
    Unspecified(u8),
    SliceLayerWithoutPartitioningNonIdr,
    SliceDataPartitionALayer,
    SliceDataPartitionBLayer,
    SliceDataPartitionCLayer,
    SliceLayerWithoutPartitioningIdr,
    /// Supplemental enhancement information
    SEI,
    SeqParameterSet,
    PicParameterSet,
    AccessUnitDelimiter,
    EndOfSeq,
    EndOfStream,
    FillerData,
    SeqParameterSetExtension,
    PrefixNALUnit,
    SubsetSeqParameterSet,
    DepthParameterSet,
    SliceLayerWithoutPartitioningAux,
    SliceExtension,
    SliceExtensionViewComponent,
    /// The values `17`, `18`, `22` and `23` are reserved for future use by the H264 spec
    Reserved(u8),
}

/// The unit type for an identifier in `0..=31`.
pub open spec fn spec_unit_type(id: u8) -> UnitType {
    if id == 0 || (24 <= id && id <= 31) {
        UnitType::Unspecified(id)
    } else if id == 1 {
        UnitType::SliceLayerWithoutPartitioningNonIdr
    } else if id == 2 {
        UnitType::SliceDataPartitionALayer
    } else if id == 3 {
        UnitType::SliceDataPartitionBLayer
    } else if id == 4 {
        UnitType::SliceDataPartitionCLayer
    } else if id == 5 {
        UnitType::SliceLayerWithoutPartitioningIdr
    } else if id == 6 {
        UnitType::SEI
    } else if id == 7 {
        UnitType::SeqParameterSet
    } else if id == 8 {
        UnitType::PicParameterSet
    } else if id == 9 {
        UnitType::AccessUnitDelimiter
    } else if id == 10 {
        UnitType::EndOfSeq
    } else if id == 11 {
        UnitType::EndOfStream
    } else if id == 12 {
        UnitType::FillerData
    } else if id == 13 {
        UnitType::SeqParameterSetExtension
    } else if id == 14 {
        UnitType::PrefixNALUnit
    } else if id == 15 {
        UnitType::SubsetSeqParameterSet
    } else if id == 16 {
        UnitType::DepthParameterSet
    } else if id == 19 {
        UnitType::SliceLayerWithoutPartitioningAux
    } else if id == 20 {
        UnitType::SliceExtension
    } else if id == 21 {
        UnitType::SliceExtensionViewComponent
    } else {
        UnitType::Reserved(id)
    }
}

/// The identifier of a unit type.
pub open spec fn spec_unit_type_id(t: UnitType) -> u8 {
    match t {
        UnitType::Unspecified(v) => v,
        UnitType::SliceLayerWithoutPartitioningNonIdr => 1,
        UnitType::SliceDataPartitionALayer => 2,
        UnitType::SliceDataPartitionBLayer => 3,
        UnitType::SliceDataPartitionCLayer => 4,
        UnitType::SliceLayerWithoutPartitioningIdr => 5,
        UnitType::SEI => 6,
        UnitType::SeqParameterSet => 7,
        UnitType::PicParameterSet => 8,
        UnitType::AccessUnitDelimiter => 9,
        UnitType::EndOfSeq => 10,
        UnitType::EndOfStream => 11,
        UnitType::FillerData => 12,
        UnitType::SeqParameterSetExtension => 13,
        UnitType::PrefixNALUnit => 14,
        UnitType::SubsetSeqParameterSet => 15,
        UnitType::DepthParameterSet => 16,
        UnitType::SliceLayerWithoutPartitioningAux => 19,
        UnitType::SliceExtension => 20,
        UnitType::SliceExtensionViewComponent => 21,
        UnitType::Reserved(v) => v,
    }
}

#[derive(Debug, Clone, Copy, PartialEq, Eq)]
pub enum UnitTypeError {
    /// if the value was outside the range `0` - `31`.
    ValueOutOfRange(u8),
}

impl UnitType {
    pub fn for_id(id: u8) -> (r: Result<UnitType, UnitTypeError>)
        ensures
            id > 31 ==> r == Err::<UnitType, UnitTypeError>(UnitTypeError::ValueOutOfRange(id)),
            id <= 31 ==> r == Ok::<UnitType, UnitTypeError>(spec_unit_type(id)),
    {
        if id > 31 {
            Err(UnitTypeError::ValueOutOfRange(id))
        } else {
            let t = match id {
                0 => UnitType::Unspecified(0),
                1 => UnitType::SliceLayerWithoutPartitioningNonIdr,
                2 => UnitType::SliceDataPartitionALayer,
                3 => UnitType::SliceDataPartitionBLayer,
                4 => UnitType::SliceDataPartitionCLayer,
                5 => UnitType::SliceLayerWithoutPartitioningIdr,
                6 => UnitType::SEI,
                7 => UnitType::SeqParameterSet,
                8 => UnitType::PicParameterSet,
                9 => UnitType::AccessUnitDelimiter,
                10 => UnitType::EndOfSeq,
                11 => UnitType::EndOfStream,
                12 => UnitType::FillerData,
                13 => UnitType::SeqParameterSetExtension,
                14 => UnitType::PrefixNALUnit,
                15 => UnitType::SubsetSeqParameterSet,
                16 => UnitType::DepthParameterSet,
                17..=18 => UnitType::Reserved(id),
                19 => UnitType::SliceLayerWithoutPartitioningAux,
                20 => UnitType::SliceExtension,
                21 => UnitType::SliceExtensionViewComponent,
                22..=23 => UnitType::Reserved(id),
                _ => UnitType::Unspecified(id),
            };
            Ok(t)
        }
    }

    pub fn id(self) -> (r: u8)
        ensures
            r == spec_unit_type_id(self),
    {
        match self {
            UnitType::Unspecified(v) => v,
            UnitType::SliceLayerWithoutPartitioningNonIdr => 1,
            UnitType::SliceDataPartitionALayer => 2,
            UnitType::SliceDataPartitionBLayer => 3,
            UnitType::SliceDataPartitionCLayer => 4,
            UnitType::SliceLayerWithoutPartitioningIdr => 5,
            UnitType::SEI => 6,
            UnitType::SeqParameterSet => 7,
            UnitType::PicParameterSet => 8,
            UnitType::AccessUnitDelimiter => 9,
            UnitType::EndOfSeq => 10,
            UnitType::EndOfStream => 11,
            UnitType::FillerData => 12,
            UnitType::SeqParameterSetExtension => 13,
            UnitType::PrefixNALUnit => 14,
            UnitType::SubsetSeqParameterSet => 15,
            UnitType::DepthParameterSet => 16,
            UnitType::SliceLayerWithoutPartitioningAux => 19,
            UnitType::SliceExtension => 20,
            UnitType::SliceExtensionViewComponent => 21,
            UnitType::Reserved(v) => v,
        }
    }
}

/// Every identifier in `0..=31` survives the round trip through its unit type.
pub proof fn lemma_unit_type_id_roundtrip(id: u8)
    requires
        id <= 31,
    ensures
        spec_unit_type_id(spec_unit_type(id)) == id,
{
}

/// A unit type that some identifier in `0..=31` names: the identifier carried by
/// `Unspecified` and `Reserved` lies in their ranges.
pub open spec fn unit_type_well_formed(t: UnitType) -> bool {
    match t {
        UnitType::Unspecified(v) => v == 0 || (24 <= v && v <= 31),
        UnitType::Reserved(v) => v == 17 || v == 18 || v == 22 || v == 23,
        _ => true,
    }
}

/// Every well-formed unit type is recovered from its identifier.
pub proof fn lemma_unit_type_from_id_roundtrip(t: UnitType)
    requires
        unit_type_well_formed(t),
    ensures
        spec_unit_type_id(t) <= 31,
        spec_unit_type(spec_unit_type_id(t)) == t,
{
}

/// The one-byte NAL unit header.
#[derive(Copy, Clone, PartialEq, Eq, Structural, Debug)]
pub struct NalHeader(u8);

#[derive(Debug, Clone, Copy, PartialEq, Eq)]
pub enum NalHeaderError {
    /// The most significant bit of the header, called `forbidden_zero_bit`, was set to 1.
    ForbiddenZeroBit,
}

impl From<NalHeader> for u8 {
    fn from(v: NalHeader) -> (r: Self) {
        v.0
    }
}

impl FromSpecImpl<NalHeader> for u8 {
    open spec fn obeys_from_spec() -> bool {
        true
    }

    open spec fn from_spec(v: NalHeader) -> Self {
        v.spec_value()
    }
}

impl NalHeader {
    /// The raw header byte.
    pub closed spec fn spec_value(self) -> u8 {
        self.0
    }

    pub open spec fn spec_nal_ref_idc(self) -> u8 {
        (self.spec_value() / 32) % 4
    }

    pub open spec fn spec_nal_unit_type(self) -> UnitType {
        spec_unit_type(self.spec_value() % 32)
    }

    pub fn new(header_value: u8) -> (r: Result<NalHeader, NalHeaderError>)
        ensures
            header_value >= 128 ==> r == Err::<NalHeader, NalHeaderError>(NalHeaderError::ForbiddenZeroBit),
            header_value < 128 ==> (r matches Ok(h) && h.spec_value() == header_value),
    {
        assert(header_value & 0b1000_0000 != 0 <==> header_value >= 128) by (bit_vector);
        if header_value & 0b1000_0000 != 0 {
            Err(NalHeaderError::ForbiddenZeroBit)
        } else {
            Ok(NalHeader(header_value))
        }
    }

    pub fn nal_ref_idc(self) -> (r: u8)
        ensures
            r == self.spec_nal_ref_idc(),
    {
        let v = self.0;
        assert((v & 0b0110_0000) >> 5 == (v / 32) % 4) by (bit_vector);
        (v & 0b0110_0000) >> 5
    }

    pub fn nal_unit_type(self) -> (r: UnitType)
        ensures
            r == self.spec_nal_unit_type(),
    {
        let v = self.0;
        assert(v & 0b0001_1111 == v % 32) by (bit_vector);
        match UnitType::for_id(v & 0b0001_1111) {
            Ok(t) => t,
            Err(_) => UnitType::Unspecified(0),
        }
    }

    /// The raw header byte.
    pub fn value(self) -> (r: u8)
        ensures
            r == self.spec_value(),
    {
        self.0
    }
}

/// MVC NAL unit header extension (spec G.7.3.1.1): the three extension bytes.
///
/// ```text
/// Byte 0: svc_extension_flag(1) | non_idr_flag(1) | priority_id(6)
/// Byte 1: view_id[9:2]
/// Byte 2: view_id[1:0](2) | temporal_id(3) | anchor_pic_flag(1) | inter_view_flag(1) | reserved_one_bit(1)
/// ```
#[derive(Copy, Clone, PartialEq, Eq, Debug)]
pub struct NalHeaderMvcExtension(pub(crate) [u8; 3]);

impl NalHeaderMvcExtension {
    pub closed spec fn bytes(self) -> Seq<u8> {
        self.0@
    }

    pub fn non_idr_flag(&self) -> (r: bool)
        ensures
            r == ((self.bytes()[0] / 64) % 2 == 1),
    {
        let b = self.0[0];
        assert((b & 0x40 != 0) == ((b / 64) % 2 == 1)) by (bit_vector);
        b & 0x40 != 0
    }

    pub fn priority_id(&self) -> (r: u8)
        ensures
            r == self.bytes()[0] % 64,
    {
        let b = self.0[0];
        assert(b & 0x3F == b % 64) by (bit_vector);
        b & 0x3F
    }

    pub fn view_id(&self) -> (r: u16)
        ensures
            r == self.bytes()[1] * 4 + self.bytes()[2] / 64,
    {
        let b1 = self.0[1];
        let b2 = self.0[2];
        assert(((b1 as u16) << 2) | ((b2 as u16) >> 6) == (b1 as u16) * 4 + (b2 as u16) / 64) by (bit_vector);
        ((b1 as u16) << 2) | ((b2 as u16) >> 6)
    }

    pub fn temporal_id(&self) -> (r: u8)
        ensures
            r == (self.bytes()[2] / 8) % 8,
    {
        let b = self.0[2];
        assert((b >> 3) & 0x07 == (b / 8) % 8) by (bit_vector);
        (b >> 3) & 0x07
    }

    pub fn anchor_pic_flag(&self) -> (r: bool)
        ensures
            r == ((self.bytes()[2] / 4) % 2 == 1),
    {
        let b = self.0[2];
        assert((b & 0x04 != 0) == ((b / 4) % 2 == 1)) by (bit_vector);
        b & 0x04 != 0
    }

    pub fn inter_view_flag(&self) -> (r: bool)
        ensures
            r == ((self.bytes()[2] / 2) % 2 == 1),
    {
        let b = self.0[2];
        assert((b & 0x02 != 0) == ((b / 2) % 2 == 1)) by (bit_vector);
        b & 0x02 != 0
    }
}

/// SVC NAL unit header extension (spec F.7.3.1.1): the three extension bytes.
///
/// ```text
/// Byte 0: svc_extension_flag(1) | idr_flag(1) | priority_id(6)
/// Byte 1: no_inter_layer_pred_flag(1) | dependency_id(3) | quality_id(4)
/// Byte 2: temporal_id(3) | use_ref_base_pic_flag(1) | discardable_flag(1) | output_flag(1) | reserved_three_2bits(2)
/// ```
#[derive(Copy, Clone, PartialEq, Eq, Debug)]
pub struct NalHeaderSvcExtension(pub(crate) [u8; 3]);

impl NalHeaderSvcExtension {
    pub closed spec fn bytes(self) -> Seq<u8> {
        self.0@
    }

    pub fn idr_flag(&self) -> (r: bool)
        ensures
            r == ((self.bytes()[0] / 64) % 2 == 1),
    {
        let b = self.0[0];
        assert((b & 0x40 != 0) == ((b / 64) % 2 == 1)) by (bit_vector);
        b & 0x40 != 0
    }

    pub fn priority_id(&self) -> (r: u8)
        ensures
            r == self.bytes()[0] % 64,
    {
        let b = self.0[0];
        assert(b & 0x3F == b % 64) by (bit_vector);
        b & 0x3F
    }

    pub fn no_inter_layer_pred_flag(&self) -> (r: bool)
        ensures
            r == (self.bytes()[1] >= 128),
    {
        let b = self.0[1];
        assert((b & 0x80 != 0) == (b >= 128)) by (bit_vector);
        b & 0x80 != 0
    }

    pub fn dependency_id(&self) -> (r: u8)
        ensures
            r == (self.bytes()[1] / 16) % 8,
    {
        let b = self.0[1];
        assert((b >> 4) & 0x07 == (b / 16) % 8) by (bit_vector);
        (b >> 4) & 0x07
    }

    pub fn quality_id(&self) -> (r: u8)
        ensures
            r == self.bytes()[1] % 16,
    {
        let b = self.0[1];
        assert(b & 0x0F == b % 16) by (bit_vector);
        b & 0x0F
    }

    pub fn temporal_id(&self) -> (r: u8)
        ensures
            r == self.bytes()[2] / 32,
    {
        let b = self.0[2];
        assert((b >> 5) & 0x07 == b / 32) by (bit_vector);
        (b >> 5) & 0x07
    }

    pub fn use_ref_base_pic_flag(&self) -> (r: bool)
        ensures
            r == ((self.bytes()[2] / 16) % 2 == 1),
    {
        let b = self.0[2];
        assert((b & 0x10 != 0) == ((b / 16) % 2 == 1)) by (bit_vector);
        b & 0x10 != 0
    }

    pub fn discardable_flag(&self) -> (r: bool)
        ensures
            r == ((self.bytes()[2] / 8) % 2 == 1),
    {
        let b = self.0[2];
        assert((b & 0x08 != 0) == ((b / 8) % 2 == 1)) by (bit_vector);
        b & 0x08 != 0
    }

    pub fn output_flag(&self) -> (r: bool)
        ensures
            r == ((self.bytes()[2] / 4) % 2 == 1),
    {
        let b = self.0[2];
        assert((b & 0x04 != 0) == ((b / 4) % 2 == 1)) by (bit_vector);
        b & 0x04 != 0
    }
}

/// Extended NAL unit header data for `nal_unit_type` 14 and 20 (spec 7.3.1).
///
/// The first bit of the 3-byte extension is `svc_extension_flag`:
/// `1` selects the SVC extension and `0` the MVC extension.
#[derive(Copy, Clone, Debug, PartialEq, Eq)]
pub enum NalHeaderExtension {
    Mvc(NalHeaderMvcExtension),
    Svc(NalHeaderSvcExtension),
}

impl NalHeaderExtension {
    /// Parse a 3-byte NAL header extension. The first bit is `svc_extension_flag`.
    pub fn from_bytes(bytes: [u8; 3]) -> (r: NalHeaderExtension)
        ensures
            bytes@[0] >= 128 ==> (r matches NalHeaderExtension::Svc(e) && e.bytes() == bytes@),
            bytes@[0] < 128 ==> (r matches NalHeaderExtension::Mvc(e) && e.bytes() == bytes@),
    {
        let b = bytes[0];
        assert((b & 0x80 != 0) == (b >= 128)) by (bit_vector);
        if b & 0x80 != 0 {
            NalHeaderExtension::Svc(NalHeaderSvcExtension(bytes))
        } else {
            NalHeaderExtension::Mvc(NalHeaderMvcExtension(bytes))
        }
    }
}


/// What a [`RefNalReader`] has left: the rest of the current chunk, the later chunks, and
/// whether the NAL is completely buffered.
pub ghost struct RefNalReaderView {
    pub cur: Seq<u8>,
    pub tail: Seq<Seq<u8>>,
    pub complete: bool,
}

impl RefNalReaderView {
    /// All bytes left to read.
    pub open spec fn rest(self) -> Seq<u8> {
        self.cur + self.tail.flatten()
    }

    /// The current chunk is empty only at the end, and every later chunk is non-empty.
    pub open spec fn wf(self) -> bool {
        &&& (self.cur.len() == 0 ==> self.tail.len() == 0)
        &&& forall|j: int| 0 <= j < self.tail.len() ==> (#[trigger] self.tail[j]).len() > 0
    }

    /// The reader state after `amt` bytes of the current chunk are consumed.
    pub open spec fn consumed(self, amt: nat) -> RefNalReaderView {
        let c = self.cur.skip(amt as int);
        if c.len() == 0 && self.tail.len() > 0 {
            RefNalReaderView { cur: self.tail[0], tail: self.tail.drop_first(), complete: self.complete }
        } else {
            RefNalReaderView { cur: c, ..self }
        }
    }
}

/// The byte views of borrowed chunks.
pub open spec fn chunk_views<'a>(chunks: Seq<&'a [u8]>) -> Seq<Seq<u8>> {
    chunks.map_values(|c: &'a [u8]| c@)
}

/// A partially- or completely-buffered NAL backed by borrowed byte chunks.
///
/// Must have at least one byte (the header). Partially-buffered NALs are *prefixes*
/// of a complete NAL. They can always be parsed from the beginning.
#[derive(Clone, Copy)]
pub struct RefNal<'a> {
    header: u8,
    complete: bool,
    // Non-empty chunks.
    head: &'a [u8],
    tail: &'a [&'a [u8]],
}

impl<'a> RefNal<'a> {
    /// The first chunk.
    pub closed spec fn head_view(self) -> Seq<u8> {
        self.head@
    }

    /// The later chunks.
    pub closed spec fn tail_view(self) -> Seq<Seq<u8>> {
        chunk_views(self.tail@)
    }

    /// Whether the NAL is completely buffered.
    pub closed spec fn spec_complete(self) -> bool {
        self.complete
    }

    /// All buffered bytes of the NAL, header byte included.
    pub open spec fn bytes(self) -> Seq<u8> {
        self.head_view() + self.tail_view().flatten()
    }

    #[verifier::type_invariant]
    closed spec fn inv(self) -> bool {
        &&& self.head@.len() > 0
        &&& self.header == self.head@[0]
        &&& forall|j: int| 0 <= j < self.tail@.len() ==> (#[trigger] self.tail@[j])@.len() > 0
    }

    /// Makes a NAL from its first chunk and later chunks; each chunk must be non-empty.
    pub fn new(head: &'a [u8], tail: &'a [&'a [u8]], complete: bool) -> (r: RefNal<'a>)
        requires
            head@.len() > 0,
            forall|j: int| 0 <= j < tail@.len() ==> (#[trigger] tail@[j])@.len() > 0,
        ensures
            r.head_view() == head@,
            r.tail_view() == chunk_views(tail@),
            r.spec_complete() == complete,
    {
        RefNal { header: head[0], complete, head, tail }
    }
}

/// A reader through the bytes of a partially- or fully-buffered [`RefNal`].
///
/// Reports [`ErrorKind::WouldBlock`] on reaching the end of a partially-buffered NAL.
#[derive(Clone, Copy)]
pub struct RefNalReader<'a> {
    /// Empty only if at end.
    cur: &'a [u8],
    tail: &'a [&'a [u8]],
    complete: bool,
}

impl<'a> View for RefNalReader<'a> {
    type V = RefNalReaderView;

    closed spec fn view(&self) -> RefNalReaderView {
        RefNalReaderView { cur: self.cur@, tail: chunk_views(self.tail@), complete: self.complete }
    }
}

proof fn lemma_chunk_views_drop_first<'a>(chunks: Seq<&'a [u8]>)
    requires
        chunks.len() > 0,
    ensures
        chunk_views(chunks.drop_first()) == chunk_views(chunks).drop_first(),
        chunk_views(chunks)[0] == chunks[0]@,
{
    assert(chunk_views(chunks.drop_first()) =~= chunk_views(chunks).drop_first());
}

proof fn lemma_rest_consumed(v: RefNalReaderView, amt: nat)
    requires
        amt <= v.cur.len(),
        v.wf(),
    ensures
        v.consumed(amt).rest() == v.rest().skip(amt as int),
        v.consumed(amt).wf(),
        v.consumed(amt).complete == v.complete,
{
    let c = v.cur.skip(amt as int);
    assert(v.rest().skip(amt as int) =~= c + v.tail.flatten());
    if c.len() == 0 && v.tail.len() > 0 {
        assert(c + v.tail.flatten() =~= v.tail.flatten());
        assert(v.tail.flatten() == v.tail[0] + v.tail.drop_first().flatten());
    }
}

impl<'a> RefNalReader<'a> {
    #[verifier::type_invariant]
    pub(crate) open spec fn inv(self) -> bool {
        self@.wf()
    }

    fn next_chunk(cur_end: &'a [u8], tail: &'a [&'a [u8]], complete: bool) -> (r: RefNalReader<'a>)
        requires
            cur_end@.len() == 0,
            forall|j: int| 0 <= j < tail@.len() ==> (#[trigger] tail@[j])@.len() > 0,
        ensures
            r@ == (RefNalReaderView { cur: cur_end@, tail: chunk_views(tail@), complete }).consumed(0),
    {
        if tail.len() > 0 {
            let first = tail[0];
            let rest = vstd::slice::slice_subrange(tail, 1, tail.len());
            proof {
                assert(rest@ =~= tail@.drop_first());
                lemma_chunk_views_drop_first(tail@);
                assert(cur_end@.skip(0) =~= cur_end@);
            }
            RefNalReader { cur: first, tail: rest, complete }
        } else {
            assert(cur_end@.skip(0) =~= cur_end@);
            RefNalReader { cur: cur_end, tail, complete }
        }
    }

    /// The bytes of the current chunk, or [`ErrorKind::WouldBlock`] at the end of a
    /// partially-buffered NAL. At the end of a complete NAL the chunk is empty.
    pub fn fill_buf(&mut self) -> (r: Result<&'a [u8], IoError>)
        ensures
            *final(self) == *old(self),
            match r {
                Ok(b) => b@ == old(self)@.cur && (old(self)@.cur.len() > 0 || old(self)@.complete),
                Err(e) => e.kind == ErrorKind::WouldBlock && old(self)@.cur.len() == 0 && !old(self)@.complete,
            },
    {
        if self.cur.len() == 0 && !self.complete {
            return Err(IoError { kind: ErrorKind::WouldBlock });
        }
        Ok(self.cur)
    }

    /// Marks `amt` bytes of the current chunk as read.
    pub fn consume(&mut self, amt: usize)
        requires
            amt <= old(self)@.cur.len(),
        ensures
            final(self)@ == old(self)@.consumed(amt as nat),
            final(self)@.rest() == old(self)@.rest().skip(amt as int),
    {
        proof {
            use_type_invariant(&*self);
            lemma_rest_consumed(self@, amt as nat);
        }
        let c = vstd::slice::slice_subrange(self.cur, amt, self.cur.len());
        assert(c@ =~= self@.cur.skip(amt as int));
        if c.len() == 0 {
            proof {
                assert forall|j: int| 0 <= j < self.tail@.len() implies (#[trigger] self.tail@[j])@.len() > 0 by {
                    assert(chunk_views(self.tail@)[j] == self.tail@[j]@);
                }
            }
            *self = RefNalReader::next_chunk(c, self.tail, self.complete);
            assert(c@.skip(0) =~= c@);
        } else {
            *self = RefNalReader { cur: c, tail: self.tail, complete: self.complete };
        }
    }

    /// Reads into `buf` at most one chunk's worth of bytes.
    pub fn read(&mut self, buf: &mut [u8]) -> (r: Result<usize, IoError>)
        ensures
            match r {
                Ok(n) => {
                    &&& n == (if old(buf)@.len() < old(self)@.cur.len() { old(buf)@.len() } else { old(self)@.cur.len() })
                    &&& final(buf)@ == old(self)@.cur.take(n as int) + old(buf)@.skip(n as int)
                    &&& final(self)@ == old(self)@.consumed(n as nat)
                    &&& final(self)@.rest() == old(self)@.rest().skip(n as int)
                    &&& (old(buf)@.len() > 0 ==> (old(self)@.cur.len() > 0 || old(self)@.complete))
                },
                Err(e) => {
                    &&& e.kind == ErrorKind::WouldBlock
                    &&& old(buf)@.len() > 0 && old(self)@.cur.len() == 0 && !old(self)@.complete
                    &&& final(buf)@ == old(buf)@
                    &&& *final(self) == *old(self)
                },
            },
    {
        if buf.len() == 0 {
            proof { use_type_invariant(&*self); lemma_rest_consumed(self@, 0); }
            assert(self@.cur.skip(0) =~= self@.cur);
            assert(buf@ =~= self@.cur.take(0) + buf@.skip(0));
            self.consume(0);
            return Ok(0);
        }
        if self.cur.len() == 0 && !self.complete {
            return Err(IoError { kind: ErrorKind::WouldBlock });
        }
        let n: usize = if buf.len() < self.cur.len() { buf.len() } else { self.cur.len() };
        let ghost b0 = buf@;
        let mut k: usize = 0;
        while k < n
            invariant
                n <= buf@.len(),
                n <= self@.cur.len(),
                k <= n,
                buf@.len() == b0.len(),
                forall|j: int| 0 <= j < k ==> buf@[j] == self@.cur[j],
                forall|j: int| k <= j < buf@.len() ==> buf@[j] == b0[j],
            decreases n - k,
        {
            buf[k] = self.cur[k];
            k = k + 1;
        }
        assert(buf@ =~= self@.cur.take(n as int) + b0.skip(n as int));
        self.consume(n);
        Ok(n)
    }

    /// Fills `buf` completely, or fails with [`ErrorKind::UnexpectedEof`] at the end of a
    /// complete NAL, or [`ErrorKind::WouldBlock`] at the end of a partial one, after
    /// consuming every byte left.
    pub fn read_exact(&mut self, buf: &mut [u8]) -> (r: Result<(), IoError>)
        ensures
            old(buf)@.len() <= old(self)@.rest().len() ==> {
                &&& r is Ok
                &&& final(buf)@ == old(self)@.rest().take(old(buf)@.len() as int)
                &&& final(self)@.rest() == old(self)@.rest().skip(old(buf)@.len() as int)
            },
            old(buf)@.len() > old(self)@.rest().len() ==> {
                &&& r == Err::<(), IoError>(IoError { kind: if old(self)@.complete { ErrorKind::UnexpectedEof } else { ErrorKind::WouldBlock } })
                &&& final(self)@.rest().len() == 0
            },
            final(self)@.complete == old(self)@.complete,
            final(buf)@.len() == old(buf)@.len(),
    {
        let ghost start = self@.rest();
        let mut k: usize = 0;
        while k < buf.len()
            invariant
                k <= buf@.len(),
                k <= start.len(),
                self@.rest() == start.skip(k as int),
                self@.complete == old(self)@.complete,
                start == old(self)@.rest(),
                buf@.len() == old(buf)@.len(),
                forall|j: int| 0 <= j < k ==> buf@[j] == start[j],
            decreases buf@.len() - k,
        {
            proof { use_type_invariant(&*self); }
            let c = match self.fill_buf() {
                Ok(c) => c,
                Err(e) => {
                    assert(self@.rest().len() == 0);
                    return Err(e);
                },
            };
            if c.len() == 0 {
                assert(self@.rest().len() == 0);
                return Err(IoError { kind: ErrorKind::UnexpectedEof });
            }
            let blen = buf.len();
            let want = blen - k;
            let n: usize = if want < c.len() { want } else { c.len() };
            let mut m: usize = 0;
            while m < n
                invariant
                    m <= n,
                    buf@.len() == blen,
                    n <= c@.len(),
                    k + n <= buf@.len(),
                    buf@.len() == old(buf)@.len(),
                    c@ == self@.cur,
                    self@.rest() == start.skip(k as int),
                    k <= start.len(),
                    forall|j: int| 0 <= j < k ==> buf@[j] == start[j],
                    forall|j: int| k <= j < k + m ==> buf@[j] == c@[j - k],
                decreases n - m,
            {
                buf[k + m] = c[m];
                m = m + 1;
            }
            proof {
                assert(self@.rest().len() >= self@.cur.len());
                assert forall|j: int| k <= j < k + n implies buf@[j] == start[j] by {
                    assert(start.skip(k as int)[j - k] == start[j]);
                    assert(self@.rest()[j - k] == self@.cur[j - k]);
                }
                assert(start.skip(k as int).skip(n as int) =~= start.skip(k + n));
            }
            self.consume(n);
            k = k + n;
        }
        assert(buf@ =~= start.take(buf@.len() as int));
        Ok(())
    }

    /// Appends every byte left to `buf`; at the end of a partially-buffered NAL this
    /// reports [`ErrorKind::WouldBlock`] after appending them.
    pub fn read_to_end(&mut self, buf: &mut Vec<u8>) -> (r: Result<usize, IoError>)
        ensures
            final(buf)@ == old(buf)@ + old(self)@.rest(),
            final(self)@.rest().len() == 0,
            old(self)@.complete ==> r == Ok::<usize, IoError>(old(self)@.rest().len() as usize),
            !old(self)@.complete ==> r == Err::<usize, IoError>(IoError { kind: ErrorKind::WouldBlock }),
    {
        let ghost start = self@.rest();
        let ghost b0 = buf@;
        let mut total: usize = 0;
        loop
            invariant
                self@.complete == old(self)@.complete,
                total <= start.len(),
                self@.rest() == start.skip(total as int),
                buf@ == b0 + start.take(total as int),
                start == old(self)@.rest(),
                b0 == old(buf)@,
            decreases self@.rest().len(),
        {
            proof { use_type_invariant(&*self); }
            let c = match self.fill_buf() {
                Ok(c) => c,
                Err(e) => {
                    assert(start.take(total as int) =~= start);
                    return Err(e);
                },
            };
            if c.len() == 0 {
                assert(start.take(total as int) =~= start);
                return Ok(total);
            }
            buf.extend_from_slice(c);
            proof {
                assert(start.take(total + c@.len()) =~= start.take(total as int) + c@) by {
                    assert forall|j: int| 0 <= j < c@.len() implies start[total + j] == c@[j] by {
                        assert(start.skip(total as int)[j] == start[total + j]);
                    }
                }
                assert(start.skip(total as int).skip(c@.len() as int) =~= start.skip(total + c@.len()));
            }
            let n = c.len();
            let _blen = buf.len();
            self.consume(n);
            total = total + n;
        }
    }
}


/// A partially- or completely-buffered encoded NAL.
///
/// Must have at least one byte (the header). Partially-encoded NALs are *prefixes*
/// of a complete NAL. They can always be parsed from the beginning.
pub trait Nal {
    /// Returns whether the NAL is completely buffered.
    fn is_complete(&self) -> bool;

    /// Returns the NAL header or error if corrupt.
    fn header(&self) -> Result<NalHeader, NalHeaderError>;

    /// Reads the bytes in NAL form (including the header byte and any
    /// emulation-prevention-three bytes). If the NAL is incomplete, reads may fail with
    /// [`ErrorKind::WouldBlock`].
    fn reader(&self) -> RefNalReader<'_>;

    /// Reads the bytes in RBSP form (skipping the header byte and
    /// emulation-prevention-three bytes).
    fn rbsp_bytes(&self) -> ByteReader<'_>;

    /// Reads bits within the RBSP form.
    fn rbsp_bits(&self) -> BitReader;
}

/// Whether `ext` is the extension that three header-extension bytes encode.
pub open spec fn header_extension_of(ext: NalHeaderExtension, bytes: Seq<u8>) -> bool {
    if bytes[0] >= 128 {
        ext matches NalHeaderExtension::Svc(e) && e.bytes() == bytes
    } else {
        ext matches NalHeaderExtension::Mvc(e) && e.bytes() == bytes
    }
}

impl<'a> RefNal<'a> {
    /// The RBSP of the buffered bytes: the NAL body after the header byte, with
    /// emulation prevention removed.
    pub open spec fn rbsp(self) -> Unescaped {
        unescape(body_after(self.bytes(), 1))
    }
}

/// The bits a reader over RBSP holds after reading `bytes` to its end: every byte it handed
/// out, and how the input ended.
pub open spec fn rbsp_bits_of(s: BitStream, rbsp: Unescaped, complete: bool) -> bool {
    &&& s.pos == 0
    &&& is_prefix(s.data, rbsp.out)
    &&& (s.end == ErrorKind::UnexpectedEof) == (complete && !rbsp.failed)
    &&& s.end == ErrorKind::UnexpectedEof ==> s.data == rbsp.out
    &&& s.end == ErrorKind::InvalidData ==> rbsp.failed
    &&& s.end == ErrorKind::WouldBlock ==> !complete
}

impl<'a> Nal for RefNal<'a> {
    fn is_complete(&self) -> (b: bool)
        ensures
            b == self.spec_complete(),
    {
        self.complete
    }

    fn header(&self) -> (r: Result<NalHeader, NalHeaderError>)
        ensures
            self.head_view().len() > 0,
            self.head_view()[0] >= 128 ==> r == Err::<NalHeader, NalHeaderError>(NalHeaderError::ForbiddenZeroBit),
            self.head_view()[0] < 128 ==> (r matches Ok(h) && h.spec_value() == self.head_view()[0]),
    {
        proof { use_type_invariant(self); }
        NalHeader::new(self.header)
    }

    fn reader(&self) -> (r: RefNalReader<'_>)
        ensures
            r@ == (RefNalReaderView { cur: self.head_view(), tail: self.tail_view(), complete: self.spec_complete() }),
            r@.rest() == self.bytes(),
    {
        proof { use_type_invariant(self); }
        RefNalReader { cur: self.head, tail: self.tail, complete: self.complete }
    }

    fn rbsp_bytes(&self) -> (r: ByteReader<'_>)
        ensures
            r.wf(),
            r@ == (ByteReaderView { src: self.bytes(), skip: 1, pos: 0, pending: 0, complete: self.spec_complete() }),
            r@.rbsp() == self.rbsp(),
    {
        ByteReader::skipping_h264_header(self.reader())
    }

    fn rbsp_bits(&self) -> (r: BitReader)
        ensures
            rbsp_bits_of(r@, self.rbsp(), self.spec_complete()),
    {
        let bytes = self.rbsp_bytes();
        let ghost start = bytes@;
        let r = BitReader::from_byte_reader(bytes);
        proof {
            assert(start.delivered() =~= Seq::<u8>::empty());
            assert(start.delivered() + r@.data =~= r@.data);
        }
        r
    }
}

/// Reads the 3-byte header extension of a NAL with an extended header (types 14 and 20).
///
/// Returns the parsed extension and a [`ByteReader`] positioned after the 4-byte extended
/// header (1-byte NAL header and 3-byte extension), ready for RBSP processing of the NAL
/// body. The extension bytes are not subject to emulation prevention.
pub fn parse_nal_header_extension<'a>(nal: &'a RefNal<'a>) -> (r: Result<(NalHeaderExtension, ByteReader<'a>), IoError>)
    ensures
        nal.bytes().len() >= 4 ==> (r matches Ok((ext, br)) && {
            &&& header_extension_of(ext, nal.bytes().subrange(1, 4))
            &&& br.wf()
            &&& br@ == (ByteReaderView { src: nal.bytes().skip(4), skip: 0, pos: 0, pending: 0, complete: nal.spec_complete() })
        }),
        nal.bytes().len() < 4 ==> r == Err::<(NalHeaderExtension, ByteReader<'a>), IoError>(IoError {
            kind: if nal.spec_complete() { ErrorKind::UnexpectedEof } else { ErrorKind::WouldBlock },
        }),
{
    let mut reader = nal.reader();
    let mut buf: Vec<u8> = vec![0u8, 0u8, 0u8, 0u8];
    match reader.read_exact(buf.as_mut_slice()) {
        Ok(()) => {},
        Err(e) => {
            return Err(e);
        },
    }
    let arr: [u8; 3] = [buf[1], buf[2], buf[3]];
    proof {
        assert(arr@ =~= nal.bytes().subrange(1, 4));
    }
    let ext = NalHeaderExtension::from_bytes(arr);
    let br = ByteReader::without_skip(reader);
    Ok((ext, br))
}

/// Reads the RBSP bytes of a NAL with an extended header (types 14 and 20), skipping the
/// full 4-byte extended header.
pub fn extended_rbsp_bytes<'a>(nal: &'a RefNal<'a>) -> (r: ByteReader<'a>)
    ensures
        r.wf(),
        r@ == (ByteReaderView { src: nal.bytes(), skip: 4, pos: 0, pending: 0, complete: nal.spec_complete() }),
        r@.delivered() == Seq::<u8>::empty(),
        r@.rbsp() == crate::rbsp::unescape(crate::rbsp::body_after(nal.bytes(), 4)),
{
    ByteReader::skipping_bytes(nal.reader(), 4)
}

/// Reading the RBSP bytes of a NAL with an extended header to the end, as
/// [`ByteReader::read_to_end`] does when it succeeds, yields the bytes after the 4-byte
/// extended header with emulation prevention removed; the NAL itself is only borrowed, so a
/// fresh reader still yields all of its bytes.
pub proof fn lemma_extended_rbsp_read_to_end(nal: RefNal, start: ByteReaderView, end: ByteReaderView)
    requires
        start == (ByteReaderView { src: nal.bytes(), skip: 4, pos: 0, pending: 0, complete: nal.spec_complete() }),
        end.src == start.src,
        end.skip == start.skip,
        end.delivered() == start.rbsp().out,
    ensures
        nal.bytes().len() >= 4 ==> end.delivered() == crate::rbsp::unescape(nal.bytes().skip(4)).out,
        nal.bytes().len() < 4 ==> end.delivered() == Seq::<u8>::empty(),
{
    if nal.bytes().len() < 4 {
        assert(crate::rbsp::unescape(Seq::<u8>::empty()).out =~= Seq::<u8>::empty()) by {
            reveal_with_fuel(crate::rbsp::unescape_from, 2);
        }
    }
}


/// A lower-case hexadecimal digit.
pub open spec fn hex_digit(n: int) -> char {
    if n < 10 { (48 + n) as char } else { (87 + n) as char }
}

/// A byte as two lower-case hexadecimal digits.
pub open spec fn hex_byte(b: u8) -> Seq<char> {
    seq![hex_digit((b / 16) as int), hex_digit((b % 16) as int)]
}

/// Bytes as two-digit lower-case hexadecimal numbers separated by single spaces.
pub open spec fn hex_spaced(bytes: Seq<u8>) -> Seq<char>
    decreases bytes.len(),
{
    if bytes.len() == 0 {
        Seq::empty()
    } else if bytes.len() == 1 {
        hex_byte(bytes[0])
    } else {
        hex_byte(bytes[0]) + seq![' '] + hex_spaced(bytes.drop_first())
    }
}

/// Each chunk as hexadecimal text, each preceded by a space.
pub open spec fn hex_chunks(chunks: Seq<Seq<u8>>) -> Seq<char>
    decreases chunks.len(),
{
    if chunks.len() == 0 {
        Seq::empty()
    } else {
        hex_chunks(chunks.drop_last()) + seq![' '] + hex_spaced(chunks.last())
    }
}

/// The text that describes a reader: its bytes in hexadecimal, chunk by chunk, followed by
/// ` ...` when the NAL is only partially buffered.
pub open spec fn reader_text(v: RefNalReaderView) -> Seq<char> {
    hex_spaced(v.cur) + hex_chunks(v.tail) + if v.complete { Seq::empty() } else { seq![' ', '.', '.', '.'] }
}

/// Formats bytes as two-digit lower-case hexadecimal numbers separated by spaces.
///
/// Calls `hex_slice::AsHex::plain_hex` with spaces and formats it with `{:02x}`: each byte
/// is written with the `{:02x}` format, with a single space between bytes, which is what the
/// contract claims.
#[verifier::external_body]
fn plain_hex(bytes: &[u8]) -> (s: String)
    ensures
        s@ == hex_spaced(bytes@),
{
    format!("{:02x}", bytes.plain_hex(true))
}

impl<'a> RefNalReader<'a> {
    /// Describes the bytes left, as hexadecimal text chunk by chunk, followed by ` ...` when
    /// the NAL is only partially buffered.
    pub fn debug_string(&self) -> (s: String)
        ensures
            s@ == reader_text(self@),
    {
        let mut s = plain_hex(self.cur);
        let mut k: usize = 0;
        let space = " ";
        let dots = " ...";
        proof {
            reveal_strlit(" ");
            reveal_strlit(" ...");
            assert(self@.tail.take(0) =~= Seq::<Seq<u8>>::empty());
            assert(s@ + Seq::<char>::empty() =~= s@);
        }
        while k < self.tail.len()
            invariant
                k <= self.tail@.len(),
                space@ == seq![' '],
                s@ == hex_spaced(self@.cur) + hex_chunks(self@.tail.take(k as int)),
            decreases self.tail@.len() - k,
        {
            let h = plain_hex(self.tail[k]);
            s.append(space);
            s.append(h.as_str());
            proof {
                let t = self@.tail.take(k + 1);
                assert(t.drop_last() =~= self@.tail.take(k as int));
                assert(t.last() == self.tail@[k as int]@);
                assert(hex_spaced(self@.cur) + hex_chunks(self@.tail.take(k as int)) + seq![' '] + h@
                    =~= hex_spaced(self@.cur) + hex_chunks(t));
            }
            k = k + 1;
        }
        assert(self@.tail.take(self@.tail.len() as int) =~= self@.tail);
        if !self.complete {
            s.append(dots);
        } else {
            assert(s@ + Seq::<char>::empty() =~= s@);
        }
        s
    }
}

} // verus!

//! Supplemental enhancement information (SEI) messages.

use vstd::prelude::*;
use crate::rbsp::{rest_read, BitReaderError, ByteReader, ErrorKind};

pub mod buffering_period;
pub mod pic_timing;
pub mod recovery_point;
pub mod user_data_registered_itu_t_t35;
pub mod user_data_unregistered;

verus! {

/// The type of an SEI message (`payloadType`).
#[derive(Debug, Copy, Clone, PartialEq, Eq, Structural)]
pub enum HeaderType {
    BufferingPeriod,
    PicTiming,
    PanScanRect,
    FillerPayload,
    UserDataRegisteredItuTT35,
    UserDataUnregistered,
    RecoveryPoint,
    DecRefPicMarkingRepetition,
    SparePic,
    SceneInfo,
    SubSeqInfo,
    SubSeqLayerCharacteristics,
    SubSeqCharacteristics,
    FullFrameFreeze,
    FullFrameFreezeRelease,
    FullFrameSnapshot,
    ProgressiveRefinementSegmentStart,
    ProgressiveRefinementSegmentEnd,
    MotionConstrainedSliceGroupSet,
    FilmGrainCharacteristics,
    DeblockingFilterDisplayPreference,
    StereoVideoInfo,
    PostFilterHint,
    ToneMappingInfo,
    ScalabilityInfo,
    SubPicScalableLayer,
    NonRequiredLayerRep,
    PriorityLayerInfo,
    LayersNotPresent,
    LayerDependencyChange,
    ScalableNesting,
    BaseLayerTemporalHrd,
    QualityLayerIntegrityCheck,
    RedundantPicProperty,
    Tl0DepRepIndex,
    TlSwitchingPoint,
    ParallelDecodingInfo,
    MvcScalableNesting,
    ViewScalabilityInfo,
    MultiviewSceneInfo,
    MultiviewAcquisitionInfo,
    NonRequiredViewComponent,
    ViewDependencyChange,
    OperationPointsNotPresent,
    BaseViewTemporalHrd,
    FramePackingArrangement,
    MultiviewViewPosition,
    DisplayOrientation,
    MvcdScalableNesting,
    MvcdViewScalabilityInfo,
    DepthRepresentationInfo,
    ThreeDimensionalReferenceDisplaysInfo,
    DepthTiming,
    DepthSamplingInfo,
    ConstrainedDepthParameterSetIdentifier,
    GreenMetadata,
    MasteringDisplayColourVolume,
    ColourRemappingInfo,
    AlternativeTransferCharacteristics,
    AlternativeDepthInfo,
    ReservedSeiMessage(u32),
}

/// The SEI message type for a `payloadType` value.
/// The `payloadType` number of an SEI message type, from H.264 Annex D (D.1.1); a reserved
/// type keeps its number.
pub open spec fn sei_payload_type_number(t: HeaderType) -> u32 {
    match t {
        HeaderType::BufferingPeriod => 0,
        HeaderType::PicTiming => 1,
        HeaderType::PanScanRect => 2,
        HeaderType::FillerPayload => 3,
        HeaderType::UserDataRegisteredItuTT35 => 4,
        HeaderType::UserDataUnregistered => 5,
        HeaderType::RecoveryPoint => 6,
        HeaderType::DecRefPicMarkingRepetition => 7,
        HeaderType::SparePic => 8,
        HeaderType::SceneInfo => 9,
        HeaderType::SubSeqInfo => 10,
        HeaderType::SubSeqLayerCharacteristics => 11,
        HeaderType::SubSeqCharacteristics => 12,
        HeaderType::FullFrameFreeze => 13,
        HeaderType::FullFrameFreezeRelease => 14,
        HeaderType::FullFrameSnapshot => 15,
        HeaderType::ProgressiveRefinementSegmentStart => 16,
        HeaderType::ProgressiveRefinementSegmentEnd => 17,
        HeaderType::MotionConstrainedSliceGroupSet => 18,
        HeaderType::FilmGrainCharacteristics => 19,
        HeaderType::DeblockingFilterDisplayPreference => 20,
        HeaderType::StereoVideoInfo => 21,
        HeaderType::PostFilterHint => 22,
        HeaderType::ToneMappingInfo => 23,
        HeaderType::ScalabilityInfo => 24,
        HeaderType::SubPicScalableLayer => 25,
        HeaderType::NonRequiredLayerRep => 26,
        HeaderType::PriorityLayerInfo => 27,
        HeaderType::LayersNotPresent => 28,
        HeaderType::LayerDependencyChange => 29,
        HeaderType::ScalableNesting => 30,
        HeaderType::BaseLayerTemporalHrd => 31,
        HeaderType::QualityLayerIntegrityCheck => 32,
        HeaderType::RedundantPicProperty => 33,
        HeaderType::Tl0DepRepIndex => 34,
        HeaderType::TlSwitchingPoint => 35,
        HeaderType::ParallelDecodingInfo => 36,
        HeaderType::MvcScalableNesting => 37,
        HeaderType::ViewScalabilityInfo => 38,
        HeaderType::MultiviewSceneInfo => 39,
        HeaderType::MultiviewAcquisitionInfo => 40,
        HeaderType::NonRequiredViewComponent => 41,
        HeaderType::ViewDependencyChange => 42,
        HeaderType::OperationPointsNotPresent => 43,
        HeaderType::BaseViewTemporalHrd => 44,
        HeaderType::FramePackingArrangement => 45,
        HeaderType::MultiviewViewPosition => 46,
        HeaderType::DisplayOrientation => 47,
        HeaderType::MvcdScalableNesting => 48,
        HeaderType::MvcdViewScalabilityInfo => 49,
        HeaderType::DepthRepresentationInfo => 50,
        HeaderType::ThreeDimensionalReferenceDisplaysInfo => 51,
        HeaderType::DepthTiming => 52,
        HeaderType::DepthSamplingInfo => 53,
        HeaderType::ConstrainedDepthParameterSetIdentifier => 54,
        HeaderType::GreenMetadata => 56,
        HeaderType::MasteringDisplayColourVolume => 137,
        HeaderType::ColourRemappingInfo => 142,
        HeaderType::AlternativeTransferCharacteristics => 147,
        HeaderType::AlternativeDepthInfo => 188,
        HeaderType::ReservedSeiMessage(id) => id,
    }
}

/// Whether H.264 names the SEI message with `payloadType` number `id`: 0 to 54, 56, 137, 142,
/// 147 and 188.
pub open spec fn sei_payload_type_named(id: u32) -> bool {
    id <= 54 || id == 56 || id == 137 || id == 142 || id == 147 || id == 188
}

/// Reading a `payloadType` number gives back that number, as the type H.264 names for it, or as
/// a reserved type exactly when H.264 names none.
pub proof fn lemma_header_type_number(id: u32)
    ensures
        sei_payload_type_number(spec_header_type(id)) == id,
        spec_header_type(id) is ReservedSeiMessage <==> !sei_payload_type_named(id),
{
}

/// Every named SEI message type is read from its own `payloadType` number.
pub proof fn lemma_header_type_from_number(t: HeaderType)
    requires
        !(t is ReservedSeiMessage),
    ensures
        sei_payload_type_named(sei_payload_type_number(t)),
        spec_header_type(sei_payload_type_number(t)) == t,
{
}

pub open spec fn spec_header_type(id: u32) -> HeaderType {
    match id {
        0 => HeaderType::BufferingPeriod,
        1 => HeaderType::PicTiming,
        2 => HeaderType::PanScanRect,
        3 => HeaderType::FillerPayload,
        4 => HeaderType::UserDataRegisteredItuTT35,
        5 => HeaderType::UserDataUnregistered,
        6 => HeaderType::RecoveryPoint,
        7 => HeaderType::DecRefPicMarkingRepetition,
        8 => HeaderType::SparePic,
        9 => HeaderType::SceneInfo,
        10 => HeaderType::SubSeqInfo,
        11 => HeaderType::SubSeqLayerCharacteristics,
        12 => HeaderType::SubSeqCharacteristics,
        13 => HeaderType::FullFrameFreeze,
        14 => HeaderType::FullFrameFreezeRelease,
        15 => HeaderType::FullFrameSnapshot,
        16 => HeaderType::ProgressiveRefinementSegmentStart,
        17 => HeaderType::ProgressiveRefinementSegmentEnd,
        18 => HeaderType::MotionConstrainedSliceGroupSet,
        19 => HeaderType::FilmGrainCharacteristics,
        20 => HeaderType::DeblockingFilterDisplayPreference,
        21 => HeaderType::StereoVideoInfo,
        22 => HeaderType::PostFilterHint,
        23 => HeaderType::ToneMappingInfo,
        24 => HeaderType::ScalabilityInfo,
        25 => HeaderType::SubPicScalableLayer,
        26 => HeaderType::NonRequiredLayerRep,
        27 => HeaderType::PriorityLayerInfo,
        28 => HeaderType::LayersNotPresent,
        29 => HeaderType::LayerDependencyChange,
        30 => HeaderType::ScalableNesting,
        31 => HeaderType::BaseLayerTemporalHrd,
        32 => HeaderType::QualityLayerIntegrityCheck,
        33 => HeaderType::RedundantPicProperty,
        34 => HeaderType::Tl0DepRepIndex,
        35 => HeaderType::TlSwitchingPoint,
        36 => HeaderType::ParallelDecodingInfo,
        37 => HeaderType::MvcScalableNesting,
        38 => HeaderType::ViewScalabilityInfo,
        39 => HeaderType::MultiviewSceneInfo,
        40 => HeaderType::MultiviewAcquisitionInfo,
        41 => HeaderType::NonRequiredViewComponent,
        42 => HeaderType::ViewDependencyChange,
        43 => HeaderType::OperationPointsNotPresent,
        44 => HeaderType::BaseViewTemporalHrd,
        45 => HeaderType::FramePackingArrangement,
        46 => HeaderType::MultiviewViewPosition,
        47 => HeaderType::DisplayOrientation,
        48 => HeaderType::MvcdScalableNesting,
        49 => HeaderType::MvcdViewScalabilityInfo,
        50 => HeaderType::DepthRepresentationInfo,
        51 => HeaderType::ThreeDimensionalReferenceDisplaysInfo,
        52 => HeaderType::DepthTiming,
        53 => HeaderType::DepthSamplingInfo,
        54 => HeaderType::ConstrainedDepthParameterSetIdentifier,
        56 => HeaderType::GreenMetadata,
        137 => HeaderType::MasteringDisplayColourVolume,
        142 => HeaderType::ColourRemappingInfo,
        147 => HeaderType::AlternativeTransferCharacteristics,
        188 => HeaderType::AlternativeDepthInfo,
        _ => HeaderType::ReservedSeiMessage(id),
    }
}

impl HeaderType {
    /// The SEI message type for a `payloadType` value.
    pub fn from_id(id: u32) -> (r: HeaderType)
        ensures
            r == spec_header_type(id),
    {
        match id {
            0 => HeaderType::BufferingPeriod,
            1 => HeaderType::PicTiming,
            2 => HeaderType::PanScanRect,
            3 => HeaderType::FillerPayload,
            4 => HeaderType::UserDataRegisteredItuTT35,
            5 => HeaderType::UserDataUnregistered,
            6 => HeaderType::RecoveryPoint,
            7 => HeaderType::DecRefPicMarkingRepetition,
            8 => HeaderType::SparePic,
            9 => HeaderType::SceneInfo,
            10 => HeaderType::SubSeqInfo,
            11 => HeaderType::SubSeqLayerCharacteristics,
            12 => HeaderType::SubSeqCharacteristics,
            13 => HeaderType::FullFrameFreeze,
            14 => HeaderType::FullFrameFreezeRelease,
            15 => HeaderType::FullFrameSnapshot,
            16 => HeaderType::ProgressiveRefinementSegmentStart,
            17 => HeaderType::ProgressiveRefinementSegmentEnd,
            18 => HeaderType::MotionConstrainedSliceGroupSet,
            19 => HeaderType::FilmGrainCharacteristics,
            20 => HeaderType::DeblockingFilterDisplayPreference,
            21 => HeaderType::StereoVideoInfo,
            22 => HeaderType::PostFilterHint,
            23 => HeaderType::ToneMappingInfo,
            24 => HeaderType::ScalabilityInfo,
            25 => HeaderType::SubPicScalableLayer,
            26 => HeaderType::NonRequiredLayerRep,
            27 => HeaderType::PriorityLayerInfo,
            28 => HeaderType::LayersNotPresent,
            29 => HeaderType::LayerDependencyChange,
            30 => HeaderType::ScalableNesting,
            31 => HeaderType::BaseLayerTemporalHrd,
            32 => HeaderType::QualityLayerIntegrityCheck,
            33 => HeaderType::RedundantPicProperty,
            34 => HeaderType::Tl0DepRepIndex,
            35 => HeaderType::TlSwitchingPoint,
            36 => HeaderType::ParallelDecodingInfo,
            37 => HeaderType::MvcScalableNesting,
            38 => HeaderType::ViewScalabilityInfo,
            39 => HeaderType::MultiviewSceneInfo,
            40 => HeaderType::MultiviewAcquisitionInfo,
            41 => HeaderType::NonRequiredViewComponent,
            42 => HeaderType::ViewDependencyChange,
            43 => HeaderType::OperationPointsNotPresent,
            44 => HeaderType::BaseViewTemporalHrd,
            45 => HeaderType::FramePackingArrangement,
            46 => HeaderType::MultiviewViewPosition,
            47 => HeaderType::DisplayOrientation,
            48 => HeaderType::MvcdScalableNesting,
            49 => HeaderType::MvcdViewScalabilityInfo,
            50 => HeaderType::DepthRepresentationInfo,
            51 => HeaderType::ThreeDimensionalReferenceDisplaysInfo,
            52 => HeaderType::DepthTiming,
            53 => HeaderType::DepthSamplingInfo,
            54 => HeaderType::ConstrainedDepthParameterSetIdentifier,
            56 => HeaderType::GreenMetadata,
            137 => HeaderType::MasteringDisplayColourVolume,
            142 => HeaderType::ColourRemappingInfo,
            147 => HeaderType::AlternativeTransferCharacteristics,
            188 => HeaderType::AlternativeDepthInfo,
            _ => HeaderType::ReservedSeiMessage(id),
        }
    }
}

/// Reading a `u32` in the `sei_message` format (a run of `0xFF` bytes, each adding 255,
/// ended by a byte below `0xFF` that is added too), starting at byte `pos` with `acc`
/// already summed: the value and the position after it.
pub open spec fn spec_sei_u32(data: Seq<u8>, end: ErrorKind, pos: int, acc: int, name: &'static str) -> Result<(u32, int), BitReaderError>
    decreases data.len() - pos,
{
    if pos < 0 || pos >= data.len() {
        Err(BitReaderError::ReaderError(name, end))
    } else {
        let acc2 = acc + data[pos];
        if acc2 > u32::MAX {
            Err(BitReaderError::ReaderError(name, ErrorKind::InvalidData))
        } else if data[pos] != 0xFF {
            Ok((acc2 as u32, pos + 1))
        } else {
            spec_sei_u32(data, end, pos + 1, acc2, name)
        }
    }
}

/// A value as `sei_message()` writes `payloadType` or `payloadSize` (7.3.2.3.1): one `0xFF`
/// byte for each full 255, then the rest in one byte.
pub open spec fn sei_value_bytes(v: nat) -> Seq<u8> {
    Seq::new(v / 255, |i: int| 0xFFu8) + seq![(v % 255) as u8]
}

proof fn lemma_sei_u32_run(data: Seq<u8>, end: ErrorKind, pos: int, acc: int, k: nat, last: u8, name: &'static str)
    requires
        0 <= pos,
        0 <= acc,
        pos + k + 1 <= data.len(),
        forall|i: int| pos <= i < pos + k ==> #[trigger] data[i] == 0xFFu8,
        data[pos + k] == last,
        last < 0xFF,
        acc + 255 * k + last <= u32::MAX,
    ensures
        spec_sei_u32(data, end, pos, acc, name) == Ok::<(u32, int), BitReaderError>(((acc + 255 * k + last) as u32, pos + k + 1)),
    decreases k,
{
    if k > 0 {
        lemma_sei_u32_run(data, end, pos + 1, acc + 255, (k - 1) as nat, last, name);
    }
}

/// Reading a `payloadType` or `payloadSize` where a value up to `u32::MAX` was written as
/// `sei_message()` writes it gives back the value and ends right after its bytes.
pub proof fn lemma_sei_value_written(data: Seq<u8>, end: ErrorKind, pos: int, v: nat, name: &'static str)
    requires
        0 <= pos,
        v <= u32::MAX,
        pos + sei_value_bytes(v).len() <= data.len(),
        data.subrange(pos, pos + sei_value_bytes(v).len()) == sei_value_bytes(v),
    ensures
        spec_sei_u32(data, end, pos, 0, name) == Ok::<(u32, int), BitReaderError>((v as u32, pos + sei_value_bytes(v).len())),
{
    let bytes = sei_value_bytes(v);
    let k = v / 255;
    assert forall|i: int| pos <= i < pos + k implies #[trigger] data[i] == 0xFFu8 by {
        assert(data[i] == data.subrange(pos, pos + bytes.len())[i - pos]);
    }
    assert(data[pos + k] == data.subrange(pos, pos + bytes.len())[k as int]);
    assert(v == 255 * k + v % 255);
    lemma_sei_u32_run(data, end, pos, 0, k, (v % 255) as u8, name);
}

/// An SEI message written as `sei_message()` lays it out (7.3.2.3.1) is read as the message
/// type that its `payloadType` names,
/// with the payload bytes that follow its size, and the next message is read after them.
pub proof fn lemma_sei_message_written(v: SeiReaderView, payload_type: nat, payload_size: nat)
    requires
        !v.done,
        0 <= v.pos,
        payload_type <= u32::MAX,
        payload_size <= u32::MAX,
        ({
            let tb = sei_value_bytes(payload_type);
            let sb = sei_value_bytes(payload_size);
            &&& v.pos + tb.len() + sb.len() + payload_size <= v.data.len()
            &&& v.data.subrange(v.pos, v.pos + tb.len()) == tb
            &&& v.data.subrange(v.pos + tb.len(), v.pos + tb.len() + sb.len()) == sb
        }),
    ensures
        ({
            let start = v.pos + sei_value_bytes(payload_type).len() + sei_value_bytes(payload_size).len();
            &&& spec_sei_next(v).0 == Ok::<Option<(HeaderType, int, int)>, BitReaderError>(Some((spec_header_type(payload_type as u32), start, start + payload_size)))
            &&& spec_sei_next(v).1.pos == start + payload_size
            &&& !spec_sei_next(v).1.done
        }),
{
    let tb = sei_value_bytes(payload_type);
    lemma_sei_value_written(v.data, v.end, v.pos, payload_type, "payload_type");
    lemma_sei_value_written(v.data, v.end, v.pos + tb.len(), payload_size, "payload_len");
}

/// A message in an SEI NAL.
#[derive(PartialEq, Eq, Debug)]
pub struct SeiMessage<'a> {
    pub payload_type: HeaderType,
    pub payload: &'a [u8],
}

/// Where an [`SeiReader`] stands: the RBSP bytes, how the input ends after them, the
/// position of the next message, the number of messages read, and whether reading stopped.
pub ghost struct SeiReaderView {
    pub data: Seq<u8>,
    pub end: ErrorKind,
    pub pos: int,
    pub payloads_seen: nat,
    pub done: bool,
}

/// The outcome of reading the next message: the result (with the message's type and the
/// bounds of its payload) and the reader state after it.
pub open spec fn spec_sei_next(v: SeiReaderView) -> (Result<Option<(HeaderType, int, int)>, BitReaderError>, SeiReaderView) {
    let stopped = SeiReaderView { done: true, ..v };
    if v.done {
        (Ok(None), v)
    } else {
        match spec_sei_u32(v.data, v.end, v.pos, 0, "payload_type") {
            Err(e) => (Err(e), stopped),
            Ok((payload_type, p1)) => if payload_type == 0x80 && v.payloads_seen > 0 && p1 >= v.data.len()
                && v.end == ErrorKind::UnexpectedEof {
                // rbsp_trailing_bits at the end of the NAL.
                (Ok(None), stopped)
            } else if payload_type == 0x80 && v.payloads_seen > 0 && p1 >= v.data.len() {
                (Err(BitReaderError::ReaderError("payload_type", v.end)), stopped)
            } else {
                match spec_sei_u32(v.data, v.end, p1, 0, "payload_len") {
                    Err(e) => (Err(e), stopped),
                    Ok((len, p2)) => if p2 + len > v.data.len() {
                        (Err(BitReaderError::ReaderError("payload", v.end)), stopped)
                    } else {
                        (
                            Ok(Some((spec_header_type(payload_type), p2, p2 + len))),
                            SeiReaderView { pos: p2 + len, payloads_seen: v.payloads_seen + 1, done: false, ..v },
                        )
                    },
                }
            },
        }
    }
}

/// Reader of messages in an SEI NAL.
pub struct SeiReader<'a> {
    data: &'a [u8],
    end: ErrorKind,
    pos: usize,
    payloads_seen: usize,
    done: bool,
}

impl<'a> View for SeiReader<'a> {
    type V = SeiReaderView;

    closed spec fn view(&self) -> SeiReaderView {
        SeiReaderView {
            data: self.data@,
            end: self.end,
            pos: self.pos as int,
            payloads_seen: self.payloads_seen as nat,
            done: self.done,
        }
    }
}

/// Reads a `u32` in the special `sei_message` format used for payload type and size.
fn read_u32(data: &[u8], end: ErrorKind, pos: usize, name: &'static str) -> (r: Result<(u32, usize), BitReaderError>)
    requires
        pos <= data@.len(),
    ensures
        match spec_sei_u32(data@, end, pos as int, 0, name) {
            Ok((v, p)) => r matches Ok((rv, rp)) && rv == v && rp == p && pos < p <= data@.len(),
            Err(e) => r == Err::<(u32, usize), BitReaderError>(e),
        },
        r matches Ok((_, q)) ==> q > pos,
{
    let mut acc: u32 = 0;
    let mut p: usize = pos;
    loop
        invariant
            pos <= p <= data@.len(),
            spec_sei_u32(data@, end, pos as int, 0, name) == spec_sei_u32(data@, end, p as int, acc as int, name),
        decreases data@.len() - p,
    {
        if p >= data.len() {
            return Err(BitReaderError::ReaderError(name, end));
        }
        let byte = data[p];
        if acc > u32::MAX - (byte as u32) {
            return Err(BitReaderError::ReaderError(name, ErrorKind::InvalidData));
        }
        acc = acc + byte as u32;
        p = p + 1;
        if byte != 0xFF {
            return Ok((acc, p));
        }
    }
}

impl<'a> SeiReader<'a> {
    #[verifier::type_invariant]
    closed spec fn inv(self) -> bool {
        self.payloads_seen <= self.pos <= self.data@.len()
    }

    /// Reads the rest of the given RBSP into `scratch` and reads messages from it.
    pub fn from_rbsp_bytes<'b>(reader: ByteReader<'b>, scratch: &'a mut Vec<u8>) -> (r: SeiReader<'a>)
        requires
            reader.wf(),
        ensures
            rest_read(r@.data, r@.end, reader@),
            r@.pos == 0,
            r@.payloads_seen == 0,
            !r@.done,
    {
        scratch.clear();
        let end = reader.read_rest(scratch);
        proof {
            assert(scratch@.skip(0) =~= scratch@);
        }
        let shared: &'a Vec<u8> = scratch;
        SeiReader { data: shared.as_slice(), end, pos: 0, payloads_seen: 0, done: false }
    }

    /// Returns the next message. Once this returns `None` or an error, it returns `None`.
    pub fn next(&mut self) -> (r: Result<Option<SeiMessage<'a>>, BitReaderError>)
        ensures
            ({
                let (res, v2) = spec_sei_next(old(self)@);
                &&& final(self)@ == v2
                &&& match res {
                    Ok(None) => r == Ok::<Option<SeiMessage<'a>>, BitReaderError>(None),
                    Ok(Some((t, a, b))) => r matches Ok(Some(m)) && m.payload_type == t && m.payload@ == old(self)@.data.subrange(a, b),
                    Err(e) => r == Err::<Option<SeiMessage<'a>>, BitReaderError>(e),
                }
            }),
    {
        if self.done {
            return Ok(None);
        }
        proof { use_type_invariant(&*self); }
        // Fused: once this returns `None` or an error, reading stops.
        self.done = true;
        let (payload_type, p1) = match read_u32(self.data, self.end, self.pos, "payload_type") {
            Ok(v) => v,
            Err(e) => return Err(e),
        };
        // If this is not the first payload, the byte just read may actually be a
        // rbsp_trailing_bits (which is always byte-aligned). Check for the end.
        if payload_type == 0x80 && self.payloads_seen > 0 && p1 >= self.data.len() {
            if let ErrorKind::UnexpectedEof = self.end {
                return Ok(None);
            }
            return Err(BitReaderError::ReaderError("payload_type", self.end));
        }
        let payload_type_h = HeaderType::from_id(payload_type);
        let (payload_len, p2) = match read_u32(self.data, self.end, p1, "payload_len") {
            Ok(v) => v,
            Err(e) => return Err(e),
        };
        if payload_len as usize > self.data.len() - p2 {
            return Err(BitReaderError::ReaderError("payload", self.end));
        }
        let stop = p2 + payload_len as usize;
        let payload = vstd::slice::slice_subrange(self.data, p2, stop);
        self.pos = stop;
        self.payloads_seen = self.payloads_seen + 1;
        self.done = false;
        Ok(Some(SeiMessage { payload_type: payload_type_h, payload }))
    }
}

} // verus!

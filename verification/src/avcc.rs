//! Support for handling _Advanced Video Coding Configuration_ data, used in the _ISO Base Media
//! File Format_ (AKA MP4), as specified in _ISO/IEC 14496-15_.

use vstd::prelude::*;
use crate::nal::pps::{spec_pic_parameter_set, PicParameterSet, PicParameterSetView, PpsError};
use crate::nal::sps::{spec_has_chroma_info, spec_level, spec_seq_parameter_set, ConstraintFlags, Level, ProfileIdc, SeqParameterSet, SeqParameterSetView, SpsError};
use crate::nal::{spec_unit_type, Nal, NalHeader, NalHeaderError, RefNal, UnitType};
use crate::rbsp::{body_after, unescape, BitStream, ErrorKind};
use crate::{put_slot, Context};

verus! {

#[derive(Debug, Clone, PartialEq, Eq)]
pub enum AvccError {
    NotEnoughData { expected: usize, actual: usize },
    /// The AvcDecoderConfigurationRecord used a version number other than `1`.
    UnsupportedConfigurationVersion(u8),
    ParamSet(ParamSetError),
    Sps(SpsError),
    Pps(PpsError),
}

#[derive(Debug, Clone, PartialEq, Eq)]
pub enum ParamSetError {
    NalHeader(NalHeaderError),
    IncorrectNalType { expected: UnitType, actual: UnitType },
    /// A _sequence parameter set_ found within the AVC decoder config was not consistent with the
    /// settings of the decoder config itself
    IncompatibleSps(SeqParameterSet),
}

/// The big-endian 16-bit value at `pos`.
pub open spec fn be16(data: Seq<u8>, pos: int) -> int {
    data[pos] * 256 + data[pos + 1]
}

/// Walks `count` entries, each a 16-bit big-endian length and that many bytes, from `pos`:
/// the position after them, or the length that the data would need to hold the next part.
pub open spec fn entries_end(data: Seq<u8>, pos: int, count: nat) -> Result<int, int>
    decreases count,
{
    if count == 0 {
        Ok(pos)
    } else if data.len() < pos + 2 {
        Err(pos + 2)
    } else if data.len() < pos + 2 + be16(data, pos) {
        Err(pos + 2 + be16(data, pos))
    } else {
        entries_end(data, pos + 2 + be16(data, pos), (count - 1) as nat)
    }
}

/// The layout of a configuration record: the offset of its extension fields, if present, or
/// why it is refused.
pub open spec fn spec_avcc_layout(data: Seq<u8>) -> Result<Option<int>, AvccError> {
    let not_enough = |e: int| AvccError::NotEnoughData { expected: e as usize, actual: data.len() as usize };
    if data.len() < 6 {
        Err(not_enough(6))
    } else if data[0] != 1 {
        Err(AvccError::UnsupportedConfigurationVersion(data[0]))
    } else {
        match entries_end(data, 6, (data[5] % 32) as nat) {
            Err(e) => Err(not_enough(e)),
            Ok(e1) => if data.len() < e1 + 1 {
                Err(not_enough(e1 + 1))
            } else {
                match entries_end(data, e1 + 1, data[e1] as nat) {
                    Err(e) => Err(not_enough(e)),
                    Ok(e2) => if spec_has_chroma_info(data[1]) && data.len() > e2 {
                        if data.len() < e2 + 4 {
                            Err(not_enough(e2 + 4))
                        } else {
                            match entries_end(data, e2 + 4, data[e2 + 3] as nat) {
                                Err(e) => Err(not_enough(e)),
                                Ok(_) => Ok(Some(e2)),
                            }
                        }
                    } else {
                        Ok(None)
                    },
                }
            }
        }
    }
}

proof fn lemma_entries_end_bound(data: Seq<u8>, pos: int, count: nat)
    requires
        0 <= pos,
        entries_end(data, pos, count) is Ok,
    ensures
        pos <= entries_end(data, pos, count)->Ok_0,
        count > 0 ==> entries_end(data, pos, count)->Ok_0 <= data.len(),
    decreases count,
{
    if count > 0 {
        lemma_entries_end_bound(data, pos + 2 + be16(data, pos), (count - 1) as nat);
    }
}

/// Whether none of the `count` entries from `pos` is empty.
fn entries_non_empty_from(data: &[u8], pos: usize, count: usize) -> (r: bool)
    requires
        pos <= data@.len(),
        data@.len() <= isize::MAX,
        entries_end(data@, pos as int, count as nat) is Ok,
    ensures
        r == entries_non_empty(data@, pos as int, count as nat),
{
    let mut len = pos;
    let mut num = count;
    while num > 0
        invariant
            pos <= len <= data@.len(),
            data@.len() <= isize::MAX,
            entries_end(data@, len as int, num as nat) is Ok,
            entries_non_empty(data@, pos as int, count as nat) == entries_non_empty(data@, len as int, num as nat),
        decreases num,
    {
        let entry_len = (data[len] as usize) * 256 + (data[len + 1] as usize);
        if entry_len == 0 {
            return false;
        }
        proof { lemma_entries_end_bound(data@, len + 2 + entry_len, (num - 1) as nat); }
        len = len + 2 + entry_len;
        num = num - 1;
    }
    true
}

/// Walks `count` entries from `pos` as [`entries_end`] does.
fn walk_entries(data: &[u8], pos: usize, count: usize) -> (r: Result<usize, AvccError>)
    requires
        pos <= data@.len(),
        data@.len() <= isize::MAX,
    ensures
        match entries_end(data@, pos as int, count as nat) {
            Ok(e) => r == Ok::<usize, AvccError>(e as usize) && pos <= e <= data@.len(),
            Err(e) => r == Err::<usize, AvccError>(AvccError::NotEnoughData { expected: e as usize, actual: data@.len() as usize }),
        },
{
    let mut len = pos;
    let mut num = count;
    while num > 0
        invariant
            pos <= len <= data@.len(),
            data@.len() <= isize::MAX,
            entries_end(data@, pos as int, count as nat) == entries_end(data@, len as int, num as nat),
        decreases num,
    {
        if data.len() - len < 2 {
            return Err(AvccError::NotEnoughData { expected: len + 2, actual: data.len() });
        }
        let entry_len = (data[len] as usize) * 256 + (data[len + 1] as usize);
        len = len + 2;
        if data.len() - len < entry_len {
            return Err(AvccError::NotEnoughData { expected: len + entry_len, actual: data.len() });
        }
        len = len + entry_len;
        num = num - 1;
    }
    Ok(len)
}

/// The next item of a parameter set list: the item and the list after it, or `None` at its end.
/// An item that fails leaves the list where it was.
pub open spec fn spec_param_set_next(buf: Seq<u8>, unit: UnitType) -> Option<(Result<Seq<u8>, ParamSetError>, Seq<u8>)> {
    if buf.len() == 0 {
        None
    } else {
        let len = be16(buf, 0);
        let data = buf.skip(2);
        let h = data[0];
        if h >= 128 {
            Some((Err(ParamSetError::NalHeader(NalHeaderError::ForbiddenZeroBit)), buf))
        } else if spec_unit_type(h % 32) != unit {
            Some((Err(ParamSetError::IncorrectNalType { expected: unit, actual: spec_unit_type(h % 32) }), buf))
        } else {
            Some((Ok(data.take(len)), data.skip(len)))
        }
    }
}

/// Reading the next item stays within the list: its length prefix, its header byte, and its
/// bytes are there.
pub open spec fn param_set_readable(buf: Seq<u8>) -> bool {
    buf.len() == 0 || (buf.len() >= 3 && be16(buf, 0) <= buf.len() - 2)
}

/// The first `count` items of a parameter set list.
pub open spec fn spec_param_sets(buf: Seq<u8>, unit: UnitType, count: nat) -> Seq<Result<Seq<u8>, ParamSetError>>
    decreases count,
{
    if count == 0 {
        Seq::empty()
    } else {
        match spec_param_set_next(buf, unit) {
            None => Seq::empty(),
            Some((item, rest)) => seq![item] + spec_param_sets(rest, unit, (count - 1) as nat),
        }
    }
}

/// Reading the first `count` items stays within the list.
pub open spec fn param_sets_readable(buf: Seq<u8>, unit: UnitType, count: nat) -> bool
    decreases count,
{
    count == 0 || (param_set_readable(buf) && match spec_param_set_next(buf, unit) {
        None => true,
        Some((_, rest)) => param_sets_readable(rest, unit, (count - 1) as nat),
    })
}

proof fn lemma_readable_when_stuck(buf: Seq<u8>, unit: UnitType, count: nat)
    requires
        param_set_readable(buf),
        buf.len() > 0,
        spec_param_set_next(buf, unit) matches Some((Err(_), rest)) && rest == buf,
    ensures
        param_sets_readable(buf, unit, count),
        forall|k: int| 0 <= k < spec_param_sets(buf, unit, count).len() ==> #[trigger] spec_param_sets(buf, unit, count)[k] is Err,
    decreases count,
{
    if count > 0 {
        lemma_readable_when_stuck(buf, unit, (count - 1) as nat);
        let item = spec_param_set_next(buf, unit)->Some_0.0;
        let rest_items = spec_param_sets(buf, unit, (count - 1) as nat);
        assert(spec_param_sets(buf, unit, count) == seq![item] + rest_items);
        assert forall|k: int| 0 <= k < spec_param_sets(buf, unit, count).len() implies #[trigger] spec_param_sets(buf, unit, count)[k] is Err by {
            if k > 0 {
                assert(spec_param_sets(buf, unit, count)[k] == rest_items[k - 1]);
            }
        }
    }
}

/// Whether none of `count` entries from `pos` is empty.
pub open spec fn entries_non_empty(data: Seq<u8>, pos: int, count: nat) -> bool
    decreases count,
{
    count == 0 || (be16(data, pos) > 0 && entries_non_empty(data, pos + 2 + be16(data, pos), (count - 1) as nat))
}

/// A list of entries that walks to its end can be read item by item when none of its entries
/// is empty or a byte follows it; and when none is empty, each item read holds its bytes.
proof fn lemma_entries_readable(data: Seq<u8>, pos: int, unit: UnitType, count: nat)
    requires
        0 <= pos <= data.len(),
        entries_end(data, pos, count) is Ok,
        entries_non_empty(data, pos, count) || entries_end(data, pos, count)->Ok_0 < data.len(),
    ensures
        param_sets_readable(data.skip(pos), unit, count),
        entries_non_empty(data, pos, count) ==> forall|k: int| 0 <= k < spec_param_sets(data.skip(pos), unit, count).len()
            ==> (#[trigger] spec_param_sets(data.skip(pos), unit, count)[k] matches Ok(d) ==> d.len() > 0),
    decreases count,
{
    if count > 0 {
        let buf = data.skip(pos);
        let len = be16(data, pos);
        lemma_entries_end_bound(data, pos + 2 + len, (count - 1) as nat);
        assert(be16(buf, 0) == len);
        assert(param_set_readable(buf));
        match spec_param_set_next(buf, unit) {
            Some((Err(_), rest)) => {
                lemma_readable_when_stuck(buf, unit, count);
            },
            Some((Ok(d), rest)) => {
                assert(rest =~= data.skip(pos + 2 + len));
                lemma_entries_readable(data, pos + 2 + len, unit, (count - 1) as nat);
                let rest_items = spec_param_sets(rest, unit, (count - 1) as nat);
                assert(spec_param_sets(buf, unit, count) == seq![Ok::<Seq<u8>, ParamSetError>(d)] + rest_items);
                if entries_non_empty(data, pos, count) {
                    assert forall|k: int| 0 <= k < spec_param_sets(buf, unit, count).len()
                        implies (#[trigger] spec_param_sets(buf, unit, count)[k] matches Ok(x) ==> x.len() > 0) by {
                        if k > 0 {
                            assert(spec_param_sets(buf, unit, count)[k] == rest_items[k - 1]);
                        }
                    }
                }
            },
            None => {},
        }
    }
}

/// Iterates over the length-prefixed parameter sets of one NAL unit type.
pub struct ParamSetIter<'buf>(&'buf [u8], UnitType);

impl<'buf> ParamSetIter<'buf> {
    /// The list left.
    pub closed spec fn rest(&self) -> Seq<u8> {
        self.0@
    }

    /// The NAL unit type of the items.
    pub closed spec fn unit(&self) -> UnitType {
        self.1
    }

    pub fn new(buf: &'buf [u8], unit_type: UnitType) -> (r: ParamSetIter<'buf>)
        ensures
            r.rest() == buf@,
            r.unit() == unit_type,
    {
        ParamSetIter(buf, unit_type)
    }

    /// The next parameter set.
    pub fn next(&mut self) -> (r: Option<Result<&'buf [u8], ParamSetError>>)
        requires
            param_set_readable(old(self).rest()),
        ensures
            final(self).unit() == old(self).unit(),
            match spec_param_set_next(old(self).rest(), old(self).unit()) {
                None => r is None && final(self).rest() == old(self).rest(),
                Some((item, rest)) => final(self).rest() == rest && match r {
                    Some(Ok(d)) => item == Ok::<Seq<u8>, ParamSetError>(d@),
                    Some(Err(e)) => item == Err::<Seq<u8>, ParamSetError>(e),
                    None => false,
                },
            },
    {
        if self.0.len() == 0 {
            return None;
        }
        let len = (self.0[0] as usize) * 256 + (self.0[1] as usize);
        let data = vstd::slice::slice_subrange(self.0, 2, self.0.len());
        match NalHeader::new(data[0]) {
            Ok(nal_header) => {
                if nal_header.nal_unit_type() == self.1 {
                    let d = vstd::slice::slice_subrange(data, 0, len);
                    let remainder = vstd::slice::slice_subrange(data, len, data.len());
                    self.0 = remainder;
                    Some(Ok(d))
                } else {
                    Some(Err(ParamSetError::IncorrectNalType { expected: self.1, actual: nal_header.nal_unit_type() }))
                }
            },
            Err(err) => Some(Err(ParamSetError::NalHeader(err))),
        }
    }
}

/// The first `count` parameter sets of the list in `buf`.
fn param_sets<'buf>(buf: &'buf [u8], unit_type: UnitType, count: usize) -> (v: Vec<Result<&'buf [u8], ParamSetError>>)
    requires
        param_sets_readable(buf@, unit_type, count as nat),
    ensures
        v@.len() == spec_param_sets(buf@, unit_type, count as nat).len(),
        forall|k: int| 0 <= k < v@.len() ==> match #[trigger] v@[k] {
            Ok(d) => spec_param_sets(buf@, unit_type, count as nat)[k] == Ok::<Seq<u8>, ParamSetError>(d@),
            Err(e) => spec_param_sets(buf@, unit_type, count as nat)[k] == Err::<Seq<u8>, ParamSetError>(e),
        },
{
    let ghost all = spec_param_sets(buf@, unit_type, count as nat);
    let mut it = ParamSetIter::new(buf, unit_type);
    let mut v: Vec<Result<&'buf [u8], ParamSetError>> = Vec::new();
    let mut k: usize = 0;
    while k < count
        invariant
            k <= count,
            it.unit() == unit_type,
            v@.len() == k,
            param_sets_readable(it.rest(), unit_type, (count - k) as nat),
            all == spec_param_sets(buf@, unit_type, count as nat),
            all.len() == k + spec_param_sets(it.rest(), unit_type, (count - k) as nat).len(),
            forall|j: int| 0 <= j < k ==> match #[trigger] v@[j] {
                Ok(d) => all[j] == Ok::<Seq<u8>, ParamSetError>(d@),
                Err(e) => all[j] == Err::<Seq<u8>, ParamSetError>(e),
            },
            forall|j: int| 0 <= j < spec_param_sets(it.rest(), unit_type, (count - k) as nat).len()
                ==> all[k + j] == #[trigger] spec_param_sets(it.rest(), unit_type, (count - k) as nat)[j],
        decreases count - k,
    {
        let ghost before = it.rest();
        match it.next() {
            None => {
                return v;
            },
            Some(item) => {
                proof {
                    let s_before = spec_param_sets(before, unit_type, (count - k) as nat);
                    let tail = spec_param_sets(it.rest(), unit_type, (count - k - 1) as nat);
                    assert(s_before =~= seq![spec_param_set_next(before, unit_type).unwrap().0] + tail);
                    assert(all[k + 0] == s_before[0]);
                    assert forall|j: int| 0 <= j < tail.len() implies all[k + 1 + j] == tail[j] by {
                        assert(all[k + (j + 1)] == s_before[j + 1]);
                    }
                }
                v.push(item);
                k = k + 1;
            },
        }
    }
    v
}

/// A parsed AVC decoder configuration record.
pub struct AvcDecoderConfigurationRecord<'buf> {
    data: &'buf [u8],
    /// Byte offset of extension fields (chroma_format, bit_depth, SPS ext) if present.
    extension_offset: Option<usize>,
}

impl<'buf> AvcDecoderConfigurationRecord<'buf> {
    /// The record's bytes.
    pub closed spec fn bytes(&self) -> Seq<u8> {
        self.data@
    }

    #[verifier::type_invariant]
    closed spec fn inv(self) -> bool {
        &&& self.data@.len() <= isize::MAX
        &&& spec_avcc_layout(self.data@) == Ok::<Option<int>, AvccError>(match self.extension_offset {
            Some(o) => Some(o as int),
            None => None,
        })
    }

    /// The end of the sequence parameter sets, where the picture parameter sets start.
    pub closed spec fn spec_sps_end(&self) -> int {
        match entries_end(self.data@, 6, (self.data@[5] % 32) as nat) {
            Ok(e) => e,
            Err(_) => 0,
        }
    }

    /// The offset of the extension fields, if present.
    pub closed spec fn spec_extension_offset(&self) -> Option<int> {
        match self.extension_offset {
            Some(o) => Some(o as int),
            None => None,
        }
    }

    /// Validates the layout of a configuration record.
    pub fn try_from(data: &'buf [u8]) -> (r: Result<AvcDecoderConfigurationRecord<'buf>, AvccError>)
        requires
            data@.len() <= isize::MAX,
        ensures
            match spec_avcc_layout(data@) {
                Ok(ext) => r matches Ok(a) && a.bytes() == data@ && a.spec_extension_offset() == ext,
                Err(e) => r == Err::<AvcDecoderConfigurationRecord<'buf>, AvccError>(e),
            },
    {
        // We must confirm we have enough bytes for all fixed fields before we do anything else.
        if data.len() < 6 {
            return Err(AvccError::NotEnoughData { expected: 6, actual: data.len() });
        }
        if data[0] != 1 {
            // The spec requires that decoders ignore streams where the version number is not 1,
            // indicating there was an incompatible change in the configuration format.
            return Err(AvccError::UnsupportedConfigurationVersion(data[0]));
        }
        // Ensure that the buffer is large enough for all the optional fields actually
        // indicated to be present, so that the accessors need no checks.
        let b5 = data[5];
        assert(b5 & 0b0001_1111 == b5 % 32) by (bit_vector);
        let num_sps = (b5 & 0b0001_1111) as usize;
        let mut len = walk_entries(data, 6, num_sps)?;
        if data.len() - len < 1 {
            return Err(AvccError::NotEnoughData { expected: len + 1, actual: data.len() });
        }
        let num_pps = data[len] as usize;
        len = walk_entries(data, len + 1, num_pps)?;
        // Per ISO/IEC 14496-15, profiles with chroma info have extension fields after the PPS
        // array: chroma_format, bit_depth_luma_minus8, bit_depth_chroma_minus8, and an optional
        // array of SPS extension NAL units.
        let profile = ProfileIdc::from(data[1]);
        let extension_offset = if profile.has_chroma_info() && data.len() > len {
            let ext_start = len;
            if data.len() - len < 4 {
                return Err(AvccError::NotEnoughData { expected: len + 4, actual: data.len() });
            }
            let num_sps_ext = data[len + 3] as usize;
            walk_entries(data, len + 4, num_sps_ext)?;
            Some(ext_start)
        } else {
            None
        };
        Ok(AvcDecoderConfigurationRecord { data, extension_offset })
    }

    pub fn configuration_version(&self) -> (r: u8)
        ensures
            r == self.bytes()[0],
    {
        proof { use_type_invariant(self); }
        self.data[0]
    }

    pub fn num_of_sequence_parameter_sets(&self) -> (r: usize)
        ensures
            r == self.bytes()[5] % 32,
    {
        proof { use_type_invariant(self); }
        let b = self.data[5];
        assert(b & 0b0001_1111 == b % 32) by (bit_vector);
        (b & 0b0001_1111) as usize
    }

    pub fn avc_profile_indication(&self) -> (r: ProfileIdc)
        ensures
            r.spec_value() == self.bytes()[1],
    {
        proof { use_type_invariant(self); }
        ProfileIdc::from(self.data[1])
    }

    pub fn profile_compatibility(&self) -> (r: ConstraintFlags)
        ensures
            r.spec_value() == self.bytes()[2],
    {
        proof { use_type_invariant(self); }
        ConstraintFlags::from(self.data[2])
    }

    pub fn avc_level_indication(&self) -> (r: Level)
        ensures
            r == spec_level(self.bytes()[2], self.bytes()[3]),
    {
        proof { use_type_invariant(self); }
        Level::from_constraint_flags_and_level_idc(self.profile_compatibility(), self.data[3])
    }

    /// Number of bytes used to specify the length of each NAL unit:
    /// 0 => 1 byte, 1 => 2 bytes, 2 => 3 bytes, 3 => 4 bytes
    pub fn length_size_minus_one(&self) -> (r: u8)
        ensures
            r == self.bytes()[4] % 4,
    {
        proof { use_type_invariant(self); }
        let b = self.data[4];
        assert(b & 0b0000_0011 == b % 4) by (bit_vector);
        b & 0b0000_0011
    }

    /// Returns the chroma format (0-3) from the extension fields, if present.
    pub fn chroma_format(&self) -> (r: Option<u8>)
        ensures
            match self.spec_extension_offset() {
                Some(o) => r == Some((self.bytes()[o] % 4) as u8),
                None => r is None,
            },
    {
        proof { use_type_invariant(self); }
        match self.extension_offset {
            Some(off) => {
                let b = self.data[off];
                assert(b & 0b0000_0011 == b % 4) by (bit_vector);
                Some(b & 0b0000_0011)
            },
            None => None,
        }
    }

    /// Returns bit_depth_luma_minus8 (0-7) from the extension fields, if present.
    pub fn bit_depth_luma_minus8(&self) -> (r: Option<u8>)
        ensures
            match self.spec_extension_offset() {
                Some(o) => r == Some((self.bytes()[o + 1] % 8) as u8),
                None => r is None,
            },
    {
        proof { use_type_invariant(self); }
        match self.extension_offset {
            Some(off) => {
                let b = self.data[off + 1];
                assert(b & 0b0000_0111 == b % 8) by (bit_vector);
                Some(b & 0b0000_0111)
            },
            None => None,
        }
    }

    /// Returns bit_depth_chroma_minus8 (0-7) from the extension fields, if present.
    pub fn bit_depth_chroma_minus8(&self) -> (r: Option<u8>)
        ensures
            match self.spec_extension_offset() {
                Some(o) => r == Some((self.bytes()[o + 2] % 8) as u8),
                None => r is None,
            },
    {
        proof { use_type_invariant(self); }
        match self.extension_offset {
            Some(off) => {
                let b = self.data[off + 2];
                assert(b & 0b0000_0111 == b % 8) by (bit_vector);
                Some(b & 0b0000_0111)
            },
            None => None,
        }
    }

    /// Whether no parameter set entry of the record is empty.
    pub open spec fn spec_entries_non_empty(&self) -> bool {
        &&& entries_non_empty(self.bytes(), 6, (self.bytes()[5] % 32) as nat)
        &&& entries_non_empty(self.bytes(), self.spec_sps_end() + 1, self.bytes()[self.spec_sps_end()] as nat)
        &&& self.spec_extension_offset() matches Some(o) ==> entries_non_empty(self.bytes(), o + 4, self.bytes()[o + 3] as nat)
    }

    /// The sequence parameter set list of a validated record can always be read, since the
    /// picture parameter set count follows it; the other lists can be read when none of their
    /// entries is empty, and then every item read holds its bytes.
    proof fn lemma_lists_readable(&self)
        requires
            spec_avcc_layout(self.bytes()) == Ok::<Option<int>, AvccError>(self.spec_extension_offset()),
        ensures
            self.bytes().len() >= 6,
            0 <= self.spec_sps_end() < self.bytes().len(),
            param_sets_readable(self.bytes().skip(6), UnitType::SeqParameterSet, (self.bytes()[5] % 32) as nat),
            self.spec_extension_offset() matches Some(o) ==> 0 <= o && o + 4 <= self.bytes().len(),
            self.spec_entries_non_empty() ==> {
                &&& param_sets_readable(self.bytes().skip(self.spec_sps_end() + 1), UnitType::PicParameterSet, self.bytes()[self.spec_sps_end()] as nat)
                &&& forall|k: int| 0 <= k < self.sps_items().len() ==> (#[trigger] self.sps_items()[k] matches Ok(d) ==> d.len() > 0)
                &&& forall|k: int| 0 <= k < self.pps_items().len() ==> (#[trigger] self.pps_items()[k] matches Ok(d) ==> d.len() > 0)
                &&& self.spec_extension_offset() matches Some(o) ==> param_sets_readable(self.bytes().skip(o + 4), UnitType::SeqParameterSetExtension, self.bytes()[o + 3] as nat)
            },
    {
        let data = self.bytes();
        let e1 = self.spec_sps_end();
        lemma_entries_end_bound(data, 6, (data[5] % 32) as nat);
        lemma_entries_readable(data, 6, UnitType::SeqParameterSet, (data[5] % 32) as nat);
        if self.spec_entries_non_empty() {
            lemma_entries_readable(data, e1 + 1, UnitType::PicParameterSet, data[e1] as nat);
        }
        if let Some(o) = self.spec_extension_offset() {
            lemma_entries_end_bound(data, e1 + 1, data[e1] as nat);
            if self.spec_entries_non_empty() {
                lemma_entries_readable(data, o + 4, UnitType::SeqParameterSetExtension, data[o + 3] as nat);
            }
        }
    }

    /// Whether no parameter set entry of the record is empty: then the picture parameter sets,
    /// the SPS extensions and the parser context can be read.
    pub fn entries_non_empty(&self) -> (r: bool)
        ensures
            r == self.spec_entries_non_empty(),
            r ==> {
                &&& param_sets_readable(self.bytes().skip(self.spec_sps_end() + 1), UnitType::PicParameterSet, self.bytes()[self.spec_sps_end()] as nat)
                &&& forall|k: int| 0 <= k < self.sps_items().len() ==> (#[trigger] self.sps_items()[k] matches Ok(d) ==> d.len() > 0)
                &&& forall|k: int| 0 <= k < self.pps_items().len() ==> (#[trigger] self.pps_items()[k] matches Ok(d) ==> d.len() > 0)
                &&& self.spec_extension_offset() matches Some(o) ==> param_sets_readable(self.bytes().skip(o + 4), UnitType::SeqParameterSetExtension, self.bytes()[o + 3] as nat)
            },
    {
        proof {
            use_type_invariant(self);
            self.lemma_lists_readable();
        }
        let b = self.data[5];
        assert(b & 0b0001_1111 == b % 32) by (bit_vector);
        let e1 = match walk_entries(self.data, 6, (b & 0b0001_1111) as usize) {
            Ok(o) => o,
            Err(_) => 0,
        };
        if !entries_non_empty_from(self.data, 6, (b & 0b0001_1111) as usize) {
            return false;
        }
        if !entries_non_empty_from(self.data, e1 + 1, self.data[e1] as usize) {
            return false;
        }
        match self.extension_offset {
            Some(o) => entries_non_empty_from(self.data, o + 4, self.data[o + 3] as usize),
            None => true,
        }
    }

    /// The sequence parameter sets, in order.
    pub fn sequence_parameter_sets(&self) -> (v: Vec<Result<&'buf [u8], ParamSetError>>)
        ensures
            ({
                let spec = spec_param_sets(self.bytes().skip(6), UnitType::SeqParameterSet, (self.bytes()[5] % 32) as nat);
                &&& v@.len() == spec.len()
                &&& forall|k: int| 0 <= k < v@.len() ==> match #[trigger] v@[k] {
                    Ok(d) => spec[k] == Ok::<Seq<u8>, ParamSetError>(d@),
                    Err(e) => spec[k] == Err::<Seq<u8>, ParamSetError>(e),
                }
            }),
    {
        proof {
            use_type_invariant(self);
            self.lemma_lists_readable();
        }
        let num = self.num_of_sequence_parameter_sets();
        let data = vstd::slice::slice_subrange(self.data, 6, self.data.len());
        assert(data@ =~= self.bytes().skip(6));
        param_sets(data, UnitType::SeqParameterSet, num)
    }

    /// The SPS extensions, in order; none when the extension fields are absent.
    pub fn sequence_parameter_set_extensions(&self) -> (v: Vec<Result<&'buf [u8], ParamSetError>>)
        requires
            self.spec_extension_offset() matches Some(o) ==> param_sets_readable(
                self.bytes().skip(o + 4),
                UnitType::SeqParameterSetExtension,
                self.bytes()[o + 3] as nat,
            ),
        ensures
            match self.spec_extension_offset() {
                Some(o) => {
                    let spec = spec_param_sets(self.bytes().skip(o + 4), UnitType::SeqParameterSetExtension, self.bytes()[o + 3] as nat);
                    &&& v@.len() == spec.len()
                    &&& forall|k: int| 0 <= k < v@.len() ==> match #[trigger] v@[k] {
                        Ok(d) => spec[k] == Ok::<Seq<u8>, ParamSetError>(d@),
                        Err(e) => spec[k] == Err::<Seq<u8>, ParamSetError>(e),
                    }
                },
                None => v@.len() == 0,
            },
    {
        proof {
            use_type_invariant(self);
            self.lemma_lists_readable();
        }
        match self.extension_offset {
            Some(off) => {
                let num = self.data[off + 3] as usize;
                let data = vstd::slice::slice_subrange(self.data, off + 4, self.data.len());
                assert(data@ =~= self.bytes().skip(off + 4));
                param_sets(data, UnitType::SeqParameterSetExtension, num)
            },
            None => Vec::new(),
        }
    }

    /// The picture parameter sets, in order.
    pub fn picture_parameter_sets(&self) -> (v: Vec<Result<&'buf [u8], ParamSetError>>)
        requires
            param_sets_readable(self.bytes().skip(self.spec_sps_end() + 1), UnitType::PicParameterSet, self.bytes()[self.spec_sps_end()] as nat),
        ensures
            ({
                let spec = spec_param_sets(self.bytes().skip(self.spec_sps_end() + 1), UnitType::PicParameterSet, self.bytes()[self.spec_sps_end()] as nat);
                &&& v@.len() == spec.len()
                &&& forall|k: int| 0 <= k < v@.len() ==> match #[trigger] v@[k] {
                    Ok(d) => spec[k] == Ok::<Seq<u8>, ParamSetError>(d@),
                    Err(e) => spec[k] == Err::<Seq<u8>, ParamSetError>(e),
                }
            }),
    {
        proof {
            use_type_invariant(self);
            self.lemma_lists_readable();
        }
        let b = self.data[5];
        assert(b & 0b0001_1111 == b % 32) by (bit_vector);
        let offset = match walk_entries(self.data, 6, (b & 0b0001_1111) as usize) {
            Ok(o) => o,
            Err(_) => 0,
        };
        let num = self.data[offset] as usize;
        let data = vstd::slice::slice_subrange(self.data, offset + 1, self.data.len());
        assert(data@ =~= self.bytes().skip(offset + 1));
        param_sets(data, UnitType::PicParameterSet, num)
    }

    /// Creates an H.264 parser context, using the settings encoded into this record: its
    /// sequence and picture parameter sets are inserted into the resulting context.
    ///
    /// The sequence parameter sets are parsed and put in list order, then the picture
    /// parameter sets, each read against the sequence parameter sets put; the first item that
    /// the list cannot give or that does not parse is the error.
    pub fn create_context(&self) -> (r: Result<Context, AvccError>)
        requires
            param_sets_readable(self.bytes().skip(self.spec_sps_end() + 1), UnitType::PicParameterSet, self.bytes()[self.spec_sps_end()] as nat),
            forall|k: int| 0 <= k < self.sps_items().len() ==> (#[trigger] self.sps_items()[k] matches Ok(d) ==> d.len() > 0),
            forall|k: int| 0 <= k < self.pps_items().len() ==> (#[trigger] self.pps_items()[k] matches Ok(d) ==> d.len() > 0),
        ensures
            context_built(self.sps_items(), self.pps_items(), r),
    {
        proof {
            use_type_invariant(self);
            self.lemma_lists_readable();
        }
        let mut ctx = Context::new();
        let mut spss = self.sequence_parameter_sets();
        let ghost sspec = self.sps_items();
        let ghost mut sdone: Seq<SeqParameterSet> = Seq::empty();
        proof {
            assert(sspec.skip(0) =~= sspec);
            assert forall|puts: Seq<SeqParameterSet>| sdone + puts =~= puts by {}
        }
        let mut k: usize = 0;
        while k < spss.len()
            invariant
                k <= spss@.len(),
                spss@.len() == sspec.len(),
                sspec == self.sps_items(),
                forall|j: int| 0 <= j < spss@.len() ==> match #[trigger] spss@[j] {
                    Ok(d) => sspec[j] == Ok::<Seq<u8>, ParamSetError>(d@),
                    Err(e) => sspec[j] == Err::<Seq<u8>, ParamSetError>(e),
                },
                forall|j: int| 0 <= j < sspec.len() ==> (#[trigger] sspec[j] matches Ok(d) ==> d.len() > 0),
                ctx.pps_slots() == Seq::<Option<PicParameterSet>>::empty(),
                forall|puts: Seq<SeqParameterSet>, res: Result<Seq<Option<SeqParameterSet>>, AvccError>| #[trigger] sps_built(ctx.sps_slots(), sspec.skip(k as int), puts, res)
                    ==> sps_built(Seq::empty(), sspec, sdone + puts, res),
            decreases spss@.len() - k,
        {
            let ghost before = ctx.sps_slots();
            let ghost rest = sspec.skip(k as int);
            proof {
                assert(rest[0] == sspec[k as int]);
                assert(rest.skip(1) =~= sspec.skip(k + 1));
            }
            let bytes: Option<&[u8]> = match &spss[k] {
                Ok(d) => Some(*d),
                Err(_) => None,
            };
            match bytes {
                Some(d) => {
                    proof { assert(sspec[k as int] == Ok::<Seq<u8>, ParamSetError>(d@)); }
                    let read = read_sps(d);
                    let sps = match read {
                        Ok(v) => v,
                        Err(e) => {
                            proof {
                                assert(sps_built(before, rest, Seq::empty(), Err(AvccError::Sps(e))));
                                assert(sps_built(Seq::empty(), sspec, sdone + Seq::empty(), Err(AvccError::Sps(e))));
                                lemma_context_built_sps_err(sspec, self.pps_items(), sdone + Seq::empty(), AvccError::Sps(e));
                            }
                            return Err(AvccError::Sps(e));
                        },
                    };
                    let ghost sv = sps;
                    ctx.put_seq_param_set(sps);
                    proof {
                        let old_done = sdone;
                        assert forall|puts: Seq<SeqParameterSet>, res: Result<Seq<Option<SeqParameterSet>>, AvccError>| #[trigger] sps_built(ctx.sps_slots(), sspec.skip(k + 1), puts, res)
                            implies sps_built(Seq::empty(), sspec, old_done.push(sv) + puts, res) by {
                            assert(rest.len() > 0 && rest[0] == Ok::<Seq<u8>, ParamSetError>(d@));
                            lemma_sps_built_put(before, rest, sv, puts, res);
                            assert(old_done + (seq![sv] + puts) =~= old_done.push(sv) + puts);
                        }
                        sdone = old_done.push(sv);
                    }
                },
                None => {
                    if let Err(e) = spss.remove(k) {
                        proof {
                            assert(sspec[k as int] == Err::<Seq<u8>, ParamSetError>(e));
                            assert(sps_built(before, rest, Seq::empty(), Err(AvccError::ParamSet(e))));
                            assert(sps_built(Seq::empty(), sspec, sdone + Seq::empty(), Err(AvccError::ParamSet(e))));
                            lemma_context_built_sps_err(sspec, self.pps_items(), sdone + Seq::empty(), AvccError::ParamSet(e));
                        }
                        return Err(AvccError::ParamSet(e));
                    }
                },
            }
            k = k + 1;
        }
        let ghost ss = ctx.sps_slots();
        proof {
            assert(sspec.skip(k as int) =~= Seq::<Result<Seq<u8>, ParamSetError>>::empty());
            assert(sps_built(ss, sspec.skip(k as int), Seq::empty(), Ok(ss)));
            assert(sps_built(Seq::empty(), sspec, sdone + Seq::empty(), Ok(ss)));
            assert(sdone + Seq::<SeqParameterSet>::empty() =~= sdone);
        }
        let mut ppss = self.picture_parameter_sets();
        let ghost pspec = self.pps_items();
        let ghost mut pdone: Seq<PicParameterSet> = Seq::empty();
        proof {
            assert(pspec.skip(0) =~= pspec);
            assert forall|puts: Seq<PicParameterSet>| pdone + puts =~= puts by {}
        }
        let mut k: usize = 0;
        while k < ppss.len()
            invariant
                k <= ppss@.len(),
                ppss@.len() == pspec.len(),
                pspec == self.pps_items(),
                sspec == self.sps_items(),
                sps_built(Seq::empty(), sspec, sdone, Ok(ss)),
                ctx.sps_slots() == ss,
                forall|j: int| 0 <= j < ppss@.len() ==> match #[trigger] ppss@[j] {
                    Ok(d) => pspec[j] == Ok::<Seq<u8>, ParamSetError>(d@),
                    Err(e) => pspec[j] == Err::<Seq<u8>, ParamSetError>(e),
                },
                forall|j: int| 0 <= j < pspec.len() ==> (#[trigger] pspec[j] matches Ok(d) ==> d.len() > 0),
                forall|puts: Seq<PicParameterSet>, res: Result<Seq<Option<PicParameterSet>>, AvccError>| #[trigger] pps_built(ss, ctx.pps_slots(), pspec.skip(k as int), puts, res)
                    ==> pps_built(ss, Seq::empty(), pspec, pdone + puts, res),
            decreases ppss@.len() - k,
        {
            let ghost before = ctx.pps_slots();
            let ghost rest = pspec.skip(k as int);
            proof {
                assert(rest[0] == pspec[k as int]);
                assert(rest.skip(1) =~= pspec.skip(k + 1));
            }
            let bytes: Option<&[u8]> = match &ppss[k] {
                Ok(d) => Some(*d),
                Err(_) => None,
            };
            match bytes {
                Some(d) => {
                    proof { assert(pspec[k as int] == Ok::<Seq<u8>, ParamSetError>(d@)); }
                    let read = read_pps(&ctx, d);
                    let pps = match read {
                        Ok(v) => v,
                        Err(e) => {
                            proof {
                                assert(pps_built(ss, before, rest, Seq::empty(), Err(AvccError::Pps(e))));
                                assert(pps_built(ss, Seq::empty(), pspec, pdone + Seq::empty(), Err(AvccError::Pps(e))));
                                lemma_context_built_pps(sspec, pspec, sdone, ss, pdone + Seq::empty(), Err(AvccError::Pps(e)));
                            }
                            return Err(AvccError::Pps(e));
                        },
                    };
                    let ghost pv = pps;
                    ctx.put_pic_param_set(pps);
                    proof {
                        let old_done = pdone;
                        assert forall|puts: Seq<PicParameterSet>, res: Result<Seq<Option<PicParameterSet>>, AvccError>| #[trigger] pps_built(ss, ctx.pps_slots(), pspec.skip(k + 1), puts, res)
                            implies pps_built(ss, Seq::empty(), pspec, old_done.push(pv) + puts, res) by {
                            assert(rest.len() > 0 && rest[0] == Ok::<Seq<u8>, ParamSetError>(d@));
                            lemma_pps_built_put(ss, before, rest, pv, puts, res);
                            assert(old_done + (seq![pv] + puts) =~= old_done.push(pv) + puts);
                        }
                        pdone = old_done.push(pv);
                    }
                },
                None => {
                    if let Err(e) = ppss.remove(k) {
                        proof {
                            assert(pspec[k as int] == Err::<Seq<u8>, ParamSetError>(e));
                            assert(pps_built(ss, before, rest, Seq::empty(), Err(AvccError::ParamSet(e))));
                            assert(pps_built(ss, Seq::empty(), pspec, pdone + Seq::empty(), Err(AvccError::ParamSet(e))));
                            lemma_context_built_pps(sspec, pspec, sdone, ss, pdone + Seq::empty(), Err(AvccError::ParamSet(e)));
                        }
                        return Err(AvccError::ParamSet(e));
                    }
                },
            }
            k = k + 1;
        }
        proof {
            assert(pspec.skip(k as int) =~= Seq::<Result<Seq<u8>, ParamSetError>>::empty());
            assert(pps_built(ss, ctx.pps_slots(), pspec.skip(k as int), Seq::empty(), Ok(ctx.pps_slots())));
            assert(pps_built(ss, Seq::empty(), pspec, pdone + Seq::empty(), Ok(ctx.pps_slots())));
            assert(pdone + Seq::<PicParameterSet>::empty() =~= pdone);
            lemma_context_built_pps(sspec, pspec, sdone, ss, pdone, Ok(ctx));
        }
        Ok(ctx)
    }

    /// The items of the sequence parameter set list.
    pub open spec fn sps_items(&self) -> Seq<Result<Seq<u8>, ParamSetError>> {
        spec_param_sets(self.bytes().skip(6), UnitType::SeqParameterSet, (self.bytes()[5] % 32) as nat)
    }

    /// The items of the picture parameter set list.
    pub open spec fn pps_items(&self) -> Seq<Result<Seq<u8>, ParamSetError>> {
        spec_param_sets(self.bytes().skip(self.spec_sps_end() + 1), UnitType::PicParameterSet, self.bytes()[self.spec_sps_end()] as nat)
    }
}

/// The RBSP bits of a parameter set NAL unit `d` (header byte first) whose emulation prevention
/// is valid.
pub open spec fn param_set_bits(d: Seq<u8>) -> BitStream {
    BitStream { data: unescape(body_after(d, 1)).out, end: ErrorKind::UnexpectedEof, pos: 0 }
}

/// The sequence parameter set that the NAL unit `d` holds, when its emulation prevention is
/// valid.
#[verifier::opaque]
pub open spec fn parsed_sps(d: Seq<u8>) -> Result<SeqParameterSetView, SpsError> {
    spec_seq_parameter_set(param_set_bits(d))
}

/// The picture parameter set that the NAL unit `d` holds, read against the sequence parameter
/// sets `sps_slots`, when its emulation prevention is valid.
#[verifier::opaque]
pub open spec fn parsed_pps(sps_slots: Seq<Option<SeqParameterSet>>, d: Seq<u8>) -> Result<PicParameterSetView, PpsError> {
    spec_pic_parameter_set(sps_slots, param_set_bits(d))
}

/// Whether the emulation prevention in the NAL unit `d` is valid.
pub open spec fn param_set_escapes_valid(d: Seq<u8>) -> bool {
    !unescape(body_after(d, 1)).failed
}

/// Building the sequence parameter sets of a context: starting from `slots`, each item of
/// `items` in turn is parsed and put under its id, the parameter sets put being `puts`, in
/// order; `res` is the slots after the last item, or the first failure, with the list's own
/// error or the parser's. An item whose emulation prevention is invalid is parsed from the
/// bytes before the invalid sequence; its outcome is left open beyond being a parser error or
/// some parameter set put under its id.
pub open spec fn sps_built(
    slots: Seq<Option<SeqParameterSet>>,
    items: Seq<Result<Seq<u8>, ParamSetError>>,
    puts: Seq<SeqParameterSet>,
    res: Result<Seq<Option<SeqParameterSet>>, AvccError>,
) -> bool
    decreases items.len(),
{
    if items.len() == 0 {
        puts.len() == 0 && res == Ok::<Seq<Option<SeqParameterSet>>, AvccError>(slots)
    } else {
        match items[0] {
            Err(e) => puts.len() == 0 && res == Err::<Seq<Option<SeqParameterSet>>, AvccError>(AvccError::ParamSet(e)),
            Ok(d) => {
                let put_then = puts.len() > 0 && sps_built(
                    put_slot(slots, puts[0].seq_parameter_set_id.spec_id() as int, puts[0]),
                    items.skip(1),
                    puts.skip(1),
                    res,
                );
                if param_set_escapes_valid(d) {
                    match parsed_sps(d) {
                        Err(e) => puts.len() == 0 && res == Err::<Seq<Option<SeqParameterSet>>, AvccError>(AvccError::Sps(e)),
                        Ok(v) => puts.len() > 0 && puts[0]@ == v && put_then,
                    }
                } else {
                    (puts.len() == 0 && res is Err && res->Err_0 is Sps) || put_then
                }
            },
        }
    }
}

/// Building the picture parameter sets of a context whose sequence parameter sets are
/// `sps_slots`, as [`sps_built`] does for sequence parameter sets.
pub open spec fn pps_built(
    sps_slots: Seq<Option<SeqParameterSet>>,
    slots: Seq<Option<PicParameterSet>>,
    items: Seq<Result<Seq<u8>, ParamSetError>>,
    puts: Seq<PicParameterSet>,
    res: Result<Seq<Option<PicParameterSet>>, AvccError>,
) -> bool
    decreases items.len(),
{
    if items.len() == 0 {
        puts.len() == 0 && res == Ok::<Seq<Option<PicParameterSet>>, AvccError>(slots)
    } else {
        match items[0] {
            Err(e) => puts.len() == 0 && res == Err::<Seq<Option<PicParameterSet>>, AvccError>(AvccError::ParamSet(e)),
            Ok(d) => {
                let put_then = puts.len() > 0 && pps_built(
                    sps_slots,
                    put_slot(slots, puts[0].pic_parameter_set_id.spec_id() as int, puts[0]),
                    items.skip(1),
                    puts.skip(1),
                    res,
                );
                if param_set_escapes_valid(d) {
                    match parsed_pps(sps_slots, d) {
                        Err(e) => puts.len() == 0 && res == Err::<Seq<Option<PicParameterSet>>, AvccError>(AvccError::Pps(e)),
                        Ok(v) => puts.len() > 0 && puts[0]@ == v && put_then,
                    }
                } else {
                    (puts.len() == 0 && res is Err && res->Err_0 is Pps) || put_then
                }
            },
        }
    }
}

/// The picture parameter set slots of a built context, or its error.
pub open spec fn context_pps_result(r: Result<Context, AvccError>) -> Result<Seq<Option<PicParameterSet>>, AvccError> {
    match r {
        Ok(c) => Ok(c.pps_slots()),
        Err(e) => Err(e),
    }
}

/// Building a context from the sequence parameter set items `sps_items` and then the picture
/// parameter set items `pps_items` gives `r`: the first failure, in reading order, or the
/// context whose slots hold the parameter sets put, each under its id, the last put winning.
pub open spec fn context_built(
    sps_items: Seq<Result<Seq<u8>, ParamSetError>>,
    pps_items: Seq<Result<Seq<u8>, ParamSetError>>,
    r: Result<Context, AvccError>,
) -> bool {
    exists|mid: Result<Seq<Option<SeqParameterSet>>, AvccError>, sputs: Seq<SeqParameterSet>, pputs: Seq<PicParameterSet>|
        #![trigger sps_built(Seq::empty(), sps_items, sputs, mid), context_after_sps(pps_items, mid, pputs, r)]
        sps_built(Seq::empty(), sps_items, sputs, mid) && context_after_sps(pps_items, mid, pputs, r)
}

/// The outcome `r` of building a context, once its sequence parameter sets gave `mid`, the
/// picture parameter sets put being `pputs`.
pub open spec fn context_after_sps(
    pps_items: Seq<Result<Seq<u8>, ParamSetError>>,
    mid: Result<Seq<Option<SeqParameterSet>>, AvccError>,
    pputs: Seq<PicParameterSet>,
    r: Result<Context, AvccError>,
) -> bool {
    match mid {
        Err(e) => r == Err::<Context, AvccError>(e),
        Ok(ss) => {
            &&& (r matches Ok(c) ==> c.sps_slots() == ss)
            &&& pps_built(ss, Seq::empty(), pps_items, pputs, context_pps_result(r))
        },
    }
}

proof fn lemma_context_built_sps_err(
    sps_items: Seq<Result<Seq<u8>, ParamSetError>>,
    pps_items: Seq<Result<Seq<u8>, ParamSetError>>,
    sputs: Seq<SeqParameterSet>,
    e: AvccError,
)
    requires
        sps_built(Seq::empty(), sps_items, sputs, Err(e)),
    ensures
        context_built(sps_items, pps_items, Err(e)),
{
    assert(context_after_sps(pps_items, Err(e), Seq::empty(), Err(e)));
}

proof fn lemma_context_built_pps(
    sps_items: Seq<Result<Seq<u8>, ParamSetError>>,
    pps_items: Seq<Result<Seq<u8>, ParamSetError>>,
    sputs: Seq<SeqParameterSet>,
    ss: Seq<Option<SeqParameterSet>>,
    pputs: Seq<PicParameterSet>,
    r: Result<Context, AvccError>,
)
    requires
        sps_built(Seq::empty(), sps_items, sputs, Ok(ss)),
        r matches Ok(c) ==> c.sps_slots() == ss,
        pps_built(ss, Seq::empty(), pps_items, pputs, context_pps_result(r)),
    ensures
        context_built(sps_items, pps_items, r),
{
    assert(context_after_sps(pps_items, Ok(ss), pputs, r));
}

proof fn lemma_sps_built_put(
    slots: Seq<Option<SeqParameterSet>>,
    items: Seq<Result<Seq<u8>, ParamSetError>>,
    s: SeqParameterSet,
    puts: Seq<SeqParameterSet>,
    res: Result<Seq<Option<SeqParameterSet>>, AvccError>,
)
    requires
        items.len() > 0,
        items[0] is Ok,
        param_set_escapes_valid(items[0]->Ok_0) ==> parsed_sps(items[0]->Ok_0) == Ok::<SeqParameterSetView, SpsError>(s@),
        sps_built(put_slot(slots, s.seq_parameter_set_id.spec_id() as int, s), items.skip(1), puts, res),
    ensures
        sps_built(slots, items, seq![s] + puts, res),
{
    let all = seq![s] + puts;
    assert(all[0] == s);
    assert(all.skip(1) =~= puts);
}

proof fn lemma_pps_built_put(
    sps_slots: Seq<Option<SeqParameterSet>>,
    slots: Seq<Option<PicParameterSet>>,
    items: Seq<Result<Seq<u8>, ParamSetError>>,
    p: PicParameterSet,
    puts: Seq<PicParameterSet>,
    res: Result<Seq<Option<PicParameterSet>>, AvccError>,
)
    requires
        items.len() > 0,
        items[0] is Ok,
        param_set_escapes_valid(items[0]->Ok_0) ==> parsed_pps(sps_slots, items[0]->Ok_0) == Ok::<PicParameterSetView, PpsError>(p@),
        pps_built(sps_slots, put_slot(slots, p.pic_parameter_set_id.spec_id() as int, p), items.skip(1), puts, res),
    ensures
        pps_built(sps_slots, slots, items, seq![p] + puts, res),
{
    let all = seq![p] + puts;
    assert(all[0] == p);
    assert(all.skip(1) =~= puts);
}

/// Parses the sequence parameter set NAL unit `bytes`.
fn read_sps(bytes: &[u8]) -> (r: Result<SeqParameterSet, SpsError>)
    requires
        bytes@.len() > 0,
    ensures
        param_set_escapes_valid(bytes@) ==> match r {
            Ok(s) => parsed_sps(bytes@) == Ok::<SeqParameterSetView, SpsError>(s@),
            Err(e) => parsed_sps(bytes@) == Err::<SeqParameterSetView, SpsError>(e),
        },
{
    let no_more: Vec<&[u8]> = Vec::new();
    let nal = RefNal::new(bytes, no_more.as_slice(), true);
    let bits = nal.rbsp_bits();
    proof {
        assert(nal.bytes() =~= bytes@);
        reveal(parsed_sps);
    }
    SeqParameterSet::from_bits(bits)
}

/// Parses the picture parameter set NAL unit `bytes` against the sequence parameter sets of
/// `ctx`.
fn read_pps(ctx: &Context, bytes: &[u8]) -> (r: Result<PicParameterSet, PpsError>)
    requires
        bytes@.len() > 0,
    ensures
        param_set_escapes_valid(bytes@) ==> match r {
            Ok(p) => parsed_pps(ctx.sps_slots(), bytes@) == Ok::<PicParameterSetView, PpsError>(p@),
            Err(e) => parsed_pps(ctx.sps_slots(), bytes@) == Err::<PicParameterSetView, PpsError>(e),
        },
{
    let no_more: Vec<&[u8]> = Vec::new();
    let nal = RefNal::new(bytes, no_more.as_slice(), true);
    let bits = nal.rbsp_bits();
    proof {
        assert(nal.bytes() =~= bytes@);
        reveal(parsed_pps);
    }
    PicParameterSet::from_bits(ctx, bits)
}

/// Why a sequence parameter set item stops the building of a context, if it does: the list's
/// own error, or the parser's.
pub open spec fn sps_item_failure(item: Result<Seq<u8>, ParamSetError>) -> Option<AvccError> {
    match item {
        Err(e) => Some(AvccError::ParamSet(e)),
        Ok(d) => match parsed_sps(d) {
            Err(e) => Some(AvccError::Sps(e)),
            Ok(_) => None,
        },
    }
}

/// Why a picture parameter set item, read against the sequence parameter sets `sps_slots`,
/// stops the building of a context, if it does.
pub open spec fn pps_item_failure(sps_slots: Seq<Option<SeqParameterSet>>, item: Result<Seq<u8>, ParamSetError>) -> Option<AvccError> {
    match item {
        Err(e) => Some(AvccError::ParamSet(e)),
        Ok(d) => match parsed_pps(sps_slots, d) {
            Err(e) => Some(AvccError::Pps(e)),
            Ok(_) => None,
        },
    }
}

/// Whether every item that holds bytes has valid emulation prevention.
pub open spec fn items_escapes_valid(items: Seq<Result<Seq<u8>, ParamSetError>>) -> bool {
    forall|k: int| 0 <= k < items.len() ==> (#[trigger] items[k] matches Ok(d) ==> param_set_escapes_valid(d))
}

/// Putting the sequence parameter sets of a list succeeds exactly when no item fails, and
/// then puts each item's parameter set, in order; otherwise it stops with the failure of the
/// first item that fails.
pub proof fn lemma_sps_built_first_failure(
    slots: Seq<Option<SeqParameterSet>>,
    items: Seq<Result<Seq<u8>, ParamSetError>>,
    puts: Seq<SeqParameterSet>,
    res: Result<Seq<Option<SeqParameterSet>>, AvccError>,
)
    requires
        sps_built(slots, items, puts, res),
        items_escapes_valid(items),
    ensures
        res is Ok <==> forall|k: int| 0 <= k < items.len() ==> #[trigger] sps_item_failure(items[k]) is None,
        res is Ok ==> puts.len() == items.len() && forall|k: int| 0 <= k < items.len()
            ==> (#[trigger] items[k] matches Ok(d) && parsed_sps(d) == Ok::<SeqParameterSetView, SpsError>(puts[k]@)),
        res matches Err(e) ==> exists|k: int| #![trigger items[k]] {
            &&& 0 <= k < items.len()
            &&& sps_item_failure(items[k]) == Some(e)
            &&& forall|j: int| 0 <= j < k ==> #[trigger] sps_item_failure(items[j]) is None
        },
    decreases items.len(),
{
    if items.len() > 0 {
        if let Ok(d) = items[0] {
            if parsed_sps(d) is Ok {
                let rest = items.skip(1);
                assert forall|k: int| 0 <= k < rest.len() implies (#[trigger] rest[k] matches Ok(x) ==> param_set_escapes_valid(x)) by {
                    assert(rest[k] == items[k + 1]);
                }
                lemma_sps_built_first_failure(
                    put_slot(slots, puts[0].seq_parameter_set_id.spec_id() as int, puts[0]),
                    rest,
                    puts.skip(1),
                    res,
                );
                assert forall|k: int| 1 <= k < items.len() implies items[k] == rest[k - 1] by {}
                if res is Ok {
                    assert forall|k: int| 0 <= k < items.len() implies #[trigger] sps_item_failure(items[k]) is None by {
                        if k > 0 {
                            assert(items[k] == rest[k - 1]);
                            assert(sps_item_failure(rest[k - 1]) is None);
                        }
                    }
                    assert forall|k: int| 0 <= k < items.len()
                        implies (#[trigger] items[k] matches Ok(x) && parsed_sps(x) == Ok::<SeqParameterSetView, SpsError>(puts[k]@)) by {
                        if k > 0 {
                            assert(items[k] == rest[k - 1]);
                            assert(puts.skip(1)[k - 1] == puts[k]);
                        }
                    }
                } else {
                    let e = res->Err_0;
                    let k1 = choose|k: int| #![trigger rest[k]] {
                        &&& 0 <= k < rest.len()
                        &&& sps_item_failure(rest[k]) == Some(e)
                        &&& forall|j: int| 0 <= j < k ==> #[trigger] sps_item_failure(rest[j]) is None
                    };
                    assert(items[k1 + 1] == rest[k1]);
                    assert forall|j: int| 0 <= j < k1 + 1 implies #[trigger] sps_item_failure(items[j]) is None by {
                        if j > 0 {
                            assert(items[j] == rest[j - 1]);
                            assert(sps_item_failure(rest[j - 1]) is None);
                        }
                    }
                    assert(!(sps_item_failure(items[k1 + 1]) is None));
                }
            } else {
                assert(!(sps_item_failure(items[0]) is None));
            }
        } else {
            assert(!(sps_item_failure(items[0]) is None));
        }
    }
}

/// Putting the picture parameter sets of a list, read against the sequence parameter sets
/// `sps_slots`, succeeds exactly when no item fails, and then puts each item's parameter set,
/// in order; otherwise it stops with the failure of the first item that fails.
pub proof fn lemma_pps_built_first_failure(
    sps_slots: Seq<Option<SeqParameterSet>>,
    slots: Seq<Option<PicParameterSet>>,
    items: Seq<Result<Seq<u8>, ParamSetError>>,
    puts: Seq<PicParameterSet>,
    res: Result<Seq<Option<PicParameterSet>>, AvccError>,
)
    requires
        pps_built(sps_slots, slots, items, puts, res),
        items_escapes_valid(items),
    ensures
        res is Ok <==> forall|k: int| 0 <= k < items.len() ==> #[trigger] pps_item_failure(sps_slots, items[k]) is None,
        res is Ok ==> puts.len() == items.len() && forall|k: int| 0 <= k < items.len()
            ==> (#[trigger] items[k] matches Ok(d) && parsed_pps(sps_slots, d) == Ok::<PicParameterSetView, PpsError>(puts[k]@)),
        res matches Err(e) ==> exists|k: int| #![trigger items[k]] {
            &&& 0 <= k < items.len()
            &&& pps_item_failure(sps_slots, items[k]) == Some(e)
            &&& forall|j: int| 0 <= j < k ==> #[trigger] pps_item_failure(sps_slots, items[j]) is None
        },
    decreases items.len(),
{
    if items.len() > 0 {
        if let Ok(d) = items[0] {
            if parsed_pps(sps_slots, d) is Ok {
                let rest = items.skip(1);
                assert forall|k: int| 0 <= k < rest.len() implies (#[trigger] rest[k] matches Ok(x) ==> param_set_escapes_valid(x)) by {
                    assert(rest[k] == items[k + 1]);
                }
                lemma_pps_built_first_failure(
                    sps_slots,
                    put_slot(slots, puts[0].pic_parameter_set_id.spec_id() as int, puts[0]),
                    rest,
                    puts.skip(1),
                    res,
                );
                assert forall|k: int| 1 <= k < items.len() implies items[k] == rest[k - 1] by {}
                if res is Ok {
                    assert forall|k: int| 0 <= k < items.len() implies #[trigger] pps_item_failure(sps_slots, items[k]) is None by {
                        if k > 0 {
                            assert(items[k] == rest[k - 1]);
                            assert(pps_item_failure(sps_slots, rest[k - 1]) is None);
                        }
                    }
                    assert forall|k: int| 0 <= k < items.len()
                        implies (#[trigger] items[k] matches Ok(x) && parsed_pps(sps_slots, x) == Ok::<PicParameterSetView, PpsError>(puts[k]@)) by {
                        if k > 0 {
                            assert(items[k] == rest[k - 1]);
                            assert(puts.skip(1)[k - 1] == puts[k]);
                        }
                    }
                } else {
                    let e = res->Err_0;
                    let k1 = choose|k: int| #![trigger rest[k]] {
                        &&& 0 <= k < rest.len()
                        &&& pps_item_failure(sps_slots, rest[k]) == Some(e)
                        &&& forall|j: int| 0 <= j < k ==> #[trigger] pps_item_failure(sps_slots, rest[j]) is None
                    };
                    assert(items[k1 + 1] == rest[k1]);
                    assert forall|j: int| 0 <= j < k1 + 1 implies #[trigger] pps_item_failure(sps_slots, items[j]) is None by {
                        if j > 0 {
                            assert(items[j] == rest[j - 1]);
                            assert(pps_item_failure(sps_slots, rest[j - 1]) is None);
                        }
                    }
                    assert(!(pps_item_failure(sps_slots, items[k1 + 1]) is None));
                }
            } else {
                assert(!(pps_item_failure(sps_slots, items[0]) is None));
            }
        } else {
            assert(!(pps_item_failure(sps_slots, items[0]) is None));
        }
    }
}

/// What building a context gives, when every parameter set has valid emulation prevention:
/// a context only when no sequence parameter set item fails and no picture parameter set item
/// fails against the context's sequence parameter sets; and when a sequence parameter set
/// item fails, the failure of the first one.
pub proof fn lemma_context_built_outcome(
    sps_items: Seq<Result<Seq<u8>, ParamSetError>>,
    pps_items: Seq<Result<Seq<u8>, ParamSetError>>,
    r: Result<Context, AvccError>,
)
    requires
        context_built(sps_items, pps_items, r),
        items_escapes_valid(sps_items),
        items_escapes_valid(pps_items),
    ensures
        r is Ok ==> forall|k: int| 0 <= k < sps_items.len() ==> #[trigger] sps_item_failure(sps_items[k]) is None,
        r matches Ok(c) ==> forall|k: int| 0 <= k < pps_items.len() ==> #[trigger] pps_item_failure(c.sps_slots(), pps_items[k]) is None,
        (exists|k: int| 0 <= k < sps_items.len() && #[trigger] sps_item_failure(sps_items[k]) is Some) ==> (r matches Err(e)
            && exists|k: int| #![trigger sps_items[k]] {
                &&& 0 <= k < sps_items.len()
                &&& sps_item_failure(sps_items[k]) == Some(e)
                &&& forall|j: int| 0 <= j < k ==> #[trigger] sps_item_failure(sps_items[j]) is None
            }),
{
    let (mid, sputs, pputs) = choose|mid: Result<Seq<Option<SeqParameterSet>>, AvccError>, sputs: Seq<SeqParameterSet>, pputs: Seq<PicParameterSet>|
        #![trigger sps_built(Seq::empty(), sps_items, sputs, mid), context_after_sps(pps_items, mid, pputs, r)]
        sps_built(Seq::empty(), sps_items, sputs, mid) && context_after_sps(pps_items, mid, pputs, r);
    lemma_sps_built_first_failure(Seq::empty(), sps_items, sputs, mid);
    if let Ok(ss) = mid {
        lemma_pps_built_first_failure(ss, Seq::empty(), pps_items, pputs, context_pps_result(r));
    }
}

} // verus!

//! Raw byte sequence payload (RBSP) handling and bit-level reading.

use vstd::prelude::*;
use crate::nal::{chunk_views, Nal, RefNal, RefNalReader, RefNalReaderView};

verus! {

/// The kind of an input failure, following the I/O error kinds that readers report.
#[derive(Clone, Copy, Debug, PartialEq, Eq, Structural)]
pub enum ErrorKind {
    /// The input ended.
    UnexpectedEof,
    /// The input is only partially buffered and its end was reached.
    WouldBlock,
    /// The input held an invalid byte sequence.
    InvalidData,
    /// A read asked for more bits than its value type holds.
    InvalidInput,
}

/// Errors that arise while reading bitstream syntax elements.
#[derive(Clone, Copy, Debug, PartialEq, Eq)]
pub enum BitReaderError {
    /// The input failed while reading the given field.
    ReaderError(&'static str, ErrorKind),
    /// An Exp-Golomb-coded syntax element's value has more than 32 bits.
    ExpGolombTooLarge(&'static str),
    /// The stream was positioned before the final one bit on `finish_rbsp`.
    RemainingData,
}

/// Abstract state of a [`BitReader`]: the RBSP bytes available, how the input ends
/// after them, and the bit position.
pub ghost struct BitStream {
    pub data: Seq<u8>,
    pub end: ErrorKind,
    pub pos: int,
}

impl BitStream {
    pub open spec fn len_bits(self) -> int {
        8 * self.data.len() as int
    }

    pub open spec fn at(self, pos: int) -> BitStream {
        BitStream { pos, ..self }
    }

    pub open spec fn wf(self) -> bool {
        0 <= self.pos <= self.len_bits()
    }
}

/// Bit `i` of `data`, counting from the most significant bit of the first byte.
pub open spec fn bit_at(data: Seq<u8>, i: int) -> bool {
    (data[i / 8] >> ((7 - i % 8) as u8)) & 1u8 == 1u8
}

/// The big-endian unsigned value of the `n` bits of `data` starting at bit `pos`.
pub open spec fn bits_value(data: Seq<u8>, pos: int, n: nat) -> nat
    decreases n,
{
    if n == 0 {
        0
    } else {
        2 * bits_value(data, pos, (n - 1) as nat) + if bit_at(data, pos + n - 1) {
            1nat
        } else {
            0nat
        }
    }
}

/// The number of consecutive zero bits of `data` starting at bit `pos`.
pub open spec fn zeros_run(data: Seq<u8>, pos: int) -> nat
    decreases 8 * data.len() - pos,
{
    if pos < 0 || pos >= 8 * data.len() {
        0
    } else if bit_at(data, pos) {
        0
    } else {
        1 + zeros_run(data, pos + 1)
    }
}

/// Reading `n` bits: the value and the advanced stream, or `None` past the available data.
pub open spec fn spec_read_bits(s: BitStream, n: nat) -> Option<(nat, BitStream)> {
    if s.pos + n <= s.len_bits() {
        Some((bits_value(s.data, s.pos, n), s.at(s.pos + n)))
    } else {
        None
    }
}

/// `ue(v)`: unsigned Exp-Golomb decoding.
pub open spec fn spec_read_ue(s: BitStream, name: &'static str) -> Result<(u32, BitStream), BitReaderError> {
    let k = zeros_run(s.data, s.pos);
    if s.pos + k >= s.len_bits() {
        Err(BitReaderError::ReaderError(name, s.end))
    } else if k > 31 {
        Err(BitReaderError::ExpGolombTooLarge(name))
    } else if s.pos + k + k + 1 > s.len_bits() {
        Err(BitReaderError::ReaderError(name, s.end))
    } else {
        Ok(((bits_value(s.data, s.pos + k, k + 1) - 1) as u32, s.at(s.pos + k + k + 1)))
    }
}

/// `n` bits hold a value below `2^n`.
pub proof fn lemma_bits_value_bound(data: Seq<u8>, pos: int, n: nat)
    ensures
        bits_value(data, pos, n) < vstd::arithmetic::power2::pow2(n),
    decreases n,
{
    if n > 0 {
        lemma_bits_value_bound(data, pos, (n - 1) as nat);
        vstd::arithmetic::power2::lemma_pow2_unfold(n);
    } else {
        vstd::arithmetic::power2::lemma2_to64();
    }
}

/// Relates the outcome of a parsing function to its specification: on success the value
/// and the stream after it, on failure the error.
pub open spec fn parsed<T, E>(res: Result<T, E>, expect: Result<(T, BitStream), E>, after: BitStream) -> bool {
    match expect {
        Ok((v, s2)) => res == Ok::<T, E>(v) && after == s2,
        Err(e) => res == Err::<T, E>(e),
    }
}

/// As [`parsed`], for values compared by their view.
pub open spec fn parsed_view<T: View, E>(res: Result<T, E>, expect: Result<(T::V, BitStream), E>, after: BitStream) -> bool {
    match expect {
        Ok((v, s2)) => res matches Ok(w) && w@ == v && after == s2,
        Err(e) => res == Err::<T, E>(e),
    }
}

/// Reads H.264 bitstream syntax elements from an RBSP representation.
pub struct BitReader {
    data: Vec<u8>,
    end: ErrorKind,
    byte: usize,
    bit: u8,
}

impl View for BitReader {
    type V = BitStream;

    closed spec fn view(&self) -> BitStream {
        BitStream { data: self.data@, end: self.end, pos: self.byte * 8 + self.bit }
    }
}

impl BitReader {
    #[verifier::type_invariant]
    closed spec fn inv(self) -> bool {
        &&& self.bit < 8
        &&& (self.byte < self.data.len() || (self.byte == self.data.len() && self.bit == 0))
    }

    /// Creates a reader over complete RBSP bytes.
    pub fn new(data: &[u8]) -> (r: BitReader)
        ensures
            r@ == (BitStream { data: data@, end: ErrorKind::UnexpectedEof, pos: 0 }),
    {
        BitReader { data: vstd::slice::slice_to_vec(data), end: ErrorKind::UnexpectedEof, byte: 0, bit: 0 }
    }

    fn peek_bit(&self) -> (b: bool)
        requires
            self@.pos < self@.len_bits(),
        ensures
            b == bit_at(self@.data, self@.pos),
    {
        proof { use_type_invariant(self); }
        let byte = self.data[self.byte];
        (byte >> (7 - self.bit)) & 1u8 == 1u8
    }

    fn advance(&mut self)
        requires
            old(self)@.pos < old(self)@.len_bits(),
        ensures
            final(self)@ == old(self)@.at(old(self)@.pos + 1),
    {
        proof { use_type_invariant(&*self); }
        if self.bit == 7 {
            self.bit = 0;
            self.byte = self.byte + 1;
        } else {
            self.bit = self.bit + 1;
        }
    }
}

/// `n` bits that start with a one bit hold a nonzero value.
pub proof fn lemma_bits_value_leading_one(data: Seq<u8>, pos: int, n: nat)
    requires
        n >= 1,
        bit_at(data, pos),
    ensures
        bits_value(data, pos, n) >= 1,
    decreases n,
{
    if n > 1 {
        lemma_bits_value_leading_one(data, pos, (n - 1) as nat);
    }
}

/// The signed value of an unsigned Exp-Golomb code number (`se(v)` mapping).
pub open spec fn golomb_to_signed(v: u32) -> i32 {
    if v % 2 == 1 {
        ((v as int + 1) / 2) as i32
    } else {
        (-((v / 2) as int)) as i32
    }
}

/// `se(v)`: signed Exp-Golomb decoding.
pub open spec fn spec_read_se(s: BitStream, name: &'static str) -> Result<(i32, BitStream), BitReaderError> {
    match spec_read_ue(s, name) {
        Ok((v, s2)) => Ok((golomb_to_signed(v), s2)),
        Err(e) => Err(e),
    }
}

/// Reading one bit.
pub open spec fn spec_read_bit(s: BitStream, name: &'static str) -> Result<(bool, BitStream), BitReaderError> {
    if s.pos < s.len_bits() {
        Ok((bit_at(s.data, s.pos), s.at(s.pos + 1)))
    } else {
        Err(BitReaderError::ReaderError(name, s.end))
    }
}

/// Whether a one bit lies anywhere in `data` at or after bit `pos`.
pub open spec fn one_from(data: Seq<u8>, pos: int) -> bool {
    0 <= pos && pos + zeros_run(data, pos) < 8 * data.len()
}

/// `more_rbsp_data()`: whether any one bit follows the next bit (which may be the stop bit).
pub open spec fn spec_has_more_rbsp_data(s: BitStream, name: &'static str) -> Result<bool, BitReaderError> {
    if s.pos < s.len_bits() && one_from(s.data, s.pos + 1) {
        Ok(true)
    } else if s.end == ErrorKind::UnexpectedEof {
        Ok(false)
    } else {
        Err(BitReaderError::ReaderError(name, s.end))
    }
}

/// The result of checking that only RBSP trailing bits remain.
pub open spec fn spec_finish_rbsp(s: BitStream) -> Result<(), BitReaderError> {
    if s.pos >= s.len_bits() {
        Err(BitReaderError::ReaderError("finish", s.end))
    } else if one_from(s.data, s.pos + 1) {
        Err(BitReaderError::RemainingData)
    } else if !bit_at(s.data, s.pos) {
        Err(BitReaderError::ReaderError("finish", s.end))
    } else if s.end == ErrorKind::UnexpectedEof {
        Ok(())
    } else {
        Err(BitReaderError::ReaderError("finish", s.end))
    }
}

/// The result of checking that an SEI payload is finished.
pub open spec fn spec_finish_sei_payload(s: BitStream) -> Result<(), BitReaderError> {
    if s.pos >= s.len_bits() {
        if s.end == ErrorKind::UnexpectedEof {
            Ok(())
        } else {
            Err(BitReaderError::ReaderError("finish", s.end))
        }
    } else if !bit_at(s.data, s.pos) {
        Err(BitReaderError::RemainingData)
    } else if one_from(s.data, s.pos + 1) {
        Err(BitReaderError::RemainingData)
    } else if s.end == ErrorKind::UnexpectedEof {
        Ok(())
    } else {
        Err(BitReaderError::ReaderError("finish", s.end))
    }
}

/// Integer types that bit fields can be read into.
pub trait Integer: Sized {
    /// The width of the type in bits.
    spec fn spec_bits() -> nat;

    /// The value of an `n`-bit field `v` in this type.
    spec fn spec_from_bits(v: nat, n: nat) -> Self;

    fn from_bits(v: u32, n: u32) -> (r: Self)
        requires
            n <= Self::spec_bits(),
            n <= 32,
            v < vstd::arithmetic::power2::pow2(n as nat),
        ensures
            r == Self::spec_from_bits(v as nat, n as nat),
    ;
}

impl Integer for u8 {
    open spec fn spec_bits() -> nat {
        8
    }

    open spec fn spec_from_bits(v: nat, n: nat) -> u8 {
        v as u8
    }

    fn from_bits(v: u32, n: u32) -> (r: u8) {
        proof {
            vstd::arithmetic::power2::lemma2_to64();
            if n < 8 {
                vstd::arithmetic::power2::lemma_pow2_strictly_increases(n as nat, 8);
            }
        }
        v as u8
    }
}

impl Integer for u16 {
    open spec fn spec_bits() -> nat {
        16
    }

    open spec fn spec_from_bits(v: nat, n: nat) -> u16 {
        v as u16
    }

    fn from_bits(v: u32, n: u32) -> (r: u16) {
        proof {
            vstd::arithmetic::power2::lemma2_to64();
            if n < 16 {
                vstd::arithmetic::power2::lemma_pow2_strictly_increases(n as nat, 16);
            }
        }
        v as u16
    }
}

impl Integer for u32 {
    open spec fn spec_bits() -> nat {
        32
    }

    open spec fn spec_from_bits(v: nat, n: nat) -> u32 {
        v as u32
    }

    fn from_bits(v: u32, n: u32) -> (r: u32) {
        v
    }
}

impl Integer for i32 {
    open spec fn spec_bits() -> nat {
        32
    }

    /// Fields read into a signed type are two's complement.
    open spec fn spec_from_bits(v: nat, n: nat) -> i32 {
        if n > 0 && v >= vstd::arithmetic::power2::pow2((n - 1) as nat) {
            (v - vstd::arithmetic::power2::pow2(n)) as i32
        } else {
            v as i32
        }
    }

    fn from_bits(v: u32, n: u32) -> (r: i32) {
        proof {
            vstd::arithmetic::power2::lemma2_to64();
            vstd::bits::lemma_u64_pow2_no_overflow(n as nat);
            if n < 32 {
                vstd::arithmetic::power2::lemma_pow2_strictly_increases(n as nat, 32);
            }
            if n > 0 {
                vstd::arithmetic::power2::lemma_pow2_unfold(n as nat);
                vstd::arithmetic::power2::lemma_pow2_pos((n - 1) as nat);
            }
        }
        if n == 0 {
            return 0;
        }
        let full: u64 = 1u64 << n;
        let half: u64 = 1u64 << (n - 1);
        proof {
            vstd::bits::lemma_u64_shl_is_mul(1, n as u64);
            vstd::bits::lemma_u64_shl_is_mul(1, (n - 1) as u64);
        }
        if (v as u64) >= half {
            ((v as i64) - (full as i64)) as i32
        } else {
            v as i32
        }
    }
}

impl BitReader {
    /// Creates a reader over bytes followed by an input end of the given kind.
    pub fn from_parts(data: Vec<u8>, end: ErrorKind) -> (r: BitReader)
        ensures
            r@ == (BitStream { data: data@, end, pos: 0 }),
    {
        BitReader { data, end, byte: 0, bit: 0 }
    }

    /// Whether the position is at a byte boundary.
    pub fn byte_aligned(&self) -> (b: bool)
        ensures
            b == (self@.pos % 8 == 0),
    {
        proof { use_type_invariant(self); }
        self.bit == 0
    }

    /// Whether at least `n` bits remain.
    pub(crate) fn has_bits(&self, n: u32) -> (b: bool)
        ensures
            b == (self@.pos + n <= self@.len_bits()),
    {
        proof { use_type_invariant(self); }
        let avail = self.data.len() - self.byte;
        if avail > 0x2000_0000 {
            true
        } else {
            (n as u64) + (self.bit as u64) <= (avail as u64) * 8
        }
    }

    /// The abstract state of a reader is always well formed.
    pub(crate) fn check_wf(&self)
        ensures
            self@.wf(),
    {
        proof { use_type_invariant(self); }
    }

    /// How the input ends after the available bytes.
    pub(crate) fn end_kind(&self) -> (k: ErrorKind)
        ensures
            k == self@.end,
    {
        self.end
    }

    /// The next `n` bits as an unsigned big-endian value, without consuming them.
    pub(crate) fn peek_bits(&self, n: u32) -> (r: Option<u32>)
        requires
            n <= 32,
        ensures
            match spec_read_bits(self@, n as nat) {
                Some((v, _)) => r == Some(v as u32),
                None => r is None,
            },
    {
        proof { use_type_invariant(self); }
        if !self.has_bits(n) {
            return None;
        }
        let ghost start = self@;
        let mut acc: u64 = 0;
        let mut k: u32 = 0;
        let mut byte = self.byte;
        let mut bit = self.bit;
        while k < n
            invariant
                k <= n <= 32,
                start == self@,
                start.pos + n <= start.len_bits(),
                bit < 8,
                byte * 8 + bit == start.pos + k,
                acc == bits_value(start.data, start.pos, k as nat),
            decreases n - k,
        {
            proof {
                lemma_bits_value_bound(start.data, start.pos, k as nat);
                vstd::arithmetic::power2::lemma2_to64();
                if k < 32 {
                    vstd::arithmetic::power2::lemma_pow2_strictly_increases(k as nat, 32);
                }
            }
            assert(byte < self.data.len()) by (nonlinear_arith)
                requires
                    byte * 8 + bit < 8 * self.data.len(),
                    bit < 8,
            ;
            let b = (self.data[byte] >> (7 - bit)) & 1u8 == 1u8;
            if bit == 7 {
                bit = 0;
                byte = byte + 1;
            } else {
                bit = bit + 1;
            }
            acc = acc * 2 + if b { 1u64 } else { 0u64 };
            k = k + 1;
        }
        proof {
            lemma_bits_value_bound(start.data, start.pos, n as nat);
            vstd::arithmetic::power2::lemma2_to64();
            if n < 32 {
                vstd::arithmetic::power2::lemma_pow2_strictly_increases(n as nat, 32);
            }
        }
        Some(acc as u32)
    }

    /// Reads `n` bits as an unsigned big-endian value.
    fn read_bits(&mut self, n: u32) -> (r: Option<u32>)
        requires
            n <= 32,
        ensures
            match spec_read_bits(old(self)@, n as nat) {
                Some((v, s2)) => r == Some(v as u32) && final(self)@ == s2,
                None => r is None && final(self)@ == old(self)@,
            },
    {
        if !self.has_bits(n) {
            return None;
        }
        let ghost start = self@;
        let mut acc: u64 = 0;
        let mut k: u32 = 0;
        while k < n
            invariant
                k <= n <= 32,
                start.pos + n <= start.len_bits(),
                self@ == start.at(start.pos + k),
                acc == bits_value(start.data, start.pos, k as nat),
            decreases n - k,
        {
            proof {
                lemma_bits_value_bound(start.data, start.pos, k as nat);
                vstd::arithmetic::power2::lemma2_to64();
                if k < 32 {
                    vstd::arithmetic::power2::lemma_pow2_strictly_increases(k as nat, 32);
                }
            }
            let b = self.peek_bit();
            self.advance();
            acc = acc * 2 + if b { 1u64 } else { 0u64 };
            k = k + 1;
        }
        proof {
            lemma_bits_value_bound(start.data, start.pos, n as nat);
            vstd::arithmetic::power2::lemma2_to64();
            if n < 32 {
                vstd::arithmetic::power2::lemma_pow2_strictly_increases(n as nat, 32);
            }
        }
        Some(acc as u32)
    }

    /// Reads a single bit.
    pub fn read_bit(&mut self, name: &'static str) -> (r: Result<bool, BitReaderError>)
        ensures
            match spec_read_bit(old(self)@, name) {
                Ok((v, s2)) => r == Ok::<bool, BitReaderError>(v) && final(self)@ == s2,
                Err(e) => r == Err::<bool, BitReaderError>(e) && final(self)@ == old(self)@,
            },
    {
        if !self.has_bits(1) {
            return Err(BitReaderError::ReaderError(name, self.end));
        }
        let b = self.peek_bit();
        self.advance();
        Ok(b)
    }

    /// Reads a field of `bit_count` bits into an integer type, as in the `u(n)` and
    /// `i(n)` syntax elements.
    pub fn read_var<I: Integer>(&mut self, bit_count: u32, name: &'static str) -> (r: Result<I, BitReaderError>)
        requires
            bit_count <= 32,
            bit_count <= I::spec_bits(),
        ensures
            match spec_read_bits(old(self)@, bit_count as nat) {
                Some((v, s2)) => r == Ok::<I, BitReaderError>(I::spec_from_bits(v, bit_count as nat)) && final(self)@ == s2,
                None => r == Err::<I, BitReaderError>(BitReaderError::ReaderError(name, old(self)@.end)) && final(self)@ == old(self)@,
            },
    {
        let ghost start = self@;
        match self.read_bits(bit_count) {
            Some(v) => {
                proof {
                    lemma_bits_value_bound(start.data, start.pos, bit_count as nat);
                    vstd::arithmetic::power2::lemma2_to64();
                    if bit_count < 32 {
                        vstd::arithmetic::power2::lemma_pow2_strictly_increases(bit_count as nat, 32);
                    }
                }
                Ok(I::from_bits(v, bit_count))
            },
            None => Err(BitReaderError::ReaderError(name, self.end)),
        }
    }

    /// Reads a field with a statically-known number of bits.
    pub fn read<const BITS: u32, I: Integer>(&mut self, name: &'static str) -> (r: Result<I, BitReaderError>)
        requires
            BITS <= 32,
            BITS <= I::spec_bits(),
        ensures
            match spec_read_bits(old(self)@, BITS as nat) {
                Some((v, s2)) => r == Ok::<I, BitReaderError>(I::spec_from_bits(v, BITS as nat)) && final(self)@ == s2,
                None => r == Err::<I, BitReaderError>(BitReaderError::ReaderError(name, old(self)@.end)) && final(self)@ == old(self)@,
            },
    {
        self.read_var(BITS, name)
    }

    /// Skips `bit_count` bits.
    pub fn skip(&mut self, bit_count: u32, name: &'static str) -> (r: Result<(), BitReaderError>)
        ensures
            old(self)@.pos + bit_count <= old(self)@.len_bits() ==> r is Ok && final(self)@ == old(self)@.at(old(self)@.pos + bit_count),
            old(self)@.pos + bit_count > old(self)@.len_bits() ==> r == Err::<(), BitReaderError>(BitReaderError::ReaderError(name, old(self)@.end)),
            final(self)@.data == old(self)@.data && final(self)@.end == old(self)@.end,
    {
        if !self.has_bits(bit_count) {
            return Err(BitReaderError::ReaderError(name, self.end));
        }
        let ghost start = self@;
        let mut k: u32 = 0;
        while k < bit_count
            invariant
                k <= bit_count,
                start.pos + bit_count <= start.len_bits(),
                self@ == start.at(start.pos + k),
            decreases bit_count - k,
        {
            self.advance();
            k = k + 1;
        }
        Ok(())
    }

    /// Scans forward over zero bits, stopping at a one bit or the end of the data.
    /// Returns the number of zeros passed, capped at 32.
    fn skip_zeros(&mut self) -> (cnt: u32)
        ensures
            final(self)@ == old(self)@.at(old(self)@.pos + zeros_run(old(self)@.data, old(self)@.pos)),
            zeros_run(old(self)@.data, final(self)@.pos) == 0,
            cnt == if zeros_run(old(self)@.data, old(self)@.pos) > 32 { 32 } else { zeros_run(old(self)@.data, old(self)@.pos) },
    {
        proof { use_type_invariant(&*self); }
        let ghost start = self@;
        let mut cnt: u32 = 0;
        while self.has_bits(1) && !self.peek_bit()
            invariant
                start.wf(),
                self@.data == start.data && self@.end == start.end,
                start.pos <= self@.pos <= self@.len_bits(),
                zeros_run(start.data, start.pos) == (self@.pos - start.pos) + zeros_run(start.data, self@.pos),
                cnt == if self@.pos - start.pos > 32 { 32 } else { self@.pos - start.pos },
            decreases self@.len_bits() - self@.pos,
        {
            self.advance();
            if cnt < 32 {
                cnt = cnt + 1;
            }
        }
        cnt
    }

    /// Reads an unsigned Exp-Golomb-coded value (`ue(v)`).
    pub fn read_ue(&mut self, name: &'static str) -> (r: Result<u32, BitReaderError>)
        ensures
            match spec_read_ue(old(self)@, name) {
                Ok((v, s2)) => r == Ok::<u32, BitReaderError>(v) && final(self)@ == s2,
                Err(e) => r == Err::<u32, BitReaderError>(e),
            },
            final(self)@.data == old(self)@.data && final(self)@.end == old(self)@.end,
    {
        proof { use_type_invariant(&*self); }
        let ghost start = self@;
        let cnt = self.skip_zeros();
        if !self.has_bits(1) {
            return Err(BitReaderError::ReaderError(name, self.end));
        }
        if cnt > 31 {
            return Err(BitReaderError::ExpGolombTooLarge(name));
        }
        let ghost p = self@.pos;
        proof {
            assert(bit_at(start.data, p));
        }
        match self.read_bits(cnt + 1) {
            Some(acc) => {
                proof {
                    lemma_bits_value_leading_one(start.data, p, (cnt + 1) as nat);
                    lemma_bits_value_bound(start.data, p, (cnt + 1) as nat);
                    vstd::arithmetic::power2::lemma2_to64();
                    if cnt + 1 < 32 {
                        vstd::arithmetic::power2::lemma_pow2_strictly_increases((cnt + 1) as nat, 32);
                    }
                }
                Ok(acc - 1)
            },
            None => Err(BitReaderError::ReaderError(name, self.end)),
        }
    }

    /// Reads a signed Exp-Golomb-coded value (`se(v)`).
    pub fn read_se(&mut self, name: &'static str) -> (r: Result<i32, BitReaderError>)
        ensures
            match spec_read_se(old(self)@, name) {
                Ok((v, s2)) => r == Ok::<i32, BitReaderError>(v) && final(self)@ == s2,
                Err(e) => r == Err::<i32, BitReaderError>(e),
            },
            final(self)@.data == old(self)@.data && final(self)@.end == old(self)@.end,
    {
        match self.read_ue(name) {
            Ok(v) => Ok(golomb_to_signed_exec(v)),
            Err(e) => Err(e),
        }
    }
}

proof fn lemma_zero_byte_run(data: Seq<u8>, j: int)
    requires
        0 <= j < data.len(),
        data[j] == 0,
    ensures
        zeros_run(data, 8 * j) == 8 + zeros_run(data, 8 * j + 8),
{
    let b = data[j];
    assert forall|k: u8| k < 8 implies #[trigger] ((b >> k) & 1u8) != 1u8 by {
        assert(b == 0 ==> (b >> k) & 1u8 != 1u8) by (bit_vector);
    }
    assert forall|k: int| 0 <= k < 8 implies #[trigger] bit_at(data, 8 * j + k) == ((b >> ((7 - k) as u8)) & 1u8 == 1u8) by {
        assert((8 * j + k) / 8 == j && (8 * j + k) % 8 == k);
    }
    reveal_with_fuel(zeros_run, 9);
}

proof fn lemma_nonzero_byte_run(data: Seq<u8>, j: int)
    requires
        0 <= j < data.len(),
        data[j] != 0,
    ensures
        zeros_run(data, 8 * j) < 8,
{
    let b = data[j];
    assert(b != 0 ==> (b >> 7u8) & 1u8 == 1u8 || (b >> 6u8) & 1u8 == 1u8 || (b >> 5u8) & 1u8 == 1u8
        || (b >> 4u8) & 1u8 == 1u8 || (b >> 3u8) & 1u8 == 1u8 || (b >> 2u8) & 1u8 == 1u8
        || (b >> 1u8) & 1u8 == 1u8 || (b >> 0u8) & 1u8 == 1u8) by (bit_vector);
    assert forall|k: int| 0 <= k < 8 implies #[trigger] bit_at(data, 8 * j + k) == ((b >> ((7 - k) as u8)) & 1u8 == 1u8) by {
        assert((8 * j + k) / 8 == j && (8 * j + k) % 8 == k);
    }
    reveal_with_fuel(zeros_run, 9);
}

impl BitReader {
    /// Whether a one bit lies at or after the position `byte * 8 + bit`.
    fn find_one(&self, byte: usize, bit: u8) -> (b: bool)
        requires
            bit < 8,
            byte < self@.data.len() || (byte == self@.data.len() && bit == 0),
        ensures
            b == one_from(self@.data, byte * 8 + bit),
    {
        let ghost data = self@.data;
        let len = self.data.len();
        if byte >= len {
            return false;
        }
        let cur = self.data[byte];
        let mut k: u8 = bit;
        while k < 8
            invariant
                bit <= k <= 8,
                byte < len == data.len(),
                data == self.data@,
                cur == data[byte as int],
                zeros_run(data, byte * 8 + bit) == (k - bit) + zeros_run(data, byte * 8 + k),
            decreases 8 - k,
        {
            proof {
                assert((byte * 8 + k) / 8 == byte && (byte * 8 + k) % 8 == k);
            }
            if (cur >> (7 - k)) & 1u8 == 1u8 {
                return true;
            }
            k = k + 1;
        }
        let mut j: usize = byte + 1;
        while j < len
            invariant
                byte < j <= len == data.len(),
                data == self.data@,
                zeros_run(data, byte * 8 + bit) == (j * 8 - (byte * 8 + bit)) + zeros_run(data, j * 8),
            decreases len - j,
        {
            if self.data[j] != 0 {
                proof { lemma_nonzero_byte_run(data, j as int); }
                return true;
            }
            proof { lemma_zero_byte_run(data, j as int); }
            j = j + 1;
        }
        false
    }

    /// Whether any one bit follows the next bit, as in `more_rbsp_data()`.
    fn one_after_next(&self) -> (b: bool)
        requires
            self@.pos < self@.len_bits(),
        ensures
            b == one_from(self@.data, self@.pos + 1),
    {
        proof { use_type_invariant(self); }
        if self.bit == 7 {
            self.find_one(self.byte + 1, 0)
        } else {
            self.find_one(self.byte, self.bit + 1)
        }
    }

    /// Returns true if positioned before the RBSP trailing bits.
    ///
    /// This matches the definition of `more_rbsp_data()` in Rec. ITU-T H.264 section 7.2.
    pub fn has_more_rbsp_data(&mut self, name: &'static str) -> (r: Result<bool, BitReaderError>)
        ensures
            r == spec_has_more_rbsp_data(old(self)@, name),
            final(self)@ == old(self)@,
    {
        if self.has_bits(1) && self.one_after_next() {
            Ok(true)
        } else if self.end == ErrorKind::UnexpectedEof {
            Ok(false)
        } else {
            Err(BitReaderError::ReaderError(name, self.end))
        }
    }

    /// Consumes the reader, returning error if it's not positioned at the RBSP trailing bits.
    pub fn finish_rbsp(self) -> (r: Result<(), BitReaderError>)
        ensures
            r == spec_finish_rbsp(self@),
    {
        if !self.has_bits(1) {
            return Err(BitReaderError::ReaderError("finish", self.end));
        }
        if self.one_after_next() {
            return Err(BitReaderError::RemainingData);
        }
        if !self.peek_bit() {
            Err(BitReaderError::ReaderError("finish", self.end))
        } else if self.end == ErrorKind::UnexpectedEof {
            Ok(())
        } else {
            Err(BitReaderError::ReaderError("finish", self.end))
        }
    }

    /// Consumes the reader, returning error if this `sei_payload` message is unfinished.
    ///
    /// This is similar to `finish_rbsp`, but SEI payloads have no trailing bits if
    /// already byte-aligned.
    pub fn finish_sei_payload(self) -> (r: Result<(), BitReaderError>)
        ensures
            r == spec_finish_sei_payload(self@),
    {
        if !self.has_bits(1) {
            if self.end == ErrorKind::UnexpectedEof {
                return Ok(());
            } else {
                return Err(BitReaderError::ReaderError("finish", self.end));
            }
        }
        if !self.peek_bit() || self.one_after_next() {
            return Err(BitReaderError::RemainingData);
        }
        if self.end == ErrorKind::UnexpectedEof {
            Ok(())
        } else {
            Err(BitReaderError::ReaderError("finish", self.end))
        }
    }
}

/// Maps an Exp-Golomb code number to its signed value.
pub fn golomb_to_signed_exec(val: u32) -> (r: i32)
    ensures
        r == golomb_to_signed(val),
{
    if val % 2 == 1 {
        (val / 2 + 1) as i32
    } else {
        -((val / 2) as i32)
    }
}


/// State of emulation-prevention removal: the number of consecutive `0x00` bytes just
/// seen (0, 1 or 2), or just after a removed `0x03`.
pub ghost enum UnescapeState {
    Zeros(nat),
    PostThree,
}

/// Result of removing emulation prevention from a byte sequence.
pub ghost struct Unescaped {
    /// The RBSP bytes produced (up to the invalid byte, if any).
    pub out: Seq<u8>,
    pub state: UnescapeState,
    /// Whether an invalid byte sequence was found.
    pub failed: bool,
}

/// One input byte of emulation-prevention removal: the next state and the bytes produced,
/// or `None` if the byte is invalid here.
pub open spec fn unescape_step(st: UnescapeState, b: u8) -> Option<(UnescapeState, Seq<u8>)> {
    match st {
        UnescapeState::Zeros(z) => if z >= 2 {
            if b == 3 {
                Some((UnescapeState::PostThree, Seq::empty()))
            } else if b == 0 {
                None
            } else {
                Some((UnescapeState::Zeros(0), seq![b]))
            }
        } else if b == 0 {
            Some((UnescapeState::Zeros(z + 1), seq![b]))
        } else {
            Some((UnescapeState::Zeros(0), seq![b]))
        },
        UnescapeState::PostThree => if b == 0 {
            Some((UnescapeState::Zeros(1), seq![b]))
        } else if b <= 3 {
            Some((UnescapeState::Zeros(0), seq![b]))
        } else {
            None
        },
    }
}

/// Removes emulation-prevention `0x03` bytes from `bytes`, starting in state `st`.
pub open spec fn unescape_from(st: UnescapeState, bytes: Seq<u8>) -> Unescaped
    decreases bytes.len(),
{
    if bytes.len() == 0 {
        Unescaped { out: Seq::empty(), state: st, failed: false }
    } else {
        let r = unescape_from(st, bytes.drop_last());
        if r.failed {
            r
        } else {
            match unescape_step(r.state, bytes.last()) {
                None => Unescaped { failed: true, ..r },
                Some((st2, e)) => Unescaped { out: r.out + e, state: st2, failed: false },
            }
        }
    }
}

/// RBSP of NAL body bytes (after the header).
pub open spec fn unescape(bytes: Seq<u8>) -> Unescaped {
    unescape_from(UnescapeState::Zeros(0), bytes)
}

/// Inserts emulation-prevention `0x03` bytes into RBSP `bytes`, given `zc` trailing
/// zero bytes already written. Returns the encoded bytes and the new trailing zero count.
pub open spec fn escape_from(zc: nat, bytes: Seq<u8>) -> (Seq<u8>, nat)
    decreases bytes.len(),
{
    if bytes.len() == 0 {
        (Seq::empty(), zc)
    } else {
        let (o, z) = escape_from(zc, bytes.drop_last());
        let b = bytes.last();
        let pre = if z == 2 && b <= 3 { seq![3u8] } else { Seq::empty() };
        let z0: nat = if z == 2 { 0 } else { z };
        (o + pre + seq![b], if b == 0 { z0 + 1 } else { 0 })
    }
}

proof fn lemma_escape_zc(zc: nat, bytes: Seq<u8>)
    requires
        zc <= 2,
    ensures
        escape_from(zc, bytes).1 <= 2,
    decreases bytes.len(),
{
    if bytes.len() > 0 {
        lemma_escape_zc(zc, bytes.drop_last());
    }
}

/// Removing emulation prevention undoes inserting it: for any RBSP bytes, decoding the
/// escaped form gives back exactly those bytes, without error.
pub proof fn lemma_unescape_escape(zc: nat, bytes: Seq<u8>)
    requires
        zc <= 2,
    ensures
        unescape_from(UnescapeState::Zeros(zc), escape_from(zc, bytes).0)
            == (Unescaped { out: bytes, state: UnescapeState::Zeros(escape_from(zc, bytes).1), failed: false }),
    decreases bytes.len(),
{
    let st = UnescapeState::Zeros(zc);
    if bytes.len() == 0 {
        assert(bytes =~= Seq::<u8>::empty());
    } else {
        let x = bytes.drop_last();
        let b = bytes.last();
        lemma_unescape_escape(zc, x);
        lemma_escape_zc(zc, x);
        let (o, z) = escape_from(zc, x);
        assert(x.push(b) =~= bytes);
        if z == 2 && b <= 3 {
            let o3 = o.push(3u8);
            assert(o3.drop_last() =~= o);
            assert(o + seq![3u8] + seq![b] =~= o3.push(b));
            assert(o3.push(b).drop_last() =~= o3);
            let r1 = unescape_from(st, o3);
            assert(r1.state == UnescapeState::PostThree && !r1.failed && r1.out =~= x);
            let r2 = unescape_from(st, o3.push(b));
            assert(r2.out =~= x + seq![b]);
            assert(r2.out =~= bytes);
        } else {
            assert(o + Seq::<u8>::empty() + seq![b] =~= o.push(b));
            assert(o.push(b).drop_last() =~= o);
            let r2 = unescape_from(st, o.push(b));
            assert(r2.out =~= x + seq![b]);
            assert(r2.out =~= bytes);
        }
    }
}

/// Once emulation-prevention removal fails on a prefix, it fails on the whole input.
pub proof fn lemma_unescape_failed_persists(st: UnescapeState, bytes: Seq<u8>, k: int)
    requires
        0 <= k <= bytes.len(),
        unescape_from(st, bytes.take(k)).failed,
    ensures
        unescape_from(st, bytes).failed,
    decreases bytes.len(),
{
    if k == bytes.len() {
        assert(bytes.take(k) =~= bytes);
    } else {
        assert(bytes.drop_last().take(k) =~= bytes.take(k));
        lemma_unescape_failed_persists(st, bytes.drop_last(), k);
    }
}

/// Decoding a NAL whose RBSP was escaped from `rbsp` yields `rbsp`.
pub proof fn lemma_rbsp_roundtrip(header: u8, rbsp: Seq<u8>)
    ensures
        !unescape(seq![header].add(escape_from(0, rbsp).0).skip(1)).failed,
        unescape(seq![header].add(escape_from(0, rbsp).0).skip(1)).out == rbsp,
{
    assert(seq![header].add(escape_from(0, rbsp).0).skip(1) =~= escape_from(0, rbsp).0);
    lemma_unescape_escape(0, rbsp);
}

/// Result of decoding a whole NAL unit.
pub open spec fn spec_decode_nal(nal_unit: Seq<u8>) -> Result<Seq<u8>, ErrorKind> {
    let u = unescape(nal_unit.skip(1));
    if u.failed {
        Err(ErrorKind::InvalidData)
    } else {
        Ok(u.out)
    }
}

/// An I/O failure, identified by its kind.
#[derive(Clone, Copy, Debug, PartialEq, Eq)]
pub struct IoError {
    pub kind: ErrorKind,
}

impl IoError {
    pub fn kind(&self) -> (k: ErrorKind)
        ensures
            k == self.kind,
    {
        self.kind
    }
}

/// Returns RBSP from a NAL by removing the NAL header and `emulation-prevention-three` bytes.
///
/// Returns error on invalid byte sequences.
pub fn decode_nal(nal_unit: &[u8]) -> (r: Result<Vec<u8>, IoError>)
    requires
        nal_unit@.len() >= 1,
    ensures
        match spec_decode_nal(nal_unit@) {
            Ok(out) => r matches Ok(v) && v@ == out,
            Err(k) => r == Err::<Vec<u8>, IoError>(IoError { kind: k }),
        },
{
    let no_more: Vec<&[u8]> = Vec::new();
    let nal = RefNal::new(nal_unit, no_more.as_slice(), true);
    let inner = nal.reader();
    proof {
        assert(chunk_views(no_more@) =~= Seq::<Seq<u8>>::empty());
        assert(inner@.rest() =~= nal_unit@);
    }
    // Examine the whole unit at once.
    let mut reader = ByteReader::with_state(inner, ParseState::Skip(1), usize::MAX);
    let mut dst: Vec<u8> = Vec::new();
    let res = reader.read_to_end(&mut dst);
    proof {
        assert(body_after(nal_unit@, 1) =~= nal_unit@.skip(1));
        assert(dst@ =~= reader@.delivered());
    }
    match res {
        Ok(_) => Ok(dst),
        Err(e) => Err(e),
    }
}

/// Index of the first occurrence of `needle` in `haystack`.
///
/// Calls `memchr::memchr`, which returns the index of the first occurrence of the byte,
/// or `None` when the byte does not occur; the contract claims exactly that.
#[verifier::external_body]
pub(crate) fn find_byte(needle: u8, haystack: &[u8]) -> (r: Option<usize>)
    ensures
        match r {
            Some(i) => i < haystack@.len() && haystack@[i as int] == needle && forall|j: int|
                0 <= j < i ==> haystack@[j] != needle,
            None => forall|j: int| 0 <= j < haystack@.len() ==> haystack@[j] != needle,
        },
{
    memchr::memchr(needle, haystack)
}

/// Escaping is compositional: escaping `a + b` escapes `a`, then `b` from the state after `a`.
pub proof fn lemma_escape_append(zc: nat, a: Seq<u8>, b: Seq<u8>)
    ensures
        escape_from(zc, a + b) == ({
            let (oa, za) = escape_from(zc, a);
            let (ob, zb) = escape_from(za, b);
            (oa + ob, zb)
        }),
    decreases b.len(),
{
    if b.len() == 0 {
        assert(a + b =~= a);
        let (oa, za) = escape_from(zc, a);
        assert(oa + Seq::<u8>::empty() =~= oa);
    } else {
        assert((a + b).drop_last() =~= a + b.drop_last());
        assert((a + b).last() == b.last());
        lemma_escape_append(zc, a, b.drop_last());
        let (oa, za) = escape_from(zc, a);
        let (ob1, zb1) = escape_from(za, b.drop_last());
        let x = b.last();
        let pre = if zb1 == 2 && x <= 3 { seq![3u8] } else { Seq::<u8>::empty() };
        assert(oa + ob1 + pre + seq![x] =~= oa + (ob1 + pre + seq![x]));
    }
}

/// The first-byte prefix that escaping inserts: `0x03` after two zeros when the next byte is `<= 3`.
pub open spec fn escape_prefix(zc: nat, first: u8) -> Seq<u8> {
    if zc == 2 && first <= 3 { seq![3u8] } else { Seq::empty() }
}

proof fn lemma_escape_nonzero(zc: nat, nz: Seq<u8>)
    requires
        zc <= 2,
        nz.len() > 0,
        forall|j: int| 0 <= j < nz.len() ==> nz[j] != 0,
    ensures
        escape_from(zc, nz) == (escape_prefix(zc, nz[0]) + nz, 0nat),
    decreases nz.len(),
{
    let x = nz.drop_last();
    assert(escape_from(zc, nz).0 == escape_from(zc, x).0 + (if escape_from(zc, x).1 == 2 && nz.last() <= 3 { seq![3u8] } else { Seq::<u8>::empty() }) + seq![nz.last()]);
    if x.len() == 0 {
        assert(escape_from(zc, x) == (Seq::<u8>::empty(), zc));
        assert(nz.last() == nz[0]);
        assert(nz =~= seq![nz[0]]);
        assert(escape_prefix(zc, nz[0]) + nz =~= Seq::<u8>::empty() + escape_prefix(zc, nz[0]) + seq![nz[0]]);
    } else {
        lemma_escape_nonzero(zc, x);
        assert(x[0] == nz[0]);
        assert(escape_prefix(zc, nz[0]) + nz =~= escape_prefix(zc, x[0]) + x + Seq::<u8>::empty() + seq![nz.last()]);
    }
}

proof fn lemma_escape_segment(zc: nat, seg: Seq<u8>)
    requires
        zc <= 2,
        seg.len() > 0,
        seg.last() == 0,
        forall|j: int| 0 <= j < seg.len() - 1 ==> seg[j] != 0,
    ensures
        escape_from(zc, seg) == (escape_prefix(zc, seg[0]) + seg,
            if seg.len() > 1 { 1nat } else if zc == 2 { 1nat } else { zc + 1 }),
{
    let x = seg.drop_last();
    assert(escape_from(zc, seg).0 == escape_from(zc, x).0 + (if escape_from(zc, x).1 == 2 && seg.last() <= 3 { seq![3u8] } else { Seq::<u8>::empty() }) + seq![seg.last()]);
    if x.len() == 0 {
        assert(escape_from(zc, x) == (Seq::<u8>::empty(), zc));
        assert(seg.last() == seg[0]);
        assert(seg =~= seq![0u8]);
        assert(escape_prefix(zc, seg[0]) + seg =~= Seq::<u8>::empty() + escape_prefix(zc, seg[0]) + seq![0u8]);
    } else {
        lemma_escape_nonzero(zc, x);
        assert(x[0] == seg[0]);
        assert(escape_prefix(zc, seg[0]) + seg =~= escape_prefix(zc, x[0]) + x + Seq::<u8>::empty() + seq![0u8]);
    }
}

/// [`std::io::Write`]-like adapter which inserts emulation-prevention-three bytes into RBSP.
///
/// The caller writes raw RBSP bytes; this inserts `0x03` bytes wherever the
/// sequence `0x00 0x00` would be followed by `0x00`, `0x01`, `0x02`, or `0x03`.
pub struct ByteWriter {
    inner: Vec<u8>,
    /// Number of consecutive `0x00` bytes at the tail of what has been written so far.
    zero_count: u8,
}

impl View for ByteWriter {
    type V = (Seq<u8>, nat);

    closed spec fn view(&self) -> (Seq<u8>, nat) {
        (self.inner@, self.zero_count as nat)
    }
}

impl ByteWriter {
    #[verifier::type_invariant]
    closed spec fn inv(self) -> bool {
        self.zero_count <= 2
    }

    /// Creates a new `ByteWriter` appending to the given bytes.
    pub fn new(inner: Vec<u8>) -> (w: ByteWriter)
        ensures
            w@ == (inner@, 0nat),
    {
        ByteWriter { inner, zero_count: 0 }
    }

    /// Returns the underlying bytes.
    pub fn into_writer(self) -> (v: Vec<u8>)
        ensures
            v@ == self@.0,
    {
        self.inner
    }

    /// Writes RBSP bytes, escaping them.
    #[verifier::rlimit(40)]
    #[verifier::spinoff_prover]
    pub fn write(&mut self, buf: &[u8]) -> (r: Result<usize, IoError>)
        ensures
            r == Ok::<usize, IoError>(buf@.len() as usize),
            final(self)@ == ({
                let (o, z) = escape_from(old(self)@.1, buf@);
                (old(self)@.0 + o, z)
            }),
    {
        proof { use_type_invariant(&*self); }
        let ghost start = self@;
        let mut inner: Vec<u8> = Vec::new();
        std::mem::swap(&mut inner, &mut self.inner);
        let mut zero_count: u8 = self.zero_count;
        let mut i: usize = 0;
        assert(buf@.take(0) =~= Seq::<u8>::empty());
        while i < buf.len()
            invariant
                i <= buf@.len(),
                start.1 <= 2,
                zero_count <= 2,
                (inner@, zero_count as nat) == ({
                    let (o, z) = escape_from(start.1, buf@.take(i as int));
                    (start.0 + o, z)
                }),
            decreases buf@.len() - i,
        {
            let ghost z_i = zero_count as nat;
            let ghost out_i = inner@;
            let first = buf[i];
            if zero_count == 2 {
                if first <= 3 {
                    inner.push(3u8);
                }
                zero_count = 0;
            }
            let rest = vstd::slice::slice_subrange(buf, i, buf.len());
            match find_byte(0, rest) {
                None => {
                    inner.extend_from_slice(rest);
                    zero_count = 0;
                    proof {
                        let seg = buf@.subrange(i as int, buf@.len() as int);
                        assert(rest@ =~= seg);
                        assert(seg[0] == first);
                        lemma_escape_nonzero(z_i, seg);
                        assert(buf@.take(i as int) + seg =~= buf@.take(buf@.len() as int));
                        lemma_escape_append(start.1, buf@.take(i as int), seg);
                        lemma_escape_zc(start.1, buf@.take(i as int));
                        assert(inner@ =~= out_i + (escape_prefix(z_i, first) + seg));
                        let (o1, z1) = escape_from(start.1, buf@.take(i as int));
                        assert(start.0 + o1 + (escape_prefix(z_i, first) + seg) =~= start.0 + (o1 + (escape_prefix(z_i, first) + seg)));
                    }
                    i = buf.len();
                },
                Some(rel) => {
                    let seg_end = i + rel + 1;
                    let seg = vstd::slice::slice_subrange(buf, i, seg_end);
                    inner.extend_from_slice(seg);
                    zero_count = if rel > 0 { 1 } else { zero_count + 1 };
                    proof {
                        let sg = buf@.subrange(i as int, seg_end as int);
                        assert(seg@ =~= sg);
                        assert(sg[0] == first);
                        assert(sg.last() == 0);
                        assert forall|j: int| 0 <= j < sg.len() - 1 implies sg[j] != 0 by {
                            assert(sg[j] == rest@[j]);
                        }
                        lemma_escape_segment(z_i, sg);
                        assert(buf@.take(i as int) + sg =~= buf@.take(seg_end as int));
                        lemma_escape_append(start.1, buf@.take(i as int), sg);
                        lemma_escape_zc(start.1, buf@.take(i as int));
                        assert(inner@ =~= out_i + (escape_prefix(z_i, first) + sg));
                        let (o1, z1) = escape_from(start.1, buf@.take(i as int));
                        assert(start.0 + o1 + (escape_prefix(z_i, first) + sg) =~= start.0 + (o1 + (escape_prefix(z_i, first) + sg)));
                    }
                    i = seg_end;
                },
            }
        }
        assert(buf@.take(buf@.len() as int) =~= buf@);
        self.inner = inner;
        self.zero_count = zero_count;
        Ok(buf.len())
    }

    /// Writes all of `buf`, escaping it.
    pub fn write_all(&mut self, buf: &[u8]) -> (r: Result<(), IoError>)
        ensures
            r is Ok,
            final(self)@ == ({
                let (o, z) = escape_from(old(self)@.1, buf@);
                (old(self)@.0 + o, z)
            }),
    {
        let _ = self.write(buf);
        Ok(())
    }

    /// Flushes the writer (a no-op for in-memory output).
    pub fn flush(&mut self) -> (r: Result<(), IoError>)
        ensures
            r is Ok,
            final(self)@ == old(self)@,
    {
        Ok(())
    }
}

/// Removing emulation prevention from `a + b` removes it from `a`, then from `b` in the
/// state that `a` left.
pub proof fn lemma_unescape_append(st: UnescapeState, a: Seq<u8>, b: Seq<u8>)
    ensures
        unescape_from(st, a + b) == ({
            let ua = unescape_from(st, a);
            if ua.failed {
                ua
            } else {
                let ub = unescape_from(ua.state, b);
                Unescaped { out: ua.out + ub.out, state: ub.state, failed: ub.failed }
            }
        }),
    decreases b.len(),
{
    let ua = unescape_from(st, a);
    if b.len() == 0 {
        assert(a + b =~= a);
        assert(ua.out + Seq::<u8>::empty() =~= ua.out);
    } else {
        let b1 = b.drop_last();
        lemma_unescape_append(st, a, b1);
        assert((a + b).drop_last() =~= a + b1);
        assert((a + b).last() == b.last());
        if !ua.failed {
            let ub1 = unescape_from(ua.state, b1);
            if !ub1.failed {
                match unescape_step(ub1.state, b.last()) {
                    None => {},
                    Some((s2, e)) => {
                        assert(ua.out + ub1.out + e =~= ua.out + (ub1.out + e));
                    },
                }
            }
        }
    }
}

/// Removing emulation prevention never produces more bytes than it reads.
proof fn lemma_unescape_out_len(st: UnescapeState, b: Seq<u8>)
    ensures
        unescape_from(st, b).out.len() <= b.len(),
    decreases b.len(),
{
    if b.len() > 0 {
        lemma_unescape_out_len(st, b.drop_last());
    }
}

/// The output on a prefix of the input is a prefix of the output on the whole input.
proof fn lemma_unescape_prefix(st: UnescapeState, b: Seq<u8>, k: int)
    requires
        0 <= k <= b.len(),
    ensures
        unescape_from(st, b.take(k)).out.len() <= unescape_from(st, b).out.len(),
        unescape_from(st, b).out.take(unescape_from(st, b.take(k)).out.len() as int)
            == unescape_from(st, b.take(k)).out,
    decreases b.len(),
{
    if k == b.len() {
        assert(b.take(k) =~= b);
        assert(unescape_from(st, b).out.take(unescape_from(st, b).out.len() as int) =~= unescape_from(st, b).out);
    } else {
        let b1 = b.drop_last();
        assert(b1.take(k) =~= b.take(k));
        lemma_unescape_prefix(st, b1, k);
        let o1 = unescape_from(st, b1).out;
        let o = unescape_from(st, b).out;
        let p = unescape_from(st, b.take(k)).out;
        assert(o.take(p.len() as int) =~= o1.take(p.len() as int));
    }
}

/// Bytes without two adjacent zeros pass through unchanged, from a state with fewer
/// than two trailing zeros.
proof fn lemma_unescape_plain(z: nat, r: Seq<u8>)
    requires
        z <= 1,
        z == 1 && r.len() > 0 ==> r[0] != 0,
        forall|j: int| 0 <= j < r.len() - 1 ==> !(r[j] == 0 && #[trigger] r[j + 1] == 0),
    ensures
        unescape_from(UnescapeState::Zeros(z), r) == (Unescaped {
            out: r,
            state: UnescapeState::Zeros(if r.len() == 0 { z } else if r.last() == 0 { 1 } else { 0 }),
            failed: false,
        }),
    decreases r.len(),
{
    if r.len() == 0 {
        assert(r =~= Seq::<u8>::empty());
    } else {
        let r1 = r.drop_last();
        assert forall|j: int| 0 <= j < r1.len() - 1 implies !(r1[j] == 0 && #[trigger] r1[j + 1] == 0) by {
            assert(r1[j] == r[j] && r1[j + 1] == r[j + 1]);
        }
        lemma_unescape_plain(z, r1);
        if r1.len() > 0 {
            assert(r[r1.len() - 1] == r1.last());
        }
        assert(r1 + seq![r.last()] =~= r);
    }
}

/// Unescaping a single byte is one step.
proof fn lemma_unescape_one(st: UnescapeState, b: u8)
    ensures
        unescape_from(st, seq![b]) == (match unescape_step(st, b) {
            None => Unescaped { out: Seq::empty(), state: st, failed: true },
            Some((s2, e)) => Unescaped { out: e, state: s2, failed: false },
        }),
{
    let e0 = Seq::<u8>::empty();
    assert(seq![b].drop_last() =~= e0);
    assert(seq![b].last() == b);
    assert(unescape_from(st, e0) == Unescaped { out: e0, state: st, failed: false });
    match unescape_step(st, b) {
        None => {},
        Some((s2, e)) => {
            assert(Seq::<u8>::empty() + e =~= e);
        },
    }
}

/// Where the first pair of adjacent zero bytes starts in `haystack`.
///
/// Calls `memchr::memmem::find` with the needle `00 00`; it returns the index of the first
/// occurrence of the needle, or `None` when it does not occur, which is what the contract
/// claims.
#[verifier::external_body]
fn find_zero_pair(haystack: &[u8]) -> (r: Option<usize>)
    ensures
        match r {
            Some(o) => {
                &&& o + 1 < haystack@.len()
                &&& haystack@[o as int] == 0 && haystack@[o + 1] == 0
                &&& forall|j: int| 0 <= j < o ==> !(haystack@[j] == 0 && #[trigger] haystack@[j + 1] == 0)
            },
            None => forall|j: int| 0 <= j < haystack@.len() - 1 ==> !(haystack@[j] == 0 && #[trigger] haystack@[j + 1] == 0),
        },
{
    memchr::memmem::find(haystack, b"\x00\x00")
}

/// Where a [`ByteReader`] stands in removing emulation prevention.
#[derive(Copy, Clone, Debug)]
enum ParseState {
    /// Scanning for emulation prevention bytes, with the number (0, 1 or 2) of
    /// consecutive trailing `0x00` bytes.
    Start(u8),
    /// Still skipping this many (non-zero) leading bytes.
    Skip(usize),
    /// The next byte is an emulation-prevention `0x03` to drop.
    Three,
    /// Just after a dropped `0x03`.
    PostThree,
}

spec fn state_model(st: ParseState) -> UnescapeState {
    match st {
        ParseState::Start(z) => UnescapeState::Zeros(z as nat),
        ParseState::Three => UnescapeState::Zeros(2),
        ParseState::PostThree => UnescapeState::PostThree,
        ParseState::Skip(_) => UnescapeState::Zeros(0),
    }
}

spec fn state_rank(st: ParseState) -> int {
    match st {
        ParseState::Three => 1,
        ParseState::Start(_) => 2,
        _ => 3,
    }
}

/// The bytes after the first `skip` of `src` (none if it is shorter).
pub open spec fn body_after(src: Seq<u8>, skip: int) -> Seq<u8> {
    if skip <= src.len() { src.skip(skip) } else { Seq::empty() }
}

/// `pos` bytes of `src` are consumed and the `i` after them are checked RBSP, in state `st`.
spec fn scan_ok(src: Seq<u8>, skip: int, pos: int, i: int, st: ParseState) -> bool {
    match st {
        ParseState::Skip(rem) => rem > 0 && i == 0 && pos + rem == skip,
        _ => {
            &&& 0 <= skip <= pos && 0 <= i && pos + i <= src.len()
            &&& (st matches ParseState::Start(z) ==> z <= 2)
            &&& !unescape(src.subrange(skip, pos)).failed
            &&& unescape_from(unescape(src.subrange(skip, pos)).state, src.subrange(pos, pos + i))
                == (Unescaped { out: src.subrange(pos, pos + i), state: state_model(st), failed: false })
            &&& (st is Three ==> pos + i < src.len() && src[pos + i] == 3)
        },
    }
}

/// What a [`ByteReader`] has read: the bytes its inner reader held at the start, how many
/// leading bytes it skips, how many bytes of the inner reader it has consumed, and how many
/// checked RBSP bytes after those are ready to hand out.
pub ghost struct ByteReaderView {
    pub src: Seq<u8>,
    pub skip: nat,
    pub pos: nat,
    pub pending: nat,
    pub complete: bool,
}

impl ByteReaderView {
    /// The RBSP that the whole input decodes to (the bytes before any invalid sequence).
    pub open spec fn rbsp(self) -> Unescaped {
        unescape(body_after(self.src, self.skip as int))
    }

    /// The RBSP bytes handed out and consumed so far.
    pub open spec fn delivered(self) -> Seq<u8> {
        if self.pos > self.skip {
            unescape(self.src.subrange(self.skip as int, self.pos as int)).out
        } else {
            Seq::empty()
        }
    }

    /// The RBSP bytes ready to hand out.
    pub open spec fn pending_bytes(self) -> Seq<u8> {
        self.src.subrange(self.pos as int, (self.pos + self.pending) as int)
    }
}

/// Adapter which returns RBSP from NAL bytes.
///
/// This optionally skips a given number of leading bytes, then returns any bytes except the
/// `emulation-prevention-three` bytes. Returns an error on invalid byte sequences.
pub struct ByteReader<'a> {
    // The `i` bytes at the start of the inner reader's current chunk have not been handed
    // out yet and are RBSP; `state` describes the state before the byte after them.
    inner: RefNalReader<'a>,
    state: ParseState,
    i: usize,
    /// The maximum number of bytes examined in a fresh chunk.
    max_fill: usize,
    src: Ghost<Seq<u8>>,
    skip: Ghost<nat>,
}

impl<'a> View for ByteReader<'a> {
    type V = ByteReaderView;

    closed spec fn view(&self) -> ByteReaderView {
        ByteReaderView {
            src: self.src@,
            skip: self.skip@,
            pos: (self.src@.len() - self.inner@.rest().len()) as nat,
            pending: self.i as nat,
            complete: self.inner@.complete,
        }
    }
}

proof fn lemma_cur_in_src(src: Seq<u8>, v: RefNalReaderView, pos: int, k: int)
    requires
        v.rest() == src.skip(pos),
        0 <= pos <= src.len(),
        0 <= k <= v.cur.len(),
    ensures
        v.cur.take(k) == src.subrange(pos, pos + k),
        pos + k <= src.len(),
{
    assert(v.rest().len() >= v.cur.len());
    assert(v.cur.take(k) =~= src.subrange(pos, pos + k)) by {
        assert forall|j: int| 0 <= j < k implies v.cur.take(k)[j] == src.subrange(pos, pos + k)[j] by {
            assert(v.rest()[j] == v.cur[j]);
            assert(src.skip(pos)[j] == src[pos + j]);
        }
    }
}


/// Scans `chunk[i..limit]` from a state with `zc` trailing zeros for the byte right after
/// the first `0x00 0x00` pair: `Ok` with its index, or `Err` with the trailing zero count
/// at `limit` when no such byte comes before `limit`.
fn find_after_pair(chunk: &[u8], i: usize, limit: usize, zc: u8) -> (r: Result<usize, u8>)
    requires
        i < limit <= chunk@.len(),
        zc <= 2,
    ensures
        match r {
            Ok(ap) => {
                &&& i <= ap < limit
                &&& unescape_from(UnescapeState::Zeros(zc as nat), chunk@.subrange(i as int, ap as int))
                    == (Unescaped { out: chunk@.subrange(i as int, ap as int), state: UnescapeState::Zeros(2), failed: false })
            },
            Err(z) => {
                &&& z <= 2
                &&& unescape_from(UnescapeState::Zeros(zc as nat), chunk@.subrange(i as int, limit as int))
                    == (Unescaped { out: chunk@.subrange(i as int, limit as int), state: UnescapeState::Zeros(z as nat), failed: false })
            },
        },
{
    if zc >= 2 {
        // Two trailing zeros carried from before.
        proof {
            assert(chunk@.subrange(i as int, i as int) =~= Seq::<u8>::empty());
        }
        return Ok(i);
    }
    if zc == 1 && chunk[i] == 0 {
        // One trailing zero and this 0x00 make a pair.
        proof {
            lemma_unescape_one(UnescapeState::Zeros(1), 0u8);
            assert(chunk@.subrange(i as int, i + 1) =~= seq![0u8]);
        }
        if i + 1 < limit {
            return Ok(i + 1);
        } else {
            return Err(2);
        }
    }
    // Bulk scan for the next 0x00 0x00 pair.
    let window = vstd::slice::slice_subrange(chunk, i, limit);
    match find_zero_pair(window) {
        Some(offset) => {
            let ap = i + offset + 2;
            proof {
                let r1 = window@.take(offset + 1);
                assert forall|j: int| 0 <= j < r1.len() - 1 implies !(r1[j] == 0 && #[trigger] r1[j + 1] == 0) by {
                    assert(r1[j] == window@[j] && r1[j + 1] == window@[j + 1]);
                }
                assert(r1[0] == chunk@[i as int]);
                lemma_unescape_plain(zc as nat, r1);
                assert(r1.last() == 0);
                lemma_unescape_one(UnescapeState::Zeros(1), 0u8);
                lemma_unescape_append(UnescapeState::Zeros(zc as nat), r1, seq![0u8]);
                assert(r1 + seq![0u8] =~= chunk@.subrange(i as int, ap as int));
            }
            if ap < limit {
                Ok(ap)
            } else {
                Err(2)
            }
        },
        None => {
            let trailing: u8 = if chunk[limit - 1] == 0 { 1 } else { 0 };
            proof {
                assert(window@[0] == chunk@[i as int]);
                lemma_unescape_plain(zc as nat, window@);
                assert(window@ =~= chunk@.subrange(i as int, limit as int));
            }
            Err(trailing)
        },
    }
}

/// Checked bytes `chunk[i..j]` that pass through unchanged extend a consistent scan.
proof fn lemma_extend_scan(src: Seq<u8>, skip: int, pos: int, i: int, j: int, st: ParseState, st2: ParseState, chunk: Seq<u8>)
    requires
        scan_ok(src, skip, pos, i, st),
        !(st is Skip),
        !(st2 is Skip),
        st2 matches ParseState::Start(z) ==> z <= 2,
        chunk == src.subrange(pos, pos + chunk.len()),
        0 <= pos,
        pos + chunk.len() <= src.len(),
        0 <= i <= j <= chunk.len(),
        unescape_from(state_model(st), chunk.subrange(i, j))
            == (Unescaped { out: chunk.subrange(i, j), state: state_model(st2), failed: false }),
        st2 is Three ==> pos + j < src.len() && src[pos + j] == 3,
    ensures
        scan_ok(src, skip, pos, j, st2),
{
    let u = unescape(src.subrange(skip, pos));
    let q = src.subrange(pos, pos + i);
    let r = chunk.subrange(i, j);
    assert(r =~= src.subrange(pos + i, pos + j));
    lemma_unescape_append(u.state, q, r);
    assert(q + r =~= src.subrange(pos, pos + j));
}

/// An invalid byte after checked bytes makes the whole input invalid.
proof fn lemma_scan_fails(src: Seq<u8>, skip: int, pos: int, i: int, st: ParseState)
    requires
        scan_ok(src, skip, pos, i, st),
        !(st is Skip),
        0 <= i,
        pos + i < src.len(),
        unescape_step(state_model(st), src[pos + i]) is None,
    ensures
        unescape(body_after(src, skip)).failed,
{
    let p = src.subrange(skip, pos);
    let q1 = src.subrange(pos, pos + i + 1);
    let q = src.subrange(pos, pos + i);
    let u = unescape(p);
    assert(q1 =~= q + seq![src[pos + i]]);
    lemma_unescape_one(state_model(st), src[pos + i]);
    lemma_unescape_append(u.state, q, seq![src[pos + i]]);
    let full = src.subrange(skip, pos + i + 1);
    lemma_unescape_append(UnescapeState::Zeros(0), p, q1);
    assert(p + q1 =~= full);
    let body = body_after(src, skip);
    assert(body.take(full.len() as int) =~= full);
    lemma_unescape_failed_persists(UnescapeState::Zeros(0), body, full.len() as int);
}

/// Dropping the pending emulation-prevention `0x03` keeps the scan consistent.
proof fn lemma_drop_three(src: Seq<u8>, skip: int, pos: int)
    requires
        scan_ok(src, skip, pos, 0, ParseState::Three),
    ensures
        scan_ok(src, skip, pos + 1, 0, ParseState::PostThree),
        unescape(src.subrange(skip, pos + 1)).out == unescape(src.subrange(skip, pos)).out,
{
    let p = src.subrange(skip, pos);
    assert(src.subrange(pos, pos) =~= Seq::<u8>::empty());
    assert(unescape(p).state == UnescapeState::Zeros(2));
    lemma_unescape_one(UnescapeState::Zeros(2), 3u8);
    lemma_unescape_append(UnescapeState::Zeros(0), p, seq![3u8]);
    assert(p + seq![3u8] =~= src.subrange(skip, pos + 1));
    assert(unescape(p).out + Seq::<u8>::empty() =~= unescape(p).out);
    assert(src.subrange(pos + 1, pos + 1) =~= Seq::<u8>::empty());
}

impl<'a> ByteReader<'a> {
    /// The reader's internal consistency.
    pub closed spec fn wf(self) -> bool {
        let pos = (self.src@.len() - self.inner@.rest().len()) as nat;
        &&& self.inner@.wf()
        &&& self.inner@.rest().len() <= self.src@.len()
        &&& self.inner@.rest() == self.src@.skip(pos as int)
        &&& self.max_fill >= 1
        &&& self.i <= self.inner@.cur.len()
        &&& scan_ok(self.src@, self.skip@ as int, pos as int, self.i as int, self.state)
    }

    spec fn measure(self) -> int {
        self.inner@.rest().len() * 4 + state_rank(self.state)
    }

    fn with_state(inner: RefNalReader<'a>, state: ParseState, max_fill: usize) -> (r: ByteReader<'a>)
        requires
            max_fill >= 1,
            match state {
                ParseState::Skip(n) => n > 0,
                ParseState::Start(z) => z == 0,
                _ => false,
            },
        ensures
            r.wf(),
            r@.src == inner@.rest(),
            r@.skip == (match state { ParseState::Skip(n) => n as nat, _ => 0nat }),
            r@.pos == 0,
            r@.pending == 0,
            r@.complete == inner@.complete,
    {
        proof {
            use_type_invariant(&inner);
            assert(inner@.rest().skip(0) =~= inner@.rest());
            let e = inner@.rest().subrange(0, 0);
            assert(e =~= Seq::<u8>::empty());
        }
        let r = ByteReader {
            inner,
            state,
            i: 0,
            max_fill,
            src: Ghost(inner@.rest()),
            skip: Ghost(match state { ParseState::Skip(n) => n as nat, _ => 0nat }),
        };
        assert(r@.pos == 0);
        assert(r.inner@.rest() == r.src@.skip(0));
        assert(scan_ok(r.src@, r.skip@ as int, 0, 0, r.state));
        r
    }

    /// Constructs an adapter from the given reader which does not skip any initial bytes.
    pub fn without_skip(inner: RefNalReader<'a>) -> (r: ByteReader<'a>)
        ensures
            r.wf(),
            r@ == (ByteReaderView { src: inner@.rest(), skip: 0, pos: 0, pending: 0, complete: inner@.complete }),
    {
        ByteReader::with_state(inner, ParseState::Start(0), 128)
    }

    /// Constructs an adapter from the given reader which skips the 1-byte H.264 header.
    pub fn skipping_h264_header(inner: RefNalReader<'a>) -> (r: ByteReader<'a>)
        ensures
            r.wf(),
            r@ == (ByteReaderView { src: inner@.rest(), skip: 1, pos: 0, pending: 0, complete: inner@.complete }),
    {
        ByteReader::with_state(inner, ParseState::Skip(1), 128)
    }

    /// Constructs an adapter from the given reader which will skip over the first `skip`
    /// (non-zero) bytes.
    pub fn skipping_bytes(inner: RefNalReader<'a>, skip: usize) -> (r: ByteReader<'a>)
        requires
            skip > 0,
        ensures
            r.wf(),
            r@ == (ByteReaderView { src: inner@.rest(), skip: skip as nat, pos: 0, pending: 0, complete: inner@.complete }),
    {
        ByteReader::with_state(inner, ParseState::Skip(skip), 128)
    }

    /// Borrows the underlying reader.
    pub fn reader(&self) -> (r: &RefNalReader<'a>)
        requires
            self.wf(),
        ensures
            r@.rest() == self@.src.skip(self@.pos as int),
            r@.complete == self@.complete,
    {
        &self.inner
    }


    /// Consumes leading bytes that are skipped, from a chunk of `chunk_len` bytes.
    fn skip_leading(&mut self, remaining: usize, chunk_len: usize)
        requires
            old(self).wf(),
            old(self).i == 0,
            old(self).state == ParseState::Skip(remaining),
            chunk_len == old(self).inner@.cur.len(),
            chunk_len > 0,
        ensures
            final(self).wf(),
            final(self).i == 0,
            final(self)@.src == old(self)@.src,
            final(self)@.skip == old(self)@.skip,
            final(self)@.complete == old(self)@.complete,
            final(self)@.pos > old(self)@.pos,
            final(self)@.delivered() == old(self)@.delivered(),
            final(self).measure() < old(self).measure(),
    {
        let ghost src = self.src@;
        let ghost skip: int = self.skip@ as int;
        let ghost pos: int = src.len() - self.inner@.rest().len();
        proof { use_type_invariant(&self.inner); }
        let n: usize = if chunk_len < remaining { chunk_len } else { remaining };
        self.inner.consume(n);
        if remaining - n == 0 {
            self.state = ParseState::Start(0);
            proof {
                assert(src.subrange(skip, skip) =~= Seq::<u8>::empty());
                assert(src.subrange(pos + n, pos + n) =~= Seq::<u8>::empty());
            }
        } else {
            self.state = ParseState::Skip(remaining - n);
        }
        proof {
            use_type_invariant(&self.inner);
            assert(src.skip(pos).skip(n as int) =~= src.skip(pos + n));
        }
    }

    /// Consumes the pending emulation-prevention `0x03` byte.
    fn drop_three(&mut self)
        requires
            old(self).wf(),
            old(self).i == 0,
            old(self).state == ParseState::Three,
        ensures
            final(self).wf(),
            final(self).i == 0,
            final(self)@.src == old(self)@.src,
            final(self)@.skip == old(self)@.skip,
            final(self)@.complete == old(self)@.complete,
            final(self)@.pos > old(self)@.pos,
            final(self)@.delivered() == old(self)@.delivered(),
            final(self).measure() < old(self).measure(),
    {
        let ghost src = self.src@;
        let ghost skip: int = self.skip@ as int;
        let ghost pos: int = src.len() - self.inner@.rest().len();
        proof {
            use_type_invariant(&self.inner);
            lemma_cur_in_src(src, self.inner@, pos, 0);
            assert(self.inner@.rest().len() > 0);
        }
        self.inner.consume(1);
        self.state = ParseState::PostThree;
        proof {
            use_type_invariant(&self.inner);
            assert(src.skip(pos).skip(1) =~= src.skip(pos + 1));
            lemma_drop_three(src, skip, pos);
        }
    }

    /// Examines a fresh chunk; called when no checked bytes are pending. Returns `false` at
    /// the end of a complete input.
    fn try_fill_buf_slow(&mut self) -> (r: Result<bool, IoError>)
        requires
            old(self).wf(),
            old(self).i == 0,
        ensures
            final(self).wf(),
            final(self)@.src == old(self)@.src,
            final(self)@.skip == old(self)@.skip,
            final(self)@.complete == old(self)@.complete,
            final(self)@.pos >= old(self)@.pos,
            final(self)@.delivered() == old(self)@.delivered(),
            match r {
                Ok(true) => final(self).i > 0 || final(self).measure() < old(self).measure(),
                Ok(false) => final(self).inner@.rest().len() == 0 && old(self)@.complete && final(self).i == 0,
                Err(e) => {
                    ||| e.kind == ErrorKind::InvalidData && old(self)@.rbsp().failed
                    ||| e.kind == ErrorKind::WouldBlock && !old(self)@.complete
                        && final(self).inner@.rest().len() == 0
                },
            },
    {
        let ghost src = self.src@;
        let ghost skip: int = self.skip@ as int;
        let ghost pos: int = src.len() - self.inner@.rest().len();
        proof { use_type_invariant(&self.inner); }
        let chunk = match self.inner.fill_buf() {
            Ok(c) => c,
            Err(e) => {
                return Err(e);
            },
        };
        if chunk.len() == 0 {
            return Ok(false);
        }
        proof {
            lemma_cur_in_src(src, self.inner@, pos, chunk@.len() as int);
            assert(chunk@.take(chunk@.len() as int) =~= chunk@);
        }
        let limit: usize = if chunk.len() < self.max_fill { chunk.len() } else { self.max_fill };
        match self.state {
            ParseState::Skip(remaining) => {
                self.skip_leading(remaining, chunk.len());
                return Ok(true);
            },
            ParseState::Three => {
                self.drop_three();
                return Ok(true);
            },
            _ => {},
        }
        let mut i: usize = 0;
        let mut st: ParseState = self.state;
        assert(!(st is Skip) && !(st is Three));
        while i < limit
            invariant
                *self == *old(self),
                self.wf(),
                self.i == 0,
                self.src@ == src,
                self.skip@ == skip,
                pos + chunk@.len() <= src.len(),
                pos == src.len() - self.inner@.rest().len(),
                chunk@ == self.inner@.cur,
                chunk@.len() > 0,
                chunk@ == src.subrange(pos, pos + chunk@.len()),
                1 <= limit <= chunk@.len(),
                i <= limit,
                scan_ok(src, skip, pos, i as int, st),
                !(st is Skip),
                !(st is Three),
                st == self.state || i > 0 || state_rank(st) < state_rank(self.state),
            decreases limit - i,
        {
            let after_pair: usize;
            if let ParseState::Start(zero_count) = st {
                match find_after_pair(chunk, i, limit, zero_count) {
                    Err(z) => {
                        proof { lemma_extend_scan(src, skip, pos, i as int, limit as int, st, ParseState::Start(z), chunk@); }
                        i = limit;
                        st = ParseState::Start(z);
                        continue;
                    },
                    Ok(ap) => {
                        proof { lemma_extend_scan(src, skip, pos, i as int, ap as int, st, ParseState::Start(2), chunk@); }
                        i = ap;
                        st = ParseState::Start(2);
                        after_pair = ap;
                    },
                }
            } else {
                after_pair = i;
            }
            // Check the byte after a 0x00 0x00 pair, or after a dropped 0x03.
            let b = chunk[after_pair];
            proof { assert(src[pos + after_pair] == b); }
            let next: Option<ParseState> = match st {
                ParseState::PostThree => if b == 0 {
                    Some(ParseState::Start(1))
                } else if b <= 3 {
                    Some(ParseState::Start(0))
                } else {
                    None
                },
                _ => if b == 3 {
                    Some(ParseState::Three)
                } else if b == 0 {
                    None
                } else {
                    Some(ParseState::Start(0))
                },
            };
            match next {
                None => {
                    self.i = i;
                    self.state = st;
                    proof { lemma_scan_fails(src, skip, pos, i as int, st); }
                    return Err(IoError { kind: ErrorKind::InvalidData });
                },
                Some(ParseState::Three) => {
                    self.i = i;
                    self.state = ParseState::Three;
                    return Ok(true);
                },
                Some(st2) => {
                    proof {
                        lemma_unescape_one(state_model(st), b);
                        assert(chunk@.subrange(i as int, i + 1) =~= seq![b]);
                    }
                    proof { lemma_extend_scan(src, skip, pos, i as int, i + 1, st, st2, chunk@); }
                    i = i + 1;
                    st = st2;
                },
            }
        }
        self.i = i;
        self.state = st;
        Ok(true)
    }
}


/// Whether `a` is a prefix of `b`.
pub open spec fn is_prefix(a: Seq<u8>, b: Seq<u8>) -> bool {
    a.len() <= b.len() && b.take(a.len() as int) == a
}

/// Splits bytes that pass through unchanged into two parts that each pass through.
proof fn lemma_unescape_split(st: UnescapeState, q: Seq<u8>, amt: int)
    requires
        0 <= amt <= q.len(),
        !unescape_from(st, q).failed,
        unescape_from(st, q).out == q,
    ensures
        !unescape_from(st, q.take(amt)).failed,
        unescape_from(st, q.take(amt)).out == q.take(amt),
        unescape_from(unescape_from(st, q.take(amt)).state, q.skip(amt)) == unescape_from(st, q).with_out(q.skip(amt)),
{
    let a = q.take(amt);
    let b = q.skip(amt);
    assert(a + b =~= q);
    lemma_unescape_append(st, a, b);
    let ua = unescape_from(st, a);
    let ub = unescape_from(ua.state, b);
    lemma_unescape_out_len(st, a);
    lemma_unescape_out_len(ua.state, b);
    assert(ua.out =~= q.take(amt)) by {
        assert(ua.out + ub.out == q);
        assert forall|j: int| 0 <= j < amt implies ua.out[j] == q[j] by {
            assert((ua.out + ub.out)[j] == ua.out[j]);
        }
    }
    assert(ub.out =~= b) by {
        assert forall|j: int| 0 <= j < b.len() implies ub.out[j] == b[j] by {
            assert((ua.out + ub.out)[amt + j] == ub.out[j]);
        }
    }
}

impl Unescaped {
    /// The same outcome with another output.
    pub open spec fn with_out(self, out: Seq<u8>) -> Unescaped {
        Unescaped { out, ..self }
    }
}

/// Checked bytes extend what was delivered to a prefix of the whole RBSP.
proof fn lemma_pending_prefix(src: Seq<u8>, skip: int, pos: int, i: int, st: ParseState)
    requires
        scan_ok(src, skip, pos, i, st),
        !(st is Skip),
    ensures
        unescape(src.subrange(skip, pos + i)).out
            == unescape(src.subrange(skip, pos)).out + src.subrange(pos, pos + i),
        !unescape(src.subrange(skip, pos + i)).failed,
        unescape(src.subrange(skip, pos + i)).state == state_model(st),
        is_prefix(unescape(src.subrange(skip, pos)).out + src.subrange(pos, pos + i),
            unescape(body_after(src, skip)).out),
{
    let p = src.subrange(skip, pos);
    let q = src.subrange(pos, pos + i);
    lemma_unescape_append(UnescapeState::Zeros(0), p, q);
    assert(p + q =~= src.subrange(skip, pos + i));
    let body = body_after(src, skip);
    assert(body.take(pos + i - skip) =~= src.subrange(skip, pos + i));
    lemma_unescape_prefix(UnescapeState::Zeros(0), body, pos + i - skip);
}

impl<'a> ByteReader<'a> {
    /// What a reader has delivered is always a prefix of the whole RBSP.
    pub proof fn lemma_delivered_prefix(&self)
        requires
            self.wf(),
        ensures
            is_prefix(self@.delivered(), self@.rbsp().out),
    {
        let src = self@.src;
        let skip = self@.skip as int;
        let pos = self@.pos as int;
        if pos > skip {
            let body = body_after(src, skip);
            assert(body.take(pos - skip) =~= src.subrange(skip, pos));
            lemma_unescape_prefix(UnescapeState::Zeros(0), body, pos - skip);
        } else {
            assert(self@.rbsp().out.take(0) =~= Seq::<u8>::empty());
        }
    }

    /// The checked RBSP bytes ready to hand out, empty only at the end of a complete input;
    /// or [`ErrorKind::InvalidData`] on an invalid byte sequence, or
    /// [`ErrorKind::WouldBlock`] at the end of a partially-buffered input.
    pub fn fill_buf(&mut self) -> (r: Result<&'a [u8], IoError>)
        requires
            old(self).wf(),
        ensures
            final(self).wf(),
            final(self)@.src == old(self)@.src,
            final(self)@.skip == old(self)@.skip,
            final(self)@.complete == old(self)@.complete,
            final(self)@.delivered() == old(self)@.delivered(),
            final(self)@.pos >= old(self)@.pos,
            match r {
                Ok(b) => {
                    &&& b@ == final(self)@.pending_bytes()
                    &&& is_prefix(final(self)@.delivered() + b@, final(self)@.rbsp().out)
                    &&& (b@.len() == 0 ==> {
                        &&& final(self)@.complete
                        &&& !final(self)@.rbsp().failed
                        &&& final(self)@.delivered() == final(self)@.rbsp().out
                    })
                },
                Err(e) => {
                    ||| e.kind == ErrorKind::InvalidData && old(self)@.rbsp().failed
                    ||| e.kind == ErrorKind::WouldBlock && !old(self)@.complete && final(self)@.pos == final(self)@.src.len()
                },
            },
    {
        loop
            invariant
                self.wf(),
                self@.src == old(self)@.src,
                self@.skip == old(self)@.skip,
                self@.complete == old(self)@.complete,
                self@.delivered() == old(self)@.delivered(),
                self@.pos >= old(self)@.pos,
            ensures
                self.i > 0 || (self.inner@.rest().len() == 0 && self.inner@.complete),
            decreases (if self.i == 0 { self.measure() } else { 0 }),
        {
            if self.i > 0 {
                break;
            }
            match self.try_fill_buf_slow() {
                Err(e) => {
                    return Err(e);
                },
                Ok(false) => {
                    break;
                },
                Ok(true) => {},
            }
        }
        proof { use_type_invariant(&self.inner); }
        let ghost pos: int = self@.pos as int;
        let c = match self.inner.fill_buf() {
            Ok(c) => c,
            Err(e) => {
                return Err(e);
            },
        };
        let b = vstd::slice::slice_subrange(c, 0, self.i);
        proof {
            let src = self@.src;
            let skip: int = self@.skip as int;
            lemma_cur_in_src(src, self.inner@, pos, self.i as int);
            assert(b@ =~= c@.take(self.i as int));
            if self.state is Skip {
                assert(body_after(src, skip) =~= Seq::<u8>::empty());
                assert(b@ =~= Seq::<u8>::empty());
                assert(self@.delivered() + b@ =~= Seq::<u8>::empty());
            } else {
                lemma_pending_prefix(src, skip, pos, self.i as int, self.state);
                if pos == skip {
                    assert(src.subrange(skip, pos) =~= Seq::<u8>::empty());
                }
                if self.i == 0 {
                    assert(src.subrange(skip, pos) =~= body_after(src, skip));
                    assert(b@ =~= Seq::<u8>::empty());
                    assert(self@.delivered() + b@ =~= self@.delivered());
                }
            }
        }
        Ok(b)
    }

    /// Marks `amt` of the pending bytes as read.
    pub fn consume(&mut self, amt: usize)
        requires
            old(self).wf(),
            amt <= old(self)@.pending,
        ensures
            final(self).wf(),
            final(self)@.src == old(self)@.src,
            final(self)@.skip == old(self)@.skip,
            final(self)@.complete == old(self)@.complete,
            final(self)@.pos == old(self)@.pos + amt,
            final(self)@.pending == old(self)@.pending - amt,
            final(self)@.delivered() == old(self)@.delivered() + old(self)@.pending_bytes().take(amt as int),
    {
        let ghost src = self@.src;
        let ghost skip: int = self@.skip as int;
        let ghost pos: int = self@.pos as int;
        let ghost i: int = self.i as int;
        proof {
            use_type_invariant(&self.inner);
            lemma_cur_in_src(src, self.inner@, pos, i as int);
        }
        self.i = self.i - amt;
        self.inner.consume(amt);
        proof {
            use_type_invariant(&self.inner);
            assert(src.skip(pos).skip(amt as int) =~= src.skip(pos + amt));
            let q = src.subrange(pos, pos + i);
            if self.state is Skip {
                assert(q.take(amt as int) =~= Seq::<u8>::empty());
            } else {
                let p = src.subrange(skip, pos);
                let u = unescape(p);
                lemma_unescape_split(u.state, q, amt as int);
                lemma_unescape_append(UnescapeState::Zeros(0), p, q.take(amt as int));
                assert(p + q.take(amt as int) =~= src.subrange(skip, pos + amt));
                assert(q.skip(amt as int) =~= src.subrange(pos + amt, pos + i));
                if pos == skip {
                    assert(p =~= Seq::<u8>::empty());
                    assert(u.out + q.take(amt as int) =~= q.take(amt as int));
                }
                if amt == 0 {
                    assert(q.take(0) =~= Seq::<u8>::empty());
                    assert(u.out + q.take(0) =~= u.out);
                }
            }
        }
    }

    /// Reads pending RBSP bytes into the start of `buf`.
    #[verifier::spinoff_prover]
    #[verifier::rlimit(40)]
    pub fn read(&mut self, buf: &mut [u8]) -> (r: Result<usize, IoError>)
        requires
            old(self).wf(),
        ensures
            final(self).wf(),
            final(self)@.src == old(self)@.src,
            final(self)@.skip == old(self)@.skip,
            final(self)@.complete == old(self)@.complete,
            final(buf)@.len() == old(buf)@.len(),
            is_prefix(old(self)@.delivered(), final(self)@.delivered()),
            match r {
                Ok(n) => {
                    &&& n <= old(buf)@.len()
                    &&& final(self)@.delivered() == old(self)@.delivered() + final(buf)@.take(n as int)
                    &&& final(buf)@.skip(n as int) == old(buf)@.skip(n as int)
                    &&& is_prefix(final(self)@.delivered(), final(self)@.rbsp().out)
                    &&& (n == 0 && old(buf)@.len() > 0 ==> {
                        &&& final(self)@.complete
                        &&& !final(self)@.rbsp().failed
                        &&& final(self)@.delivered() == final(self)@.rbsp().out
                    })
                },
                Err(e) => {
                    &&& final(self)@.delivered() == old(self)@.delivered()
                    &&& {
                        ||| e.kind == ErrorKind::InvalidData && old(self)@.rbsp().failed
                        ||| e.kind == ErrorKind::WouldBlock && !old(self)@.complete
                    }
                },
            },
    {
        let chunk = match self.fill_buf() {
            Ok(c) => c,
            Err(e) => {
                assert(old(self)@.delivered().take(old(self)@.delivered().len() as int) =~= old(self)@.delivered());
                return Err(e);
            },
        };
        let amt: usize = if buf.len() < chunk.len() { buf.len() } else { chunk.len() };
        let ghost b0 = buf@;
        let mut k: usize = 0;
        while k < amt
            invariant
                amt <= buf@.len(),
                amt <= chunk@.len(),
                k <= amt,
                buf@.len() == b0.len(),
                forall|j: int| 0 <= j < k ==> buf@[j] == chunk@[j],
                forall|j: int| k <= j < buf@.len() ==> buf@[j] == b0[j],
            decreases amt - k,
        {
            buf[k] = chunk[k];
            k = k + 1;
        }
        let ghost d0 = self@.delivered();
        self.consume(amt);
        proof {
            assert(buf@.take(amt as int) =~= chunk@.take(amt as int));
            assert(buf@.skip(amt as int) =~= b0.skip(amt as int));
            let d1 = self@.delivered();
            assert(d1.take(d0.len() as int) =~= d0);
            let full = self@.rbsp().out;
            assert(d0 + chunk@ == full.take((d0 + chunk@).len() as int));
            assert(d1 =~= full.take(d1.len() as int)) by {
                assert forall|j: int| 0 <= j < d1.len() implies d1[j] == full[j] by {
                    assert(d1[j] == (d0 + chunk@)[j]);
                }
            }
            assert(old(self)@.delivered() == d0);
        }
        Ok(amt)
    }

    /// Appends every remaining RBSP byte to `buf`. Succeeds exactly when the input is
    /// complete and valid; on an error, the bytes handed out before it are appended.
    pub fn read_to_end(&mut self, buf: &mut Vec<u8>) -> (r: Result<usize, IoError>)
        requires
            old(self).wf(),
        ensures
            final(self).wf(),
            final(self)@.src == old(self)@.src,
            final(self)@.skip == old(self)@.skip,
            final(self)@.complete == old(self)@.complete,
            is_prefix(old(self)@.delivered(), final(self)@.delivered()),
            is_prefix(final(self)@.delivered(), final(self)@.rbsp().out),
            final(buf)@ == old(buf)@ + final(self)@.delivered().skip(old(self)@.delivered().len() as int),
            (r is Ok) == (old(self)@.complete && !old(self)@.rbsp().failed),
            match r {
                Ok(n) => {
                    &&& final(self)@.delivered() == old(self)@.rbsp().out
                    &&& n == old(self)@.rbsp().out.len() - old(self)@.delivered().len()
                },
                Err(e) => {
                    ||| e.kind == ErrorKind::InvalidData && old(self)@.rbsp().failed
                    ||| e.kind == ErrorKind::WouldBlock && !old(self)@.complete
                },
            },
    {
        let ghost d0 = self@.delivered();
        let ghost b0 = buf@;
        let mut total: usize = 0;
        assert(d0.skip(d0.len() as int) =~= Seq::<u8>::empty());
        assert(d0.take(d0.len() as int) =~= d0);
        assert(b0 + Seq::<u8>::empty() =~= b0);
        loop
            invariant
                self.wf(),
                self@.src == old(self)@.src,
                self@.skip == old(self)@.skip,
                self@.complete == old(self)@.complete,
                d0 == old(self)@.delivered(),
                b0 == old(buf)@,
                is_prefix(d0, self@.delivered()),
                buf@ == b0 + self@.delivered().skip(d0.len() as int),
                total == self@.delivered().len() - d0.len(),
            decreases self@.src.len() - self@.pos,
        {
            let ghost d1 = self@.delivered();
            let chunk = match self.fill_buf() {
                Ok(c) => c,
                Err(e) => {
                    proof { self.lemma_delivered_prefix(); }
                    return Err(e);
                },
            };
            if chunk.len() == 0 {
                proof { self.lemma_delivered_prefix(); }
                return Ok(total);
            }
            buf.extend_from_slice(chunk);
            let n = chunk.len();
            let _len = buf.len();
            self.consume(n);
            proof {
                assert(chunk@.take(n as int) =~= chunk@);
                let d2 = self@.delivered();
                assert(d2 == d1 + chunk@);
                assert(d2.take(d0.len() as int) =~= d0) by {
                    assert(d1.take(d0.len() as int) =~= d0);
                    assert forall|j: int| 0 <= j < d0.len() implies d2[j] == d1[j] by {}
                }
                assert(d2.skip(d0.len() as int) =~= d1.skip(d0.len() as int) + chunk@);
                assert(b0 + (d1.skip(d0.len() as int) + chunk@) =~= b0 + d1.skip(d0.len() as int) + chunk@);
            }
            total = total + n;
        }
    }
}


/// `data` and `end` are what a consumer gets from reading a byte reader in state `v` to its
/// end: the RBSP bytes after those already delivered, then how the input ended.
pub open spec fn rest_read(data: Seq<u8>, end: ErrorKind, v: ByteReaderView) -> bool {
    &&& is_prefix(v.delivered() + data, v.rbsp().out)
    &&& (end == ErrorKind::UnexpectedEof) == (v.complete && !v.rbsp().failed)
    &&& end == ErrorKind::UnexpectedEof ==> v.delivered() + data == v.rbsp().out
    &&& end == ErrorKind::InvalidData ==> v.rbsp().failed
    &&& end == ErrorKind::WouldBlock ==> !v.complete
}

impl<'a> ByteReader<'a> {
    /// Appends every remaining RBSP byte to `buf` and returns how the input ended:
    /// [`ErrorKind::UnexpectedEof`] at the end of a complete, valid input, or the error
    /// that stopped reading.
    pub fn read_rest(self, buf: &mut Vec<u8>) -> (end: ErrorKind)
        requires
            self.wf(),
        ensures
            final(buf)@.len() >= old(buf)@.len(),
            final(buf)@.take(old(buf)@.len() as int) == old(buf)@,
            rest_read(final(buf)@.skip(old(buf)@.len() as int), end, self@),
    {
        let ghost start = self@;
        let ghost b0 = buf@;
        let mut reader = self;
        let res = reader.read_to_end(buf);
        proof {
            let data = buf@.skip(b0.len() as int);
            let d1 = reader@.delivered();
            assert(buf@.take(b0.len() as int) =~= b0);
            assert(data =~= d1.skip(start.delivered().len() as int));
            assert(start.delivered() + data =~= d1);
        }
        match res {
            Ok(_) => ErrorKind::UnexpectedEof,
            Err(e) => e.kind,
        }
    }
}


/// Reading an `n`-bit field into a `u32`: a field wider than the type fails with
/// [`ErrorKind::InvalidInput`] before anything is read.
pub open spec fn spec_read_u32_bits(s: BitStream, n: nat, name: &'static str) -> Result<(u32, BitStream), BitReaderError> {
    if n > 32 {
        Err(BitReaderError::ReaderError(name, ErrorKind::InvalidInput))
    } else {
        match spec_read_bits(s, n) {
            None => Err(BitReaderError::ReaderError(name, s.end)),
            Some((v, s2)) => Ok((v as u32, s2)),
        }
    }
}

/// Reading an `n`-bit two's complement field into an `i32`: a field wider than the type, or
/// of no bits, fails with [`ErrorKind::InvalidInput`] before anything is read.
pub open spec fn spec_read_i32_bits(s: BitStream, n: nat, name: &'static str) -> Result<(i32, BitStream), BitReaderError> {
    if n > 32 || n == 0 {
        Err(BitReaderError::ReaderError(name, ErrorKind::InvalidInput))
    } else {
        match spec_read_bits(s, n) {
            None => Err(BitReaderError::ReaderError(name, s.end)),
            Some((v, s2)) => Ok((<i32 as Integer>::spec_from_bits(v, n), s2)),
        }
    }
}

impl BitReader {
    /// Reads a field of `bit_count` bits into a `u32`.
    pub fn read_u32_bits(&mut self, bit_count: u32, name: &'static str) -> (r: Result<u32, BitReaderError>)
        ensures
            match spec_read_u32_bits(old(self)@, bit_count as nat, name) {
                Ok((v, s2)) => r == Ok::<u32, BitReaderError>(v) && final(self)@ == s2,
                Err(e) => r == Err::<u32, BitReaderError>(e) && final(self)@ == old(self)@,
            },
    {
        if bit_count > 32 {
            return Err(BitReaderError::ReaderError(name, ErrorKind::InvalidInput));
        }
        self.read_var::<u32>(bit_count, name)
    }

    /// Reads a two's complement field of `bit_count` bits into an `i32`.
    pub fn read_i32_bits(&mut self, bit_count: u32, name: &'static str) -> (r: Result<i32, BitReaderError>)
        ensures
            match spec_read_i32_bits(old(self)@, bit_count as nat, name) {
                Ok((v, s2)) => r == Ok::<i32, BitReaderError>(v) && final(self)@ == s2,
                Err(e) => r == Err::<i32, BitReaderError>(e) && final(self)@ == old(self)@,
            },
    {
        if bit_count > 32 || bit_count == 0 {
            return Err(BitReaderError::ReaderError(name, ErrorKind::InvalidInput));
        }
        self.read_var::<i32>(bit_count, name)
    }
}


impl BitReader {
    /// Creates a reader over every RBSP byte that `reader` still hands out, ending as
    /// `reader` does.
    pub fn from_byte_reader<'a>(reader: ByteReader<'a>) -> (r: BitReader)
        requires
            reader.wf(),
        ensures
            r@.pos == 0,
            rest_read(r@.data, r@.end, reader@),
    {
        let mut data: Vec<u8> = Vec::new();
        let end = reader.read_rest(&mut data);
        assert(data@.skip(0) =~= data@);
        BitReader::from_parts(data, end)
    }
}


/// The bits of `data`, most significant bit of each byte first.
pub open spec fn bits_of(data: Seq<u8>) -> Seq<bool> {
    Seq::new((8 * data.len()) as nat, |i: int| bit_at(data, i))
}

/// The `n`-bit big-endian representation of `v`, most significant bit first.
pub open spec fn value_bits(v: nat, n: nat) -> Seq<bool>
    decreases n,
{
    if n == 0 {
        Seq::empty()
    } else {
        value_bits(v / 2, (n - 1) as nat).push(v % 2 == 1)
    }
}

/// The number of digits of `v` in binary.
pub open spec fn bit_length(v: nat) -> nat
    decreases v,
{
    if v == 0 {
        0
    } else {
        1 + bit_length(v / 2)
    }
}

/// `n` zero bits.
pub open spec fn zero_bits(n: nat) -> Seq<bool> {
    Seq::new(n, |i: int| false)
}

/// The `ue(v)` code of `v`: one zero bit for each binary digit of `v + 1` after its leading
/// one, then the digits of `v + 1`.
pub open spec fn ue_bits(v: u32) -> Seq<bool> {
    let n = bit_length((v + 1) as nat);
    zero_bits((n - 1) as nat) + value_bits((v + 1) as nat, n)
}

/// The code number of a signed value in the `se(v)` mapping: positive values to odd numbers,
/// the others to even numbers.
pub open spec fn signed_to_golomb(v: i32) -> int {
    if v > 0 {
        2 * v - 1
    } else {
        -2 * v
    }
}

/// The `se(v)` code of `v`.
pub open spec fn se_bits(v: i32) -> Seq<bool> {
    ue_bits(signed_to_golomb(v) as u32)
}

/// The RBSP trailing bits after `len` bits: a one bit, then zero bits up to the next byte
/// boundary.
pub open spec fn trailing_bits(len: nat) -> Seq<bool> {
    seq![true] + zero_bits(((8 - (len + 1) % 8) % 8) as nat)
}

/// Unsigned integer types that bit fields can be written from.
pub trait UnsignedInteger: Integer {
    /// The value.
    spec fn spec_nat(self) -> nat;

    /// The width of the type in bits.
    fn bits_size() -> (r: u32)
        ensures
            r == Self::spec_bits(),
            r <= 32,
    ;

    fn to_u64(self) -> (r: u64)
        ensures
            r == self.spec_nat(),
    ;
}

impl UnsignedInteger for u8 {
    open spec fn spec_nat(self) -> nat {
        self as nat
    }

    fn bits_size() -> (r: u32) {
        8
    }

    fn to_u64(self) -> (r: u64) {
        self as u64
    }
}

impl UnsignedInteger for u16 {
    open spec fn spec_nat(self) -> nat {
        self as nat
    }

    fn bits_size() -> (r: u32) {
        16
    }

    fn to_u64(self) -> (r: u64) {
        self as u64
    }
}

impl UnsignedInteger for u32 {
    open spec fn spec_nat(self) -> nat {
        self as nat
    }

    fn bits_size() -> (r: u32) {
        32
    }

    fn to_u64(self) -> (r: u64) {
        self as u64
    }
}

/// Writes H.264 bitstream syntax elements into a byte vector, most significant bit first.
///
/// This is the write counterpart to [`BitReader`].
pub struct BitWriter {
    out: Vec<u8>,
    /// The bits written after the last complete byte, in the low `nbits` bits.
    partial: u8,
    nbits: u8,
    bits: Ghost<Seq<bool>>,
}

impl View for BitWriter {
    type V = Seq<bool>;

    /// Every bit written, the contents of the initial vector included.
    closed spec fn view(&self) -> Seq<bool> {
        self.bits@
    }
}

proof fn lemma_push_bit(p: u8, bb: u8, k: u8)
    by (bit_vector)
    requires
        bb <= 1,
        k < 7,
    ensures
        (((p << 1u8) | bb) >> ((k + 1) as u8)) & 1u8 == (p >> k) & 1u8,
        ((p << 1u8) | bb) & 1u8 == bb,
        ((p << 1u8) | bb) >> 0u8 == (p << 1u8) | bb,
        (p >> k) == 0u8 ==> ((p << 1u8) | bb) >> ((k + 1) as u8) == 0u8,
{
}

proof fn lemma_shift_step(x: u64, s: u64)
    by (bit_vector)
    requires
        s < 63,
    ensures
        (x >> s) / 2 == x >> ((s + 1) as u64),
        (x >> s) % 2 == (x >> s) & 1u64,
        x >> 0u64 == x,
{
}

impl BitWriter {
    /// The writer's internal consistency.
    pub closed spec fn wf(&self) -> bool {
        &&& self.nbits < 8
        &&& self.partial >> self.nbits == 0u8
        &&& self.bits@.len() == 8 * self.out@.len() + self.nbits
        &&& forall|i: int| 0 <= i < 8 * self.out@.len() ==> #[trigger] self.bits@[i] == bit_at(self.out@, i)
        &&& forall|i: int| 8 * self.out@.len() <= i < self.bits@.len() ==> #[trigger] self.bits@[i]
            == ((self.partial >> ((self.bits@.len() - 1 - i) as u8)) & 1u8 == 1u8)
    }

    /// Creates a writer that appends to `writer`.
    pub fn new(writer: Vec<u8>) -> (w: BitWriter)
        ensures
            w.wf(),
            w@ == bits_of(writer@),
    {
        let ghost bits = bits_of(writer@);
        assert(0u8 >> 0u8 == 0u8) by (bit_vector);
        BitWriter { out: writer, partial: 0, nbits: 0, bits: Ghost(bits) }
    }

    /// The underlying vector, if the written bits end on a byte boundary.
    pub fn writer(&self) -> (r: Option<&Vec<u8>>)
        requires
            self.wf(),
        ensures
            match r {
                Some(v) => self@.len() % 8 == 0 && bits_of(v@) == self@,
                None => self@.len() % 8 != 0,
            },
    {
        if self.nbits == 0 {
            assert(bits_of(self.out@) =~= self@);
            Some(&self.out)
        } else {
            None
        }
    }

    /// Returns the underlying vector. Any unwritten partial bits are discarded.
    pub fn into_writer(self) -> (v: Vec<u8>)
        requires
            self.wf(),
        ensures
            v@.len() == self@.len() / 8,
            bits_of(v@) == self@.take(8 * v@.len() as int),
    {
        assert(bits_of(self.out@) =~= self@.take(8 * self.out@.len() as int));
        self.out
    }

    /// Writes a single bit.
    pub fn write_bit(&mut self, bit: bool) -> (r: Result<(), IoError>)
        requires
            old(self).wf(),
        ensures
            final(self).wf(),
            r is Ok,
            final(self)@ == old(self)@.push(bit),
    {
        self.push_bit(bit);
        Ok(())
    }

    fn push_bit(&mut self, bit: bool)
        requires
            old(self).wf(),
        ensures
            final(self).wf(),
            final(self)@ == old(self)@.push(bit),
    {
        let ghost old_bits = self.bits@;
        let ghost len = self.out@.len();
        let p = self.partial;
        let n = self.nbits;
        let bb: u8 = if bit { 1 } else { 0 };
        let np: u8 = (p << 1u8) | bb;
        proof {
            assert forall|k: u8| k < 7 implies #[trigger] ((np >> ((k + 1) as u8)) & 1u8) == (p >> k) & 1u8 by {
                lemma_push_bit(p, bb, k);
            }
            lemma_push_bit(p, bb, 0);
        }
        if n == 7 {
            self.out.push(np);
            self.partial = 0;
            self.nbits = 0;
            self.bits = Ghost(old_bits.push(bit));
            proof {
                assert(0u8 >> 0u8 == 0u8) by (bit_vector);
                assert forall|i: int| 0 <= i < 8 * self.out@.len() implies #[trigger] self.bits@[i] == bit_at(self.out@, i) by {
                    if i < 8 * len {
                        assert(self.out@[i / 8] == old(self).out@[i / 8]);
                    } else {
                        let j = i - 8 * len;
                        assert(i / 8 == len);
                        assert(i % 8 == j);
                        assert(self.out@[i / 8] == np);
                        if j < 7 {
                            let k = (6 - j) as u8;
                            assert(old_bits[i] == ((p >> k) & 1u8 == 1u8));
                            assert(((np >> ((k + 1) as u8)) & 1u8) == (p >> k) & 1u8);
                        }
                    }
                }
            }
        } else {
            self.partial = np;
            self.nbits = n + 1;
            self.bits = Ghost(old_bits.push(bit));
            proof {
                lemma_push_bit(p, bb, n);
                assert forall|i: int| 8 * self.out@.len() <= i < self.bits@.len() implies #[trigger] self.bits@[i]
                    == ((self.partial >> ((self.bits@.len() - 1 - i) as u8)) & 1u8 == 1u8) by {
                    if i < old_bits.len() {
                        let k = (old_bits.len() - 1 - i) as u8;
                        assert(old_bits[i] == ((p >> k) & 1u8 == 1u8));
                        assert(((np >> ((k + 1) as u8)) & 1u8) == (p >> k) & 1u8);
                    }
                }
            }
        }
    }

    /// Writes the low `bit_count` bits of `value`, most significant first.
    fn push_value(&mut self, bit_count: u32, value: u64)
        requires
            old(self).wf(),
            bit_count <= 32,
            value < vstd::arithmetic::power2::pow2(bit_count as nat),
        ensures
            final(self).wf(),
            final(self)@ == old(self)@ + value_bits(value as nat, bit_count as nat),
    {
        let ghost start = self@;
        proof {
            vstd::bits::lemma_u64_pow2_no_overflow(bit_count as nat);
            vstd::bits::lemma_u64_shr_is_div(value, bit_count as u64);
            vstd::arithmetic::div_mod::lemma_basic_div(value as int, vstd::arithmetic::power2::pow2(bit_count as nat) as int);
            assert(value_bits((value >> (bit_count as u64)) as nat, 0) =~= Seq::<bool>::empty());
            assert(start + Seq::<bool>::empty() =~= start);
        }
        let mut i: u32 = 0;
        while i < bit_count
            invariant
                self.wf(),
                i <= bit_count <= 32,
                self@ == start + value_bits((value >> ((bit_count - i) as u64)) as nat, i as nat),
            decreases bit_count - i,
        {
            let shift: u32 = bit_count - 1 - i;
            let x: u64 = value >> (shift as u64);
            let b = x & 1 == 1;
            self.push_bit(b);
            proof {
                lemma_shift_step(value, shift as u64);
                let xs = value >> (shift as u64);
                assert(value_bits(xs as nat, (i + 1) as nat) == value_bits((xs as nat) / 2, i as nat).push((xs as nat) % 2 == 1));
                assert(start + value_bits(xs as nat, (i + 1) as nat) =~= (start + value_bits((xs as nat) / 2, i as nat)).push(b));
            }
            i = i + 1;
        }
        proof {
            lemma_shift_step(value, 0);
        }
    }

    /// Writes `bit_count` bits of `value`, as the `u(n)` syntax element.
    ///
    /// Fails with [`ErrorKind::InvalidInput`], writing nothing, when `bit_count` exceeds the
    /// width of the type or, for a nonzero count, when the value does not fit in it.
    pub fn write_var<I: UnsignedInteger>(&mut self, bit_count: u32, value: I) -> (r: Result<(), IoError>)
        requires
            old(self).wf(),
        ensures
            final(self).wf(),
            if bit_count > I::spec_bits() || (bit_count > 0
                && value.spec_nat() >= vstd::arithmetic::power2::pow2(bit_count as nat)) {
                r == Err::<(), IoError>(IoError { kind: ErrorKind::InvalidInput }) && final(self)@ == old(self)@
            } else {
                r is Ok && final(self)@ == old(self)@ + value_bits(value.spec_nat(), bit_count as nat)
            },
    {
        if bit_count > I::bits_size() {
            return Err(IoError { kind: ErrorKind::InvalidInput });
        }
        if bit_count == 0 {
            assert(self@ + value_bits(value.spec_nat(), 0) =~= self@);
            return Ok(());
        }
        let v = value.to_u64();
        proof {
            vstd::bits::lemma_u64_pow2_no_overflow(bit_count as nat);
            vstd::bits::lemma_u64_shl_is_mul(1, bit_count as u64);
        }
        let limit: u64 = 1u64 << (bit_count as u64);
        if v >= limit {
            return Err(IoError { kind: ErrorKind::InvalidInput });
        }
        self.push_value(bit_count, v);
        Ok(())
    }

    /// Writes `BITS` bits of `value`, with a statically-known number of bits.
    pub fn write<const BITS: u32, I: UnsignedInteger>(&mut self, value: I) -> (r: Result<(), IoError>)
        requires
            old(self).wf(),
        ensures
            final(self).wf(),
            if BITS > I::spec_bits() || (BITS > 0 && value.spec_nat() >= vstd::arithmetic::power2::pow2(BITS as nat)) {
                r == Err::<(), IoError>(IoError { kind: ErrorKind::InvalidInput }) && final(self)@ == old(self)@
            } else {
                r is Ok && final(self)@ == old(self)@ + value_bits(value.spec_nat(), BITS as nat)
            },
    {
        self.write_var(BITS, value)
    }

    /// Writes an unsigned Exp-Golomb-coded value, the `ue(v)` syntax element.
    pub fn write_ue(&mut self, value: u32) -> (r: Result<(), IoError>)
        requires
            old(self).wf(),
            value < u32::MAX,
        ensures
            final(self).wf(),
            r is Ok,
            final(self)@ == old(self)@ + ue_bits(value),
    {
        let ghost start = self@;
        let code_num: u32 = value + 1;
        let mut bits: u32 = 0;
        let mut x: u32 = code_num;
        proof {
            vstd::arithmetic::power2::lemma2_to64();
        }
        while x > 0
            invariant
                bit_length(code_num as nat) == bits + bit_length(x as nat),
                bits <= 32,
                x < vstd::arithmetic::power2::pow2((32 - bits) as nat),
            decreases x,
        {
            proof {
                vstd::arithmetic::power2::lemma2_to64();
                assert(bits < 32);
                vstd::arithmetic::power2::lemma_pow2_unfold((32 - bits) as nat);
            }
            x = x / 2;
            bits = bits + 1;
        }
        proof {
            lemma_bit_length_bounds(code_num as nat);
            assert(bit_length(code_num as nat) == bits);
        }
        let zeros: u32 = bits - 1;
        let mut i: u32 = 0;
        while i < zeros
            invariant
                self.wf(),
                i <= zeros,
                self@ == start + zero_bits(i as nat),
            decreases zeros - i,
        {
            self.push_bit(false);
            assert(start + zero_bits((i + 1) as nat) =~= (start + zero_bits(i as nat)).push(false));
            i = i + 1;
        }
        proof {
            vstd::arithmetic::power2::lemma2_to64();
            if bits < 32 {
                vstd::arithmetic::power2::lemma_pow2_strictly_increases(bits as nat, 32);
            }
        }
        self.push_value(bits, code_num as u64);
        assert(self@ =~= start + ue_bits(value));
        Ok(())
    }

    /// Writes a signed Exp-Golomb-coded value, the `se(v)` syntax element.
    pub fn write_se(&mut self, value: i32) -> (r: Result<(), IoError>)
        requires
            old(self).wf(),
            value > i32::MIN,
        ensures
            final(self).wf(),
            r is Ok,
            final(self)@ == old(self)@ + se_bits(value),
    {
        let code_num: u32 = if value > 0 {
            (value as u32) * 2 - 1
        } else {
            ((-value) as u32) * 2
        };
        self.write_ue(code_num)
    }

    /// Writes the RBSP trailing bits: a stop bit (1), then zero bits up to a byte boundary.
    #[verifier::spinoff_prover]
    #[verifier::rlimit(40)]
    pub fn write_rbsp_trailing_bits(&mut self) -> (r: Result<(), IoError>)
        requires
            old(self).wf(),
        ensures
            final(self).wf(),
            r is Ok,
            final(self)@ == old(self)@ + trailing_bits(old(self)@.len()),
            final(self)@.len() % 8 == 0,
    {
        let ghost start = self@;
        self.push_bit(true);
        let ghost after_stop = self@;
        let ghost pad = ((8 - (start.len() + 1) % 8) % 8) as nat;
        assert(self@.len() % 8 == self.nbits as int);
        while self.nbits != 0
            invariant
                self.wf(),
                after_stop == start.push(true),
                pad == ((8 - (start.len() + 1) % 8) % 8),
                self@.len() >= after_stop.len(),
                self@.len() - after_stop.len() <= pad,
                self@.len() % 8 == self.nbits as int,
                self@ == after_stop + zero_bits((self@.len() - after_stop.len()) as nat),
            decreases pad - (self@.len() - after_stop.len()),
        {
            let ghost before = self@;
            self.push_bit(false);
            assert(self@ =~= after_stop + zero_bits((self@.len() - after_stop.len()) as nat));
        }
        assert(self@ =~= start + trailing_bits(start.len()));
        Ok(())
    }
}

proof fn lemma_bit_length_bounds(v: nat)
    requires
        v >= 1,
    ensures
        bit_length(v) >= 1,
        vstd::arithmetic::power2::pow2((bit_length(v) - 1) as nat) <= v,
        v < vstd::arithmetic::power2::pow2(bit_length(v)),
    decreases v,
{
    vstd::arithmetic::power2::lemma2_to64();
    if v >= 2 {
        let h = bit_length(v / 2);
        lemma_bit_length_bounds(v / 2);
        assert(bit_length(v) == 1 + h);
        vstd::arithmetic::power2::lemma_pow2_unfold(h + 1);
        assert(vstd::arithmetic::power2::pow2(h + 1) == 2 * vstd::arithmetic::power2::pow2(h));
        vstd::arithmetic::power2::lemma_pow2_unfold(h);
        assert(vstd::arithmetic::power2::pow2(h) == 2 * vstd::arithmetic::power2::pow2((h - 1) as nat));
    } else {
        assert(v == 1);
        assert(bit_length(1) == 1 + bit_length(0));
    }
}

/// The bits at `pos` of `data` are `bits`.
#[verifier::opaque]
pub open spec fn bits_at(data: Seq<u8>, pos: int, bits: Seq<bool>) -> bool {
    &&& 0 <= pos
    &&& pos + bits.len() <= 8 * data.len()
    &&& forall|i: int| pos <= i < pos + bits.len() ==> #[trigger] bit_at(data, i) == bits[i - pos]
}

proof fn lemma_read_value_bits(data: Seq<u8>, pos: int, v: nat, n: nat)
    requires
        bits_at(data, pos, value_bits(v, n)),
        v < vstd::arithmetic::power2::pow2(n),
    ensures
        bits_value(data, pos, n) == v,
    decreases n,
{
    reveal(bits_at);
    lemma_value_bits_len(v, n);
    if n == 0 {
        vstd::arithmetic::power2::lemma2_to64();
    } else {
        let prev = value_bits(v / 2, (n - 1) as nat);
        lemma_value_bits_len(v / 2, (n - 1) as nat);
        assert(value_bits(v, n) == prev.push(v % 2 == 1));
        assert forall|i: int| pos <= i < pos + prev.len() implies #[trigger] bit_at(data, i) == prev[i - pos] by {
            assert(bit_at(data, i) == value_bits(v, n)[i - pos]);
        }
        vstd::arithmetic::power2::lemma_pow2_unfold(n);
        lemma_read_value_bits(data, pos, v / 2, (n - 1) as nat);
        assert(bit_at(data, pos + (n - 1)) == value_bits(v, n)[n - 1]);
    }
}

/// The `n`-bit representation of a value has `n` bits.
pub proof fn lemma_value_bits_len(v: nat, n: nat)
    ensures
        value_bits(v, n).len() == n,
    decreases n,
{
    if n > 0 {
        lemma_value_bits_len(v / 2, (n - 1) as nat);
    }
}

proof fn lemma_value_bits_msb(v: nat, n: nat)
    requires
        n >= 1,
        vstd::arithmetic::power2::pow2((n - 1) as nat) <= v,
        v < vstd::arithmetic::power2::pow2(n),
    ensures
        value_bits(v, n)[0],
    decreases n,
{
    lemma_value_bits_len(v, n);
    vstd::arithmetic::power2::lemma2_to64();
    if n > 1 {
        vstd::arithmetic::power2::lemma_pow2_unfold(n);
        vstd::arithmetic::power2::lemma_pow2_unfold((n - 1) as nat);
        lemma_value_bits_len(v / 2, (n - 1) as nat);
        lemma_value_bits_msb(v / 2, (n - 1) as nat);
    }
}

proof fn lemma_zeros_then_one(data: Seq<u8>, pos: int, m: nat)
    requires
        0 <= pos,
        pos + m < 8 * data.len(),
        forall|i: int| pos <= i < pos + m ==> !#[trigger] bit_at(data, i),
        bit_at(data, pos + m),
    ensures
        zeros_run(data, pos) == m,
    decreases m,
{
    if m > 0 {
        assert(!bit_at(data, pos));
        lemma_zeros_then_one(data, pos + 1, (m - 1) as nat);
    }
}

/// Reading `ue(v)` where the code of `v` was written gives back `v`.
pub proof fn lemma_read_ue_bits(s: BitStream, v: u32, name: &'static str)
    requires
        v < u32::MAX,
        bits_at(s.data, s.pos, ue_bits(v)),
    ensures
        spec_read_ue(s, name) == Ok::<(u32, BitStream), BitReaderError>((v, s.at(s.pos + ue_bits(v).len()))),
{
    reveal(bits_at);
    let code = (v + 1) as nat;
    lemma_bit_length_bounds(code);
    let n = bit_length(code);
    let m = (n - 1) as nat;
    lemma_value_bits_len(code, n);
    lemma_value_bits_msb(code, n);
    let u = ue_bits(v);
    assert(u.len() == m + n);
    assert forall|i: int| s.pos <= i < s.pos + m implies !#[trigger] bit_at(s.data, i) by {
        assert(bit_at(s.data, i) == u[i - s.pos]);
    }
    assert(bit_at(s.data, s.pos + m) == u[m as int]);
    lemma_zeros_then_one(s.data, s.pos, m);
    vstd::arithmetic::power2::lemma2_to64();
    if m > 32 {
        vstd::arithmetic::power2::lemma_pow2_strictly_increases(32, m);
    }
    assert forall|i: int| s.pos + m <= i < s.pos + m + n implies #[trigger] bit_at(s.data, i) == value_bits(code, n)[i - (s.pos + m)] by {
        assert(bit_at(s.data, i) == u[i - s.pos]);
    }
    lemma_read_value_bits(s.data, s.pos + m, code, n);
}

/// Reading `se(v)` where the code of `v` was written gives back `v`.
pub proof fn lemma_read_se_bits(s: BitStream, v: i32, name: &'static str)
    requires
        v > i32::MIN,
        bits_at(s.data, s.pos, se_bits(v)),
    ensures
        spec_read_se(s, name) == Ok::<(i32, BitStream), BitReaderError>((v, s.at(s.pos + se_bits(v).len()))),
{
    reveal(bits_at);
    let c = signed_to_golomb(v) as u32;
    lemma_read_ue_bits(s, c, name);
    assert(golomb_to_signed(c) == v);
}

/// Reading `n` bits where the `n`-bit representation of `v` was written gives back `v`.
pub proof fn lemma_read_value(s: BitStream, v: nat, n: nat)
    requires
        v < vstd::arithmetic::power2::pow2(n),
        bits_at(s.data, s.pos, value_bits(v, n)),
    ensures
        spec_read_bits(s, n) == Some((v, s.at(s.pos + n))),
{
    reveal(bits_at);
    lemma_value_bits_len(v, n);
    lemma_read_value_bits(s.data, s.pos, v, n);
}

/// Reading `bits` from `s` leaves the stream at `s2`: the bits at the position are `bits`,
/// and `s2` is `s` moved past them.
pub open spec fn reads(s: BitStream, bits: Seq<bool>, s2: BitStream) -> bool {
    &&& bits_at(s.data, s.pos, bits)
    &&& s2 == s.at(s.pos + bits.len())
}

/// Reading one piece of bits and then another reads their concatenation.
pub proof fn lemma_reads_concat(s: BitStream, a: Seq<bool>, s1: BitStream, b: Seq<bool>, s2: BitStream)
    requires
        reads(s, a, s1),
        reads(s1, b, s2),
    ensures
        reads(s, a + b, s2),
{
    reveal(bits_at);
    let ab = a + b;
    assert forall|i: int| s.pos <= i < s.pos + ab.len() implies #[trigger] bit_at(s.data, i) == ab[i - s.pos] by {
        if i < s.pos + a.len() {
            assert(bit_at(s.data, i) == a[i - s.pos]);
        } else {
            assert(bit_at(s1.data, i) == b[i - s1.pos]);
        }
    }
}

/// Reading the concatenation of two pieces of bits reads the first piece, then the second.
pub proof fn lemma_reads_split(s: BitStream, a: Seq<bool>, b: Seq<bool>, s2: BitStream)
    requires
        reads(s, a + b, s2),
    ensures
        reads(s, a, s.at(s.pos + a.len())),
        reads(s.at(s.pos + a.len()), b, s2),
{
    reveal(bits_at);
    let ab = a + b;
    assert forall|i: int| s.pos <= i < s.pos + a.len() implies #[trigger] bit_at(s.data, i) == a[i - s.pos] by {
        assert(bit_at(s.data, i) == ab[i - s.pos]);
    }
    assert forall|i: int| s.pos + a.len() <= i < s.pos + a.len() + b.len() implies #[trigger] bit_at(s.data, i) == b[i - (s.pos + a.len())] by {
        assert(bit_at(s.data, i) == ab[i - s.pos]);
    }
}

/// Reading a bit where the bit `b` was written gives back `b`.
pub proof fn lemma_read_bit_written(s: BitStream, b: bool, s2: BitStream, name: &'static str)
    requires
        reads(s, seq![b], s2),
    ensures
        spec_read_bit(s, name) == Ok::<(bool, BitStream), BitReaderError>((b, s2)),
{
    reveal(bits_at);
    assert(bit_at(s.data, s.pos) == seq![b][0]);
}

/// Reading nothing.
pub proof fn lemma_reads_empty(s: BitStream)
    requires
        0 <= s.pos <= s.len_bits(),
    ensures
        reads(s, Seq::empty(), s),
{
    reveal(bits_at);
    assert(s.at(s.pos) == s);
}

/// The bits of a single read bit.
pub proof fn lemma_read_bit_reads(s: BitStream, name: &'static str)
    requires
        spec_read_bit(s, name) is Ok,
        0 <= s.pos,
    ensures
        spec_read_bit(s, name) matches Ok((b, s2)) && reads(s, seq![b], s2),
{
    reveal(bits_at);
}

proof fn lemma_bits_value_bits(data: Seq<u8>, pos: int, n: nat)
    requires
        0 <= pos,
        pos + n <= 8 * data.len(),
    ensures
        bits_at(data, pos, value_bits(bits_value(data, pos, n), n)),
    decreases n,
{
    reveal(bits_at);
    let v = bits_value(data, pos, n);
    lemma_value_bits_len(v, n);
    if n > 0 {
        let m = (n - 1) as nat;
        lemma_bits_value_bits(data, pos, m);
        let u = bits_value(data, pos, m);
        let bit: nat = if bit_at(data, pos + n - 1) { 1 } else { 0 };
        assert(v == 2 * u + bit);
        assert(v / 2 == u);
        assert(v % 2 == bit);
        lemma_value_bits_len(u, m);
        assert(value_bits(v, n) == value_bits(u, m).push(v % 2 == 1));
        assert forall|i: int| pos <= i < pos + n implies #[trigger] bit_at(data, i) == value_bits(v, n)[i - pos] by {
            if i < pos + m {
                assert(bit_at(data, i) == value_bits(u, m)[i - pos]);
            }
        }
    }
}

/// The bits of a read `u(n)` field are the `n`-bit representation of its value.
pub proof fn lemma_read_bits_reads(s: BitStream, n: nat)
    requires
        spec_read_bits(s, n) is Some,
        0 <= s.pos,
    ensures
        spec_read_bits(s, n) matches Some((v, s2)) && v < vstd::arithmetic::power2::pow2(n) && reads(s, value_bits(v, n), s2),
{
    reveal(bits_at);
    lemma_bits_value_bits(s.data, s.pos, n);
    lemma_bits_value_bound(s.data, s.pos, n);
    lemma_value_bits_len(bits_value(s.data, s.pos, n), n);
}

proof fn lemma_zeros_run_zeros(data: Seq<u8>, pos: int)
    requires
        0 <= pos,
    ensures
        forall|i: int| pos <= i < pos + zeros_run(data, pos) ==> !#[trigger] bit_at(data, i),
        pos + zeros_run(data, pos) < 8 * data.len() ==> bit_at(data, pos + zeros_run(data, pos)),
    decreases 8 * data.len() - pos,
{
    if pos < 8 * data.len() && !bit_at(data, pos) {
        lemma_zeros_run_zeros(data, pos + 1);
    }
}

proof fn lemma_bits_value_msb(data: Seq<u8>, pos: int, n: nat)
    requires
        n >= 1,
        bit_at(data, pos),
    ensures
        bits_value(data, pos, n) >= vstd::arithmetic::power2::pow2((n - 1) as nat),
    decreases n,
{
    vstd::arithmetic::power2::lemma2_to64();
    if n > 1 {
        lemma_bits_value_msb(data, pos, (n - 1) as nat);
        vstd::arithmetic::power2::lemma_pow2_unfold((n - 1) as nat);
    }
}

proof fn lemma_bit_length_of(v: nat, n: nat)
    requires
        n >= 1,
        vstd::arithmetic::power2::pow2((n - 1) as nat) <= v,
        v < vstd::arithmetic::power2::pow2(n),
    ensures
        bit_length(v) == n,
    decreases n,
{
    vstd::arithmetic::power2::lemma2_to64();
    vstd::arithmetic::power2::lemma_pow2_unfold(n);
    if n > 1 {
        vstd::arithmetic::power2::lemma_pow2_unfold((n - 1) as nat);
        lemma_bit_length_of(v / 2, (n - 1) as nat);
    } else {
        assert(v == 1);
        assert(bit_length(0) == 0);
    }
}

/// The bits of a read `ue(v)` field are the code of its value.
pub proof fn lemma_read_ue_reads(s: BitStream, name: &'static str)
    requires
        spec_read_ue(s, name) is Ok,
        0 <= s.pos,
    ensures
        spec_read_ue(s, name) matches Ok((v, s2)) && v < u32::MAX && reads(s, ue_bits(v), s2),
{
    reveal(bits_at);
    let k = zeros_run(s.data, s.pos);
    lemma_zeros_run_zeros(s.data, s.pos);
    let x = bits_value(s.data, s.pos + k, k + 1);
    lemma_bits_value_msb(s.data, s.pos + k, k + 1);
    lemma_bits_value_bound(s.data, s.pos + k, k + 1);
    lemma_bits_value_bits(s.data, s.pos + k, k + 1);
    vstd::arithmetic::power2::lemma2_to64();
    if k < 31 {
        vstd::arithmetic::power2::lemma_pow2_strictly_increases(k + 1, 32);
    }
    let v = (x - 1) as u32;
    assert(v + 1 == x);
    lemma_bit_length_of(x, k + 1);
    let u = ue_bits(v);
    lemma_value_bits_len(x, k + 1);
    assert(u == zero_bits(k) + value_bits(x, k + 1));
    assert forall|i: int| s.pos <= i < s.pos + u.len() implies #[trigger] bit_at(s.data, i) == u[i - s.pos] by {
        if i < s.pos + k {
            assert(!bit_at(s.data, i));
        } else {
            assert(bit_at(s.data, i) == value_bits(x, k + 1)[i - (s.pos + k)]);
        }
    }
}

/// The bits of a read `se(v)` field are the code of its value.
pub proof fn lemma_read_se_reads(s: BitStream, name: &'static str)
    requires
        spec_read_se(s, name) is Ok,
        0 <= s.pos,
    ensures
        spec_read_se(s, name) matches Ok((w, s2)) && w > i32::MIN && reads(s, se_bits(w), s2),
{
    reveal(bits_at);
    lemma_read_ue_reads(s, name);
    let v = spec_read_ue(s, name)->Ok_0.0;
    let w = golomb_to_signed(v);
    assert(signed_to_golomb(w) == v);
}

proof fn lemma_zero_byte(x: u8)
    requires
        (x >> 7u8) & 1u8 != 1u8,
        (x >> 6u8) & 1u8 != 1u8,
        (x >> 5u8) & 1u8 != 1u8,
        (x >> 4u8) & 1u8 != 1u8,
        (x >> 3u8) & 1u8 != 1u8,
        (x >> 2u8) & 1u8 != 1u8,
        (x >> 1u8) & 1u8 != 1u8,
        (x >> 0u8) & 1u8 != 1u8,
    ensures
        x == 0,
{
    assert(((x >> 7u8) & 1u8 != 1u8 && (x >> 6u8) & 1u8 != 1u8 && (x >> 5u8) & 1u8 != 1u8 && (x >> 4u8) & 1u8 != 1u8
        && (x >> 3u8) & 1u8 != 1u8 && (x >> 2u8) & 1u8 != 1u8 && (x >> 1u8) & 1u8 != 1u8 && (x >> 0u8) & 1u8 != 1u8)
        ==> x == 0) by (bit_vector);
}

/// An RBSP whose fields `d` were read from the start and which then ends in its trailing
/// bits holds `d`, the trailing bits after `d`, and zero bits up to its end; and no more
/// than that where its last byte is not zero.
pub proof fn lemma_finish_rbsp_bits(data: Seq<u8>, d: Seq<bool>)
    requires
        bits_at(data, 0, d),
        spec_finish_rbsp(BitStream { data, end: ErrorKind::UnexpectedEof, pos: d.len() as int }) is Ok,
    ensures
        ({
            let b = d + trailing_bits(d.len());
            &&& b.len() % 8 == 0
            &&& b.len() <= 8 * data.len()
            &&& bits_of(data) == b + zero_bits((8 * data.len() - b.len()) as nat)
            &&& data.len() > 0 && data.last() != 0 ==> bits_of(data) == b
        }),
{
    reveal(bits_at);
    let p = d.len() as int;
    let n = 8 * data.len();
    assert(bit_at(data, p));
    lemma_zeros_run_zeros(data, p + 1);
    assert(p + 1 + zeros_run(data, p + 1) >= n);
    let pad = ((8 - (p + 1) % 8) % 8) as nat;
    let b = d + trailing_bits(p as nat);
    assert(b.len() == p + 1 + pad);
    assert((p + 1 + pad) % 8 == 0);
    assert(n % 8 == 0);
    assert(p + 1 + pad <= n);
    let rest = zero_bits((n - b.len()) as nat);
    assert forall|i: int| 0 <= i < n implies #[trigger] bits_of(data)[i] == (b + rest)[i] by {
        if i < p {
            assert(bit_at(data, i) == d[i]);
        } else if i > p {
            assert(!bit_at(data, i));
        }
    }
    assert(bits_of(data) =~= b + rest);
    if data.len() > 0 && data.last() != 0 && b.len() < n {
        let k = data.len() - 1;
        assert(b.len() <= 8 * k);
        assert(!bit_at(data, 8 * k + 0) && bit_at(data, 8 * k + 0) == ((data[k] >> 7u8) & 1u8 == 1u8));
        assert(!bit_at(data, 8 * k + 1) && bit_at(data, 8 * k + 1) == ((data[k] >> 6u8) & 1u8 == 1u8));
        assert(!bit_at(data, 8 * k + 2) && bit_at(data, 8 * k + 2) == ((data[k] >> 5u8) & 1u8 == 1u8));
        assert(!bit_at(data, 8 * k + 3) && bit_at(data, 8 * k + 3) == ((data[k] >> 4u8) & 1u8 == 1u8));
        assert(!bit_at(data, 8 * k + 4) && bit_at(data, 8 * k + 4) == ((data[k] >> 3u8) & 1u8 == 1u8));
        assert(!bit_at(data, 8 * k + 5) && bit_at(data, 8 * k + 5) == ((data[k] >> 2u8) & 1u8 == 1u8));
        assert(!bit_at(data, 8 * k + 6) && bit_at(data, 8 * k + 6) == ((data[k] >> 1u8) & 1u8 == 1u8));
        assert(!bit_at(data, 8 * k + 7) && bit_at(data, 8 * k + 7) == ((data[k] >> 0u8) & 1u8 == 1u8));
        lemma_zero_byte(data[k]);
    }
    if b.len() == n {
        assert(rest =~= Seq::<bool>::empty());
        assert(b + rest =~= b);
    }
}


proof fn lemma_same_bits_same_byte(x: u8, y: u8)
    requires
        ((x >> 7u8) & 1u8 == 1u8) == ((y >> 7u8) & 1u8 == 1u8),
        ((x >> 6u8) & 1u8 == 1u8) == ((y >> 6u8) & 1u8 == 1u8),
        ((x >> 5u8) & 1u8 == 1u8) == ((y >> 5u8) & 1u8 == 1u8),
        ((x >> 4u8) & 1u8 == 1u8) == ((y >> 4u8) & 1u8 == 1u8),
        ((x >> 3u8) & 1u8 == 1u8) == ((y >> 3u8) & 1u8 == 1u8),
        ((x >> 2u8) & 1u8 == 1u8) == ((y >> 2u8) & 1u8 == 1u8),
        ((x >> 1u8) & 1u8 == 1u8) == ((y >> 1u8) & 1u8 == 1u8),
        ((x >> 0u8) & 1u8 == 1u8) == ((y >> 0u8) & 1u8 == 1u8),
    ensures
        x == y,
{
    assert(((((x >> 7u8) & 1u8 == 1u8) == ((y >> 7u8) & 1u8 == 1u8)) && (((x >> 6u8) & 1u8 == 1u8) == ((y >> 6u8) & 1u8 == 1u8)) && (((x >> 5u8) & 1u8 == 1u8) == ((y >> 5u8) & 1u8 == 1u8)) && (((x >> 4u8) & 1u8 == 1u8) == ((y >> 4u8) & 1u8 == 1u8)) && (((x >> 3u8) & 1u8 == 1u8) == ((y >> 3u8) & 1u8 == 1u8)) && (((x >> 2u8) & 1u8 == 1u8) == ((y >> 2u8) & 1u8 == 1u8)) && (((x >> 1u8) & 1u8 == 1u8) == ((y >> 1u8) & 1u8 == 1u8)) && (((x >> 0u8) & 1u8 == 1u8) == ((y >> 0u8) & 1u8 == 1u8))) ==> x == y)
        by (bit_vector);
}

proof fn lemma_byte_of_bits(a: Seq<u8>, b: Seq<u8>, k: int)
    requires
        0 <= k < a.len(),
        a.len() == b.len(),
        forall|i: int| 8 * k <= i < 8 * k + 8 ==> #[trigger] bit_at(a, i) == bit_at(b, i),
    ensures
        a[k] == b[k],
{
    assert(bit_at(a, 8 * k + 0) == bit_at(b, 8 * k + 0));
    assert((8 * k + 0) / 8 == k && (8 * k + 0) % 8 == 0);
    assert(bit_at(a, 8 * k + 1) == bit_at(b, 8 * k + 1));
    assert((8 * k + 1) / 8 == k && (8 * k + 1) % 8 == 1);
    assert(bit_at(a, 8 * k + 2) == bit_at(b, 8 * k + 2));
    assert((8 * k + 2) / 8 == k && (8 * k + 2) % 8 == 2);
    assert(bit_at(a, 8 * k + 3) == bit_at(b, 8 * k + 3));
    assert((8 * k + 3) / 8 == k && (8 * k + 3) % 8 == 3);
    assert(bit_at(a, 8 * k + 4) == bit_at(b, 8 * k + 4));
    assert((8 * k + 4) / 8 == k && (8 * k + 4) % 8 == 4);
    assert(bit_at(a, 8 * k + 5) == bit_at(b, 8 * k + 5));
    assert((8 * k + 5) / 8 == k && (8 * k + 5) % 8 == 5);
    assert(bit_at(a, 8 * k + 6) == bit_at(b, 8 * k + 6));
    assert((8 * k + 6) / 8 == k && (8 * k + 6) % 8 == 6);
    assert(bit_at(a, 8 * k + 7) == bit_at(b, 8 * k + 7));
    assert((8 * k + 7) / 8 == k && (8 * k + 7) % 8 == 7);
    lemma_same_bits_same_byte(a[k], b[k]);
}

/// Bytes are determined by their bits.
pub proof fn lemma_bits_of_injective(a: Seq<u8>, b: Seq<u8>)
    requires
        bits_of(a) == bits_of(b),
    ensures
        a == b,
{
    assert(bits_of(a).len() == 8 * a.len());
    assert(bits_of(b).len() == 8 * b.len());
    assert(a.len() == b.len());
    assert forall|k: int| 0 <= k < a.len() implies a[k] == b[k] by {
        assert forall|i: int| 8 * k <= i < 8 * k + 8 implies #[trigger] bit_at(a, i) == bit_at(b, i) by {
            assert(0 <= i < 8 * a.len());
            assert(bits_of(a)[i] == bit_at(a, i));
            assert(bits_of(b)[i] == bit_at(b, i));
            assert(bits_of(a)[i] == bits_of(b)[i]);
        }
        lemma_byte_of_bits(a, b, k);
    }
    assert(a =~= b);
}

} // verus!

//! CAVLC (Context-Adaptive Variable-Length Coding) entropy decoding for H.264
//! residual blocks, as specified in ITU-T H.264 section 9.2.

use vstd::prelude::*;
use crate::rbsp::{lemma_bits_value_bound, bits_value, spec_read_bit, spec_read_bits, zeros_run, BitReader, BitReaderError, BitStream};
use vstd::arithmetic::power2::pow2;

verus! {

#[derive(Debug, Clone, Copy, PartialEq, Eq, Structural)]
pub enum CavlcContext {
    NC(u8),
    ChromaDC,
}

#[derive(Debug, Clone, Copy, PartialEq, Eq)]
pub enum CavlcError {
    IoError(BitReaderError),
    InvalidCode(&'static str),
    OutOfRange { field: &'static str, value: i64 },
}

/// Whether the `len`-bit code `code` comes next in the stream.
pub open spec fn code_is_next(s: BitStream, len: u8, code: u16) -> bool {
    &&& 1 <= len <= 32
    &&& s.pos + len <= s.len_bits()
    &&& bits_value(s.data, s.pos, len as nat) == code
}

/// Index of the first entry, at or after `i`, of a `coeff_token` table whose code comes next.
pub open spec fn first_coeff_match(s: BitStream, t: Seq<(u8, u16, u8, u8)>, i: int) -> Option<int>
    decreases t.len() - i,
{
    if i < 0 || i >= t.len() {
        None
    } else if code_is_next(s, t[i].0, t[i].1) {
        Some(i)
    } else {
        first_coeff_match(s, t, i + 1)
    }
}

/// Index of the first entry, at or after `i`, of a value table whose code comes next.
pub open spec fn first_value_match(s: BitStream, t: Seq<(u8, u16, u8)>, i: int) -> Option<int>
    decreases t.len() - i,
{
    if i < 0 || i >= t.len() {
        None
    } else if code_is_next(s, t[i].0, t[i].1) {
        Some(i)
    } else {
        first_value_match(s, t, i + 1)
    }
}

/// The longest code length of a `coeff_token` table.
pub open spec fn max_coeff_code_len(t: Seq<(u8, u16, u8, u8)>) -> u8
    decreases t.len(),
{
    if t.len() == 0 {
        0
    } else if t.last().0 > max_coeff_code_len(t.drop_last()) {
        t.last().0
    } else {
        max_coeff_code_len(t.drop_last())
    }
}

/// The longest code length of a value table.
pub open spec fn max_value_code_len(t: Seq<(u8, u16, u8)>) -> u8
    decreases t.len(),
{
    if t.len() == 0 {
        0
    } else if t.last().0 > max_value_code_len(t.drop_last()) {
        t.last().0
    } else {
        max_value_code_len(t.drop_last())
    }
}

/// Decoding a `coeff_token` with a code table sorted by code length: the entry whose code
/// comes next; otherwise the input ended before the longest code, or no code matches.
pub open spec fn spec_read_coeff_token_vlc(s: BitStream, t: Seq<(u8, u16, u8, u8)>, name: &'static str)
    -> Result<((u8, u8), BitStream), CavlcError>
{
    match first_coeff_match(s, t, 0) {
        Some(i) => Ok(((t[i].2, t[i].3), s.at(s.pos + t[i].0))),
        None => if s.pos + max_coeff_code_len(t) > s.len_bits() {
            Err(CavlcError::IoError(BitReaderError::ReaderError(name, s.end)))
        } else {
            Err(CavlcError::InvalidCode(name))
        },
    }
}

/// Decoding a value with a code table sorted by code length.
pub open spec fn spec_read_value_vlc(s: BitStream, t: Seq<(u8, u16, u8)>, name: &'static str)
    -> Result<(u8, BitStream), CavlcError>
{
    match first_value_match(s, t, 0) {
        Some(i) => Ok((t[i].2, s.at(s.pos + t[i].0))),
        None => if s.pos + max_value_code_len(t) > s.len_bits() {
            Err(CavlcError::IoError(BitReaderError::ReaderError(name, s.end)))
        } else {
            Err(CavlcError::InvalidCode(name))
        },
    }
}

fn read_coeff_token_vlc(r: &mut BitReader, table: &Vec<(u8, u16, u8, u8)>, name: &'static str)
    -> (res: Result<(u8, u8), CavlcError>)
    ensures
        match spec_read_coeff_token_vlc(old(r)@, table@, name) {
            Ok((v, s2)) => res == Ok::<(u8, u8), CavlcError>(v) && final(r)@ == s2,
            Err(e) => res == Err::<(u8, u8), CavlcError>(e),
        },
{
    let ghost start = r@;
    let mut max_len: u8 = 0;
    let mut i: usize = 0;
    while i < table.len()
        invariant
            i <= table@.len(),
            r@ == start,
            start == old(r)@,
            first_coeff_match(start, table@, 0) == first_coeff_match(start, table@, i as int),
            max_len == max_coeff_code_len(table@.take(i as int)),
        decreases table@.len() - i,
    {
        let (len, code, tc, to) = table[i];
        if len >= 1 && len <= 32 {
            match r.peek_bits(len as u32) {
                Some(v) => {
                    if v == code as u32 {
                        proof {
                            lemma_bits_value_bound(start.data, start.pos, len as nat);
                            vstd::arithmetic::power2::lemma2_to64();
                            if len < 32 {
                                vstd::arithmetic::power2::lemma_pow2_strictly_increases(len as nat, 32);
                            }
                        }
                        let _ = r.skip(len as u32, name);
                        return Ok((tc, to));
                    }
                },
                None => {},
            }
        }
        assert(table@.take(i + 1).drop_last() =~= table@.take(i as int));
        if len > max_len {
            max_len = len;
        }
        i = i + 1;
    }
    assert(table@.take(i as int) =~= table@);
    if !r.has_bits(max_len as u32) {
        Err(CavlcError::IoError(BitReaderError::ReaderError(name, r.end_kind())))
    } else {
        Err(CavlcError::InvalidCode(name))
    }
}

fn read_value_vlc(r: &mut BitReader, table: &Vec<(u8, u16, u8)>, name: &'static str)
    -> (res: Result<u8, CavlcError>)
    ensures
        match spec_read_value_vlc(old(r)@, table@, name) {
            Ok((v, s2)) => res == Ok::<u8, CavlcError>(v) && final(r)@ == s2,
            Err(e) => res == Err::<u8, CavlcError>(e),
        },
{
    let ghost start = r@;
    let mut max_len: u8 = 0;
    let mut i: usize = 0;
    while i < table.len()
        invariant
            i <= table@.len(),
            r@ == start,
            start == old(r)@,
            first_value_match(start, table@, 0) == first_value_match(start, table@, i as int),
            max_len == max_value_code_len(table@.take(i as int)),
        decreases table@.len() - i,
    {
        let (len, code, val) = table[i];
        if len >= 1 && len <= 32 {
            match r.peek_bits(len as u32) {
                Some(v) => {
                    if v == code as u32 {
                        proof {
                            lemma_bits_value_bound(start.data, start.pos, len as nat);
                            vstd::arithmetic::power2::lemma2_to64();
                            if len < 32 {
                                vstd::arithmetic::power2::lemma_pow2_strictly_increases(len as nat, 32);
                            }
                        }
                        let _ = r.skip(len as u32, name);
                        return Ok(val);
                    }
                },
                None => {},
            }
        }
        assert(table@.take(i + 1).drop_last() =~= table@.take(i as int));
        if len > max_len {
            max_len = len;
        }
        i = i + 1;
    }
    assert(table@.take(i as int) =~= table@);
    if !r.has_bits(max_len as u32) {
        Err(CavlcError::IoError(BitReaderError::ReaderError(name, r.end_kind())))
    } else {
        Err(CavlcError::InvalidCode(name))
    }
}

/// Table 9-5(a): 0 <= nC < 2
pub open spec fn spec_coeff_token_0() -> Seq<(u8, u16, u8, u8)> {
    seq![
        (1u8, 0b1u16, 0u8, 0u8),
        (2u8, 0b01u16, 1u8, 1u8),
        (3u8, 0b001u16, 2u8, 2u8),
        (5u8, 0b00011u16, 3u8, 3u8),
        (6u8, 0b000101u16, 1u8, 0u8),
        (6u8, 0b000100u16, 2u8, 1u8),
        (6u8, 0b000011u16, 4u8, 3u8),
        (7u8, 0b0000101u16, 3u8, 2u8),
        (7u8, 0b0000100u16, 5u8, 3u8),
        (8u8, 0b00000111u16, 2u8, 0u8),
        (8u8, 0b00000110u16, 3u8, 1u8),
        (8u8, 0b00000101u16, 4u8, 2u8),
        (8u8, 0b00000100u16, 6u8, 3u8),
        (9u8, 0b000000111u16, 3u8, 0u8),
        (9u8, 0b000000110u16, 4u8, 1u8),
        (9u8, 0b000000101u16, 5u8, 2u8),
        (9u8, 0b000000100u16, 7u8, 3u8),
        (10u8, 0b0000000111u16, 4u8, 0u8),
        (10u8, 0b0000000110u16, 5u8, 1u8),
        (10u8, 0b0000000101u16, 6u8, 2u8),
        (10u8, 0b0000000100u16, 8u8, 3u8),
        (11u8, 0b00000000111u16, 5u8, 0u8),
        (11u8, 0b00000000110u16, 6u8, 1u8),
        (11u8, 0b00000000101u16, 7u8, 2u8),
        (11u8, 0b00000000100u16, 9u8, 3u8),
        (13u8, 0b0000000001111u16, 6u8, 0u8),
        (13u8, 0b0000000001110u16, 7u8, 1u8),
        (13u8, 0b0000000001101u16, 8u8, 2u8),
        (13u8, 0b0000000001100u16, 10u8, 3u8),
        (13u8, 0b0000000001011u16, 7u8, 0u8),
        (13u8, 0b0000000001010u16, 8u8, 1u8),
        (13u8, 0b0000000001001u16, 9u8, 2u8),
        (13u8, 0b0000000001000u16, 8u8, 0u8),
        (14u8, 0b00000000001111u16, 9u8, 0u8),
        (14u8, 0b00000000001110u16, 9u8, 1u8),
        (14u8, 0b00000000001101u16, 10u8, 2u8),
        (14u8, 0b00000000001100u16, 11u8, 3u8),
        (14u8, 0b00000000001011u16, 10u8, 0u8),
        (14u8, 0b00000000001010u16, 10u8, 1u8),
        (14u8, 0b00000000001001u16, 11u8, 2u8),
        (14u8, 0b00000000001000u16, 12u8, 3u8),
        (15u8, 0b000000000001111u16, 11u8, 0u8),
        (15u8, 0b000000000001110u16, 11u8, 1u8),
        (15u8, 0b000000000001101u16, 12u8, 2u8),
        (15u8, 0b000000000001100u16, 13u8, 3u8),
        (15u8, 0b000000000001011u16, 12u8, 0u8),
        (15u8, 0b000000000001010u16, 12u8, 1u8),
        (15u8, 0b000000000001001u16, 13u8, 2u8),
        (15u8, 0b000000000001000u16, 14u8, 3u8),
        (15u8, 0b000000000000001u16, 13u8, 1u8),
        (16u8, 0b0000000000001111u16, 13u8, 0u8),
        (16u8, 0b0000000000001110u16, 14u8, 1u8),
        (16u8, 0b0000000000001101u16, 14u8, 2u8),
        (16u8, 0b0000000000001100u16, 15u8, 3u8),
        (16u8, 0b0000000000001011u16, 14u8, 0u8),
        (16u8, 0b0000000000001010u16, 15u8, 1u8),
        (16u8, 0b0000000000001001u16, 15u8, 2u8),
        (16u8, 0b0000000000001000u16, 16u8, 3u8),
        (16u8, 0b0000000000000111u16, 15u8, 0u8),
        (16u8, 0b0000000000000110u16, 16u8, 1u8),
        (16u8, 0b0000000000000101u16, 16u8, 2u8),
        (16u8, 0b0000000000000100u16, 16u8, 0u8),
    ]
}

pub fn coeff_token_0() -> (t: Vec<(u8, u16, u8, u8)>)
    ensures
        t@ == spec_coeff_token_0(),
{
    let t = vec![
        (1u8, 0b1u16, 0u8, 0u8),
        (2u8, 0b01u16, 1u8, 1u8),
        (3u8, 0b001u16, 2u8, 2u8),
        (5u8, 0b00011u16, 3u8, 3u8),
        (6u8, 0b000101u16, 1u8, 0u8),
        (6u8, 0b000100u16, 2u8, 1u8),
        (6u8, 0b000011u16, 4u8, 3u8),
        (7u8, 0b0000101u16, 3u8, 2u8),
        (7u8, 0b0000100u16, 5u8, 3u8),
        (8u8, 0b00000111u16, 2u8, 0u8),
        (8u8, 0b00000110u16, 3u8, 1u8),
        (8u8, 0b00000101u16, 4u8, 2u8),
        (8u8, 0b00000100u16, 6u8, 3u8),
        (9u8, 0b000000111u16, 3u8, 0u8),
        (9u8, 0b000000110u16, 4u8, 1u8),
        (9u8, 0b000000101u16, 5u8, 2u8),
        (9u8, 0b000000100u16, 7u8, 3u8),
        (10u8, 0b0000000111u16, 4u8, 0u8),
        (10u8, 0b0000000110u16, 5u8, 1u8),
        (10u8, 0b0000000101u16, 6u8, 2u8),
        (10u8, 0b0000000100u16, 8u8, 3u8),
        (11u8, 0b00000000111u16, 5u8, 0u8),
        (11u8, 0b00000000110u16, 6u8, 1u8),
        (11u8, 0b00000000101u16, 7u8, 2u8),
        (11u8, 0b00000000100u16, 9u8, 3u8),
        (13u8, 0b0000000001111u16, 6u8, 0u8),
        (13u8, 0b0000000001110u16, 7u8, 1u8),
        (13u8, 0b0000000001101u16, 8u8, 2u8),
        (13u8, 0b0000000001100u16, 10u8, 3u8),
        (13u8, 0b0000000001011u16, 7u8, 0u8),
        (13u8, 0b0000000001010u16, 8u8, 1u8),
        (13u8, 0b0000000001001u16, 9u8, 2u8),
        (13u8, 0b0000000001000u16, 8u8, 0u8),
        (14u8, 0b00000000001111u16, 9u8, 0u8),
        (14u8, 0b00000000001110u16, 9u8, 1u8),
        (14u8, 0b00000000001101u16, 10u8, 2u8),
        (14u8, 0b00000000001100u16, 11u8, 3u8),
        (14u8, 0b00000000001011u16, 10u8, 0u8),
        (14u8, 0b00000000001010u16, 10u8, 1u8),
        (14u8, 0b00000000001001u16, 11u8, 2u8),
        (14u8, 0b00000000001000u16, 12u8, 3u8),
        (15u8, 0b000000000001111u16, 11u8, 0u8),
        (15u8, 0b000000000001110u16, 11u8, 1u8),
        (15u8, 0b000000000001101u16, 12u8, 2u8),
        (15u8, 0b000000000001100u16, 13u8, 3u8),
        (15u8, 0b000000000001011u16, 12u8, 0u8),
        (15u8, 0b000000000001010u16, 12u8, 1u8),
        (15u8, 0b000000000001001u16, 13u8, 2u8),
        (15u8, 0b000000000001000u16, 14u8, 3u8),
        (15u8, 0b000000000000001u16, 13u8, 1u8),
        (16u8, 0b0000000000001111u16, 13u8, 0u8),
        (16u8, 0b0000000000001110u16, 14u8, 1u8),
        (16u8, 0b0000000000001101u16, 14u8, 2u8),
        (16u8, 0b0000000000001100u16, 15u8, 3u8),
        (16u8, 0b0000000000001011u16, 14u8, 0u8),
        (16u8, 0b0000000000001010u16, 15u8, 1u8),
        (16u8, 0b0000000000001001u16, 15u8, 2u8),
        (16u8, 0b0000000000001000u16, 16u8, 3u8),
        (16u8, 0b0000000000000111u16, 15u8, 0u8),
        (16u8, 0b0000000000000110u16, 16u8, 1u8),
        (16u8, 0b0000000000000101u16, 16u8, 2u8),
        (16u8, 0b0000000000000100u16, 16u8, 0u8),
    ];
    assert(t@ =~= spec_coeff_token_0());
    t
}

/// Table 9-5(b): 2 <= nC < 4
pub open spec fn spec_coeff_token_2() -> Seq<(u8, u16, u8, u8)> {
    seq![
        (2u8, 0b11u16, 0u8, 0u8),
        (2u8, 0b10u16, 1u8, 1u8),
        (3u8, 0b011u16, 2u8, 2u8),
        (4u8, 0b0101u16, 3u8, 3u8),
        (4u8, 0b0100u16, 4u8, 3u8),
        (5u8, 0b00111u16, 2u8, 1u8),
        (5u8, 0b00110u16, 5u8, 3u8),
        (6u8, 0b001011u16, 1u8, 0u8),
        (6u8, 0b001010u16, 3u8, 1u8),
        (6u8, 0b001001u16, 3u8, 2u8),
        (6u8, 0b001000u16, 6u8, 3u8),
        (6u8, 0b000111u16, 2u8, 0u8),
        (6u8, 0b000110u16, 4u8, 1u8),
        (6u8, 0b000101u16, 4u8, 2u8),
        (6u8, 0b000100u16, 7u8, 3u8),
        (7u8, 0b0000111u16, 3u8, 0u8),
        (7u8, 0b0000110u16, 5u8, 1u8),
        (7u8, 0b0000101u16, 5u8, 2u8),
        (7u8, 0b0000100u16, 8u8, 3u8),
        (8u8, 0b00000111u16, 4u8, 0u8),
        (8u8, 0b00000110u16, 6u8, 1u8),
        (8u8, 0b00000101u16, 6u8, 2u8),
        (8u8, 0b00000100u16, 5u8, 0u8),
        (9u8, 0b000000111u16, 6u8, 0u8),
        (9u8, 0b000000110u16, 7u8, 1u8),
        (9u8, 0b000000101u16, 7u8, 2u8),
        (9u8, 0b000000100u16, 9u8, 3u8),
        (11u8, 0b00000001111u16, 7u8, 0u8),
        (11u8, 0b00000001110u16, 8u8, 1u8),
        (11u8, 0b00000001101u16, 8u8, 2u8),
        (11u8, 0b00000001100u16, 10u8, 3u8),
        (11u8, 0b00000001011u16, 8u8, 0u8),
        (11u8, 0b00000001010u16, 9u8, 1u8),
        (11u8, 0b00000001001u16, 9u8, 2u8),
        (11u8, 0b00000001000u16, 11u8, 3u8),
        (12u8, 0b000000001111u16, 9u8, 0u8),
        (12u8, 0b000000001110u16, 10u8, 1u8),
        (12u8, 0b000000001101u16, 10u8, 2u8),
        (12u8, 0b000000001100u16, 12u8, 3u8),
        (12u8, 0b000000001011u16, 10u8, 0u8),
        (12u8, 0b000000001010u16, 11u8, 1u8),
        (12u8, 0b000000001001u16, 11u8, 2u8),
        (12u8, 0b000000001000u16, 11u8, 0u8),
        (13u8, 0b0000000001111u16, 12u8, 0u8),
        (13u8, 0b0000000001110u16, 12u8, 1u8),
        (13u8, 0b0000000001101u16, 12u8, 2u8),
        (13u8, 0b0000000001100u16, 13u8, 3u8),
        (13u8, 0b0000000001011u16, 13u8, 0u8),
        (13u8, 0b0000000001010u16, 13u8, 1u8),
        (13u8, 0b0000000001001u16, 13u8, 2u8),
        (13u8, 0b0000000001000u16, 14u8, 3u8),
        (13u8, 0b0000000000111u16, 14u8, 0u8),
        (13u8, 0b0000000000110u16, 14u8, 2u8),
        (13u8, 0b0000000000001u16, 15u8, 3u8),
        (14u8, 0b00000000001011u16, 14u8, 1u8),
        (14u8, 0b00000000001010u16, 15u8, 2u8),
        (14u8, 0b00000000001001u16, 15u8, 0u8),
        (14u8, 0b00000000001000u16, 15u8, 1u8),
        (14u8, 0b00000000000111u16, 16u8, 0u8),
        (14u8, 0b00000000000110u16, 16u8, 1u8),
        (14u8, 0b00000000000101u16, 16u8, 2u8),
        (14u8, 0b00000000000100u16, 16u8, 3u8),
    ]
}

pub fn coeff_token_2() -> (t: Vec<(u8, u16, u8, u8)>)
    ensures
        t@ == spec_coeff_token_2(),
{
    let t = vec![
        (2u8, 0b11u16, 0u8, 0u8),
        (2u8, 0b10u16, 1u8, 1u8),
        (3u8, 0b011u16, 2u8, 2u8),
        (4u8, 0b0101u16, 3u8, 3u8),
        (4u8, 0b0100u16, 4u8, 3u8),
        (5u8, 0b00111u16, 2u8, 1u8),
        (5u8, 0b00110u16, 5u8, 3u8),
        (6u8, 0b001011u16, 1u8, 0u8),
        (6u8, 0b001010u16, 3u8, 1u8),
        (6u8, 0b001001u16, 3u8, 2u8),
        (6u8, 0b001000u16, 6u8, 3u8),
        (6u8, 0b000111u16, 2u8, 0u8),
        (6u8, 0b000110u16, 4u8, 1u8),
        (6u8, 0b000101u16, 4u8, 2u8),
        (6u8, 0b000100u16, 7u8, 3u8),
        (7u8, 0b0000111u16, 3u8, 0u8),
        (7u8, 0b0000110u16, 5u8, 1u8),
        (7u8, 0b0000101u16, 5u8, 2u8),
        (7u8, 0b0000100u16, 8u8, 3u8),
        (8u8, 0b00000111u16, 4u8, 0u8),
        (8u8, 0b00000110u16, 6u8, 1u8),
        (8u8, 0b00000101u16, 6u8, 2u8),
        (8u8, 0b00000100u16, 5u8, 0u8),
        (9u8, 0b000000111u16, 6u8, 0u8),
        (9u8, 0b000000110u16, 7u8, 1u8),
        (9u8, 0b000000101u16, 7u8, 2u8),
        (9u8, 0b000000100u16, 9u8, 3u8),
        (11u8, 0b00000001111u16, 7u8, 0u8),
        (11u8, 0b00000001110u16, 8u8, 1u8),
        (11u8, 0b00000001101u16, 8u8, 2u8),
        (11u8, 0b00000001100u16, 10u8, 3u8),
        (11u8, 0b00000001011u16, 8u8, 0u8),
        (11u8, 0b00000001010u16, 9u8, 1u8),
        (11u8, 0b00000001001u16, 9u8, 2u8),
        (11u8, 0b00000001000u16, 11u8, 3u8),
        (12u8, 0b000000001111u16, 9u8, 0u8),
        (12u8, 0b000000001110u16, 10u8, 1u8),
        (12u8, 0b000000001101u16, 10u8, 2u8),
        (12u8, 0b000000001100u16, 12u8, 3u8),
        (12u8, 0b000000001011u16, 10u8, 0u8),
        (12u8, 0b000000001010u16, 11u8, 1u8),
        (12u8, 0b000000001001u16, 11u8, 2u8),
        (12u8, 0b000000001000u16, 11u8, 0u8),
        (13u8, 0b0000000001111u16, 12u8, 0u8),
        (13u8, 0b0000000001110u16, 12u8, 1u8),
        (13u8, 0b0000000001101u16, 12u8, 2u8),
        (13u8, 0b0000000001100u16, 13u8, 3u8),
        (13u8, 0b0000000001011u16, 13u8, 0u8),
        (13u8, 0b0000000001010u16, 13u8, 1u8),
        (13u8, 0b0000000001001u16, 13u8, 2u8),
        (13u8, 0b0000000001000u16, 14u8, 3u8),
        (13u8, 0b0000000000111u16, 14u8, 0u8),
        (13u8, 0b0000000000110u16, 14u8, 2u8),
        (13u8, 0b0000000000001u16, 15u8, 3u8),
        (14u8, 0b00000000001011u16, 14u8, 1u8),
        (14u8, 0b00000000001010u16, 15u8, 2u8),
        (14u8, 0b00000000001001u16, 15u8, 0u8),
        (14u8, 0b00000000001000u16, 15u8, 1u8),
        (14u8, 0b00000000000111u16, 16u8, 0u8),
        (14u8, 0b00000000000110u16, 16u8, 1u8),
        (14u8, 0b00000000000101u16, 16u8, 2u8),
        (14u8, 0b00000000000100u16, 16u8, 3u8),
    ];
    assert(t@ =~= spec_coeff_token_2());
    t
}

/// Table 9-5(c): 4 <= nC < 8
pub open spec fn spec_coeff_token_4() -> Seq<(u8, u16, u8, u8)> {
    seq![
        (4u8, 0b1111u16, 0u8, 0u8),
        (4u8, 0b1110u16, 1u8, 1u8),
        (4u8, 0b1101u16, 2u8, 2u8),
        (4u8, 0b1100u16, 3u8, 3u8),
        (4u8, 0b1011u16, 4u8, 3u8),
        (4u8, 0b1010u16, 5u8, 3u8),
        (4u8, 0b1001u16, 6u8, 3u8),
        (4u8, 0b1000u16, 7u8, 3u8),
        (5u8, 0b01111u16, 2u8, 1u8),
        (5u8, 0b01110u16, 3u8, 2u8),
        (5u8, 0b01101u16, 8u8, 3u8),
        (5u8, 0b01100u16, 3u8, 1u8),
        (5u8, 0b01011u16, 4u8, 2u8),
        (5u8, 0b01010u16, 4u8, 1u8),
        (5u8, 0b01001u16, 5u8, 2u8),
        (5u8, 0b01000u16, 5u8, 1u8),
        (6u8, 0b001111u16, 1u8, 0u8),
        (6u8, 0b001110u16, 6u8, 1u8),
        (6u8, 0b001101u16, 6u8, 2u8),
        (6u8, 0b001100u16, 9u8, 3u8),
        (6u8, 0b001011u16, 2u8, 0u8),
        (6u8, 0b001010u16, 7u8, 1u8),
        (6u8, 0b001001u16, 7u8, 2u8),
        (6u8, 0b001000u16, 3u8, 0u8),
        (7u8, 0b0001111u16, 4u8, 0u8),
        (7u8, 0b0001110u16, 8u8, 1u8),
        (7u8, 0b0001101u16, 8u8, 2u8),
        (7u8, 0b0001100u16, 10u8, 3u8),
        (7u8, 0b0001011u16, 5u8, 0u8),
        (7u8, 0b0001010u16, 9u8, 2u8),
        (7u8, 0b0001001u16, 6u8, 0u8),
        (7u8, 0b0001000u16, 7u8, 0u8),
        (8u8, 0b00001111u16, 8u8, 0u8),
        (8u8, 0b00001110u16, 9u8, 1u8),
        (8u8, 0b00001101u16, 10u8, 2u8),
        (8u8, 0b00001100u16, 11u8, 3u8),
        (8u8, 0b00001011u16, 9u8, 0u8),
        (8u8, 0b00001010u16, 10u8, 1u8),
        (8u8, 0b00001001u16, 11u8, 2u8),
        (8u8, 0b00001000u16, 12u8, 3u8),
        (9u8, 0b000001111u16, 10u8, 0u8),
        (9u8, 0b000001110u16, 11u8, 1u8),
        (9u8, 0b000001101u16, 12u8, 2u8),
        (9u8, 0b000001100u16, 13u8, 3u8),
        (9u8, 0b000001011u16, 11u8, 0u8),
        (9u8, 0b000001010u16, 12u8, 1u8),
        (9u8, 0b000001001u16, 13u8, 2u8),
        (9u8, 0b000001000u16, 12u8, 0u8),
        (9u8, 0b000000111u16, 13u8, 1u8),
        (10u8, 0b0000001101u16, 13u8, 0u8),
        (10u8, 0b0000001100u16, 14u8, 1u8),
        (10u8, 0b0000001011u16, 14u8, 2u8),
        (10u8, 0b0000001010u16, 14u8, 3u8),
        (10u8, 0b0000001001u16, 14u8, 0u8),
        (10u8, 0b0000001000u16, 15u8, 1u8),
        (10u8, 0b0000000111u16, 15u8, 2u8),
        (10u8, 0b0000000110u16, 15u8, 3u8),
        (10u8, 0b0000000101u16, 15u8, 0u8),
        (10u8, 0b0000000100u16, 16u8, 1u8),
        (10u8, 0b0000000011u16, 16u8, 2u8),
        (10u8, 0b0000000010u16, 16u8, 3u8),
        (10u8, 0b0000000001u16, 16u8, 0u8),
    ]
}

pub fn coeff_token_4() -> (t: Vec<(u8, u16, u8, u8)>)
    ensures
        t@ == spec_coeff_token_4(),
{
    let t = vec![
        (4u8, 0b1111u16, 0u8, 0u8),
        (4u8, 0b1110u16, 1u8, 1u8),
        (4u8, 0b1101u16, 2u8, 2u8),
        (4u8, 0b1100u16, 3u8, 3u8),
        (4u8, 0b1011u16, 4u8, 3u8),
        (4u8, 0b1010u16, 5u8, 3u8),
        (4u8, 0b1001u16, 6u8, 3u8),
        (4u8, 0b1000u16, 7u8, 3u8),
        (5u8, 0b01111u16, 2u8, 1u8),
        (5u8, 0b01110u16, 3u8, 2u8),
        (5u8, 0b01101u16, 8u8, 3u8),
        (5u8, 0b01100u16, 3u8, 1u8),
        (5u8, 0b01011u16, 4u8, 2u8),
        (5u8, 0b01010u16, 4u8, 1u8),
        (5u8, 0b01001u16, 5u8, 2u8),
        (5u8, 0b01000u16, 5u8, 1u8),
        (6u8, 0b001111u16, 1u8, 0u8),
        (6u8, 0b001110u16, 6u8, 1u8),
        (6u8, 0b001101u16, 6u8, 2u8),
        (6u8, 0b001100u16, 9u8, 3u8),
        (6u8, 0b001011u16, 2u8, 0u8),
        (6u8, 0b001010u16, 7u8, 1u8),
        (6u8, 0b001001u16, 7u8, 2u8),
        (6u8, 0b001000u16, 3u8, 0u8),
        (7u8, 0b0001111u16, 4u8, 0u8),
        (7u8, 0b0001110u16, 8u8, 1u8),
        (7u8, 0b0001101u16, 8u8, 2u8),
        (7u8, 0b0001100u16, 10u8, 3u8),
        (7u8, 0b0001011u16, 5u8, 0u8),
        (7u8, 0b0001010u16, 9u8, 2u8),
        (7u8, 0b0001001u16, 6u8, 0u8),
        (7u8, 0b0001000u16, 7u8, 0u8),
        (8u8, 0b00001111u16, 8u8, 0u8),
        (8u8, 0b00001110u16, 9u8, 1u8),
        (8u8, 0b00001101u16, 10u8, 2u8),
        (8u8, 0b00001100u16, 11u8, 3u8),
        (8u8, 0b00001011u16, 9u8, 0u8),
        (8u8, 0b00001010u16, 10u8, 1u8),
        (8u8, 0b00001001u16, 11u8, 2u8),
        (8u8, 0b00001000u16, 12u8, 3u8),
        (9u8, 0b000001111u16, 10u8, 0u8),
        (9u8, 0b000001110u16, 11u8, 1u8),
        (9u8, 0b000001101u16, 12u8, 2u8),
        (9u8, 0b000001100u16, 13u8, 3u8),
        (9u8, 0b000001011u16, 11u8, 0u8),
        (9u8, 0b000001010u16, 12u8, 1u8),
        (9u8, 0b000001001u16, 13u8, 2u8),
        (9u8, 0b000001000u16, 12u8, 0u8),
        (9u8, 0b000000111u16, 13u8, 1u8),
        (10u8, 0b0000001101u16, 13u8, 0u8),
        (10u8, 0b0000001100u16, 14u8, 1u8),
        (10u8, 0b0000001011u16, 14u8, 2u8),
        (10u8, 0b0000001010u16, 14u8, 3u8),
        (10u8, 0b0000001001u16, 14u8, 0u8),
        (10u8, 0b0000001000u16, 15u8, 1u8),
        (10u8, 0b0000000111u16, 15u8, 2u8),
        (10u8, 0b0000000110u16, 15u8, 3u8),
        (10u8, 0b0000000101u16, 15u8, 0u8),
        (10u8, 0b0000000100u16, 16u8, 1u8),
        (10u8, 0b0000000011u16, 16u8, 2u8),
        (10u8, 0b0000000010u16, 16u8, 3u8),
        (10u8, 0b0000000001u16, 16u8, 0u8),
    ];
    assert(t@ =~= spec_coeff_token_4());
    t
}

/// ChromaDC table for nC == -1 (4:2:0, max 4 coeffs)
pub open spec fn spec_coeff_token_chroma_dc() -> Seq<(u8, u16, u8, u8)> {
    seq![
        (1u8, 0b1u16, 1u8, 1u8),
        (2u8, 0b01u16, 0u8, 0u8),
        (3u8, 0b001u16, 2u8, 2u8),
        (6u8, 0b000111u16, 1u8, 0u8),
        (6u8, 0b000110u16, 2u8, 1u8),
        (6u8, 0b000101u16, 3u8, 3u8),
        (6u8, 0b000100u16, 2u8, 0u8),
        (6u8, 0b000011u16, 3u8, 0u8),
        (6u8, 0b000010u16, 4u8, 0u8),
        (7u8, 0b0000011u16, 3u8, 1u8),
        (7u8, 0b0000010u16, 3u8, 2u8),
        (7u8, 0b0000000u16, 4u8, 3u8),
        (8u8, 0b00000011u16, 4u8, 1u8),
        (8u8, 0b00000010u16, 4u8, 2u8),
    ]
}

pub fn coeff_token_chroma_dc() -> (t: Vec<(u8, u16, u8, u8)>)
    ensures
        t@ == spec_coeff_token_chroma_dc(),
{
    let t = vec![
        (1u8, 0b1u16, 1u8, 1u8),
        (2u8, 0b01u16, 0u8, 0u8),
        (3u8, 0b001u16, 2u8, 2u8),
        (6u8, 0b000111u16, 1u8, 0u8),
        (6u8, 0b000110u16, 2u8, 1u8),
        (6u8, 0b000101u16, 3u8, 3u8),
        (6u8, 0b000100u16, 2u8, 0u8),
        (6u8, 0b000011u16, 3u8, 0u8),
        (6u8, 0b000010u16, 4u8, 0u8),
        (7u8, 0b0000011u16, 3u8, 1u8),
        (7u8, 0b0000010u16, 3u8, 2u8),
        (7u8, 0b0000000u16, 4u8, 3u8),
        (8u8, 0b00000011u16, 4u8, 1u8),
        (8u8, 0b00000010u16, 4u8, 2u8),
    ];
    assert(t@ =~= spec_coeff_token_chroma_dc());
    t
}

pub open spec fn spec_total_zeros_1() -> Seq<(u8, u16, u8)> {
    seq![
        (1u8, 0b1u16, 0u8),
        (3u8, 0b011u16, 1u8),
        (3u8, 0b010u16, 2u8),
        (4u8, 0b0011u16, 3u8),
        (4u8, 0b0010u16, 4u8),
        (5u8, 0b00011u16, 5u8),
        (5u8, 0b00010u16, 6u8),
        (6u8, 0b000011u16, 7u8),
        (6u8, 0b000010u16, 8u8),
        (7u8, 0b0000011u16, 9u8),
        (7u8, 0b0000010u16, 10u8),
        (8u8, 0b00000011u16, 11u8),
        (8u8, 0b00000010u16, 12u8),
        (9u8, 0b000000011u16, 13u8),
        (9u8, 0b000000010u16, 14u8),
        (9u8, 0b000000001u16, 15u8),
    ]
}

pub fn total_zeros_1() -> (t: Vec<(u8, u16, u8)>)
    ensures
        t@ == spec_total_zeros_1(),
{
    let t = vec![
        (1u8, 0b1u16, 0u8),
        (3u8, 0b011u16, 1u8),
        (3u8, 0b010u16, 2u8),
        (4u8, 0b0011u16, 3u8),
        (4u8, 0b0010u16, 4u8),
        (5u8, 0b00011u16, 5u8),
        (5u8, 0b00010u16, 6u8),
        (6u8, 0b000011u16, 7u8),
        (6u8, 0b000010u16, 8u8),
        (7u8, 0b0000011u16, 9u8),
        (7u8, 0b0000010u16, 10u8),
        (8u8, 0b00000011u16, 11u8),
        (8u8, 0b00000010u16, 12u8),
        (9u8, 0b000000011u16, 13u8),
        (9u8, 0b000000010u16, 14u8),
        (9u8, 0b000000001u16, 15u8),
    ];
    assert(t@ =~= spec_total_zeros_1());
    t
}

pub open spec fn spec_total_zeros_2() -> Seq<(u8, u16, u8)> {
    seq![
        (3u8, 0b111u16, 0u8),
        (3u8, 0b110u16, 1u8),
        (3u8, 0b101u16, 2u8),
        (3u8, 0b100u16, 3u8),
        (3u8, 0b011u16, 4u8),
        (4u8, 0b0101u16, 5u8),
        (4u8, 0b0100u16, 6u8),
        (4u8, 0b0011u16, 7u8),
        (4u8, 0b0010u16, 8u8),
        (5u8, 0b00011u16, 9u8),
        (5u8, 0b00010u16, 10u8),
        (6u8, 0b000011u16, 11u8),
        (6u8, 0b000010u16, 12u8),
        (6u8, 0b000001u16, 13u8),
        (6u8, 0b000000u16, 14u8),
    ]
}

pub fn total_zeros_2() -> (t: Vec<(u8, u16, u8)>)
    ensures
        t@ == spec_total_zeros_2(),
{
    let t = vec![
        (3u8, 0b111u16, 0u8),
        (3u8, 0b110u16, 1u8),
        (3u8, 0b101u16, 2u8),
        (3u8, 0b100u16, 3u8),
        (3u8, 0b011u16, 4u8),
        (4u8, 0b0101u16, 5u8),
        (4u8, 0b0100u16, 6u8),
        (4u8, 0b0011u16, 7u8),
        (4u8, 0b0010u16, 8u8),
        (5u8, 0b00011u16, 9u8),
        (5u8, 0b00010u16, 10u8),
        (6u8, 0b000011u16, 11u8),
        (6u8, 0b000010u16, 12u8),
        (6u8, 0b000001u16, 13u8),
        (6u8, 0b000000u16, 14u8),
    ];
    assert(t@ =~= spec_total_zeros_2());
    t
}

pub open spec fn spec_total_zeros_3() -> Seq<(u8, u16, u8)> {
    seq![
        (3u8, 0b111u16, 1u8),
        (3u8, 0b110u16, 2u8),
        (3u8, 0b101u16, 3u8),
        (3u8, 0b100u16, 6u8),
        (3u8, 0b011u16, 7u8),
        (4u8, 0b0101u16, 0u8),
        (4u8, 0b0100u16, 4u8),
        (4u8, 0b0011u16, 5u8),
        (4u8, 0b0010u16, 8u8),
        (5u8, 0b00011u16, 9u8),
        (5u8, 0b00010u16, 10u8),
        (5u8, 0b00001u16, 12u8),
        (6u8, 0b000001u16, 11u8),
        (6u8, 0b000000u16, 13u8),
    ]
}

pub fn total_zeros_3() -> (t: Vec<(u8, u16, u8)>)
    ensures
        t@ == spec_total_zeros_3(),
{
    let t = vec![
        (3u8, 0b111u16, 1u8),
        (3u8, 0b110u16, 2u8),
        (3u8, 0b101u16, 3u8),
        (3u8, 0b100u16, 6u8),
        (3u8, 0b011u16, 7u8),
        (4u8, 0b0101u16, 0u8),
        (4u8, 0b0100u16, 4u8),
        (4u8, 0b0011u16, 5u8),
        (4u8, 0b0010u16, 8u8),
        (5u8, 0b00011u16, 9u8),
        (5u8, 0b00010u16, 10u8),
        (5u8, 0b00001u16, 12u8),
        (6u8, 0b000001u16, 11u8),
        (6u8, 0b000000u16, 13u8),
    ];
    assert(t@ =~= spec_total_zeros_3());
    t
}

pub open spec fn spec_total_zeros_4() -> Seq<(u8, u16, u8)> {
    seq![
        (3u8, 0b111u16, 1u8),
        (3u8, 0b110u16, 4u8),
        (3u8, 0b101u16, 5u8),
        (3u8, 0b100u16, 6u8),
        (3u8, 0b011u16, 8u8),
        (4u8, 0b0101u16, 2u8),
        (4u8, 0b0100u16, 3u8),
        (4u8, 0b0011u16, 7u8),
        (4u8, 0b0010u16, 9u8),
        (5u8, 0b00011u16, 0u8),
        (5u8, 0b00010u16, 10u8),
        (5u8, 0b00001u16, 11u8),
        (5u8, 0b00000u16, 12u8),
    ]
}

pub fn total_zeros_4() -> (t: Vec<(u8, u16, u8)>)
    ensures
        t@ == spec_total_zeros_4(),
{
    let t = vec![
        (3u8, 0b111u16, 1u8),
        (3u8, 0b110u16, 4u8),
        (3u8, 0b101u16, 5u8),
        (3u8, 0b100u16, 6u8),
        (3u8, 0b011u16, 8u8),
        (4u8, 0b0101u16, 2u8),
        (4u8, 0b0100u16, 3u8),
        (4u8, 0b0011u16, 7u8),
        (4u8, 0b0010u16, 9u8),
        (5u8, 0b00011u16, 0u8),
        (5u8, 0b00010u16, 10u8),
        (5u8, 0b00001u16, 11u8),
        (5u8, 0b00000u16, 12u8),
    ];
    assert(t@ =~= spec_total_zeros_4());
    t
}

pub open spec fn spec_total_zeros_5() -> Seq<(u8, u16, u8)> {
    seq![
        (3u8, 0b111u16, 3u8),
        (3u8, 0b110u16, 4u8),
        (3u8, 0b101u16, 5u8),
        (3u8, 0b100u16, 6u8),
        (3u8, 0b011u16, 7u8),
        (4u8, 0b0101u16, 0u8),
        (4u8, 0b0100u16, 1u8),
        (4u8, 0b0011u16, 2u8),
        (4u8, 0b0010u16, 8u8),
        (4u8, 0b0001u16, 10u8),
        (5u8, 0b00001u16, 9u8),
        (5u8, 0b00000u16, 11u8),
    ]
}

pub fn total_zeros_5() -> (t: Vec<(u8, u16, u8)>)
    ensures
        t@ == spec_total_zeros_5(),
{
    let t = vec![
        (3u8, 0b111u16, 3u8),
        (3u8, 0b110u16, 4u8),
        (3u8, 0b101u16, 5u8),
        (3u8, 0b100u16, 6u8),
        (3u8, 0b011u16, 7u8),
        (4u8, 0b0101u16, 0u8),
        (4u8, 0b0100u16, 1u8),
        (4u8, 0b0011u16, 2u8),
        (4u8, 0b0010u16, 8u8),
        (4u8, 0b0001u16, 10u8),
        (5u8, 0b00001u16, 9u8),
        (5u8, 0b00000u16, 11u8),
    ];
    assert(t@ =~= spec_total_zeros_5());
    t
}

pub open spec fn spec_total_zeros_6() -> Seq<(u8, u16, u8)> {
    seq![
        (3u8, 0b111u16, 2u8),
        (3u8, 0b110u16, 3u8),
        (3u8, 0b101u16, 4u8),
        (3u8, 0b100u16, 5u8),
        (3u8, 0b011u16, 6u8),
        (3u8, 0b010u16, 7u8),
        (3u8, 0b001u16, 9u8),
        (4u8, 0b0001u16, 8u8),
        (5u8, 0b00001u16, 1u8),
        (6u8, 0b000001u16, 0u8),
        (6u8, 0b000000u16, 10u8),
    ]
}

pub fn total_zeros_6() -> (t: Vec<(u8, u16, u8)>)
    ensures
        t@ == spec_total_zeros_6(),
{
    let t = vec![
        (3u8, 0b111u16, 2u8),
        (3u8, 0b110u16, 3u8),
        (3u8, 0b101u16, 4u8),
        (3u8, 0b100u16, 5u8),
        (3u8, 0b011u16, 6u8),
        (3u8, 0b010u16, 7u8),
        (3u8, 0b001u16, 9u8),
        (4u8, 0b0001u16, 8u8),
        (5u8, 0b00001u16, 1u8),
        (6u8, 0b000001u16, 0u8),
        (6u8, 0b000000u16, 10u8),
    ];
    assert(t@ =~= spec_total_zeros_6());
    t
}

pub open spec fn spec_total_zeros_7() -> Seq<(u8, u16, u8)> {
    seq![
        (2u8, 0b11u16, 5u8),
        (3u8, 0b101u16, 2u8),
        (3u8, 0b100u16, 3u8),
        (3u8, 0b011u16, 4u8),
        (3u8, 0b010u16, 6u8),
        (3u8, 0b001u16, 8u8),
        (4u8, 0b0001u16, 7u8),
        (5u8, 0b00001u16, 1u8),
        (6u8, 0b000001u16, 0u8),
        (6u8, 0b000000u16, 9u8),
    ]
}

pub fn total_zeros_7() -> (t: Vec<(u8, u16, u8)>)
    ensures
        t@ == spec_total_zeros_7(),
{
    let t = vec![
        (2u8, 0b11u16, 5u8),
        (3u8, 0b101u16, 2u8),
        (3u8, 0b100u16, 3u8),
        (3u8, 0b011u16, 4u8),
        (3u8, 0b010u16, 6u8),
        (3u8, 0b001u16, 8u8),
        (4u8, 0b0001u16, 7u8),
        (5u8, 0b00001u16, 1u8),
        (6u8, 0b000001u16, 0u8),
        (6u8, 0b000000u16, 9u8),
    ];
    assert(t@ =~= spec_total_zeros_7());
    t
}

pub open spec fn spec_total_zeros_8() -> Seq<(u8, u16, u8)> {
    seq![
        (2u8, 0b11u16, 4u8),
        (2u8, 0b10u16, 5u8),
        (3u8, 0b011u16, 3u8),
        (3u8, 0b010u16, 6u8),
        (3u8, 0b001u16, 7u8),
        (4u8, 0b0001u16, 1u8),
        (5u8, 0b00001u16, 2u8),
        (6u8, 0b000001u16, 0u8),
        (6u8, 0b000000u16, 8u8),
    ]
}

pub fn total_zeros_8() -> (t: Vec<(u8, u16, u8)>)
    ensures
        t@ == spec_total_zeros_8(),
{
    let t = vec![
        (2u8, 0b11u16, 4u8),
        (2u8, 0b10u16, 5u8),
        (3u8, 0b011u16, 3u8),
        (3u8, 0b010u16, 6u8),
        (3u8, 0b001u16, 7u8),
        (4u8, 0b0001u16, 1u8),
        (5u8, 0b00001u16, 2u8),
        (6u8, 0b000001u16, 0u8),
        (6u8, 0b000000u16, 8u8),
    ];
    assert(t@ =~= spec_total_zeros_8());
    t
}

pub open spec fn spec_total_zeros_9() -> Seq<(u8, u16, u8)> {
    seq![
        (2u8, 0b11u16, 3u8),
        (2u8, 0b10u16, 4u8),
        (2u8, 0b01u16, 6u8),
        (3u8, 0b001u16, 5u8),
        (4u8, 0b0001u16, 2u8),
        (5u8, 0b00001u16, 7u8),
        (6u8, 0b000001u16, 0u8),
        (6u8, 0b000000u16, 1u8),
    ]
}

pub fn total_zeros_9() -> (t: Vec<(u8, u16, u8)>)
    ensures
        t@ == spec_total_zeros_9(),
{
    let t = vec![
        (2u8, 0b11u16, 3u8),
        (2u8, 0b10u16, 4u8),
        (2u8, 0b01u16, 6u8),
        (3u8, 0b001u16, 5u8),
        (4u8, 0b0001u16, 2u8),
        (5u8, 0b00001u16, 7u8),
        (6u8, 0b000001u16, 0u8),
        (6u8, 0b000000u16, 1u8),
    ];
    assert(t@ =~= spec_total_zeros_9());
    t
}

pub open spec fn spec_total_zeros_10() -> Seq<(u8, u16, u8)> {
    seq![
        (2u8, 0b11u16, 3u8),
        (2u8, 0b10u16, 4u8),
        (2u8, 0b01u16, 5u8),
        (3u8, 0b001u16, 2u8),
        (4u8, 0b0001u16, 6u8),
        (5u8, 0b00001u16, 0u8),
        (5u8, 0b00000u16, 1u8),
    ]
}

pub fn total_zeros_10() -> (t: Vec<(u8, u16, u8)>)
    ensures
        t@ == spec_total_zeros_10(),
{
    let t = vec![
        (2u8, 0b11u16, 3u8),
        (2u8, 0b10u16, 4u8),
        (2u8, 0b01u16, 5u8),
        (3u8, 0b001u16, 2u8),
        (4u8, 0b0001u16, 6u8),
        (5u8, 0b00001u16, 0u8),
        (5u8, 0b00000u16, 1u8),
    ];
    assert(t@ =~= spec_total_zeros_10());
    t
}

pub open spec fn spec_total_zeros_11() -> Seq<(u8, u16, u8)> {
    seq![
        (1u8, 0b1u16, 4u8),
        (3u8, 0b011u16, 5u8),
        (3u8, 0b010u16, 3u8),
        (3u8, 0b001u16, 2u8),
        (4u8, 0b0001u16, 1u8),
        (4u8, 0b0000u16, 0u8),
    ]
}

pub fn total_zeros_11() -> (t: Vec<(u8, u16, u8)>)
    ensures
        t@ == spec_total_zeros_11(),
{
    let t = vec![
        (1u8, 0b1u16, 4u8),
        (3u8, 0b011u16, 5u8),
        (3u8, 0b010u16, 3u8),
        (3u8, 0b001u16, 2u8),
        (4u8, 0b0001u16, 1u8),
        (4u8, 0b0000u16, 0u8),
    ];
    assert(t@ =~= spec_total_zeros_11());
    t
}

pub open spec fn spec_total_zeros_12() -> Seq<(u8, u16, u8)> {
    seq![
        (1u8, 0b1u16, 3u8),
        (2u8, 0b01u16, 2u8),
        (3u8, 0b001u16, 4u8),
        (4u8, 0b0001u16, 1u8),
        (4u8, 0b0000u16, 0u8),
    ]
}

pub fn total_zeros_12() -> (t: Vec<(u8, u16, u8)>)
    ensures
        t@ == spec_total_zeros_12(),
{
    let t = vec![
        (1u8, 0b1u16, 3u8),
        (2u8, 0b01u16, 2u8),
        (3u8, 0b001u16, 4u8),
        (4u8, 0b0001u16, 1u8),
        (4u8, 0b0000u16, 0u8),
    ];
    assert(t@ =~= spec_total_zeros_12());
    t
}

pub open spec fn spec_total_zeros_13() -> Seq<(u8, u16, u8)> {
    seq![
        (1u8, 0b1u16, 2u8),
        (2u8, 0b01u16, 3u8),
        (3u8, 0b001u16, 1u8),
        (3u8, 0b000u16, 0u8),
    ]
}

pub fn total_zeros_13() -> (t: Vec<(u8, u16, u8)>)
    ensures
        t@ == spec_total_zeros_13(),
{
    let t = vec![
        (1u8, 0b1u16, 2u8),
        (2u8, 0b01u16, 3u8),
        (3u8, 0b001u16, 1u8),
        (3u8, 0b000u16, 0u8),
    ];
    assert(t@ =~= spec_total_zeros_13());
    t
}

pub open spec fn spec_total_zeros_14() -> Seq<(u8, u16, u8)> {
    seq![
        (1u8, 0b1u16, 2u8),
        (2u8, 0b01u16, 1u8),
        (2u8, 0b00u16, 0u8),
    ]
}

pub fn total_zeros_14() -> (t: Vec<(u8, u16, u8)>)
    ensures
        t@ == spec_total_zeros_14(),
{
    let t = vec![
        (1u8, 0b1u16, 2u8),
        (2u8, 0b01u16, 1u8),
        (2u8, 0b00u16, 0u8),
    ];
    assert(t@ =~= spec_total_zeros_14());
    t
}

pub open spec fn spec_total_zeros_15() -> Seq<(u8, u16, u8)> {
    seq![
        (1u8, 0b1u16, 1u8),
        (1u8, 0b0u16, 0u8),
    ]
}

pub fn total_zeros_15() -> (t: Vec<(u8, u16, u8)>)
    ensures
        t@ == spec_total_zeros_15(),
{
    let t = vec![
        (1u8, 0b1u16, 1u8),
        (1u8, 0b0u16, 0u8),
    ];
    assert(t@ =~= spec_total_zeros_15());
    t
}

pub open spec fn spec_total_zeros_chroma_dc_1() -> Seq<(u8, u16, u8)> {
    seq![
        (1u8, 0b1u16, 0u8),
        (2u8, 0b01u16, 1u8),
        (3u8, 0b001u16, 2u8),
        (3u8, 0b000u16, 3u8),
    ]
}

pub fn total_zeros_chroma_dc_1() -> (t: Vec<(u8, u16, u8)>)
    ensures
        t@ == spec_total_zeros_chroma_dc_1(),
{
    let t = vec![
        (1u8, 0b1u16, 0u8),
        (2u8, 0b01u16, 1u8),
        (3u8, 0b001u16, 2u8),
        (3u8, 0b000u16, 3u8),
    ];
    assert(t@ =~= spec_total_zeros_chroma_dc_1());
    t
}

pub open spec fn spec_total_zeros_chroma_dc_2() -> Seq<(u8, u16, u8)> {
    seq![
        (1u8, 0b1u16, 0u8),
        (2u8, 0b01u16, 1u8),
        (2u8, 0b00u16, 2u8),
    ]
}

pub fn total_zeros_chroma_dc_2() -> (t: Vec<(u8, u16, u8)>)
    ensures
        t@ == spec_total_zeros_chroma_dc_2(),
{
    let t = vec![
        (1u8, 0b1u16, 0u8),
        (2u8, 0b01u16, 1u8),
        (2u8, 0b00u16, 2u8),
    ];
    assert(t@ =~= spec_total_zeros_chroma_dc_2());
    t
}

pub open spec fn spec_total_zeros_chroma_dc_3() -> Seq<(u8, u16, u8)> {
    seq![
        (1u8, 0b1u16, 0u8),
        (1u8, 0b0u16, 1u8),
    ]
}

pub fn total_zeros_chroma_dc_3() -> (t: Vec<(u8, u16, u8)>)
    ensures
        t@ == spec_total_zeros_chroma_dc_3(),
{
    let t = vec![
        (1u8, 0b1u16, 0u8),
        (1u8, 0b0u16, 1u8),
    ];
    assert(t@ =~= spec_total_zeros_chroma_dc_3());
    t
}

pub open spec fn spec_run_before_1() -> Seq<(u8, u16, u8)> {
    seq![
        (1u8, 0b1u16, 0u8),
        (1u8, 0b0u16, 1u8),
    ]
}

pub fn run_before_1() -> (t: Vec<(u8, u16, u8)>)
    ensures
        t@ == spec_run_before_1(),
{
    let t = vec![
        (1u8, 0b1u16, 0u8),
        (1u8, 0b0u16, 1u8),
    ];
    assert(t@ =~= spec_run_before_1());
    t
}

pub open spec fn spec_run_before_2() -> Seq<(u8, u16, u8)> {
    seq![
        (1u8, 0b1u16, 0u8),
        (2u8, 0b01u16, 1u8),
        (2u8, 0b00u16, 2u8),
    ]
}

pub fn run_before_2() -> (t: Vec<(u8, u16, u8)>)
    ensures
        t@ == spec_run_before_2(),
{
    let t = vec![
        (1u8, 0b1u16, 0u8),
        (2u8, 0b01u16, 1u8),
        (2u8, 0b00u16, 2u8),
    ];
    assert(t@ =~= spec_run_before_2());
    t
}

pub open spec fn spec_run_before_3() -> Seq<(u8, u16, u8)> {
    seq![
        (2u8, 0b11u16, 0u8),
        (2u8, 0b10u16, 1u8),
        (2u8, 0b01u16, 2u8),
        (2u8, 0b00u16, 3u8),
    ]
}

pub fn run_before_3() -> (t: Vec<(u8, u16, u8)>)
    ensures
        t@ == spec_run_before_3(),
{
    let t = vec![
        (2u8, 0b11u16, 0u8),
        (2u8, 0b10u16, 1u8),
        (2u8, 0b01u16, 2u8),
        (2u8, 0b00u16, 3u8),
    ];
    assert(t@ =~= spec_run_before_3());
    t
}

pub open spec fn spec_run_before_4() -> Seq<(u8, u16, u8)> {
    seq![
        (2u8, 0b11u16, 0u8),
        (2u8, 0b10u16, 1u8),
        (2u8, 0b01u16, 2u8),
        (3u8, 0b001u16, 3u8),
        (3u8, 0b000u16, 4u8),
    ]
}

pub fn run_before_4() -> (t: Vec<(u8, u16, u8)>)
    ensures
        t@ == spec_run_before_4(),
{
    let t = vec![
        (2u8, 0b11u16, 0u8),
        (2u8, 0b10u16, 1u8),
        (2u8, 0b01u16, 2u8),
        (3u8, 0b001u16, 3u8),
        (3u8, 0b000u16, 4u8),
    ];
    assert(t@ =~= spec_run_before_4());
    t
}

pub open spec fn spec_run_before_5() -> Seq<(u8, u16, u8)> {
    seq![
        (2u8, 0b11u16, 0u8),
        (2u8, 0b10u16, 1u8),
        (3u8, 0b011u16, 2u8),
        (3u8, 0b010u16, 3u8),
        (3u8, 0b001u16, 4u8),
        (3u8, 0b000u16, 5u8),
    ]
}

pub fn run_before_5() -> (t: Vec<(u8, u16, u8)>)
    ensures
        t@ == spec_run_before_5(),
{
    let t = vec![
        (2u8, 0b11u16, 0u8),
        (2u8, 0b10u16, 1u8),
        (3u8, 0b011u16, 2u8),
        (3u8, 0b010u16, 3u8),
        (3u8, 0b001u16, 4u8),
        (3u8, 0b000u16, 5u8),
    ];
    assert(t@ =~= spec_run_before_5());
    t
}

/// Table 9-10, zerosLeft=6
pub open spec fn spec_run_before_6() -> Seq<(u8, u16, u8)> {
    seq![
        (2u8, 0b11u16, 0u8),
        (3u8, 0b101u16, 5u8),
        (3u8, 0b100u16, 6u8),
        (3u8, 0b011u16, 3u8),
        (3u8, 0b010u16, 4u8),
        (3u8, 0b001u16, 2u8),
        (3u8, 0b000u16, 1u8),
    ]
}

pub fn run_before_6() -> (t: Vec<(u8, u16, u8)>)
    ensures
        t@ == spec_run_before_6(),
{
    let t = vec![
        (2u8, 0b11u16, 0u8),
        (3u8, 0b101u16, 5u8),
        (3u8, 0b100u16, 6u8),
        (3u8, 0b011u16, 3u8),
        (3u8, 0b010u16, 4u8),
        (3u8, 0b001u16, 2u8),
        (3u8, 0b000u16, 1u8),
    ];
    assert(t@ =~= spec_run_before_6());
    t
}

/// Table 9-10, zerosLeft > 6
pub open spec fn spec_run_before_gt6() -> Seq<(u8, u16, u8)> {
    seq![
        (3u8, 0b111u16, 0u8),
        (3u8, 0b110u16, 1u8),
        (3u8, 0b101u16, 2u8),
        (3u8, 0b100u16, 3u8),
        (3u8, 0b011u16, 4u8),
        (3u8, 0b010u16, 5u8),
        (3u8, 0b001u16, 6u8),
        (4u8, 0b0001u16, 7u8),
        (5u8, 0b00001u16, 8u8),
        (6u8, 0b000001u16, 9u8),
        (7u8, 0b0000001u16, 10u8),
        (8u8, 0b00000001u16, 11u8),
        (9u8, 0b000000001u16, 12u8),
        (10u8, 0b0000000001u16, 13u8),
        (11u8, 0b00000000001u16, 14u8),
    ]
}

pub fn run_before_gt6() -> (t: Vec<(u8, u16, u8)>)
    ensures
        t@ == spec_run_before_gt6(),
{
    let t = vec![
        (3u8, 0b111u16, 0u8),
        (3u8, 0b110u16, 1u8),
        (3u8, 0b101u16, 2u8),
        (3u8, 0b100u16, 3u8),
        (3u8, 0b011u16, 4u8),
        (3u8, 0b010u16, 5u8),
        (3u8, 0b001u16, 6u8),
        (4u8, 0b0001u16, 7u8),
        (5u8, 0b00001u16, 8u8),
        (6u8, 0b000001u16, 9u8),
        (7u8, 0b0000001u16, 10u8),
        (8u8, 0b00000001u16, 11u8),
        (9u8, 0b000000001u16, 12u8),
        (10u8, 0b0000000001u16, 13u8),
        (11u8, 0b00000000001u16, 14u8),
    ];
    assert(t@ =~= spec_run_before_gt6());
    t
}

/// The `total_zeros` code table for blocks of up to 16 coefficients (Table 9-7, 9-8).
pub open spec fn spec_total_zeros_table_16(total_coeff: u8) -> Result<Seq<(u8, u16, u8)>, CavlcError> {
    if total_coeff == 1 { Ok(spec_total_zeros_1()) }
    else if total_coeff == 2 { Ok(spec_total_zeros_2()) }
    else if total_coeff == 3 { Ok(spec_total_zeros_3()) }
    else if total_coeff == 4 { Ok(spec_total_zeros_4()) }
    else if total_coeff == 5 { Ok(spec_total_zeros_5()) }
    else if total_coeff == 6 { Ok(spec_total_zeros_6()) }
    else if total_coeff == 7 { Ok(spec_total_zeros_7()) }
    else if total_coeff == 8 { Ok(spec_total_zeros_8()) }
    else if total_coeff == 9 { Ok(spec_total_zeros_9()) }
    else if total_coeff == 10 { Ok(spec_total_zeros_10()) }
    else if total_coeff == 11 { Ok(spec_total_zeros_11()) }
    else if total_coeff == 12 { Ok(spec_total_zeros_12()) }
    else if total_coeff == 13 { Ok(spec_total_zeros_13()) }
    else if total_coeff == 14 { Ok(spec_total_zeros_14()) }
    else if total_coeff == 15 { Ok(spec_total_zeros_15()) }
    else {
        Err(CavlcError::OutOfRange { field: "total_coeff for total_zeros", value: total_coeff as i64 })
    }
}

pub fn total_zeros_table_16(total_coeff: u8) -> (r: Result<Vec<(u8, u16, u8)>, CavlcError>)
    ensures
        match spec_total_zeros_table_16(total_coeff) {
            Ok(t) => r matches Ok(v) && v@ == t,
            Err(e) => r == Err::<Vec<(u8, u16, u8)>, CavlcError>(e),
        },
{
    match total_coeff {
        1 => Ok(total_zeros_1()),
        2 => Ok(total_zeros_2()),
        3 => Ok(total_zeros_3()),
        4 => Ok(total_zeros_4()),
        5 => Ok(total_zeros_5()),
        6 => Ok(total_zeros_6()),
        7 => Ok(total_zeros_7()),
        8 => Ok(total_zeros_8()),
        9 => Ok(total_zeros_9()),
        10 => Ok(total_zeros_10()),
        11 => Ok(total_zeros_11()),
        12 => Ok(total_zeros_12()),
        13 => Ok(total_zeros_13()),
        14 => Ok(total_zeros_14()),
        15 => Ok(total_zeros_15()),
        _ => Err(CavlcError::OutOfRange { field: "total_coeff for total_zeros", value: total_coeff as i64 }),
    }
}

/// The `total_zeros` code table for chroma DC blocks of 4:2:0 (Table 9-9(a)).
pub open spec fn spec_total_zeros_table_4(total_coeff: u8) -> Result<Seq<(u8, u16, u8)>, CavlcError> {
    if total_coeff == 1 { Ok(spec_total_zeros_chroma_dc_1()) }
    else if total_coeff == 2 { Ok(spec_total_zeros_chroma_dc_2()) }
    else if total_coeff == 3 { Ok(spec_total_zeros_chroma_dc_3()) }
    else {
        Err(CavlcError::OutOfRange { field: "total_coeff for chroma_dc total_zeros", value: total_coeff as i64 })
    }
}

pub fn total_zeros_table_4(total_coeff: u8) -> (r: Result<Vec<(u8, u16, u8)>, CavlcError>)
    ensures
        match spec_total_zeros_table_4(total_coeff) {
            Ok(t) => r matches Ok(v) && v@ == t,
            Err(e) => r == Err::<Vec<(u8, u16, u8)>, CavlcError>(e),
        },
{
    match total_coeff {
        1 => Ok(total_zeros_chroma_dc_1()),
        2 => Ok(total_zeros_chroma_dc_2()),
        3 => Ok(total_zeros_chroma_dc_3()),
        _ => Err(CavlcError::OutOfRange { field: "total_coeff for chroma_dc total_zeros", value: total_coeff as i64 }),
    }
}

/// The `run_before` code table for `zeros_left` remaining zeros (Table 9-10).
pub open spec fn spec_run_before_table(zeros_left: u8) -> Seq<(u8, u16, u8)> {
    if zeros_left <= 1 { spec_run_before_1() }
    else if zeros_left == 2 { spec_run_before_2() }
    else if zeros_left == 3 { spec_run_before_3() }
    else if zeros_left == 4 { spec_run_before_4() }
    else if zeros_left == 5 { spec_run_before_5() }
    else if zeros_left == 6 { spec_run_before_6() }
    else { spec_run_before_gt6() }
}

pub fn run_before_table(zeros_left: u8) -> (t: Vec<(u8, u16, u8)>)
    ensures
        t@ == spec_run_before_table(zeros_left),
{
    match zeros_left {
        0 | 1 => run_before_1(),
        2 => run_before_2(),
        3 => run_before_3(),
        4 => run_before_4(),
        5 => run_before_5(),
        6 => run_before_6(),
        _ => run_before_gt6(),
    }
}

/// `coeff_token` for `nC >= 8`: a 6-bit fixed-length code (Table 9-5).
pub open spec fn spec_read_coeff_token_fixed6(s: BitStream) -> Result<((u8, u8), BitStream), CavlcError> {
    match spec_read_bits(s, 6) {
        None => Err(CavlcError::IoError(BitReaderError::ReaderError("coeff_token", s.end))),
        Some((code, s2)) => if code == 3 {
            Ok(((0u8, 0u8), s2))
        } else {
            let total_coeff = code / 4 + 1;
            let trailing_ones = code % 4;
            if trailing_ones > (if total_coeff < 3 { total_coeff } else { 3 }) {
                Err(CavlcError::InvalidCode("coeff_token nC>=8: trailing_ones > total_coeff"))
            } else {
                Ok(((total_coeff as u8, trailing_ones as u8), s2))
            }
        },
    }
}

fn read_coeff_token_fixed6(r: &mut BitReader) -> (res: Result<(u8, u8), CavlcError>)
    ensures
        match spec_read_coeff_token_fixed6(old(r)@) {
            Ok((v, s2)) => res == Ok::<(u8, u8), CavlcError>(v) && final(r)@ == s2,
            Err(e) => res == Err::<(u8, u8), CavlcError>(e),
        },
{
    let ghost start = r@;
    let code: u8 = match r.read::<6, u8>("coeff_token") {
        Ok(c) => c,
        Err(e) => return Err(CavlcError::IoError(e)),
    };
    proof {
        lemma_bits_value_bound(start.data, start.pos, 6);
        vstd::arithmetic::power2::lemma2_to64();
    }
    if code == 3 {
        return Ok((0, 0));
    }
    assert((code >> 2) == code / 4 && (code & 3) == code % 4) by (bit_vector);
    let total_coeff = (code >> 2) + 1;
    let trailing_ones = code & 3;
    let limit = if total_coeff < 3 { total_coeff } else { 3 };
    if trailing_ones > limit {
        return Err(CavlcError::InvalidCode("coeff_token nC>=8: trailing_ones > total_coeff"));
    }
    Ok((total_coeff, trailing_ones))
}

/// Decoding `coeff_token` in the table that the context selects.
pub open spec fn spec_read_coeff_token(s: BitStream, nc: CavlcContext) -> Result<((u8, u8), BitStream), CavlcError> {
    match nc {
        CavlcContext::NC(n) => if n >= 8 {
            spec_read_coeff_token_fixed6(s)
        } else if n >= 4 {
            spec_read_coeff_token_vlc(s, spec_coeff_token_4(), "coeff_token (4<=nC<8)")
        } else if n >= 2 {
            spec_read_coeff_token_vlc(s, spec_coeff_token_2(), "coeff_token (2<=nC<4)")
        } else {
            spec_read_coeff_token_vlc(s, spec_coeff_token_0(), "coeff_token (nC<2)")
        },
        CavlcContext::ChromaDC => spec_read_coeff_token_vlc(s, spec_coeff_token_chroma_dc(), "coeff_token (ChromaDC)"),
    }
}

fn read_coeff_token(r: &mut BitReader, nc: CavlcContext) -> (res: Result<(u8, u8), CavlcError>)
    ensures
        match spec_read_coeff_token(old(r)@, nc) {
            Ok((v, s2)) => res == Ok::<(u8, u8), CavlcError>(v) && final(r)@ == s2,
            Err(e) => res == Err::<(u8, u8), CavlcError>(e),
        },
{
    match nc {
        CavlcContext::NC(n) => {
            if n >= 8 {
                read_coeff_token_fixed6(r)
            } else if n >= 4 {
                let t = coeff_token_4();
                read_coeff_token_vlc(r, &t, "coeff_token (4<=nC<8)")
            } else if n >= 2 {
                let t = coeff_token_2();
                read_coeff_token_vlc(r, &t, "coeff_token (2<=nC<4)")
            } else {
                let t = coeff_token_0();
                read_coeff_token_vlc(r, &t, "coeff_token (nC<2)")
            }
        },
        CavlcContext::ChromaDC => {
            let t = coeff_token_chroma_dc();
            read_coeff_token_vlc(r, &t, "coeff_token (ChromaDC)")
        },
    }
}

/// `level_prefix`: the number of zero bits before the next one bit, at most 32.
pub open spec fn spec_read_level_prefix(s: BitStream) -> Result<(u32, BitStream), CavlcError> {
    let k = zeros_run(s.data, s.pos);
    if k > 32 {
        Err(CavlcError::InvalidCode("level_prefix exceeds 32"))
    } else if s.pos + k >= s.len_bits() {
        Err(CavlcError::IoError(BitReaderError::ReaderError("level_prefix", s.end)))
    } else {
        Ok((k as u32, s.at(s.pos + k + 1)))
    }
}

fn read_level_prefix(r: &mut BitReader) -> (res: Result<u32, CavlcError>)
    ensures
        match spec_read_level_prefix(old(r)@) {
            Ok((v, s2)) => res == Ok::<u32, CavlcError>(v) && final(r)@ == s2,
            Err(e) => res == Err::<u32, CavlcError>(e),
        },
{
    r.check_wf();
    let ghost start = r@;
    let mut prefix: u32 = 0;
    loop
        invariant
            start == old(r)@,
            start.wf(),
            r@.data == start.data,
            r@.end == start.end,
            r@.pos == start.pos + prefix,
            prefix <= 32,
            zeros_run(start.data, start.pos) == prefix + zeros_run(start.data, r@.pos),
        decreases 33 - prefix,
    {
        match r.read_bit("level_prefix") {
            Err(e) => {
                return Err(CavlcError::IoError(e));
            },
            Ok(b) => {
                if b {
                    return Ok(prefix);
                }
            },
        }
        prefix = prefix + 1;
        if prefix > 32 {
            return Err(CavlcError::InvalidCode("level_prefix exceeds 32"));
        }
    }
}

/// `levelCode` of section 9.2.2.1 from `level_prefix`, `suffixLength` and `level_suffix`.
pub open spec fn level_code(level_prefix: u32, suffix_length: u32, level_suffix: nat) -> int {
    (if level_prefix < 15 { level_prefix as int } else { 15 }) * pow2(suffix_length as nat)
        + level_suffix
        + (if level_prefix >= 15 && suffix_length == 0 { 15int } else { 0 })
        + (if level_prefix >= 16 { pow2((level_prefix - 3) as nat) - 4096 } else { 0 })
}

/// The coefficient level for a `levelCode`.
pub open spec fn level_val(code: int) -> int {
    if code % 2 == 0 {
        code / 2 + 1
    } else {
        -(code / 2) - 1
    }
}

/// Size in bits of `level_suffix`.
pub open spec fn level_suffix_size(level_prefix: u32, suffix_length: u32) -> u32 {
    if level_prefix == 14 && suffix_length == 0 {
        4
    } else if level_prefix >= 15 {
        (level_prefix - 3) as u32
    } else {
        suffix_length
    }
}

/// Decoding one coefficient level (section 9.2.2.1).
pub open spec fn spec_read_level(s: BitStream, suffix_length: u32) -> Result<(i32, BitStream), CavlcError> {
    match spec_read_level_prefix(s) {
        Err(e) => Err(e),
        Ok((lp, s1)) => {
            let size = level_suffix_size(lp, suffix_length);
            if size > 0 {
                match spec_read_bits(s1, size as nat) {
                    None => Err(CavlcError::IoError(BitReaderError::ReaderError("level_suffix", s1.end))),
                    Some((suffix, s2)) => Ok((level_val(level_code(lp, suffix_length, suffix)) as i32, s2)),
                }
            } else {
                Ok((level_val(level_code(lp, suffix_length, 0)) as i32, s1))
            }
        },
    }
}

fn read_level(r: &mut BitReader, suffix_length: u32) -> (res: Result<i32, CavlcError>)
    requires
        suffix_length <= 6,
    ensures
        match spec_read_level(old(r)@, suffix_length) {
            Ok((v, s2)) => res == Ok::<i32, CavlcError>(v) && final(r)@ == s2,
            Err(e) => res == Err::<i32, CavlcError>(e),
        },
        res matches Ok(v) ==> -0x4000_0000 <= v <= 0x4000_0000,
{
    let level_prefix = match read_level_prefix(r) {
        Ok(p) => p,
        Err(e) => return Err(e),
    };
    let ghost s1 = r@;
    let level_suffix_size: u32 = if level_prefix == 14 && suffix_length == 0 {
        4
    } else if level_prefix >= 15 {
        level_prefix - 3
    } else {
        suffix_length
    };
    let level_suffix: u32 = if level_suffix_size > 0 {
        match r.read_var::<u32>(level_suffix_size, "level_suffix") {
            Ok(v) => v,
            Err(e) => return Err(CavlcError::IoError(e)),
        }
    } else {
        0
    };
    proof {
        vstd::arithmetic::power2::lemma2_to64();
        vstd::arithmetic::power2::lemma_pow2_pos(level_suffix_size as nat);
        if level_suffix_size > 0 {
            lemma_bits_value_bound(s1.data, s1.pos, level_suffix_size as nat);
        }
        if level_suffix_size < 29 {
            vstd::arithmetic::power2::lemma_pow2_strictly_increases(level_suffix_size as nat, 29);
        }
        if suffix_length < 6 {
            vstd::arithmetic::power2::lemma_pow2_strictly_increases(suffix_length as nat, 6);
        }
        if level_prefix >= 16 && level_prefix < 32 {
            vstd::arithmetic::power2::lemma_pow2_strictly_increases((level_prefix - 3) as nat, 29);
        }
        if level_prefix >= 16 {
            vstd::arithmetic::power2::lemma_pow2_strictly_increases(12, (level_prefix - 3) as nat);
        }
    }
    let prefix_min: u64 = if level_prefix < 15 { level_prefix as u64 } else { 15 };
    let scale: u64 = 1u64 << suffix_length;
    proof { vstd::bits::lemma_u64_shl_is_mul(1, suffix_length as u64); }
    assert(prefix_min * scale <= 960) by (nonlinear_arith)
        requires
            prefix_min <= 15,
            scale <= 64,
    ;
    assert(level_suffix < 0x2000_0000);
    let mut code: u64 = prefix_min * scale + level_suffix as u64;
    if level_prefix >= 15 && suffix_length == 0 {
        code = code + 15;
    }
    if level_prefix >= 16 {
        let big: u64 = 1u64 << (level_prefix - 3);
        proof { vstd::bits::lemma_u64_shl_is_mul(1, (level_prefix - 3) as u64); }
        assert(big <= 0x2000_0000 && big >= 4096);
        code = code + big - 4096;
    }
    assert(code < 0x4000_0000 + 1000);
    assert(code == level_code(level_prefix, suffix_length, level_suffix as nat));
    let level: i32 = if code % 2 == 0 {
        (code / 2) as i32 + 1
    } else {
        -((code / 2) as i32) - 1
    };
    Ok(level)
}

/// `suffixLength` after decoding a level (section 9.2.2.1).
pub open spec fn spec_next_suffix_length(suffix_length: u32, level: i32) -> u32 {
    let sl: u32 = if suffix_length == 0 { 1 } else { suffix_length };
    let abs_level: int = if level < 0 { -level } else { level as int };
    if abs_level > 3 * pow2((sl - 1) as nat) && sl < 6 {
        (sl + 1) as u32
    } else {
        sl
    }
}

fn update_suffix_length(suffix_length: &mut u32, level_val: i32)
    requires
        *old(suffix_length) <= 6,
    ensures
        *final(suffix_length) == spec_next_suffix_length(*old(suffix_length), level_val),
        *final(suffix_length) <= 6,
{
    let abs_level: u64 = if level_val < 0 { (-(level_val as i64)) as u64 } else { level_val as u64 };
    if *suffix_length == 0 {
        *suffix_length = 1;
    }
    let sl = *suffix_length;
    proof {
        vstd::arithmetic::power2::lemma2_to64();
        if sl - 1 < 5 {
            vstd::arithmetic::power2::lemma_pow2_strictly_increases((sl - 1) as nat, 5);
        }
        vstd::bits::lemma_u64_shl_is_mul(3, (sl - 1) as u64);
    }
    let threshold: u64 = 3u64 << (sl - 1);
    if abs_level > threshold && sl < 6 {
        *suffix_length = sl + 1;
    }
}

/// Decoding `total_zeros` for a block with `total_coeff` coefficients of at most `max_num_coeff`.
pub open spec fn spec_read_total_zeros(s: BitStream, total_coeff: u8, max_num_coeff: usize) -> Result<(u8, BitStream), CavlcError> {
    let table = if max_num_coeff == 4 {
        spec_total_zeros_table_4(total_coeff)
    } else {
        spec_total_zeros_table_16(total_coeff)
    };
    match table {
        Err(e) => Err(e),
        Ok(t) => spec_read_value_vlc(s, t, "total_zeros"),
    }
}

fn read_total_zeros(r: &mut BitReader, total_coeff: u8, max_num_coeff: usize) -> (res: Result<u8, CavlcError>)
    ensures
        match spec_read_total_zeros(old(r)@, total_coeff, max_num_coeff) {
            Ok((v, s2)) => res == Ok::<u8, CavlcError>(v) && final(r)@ == s2,
            Err(e) => res == Err::<u8, CavlcError>(e),
        },
{
    let table = if max_num_coeff == 4 {
        total_zeros_table_4(total_coeff)
    } else {
        total_zeros_table_16(total_coeff)
    };
    match table {
        Err(e) => Err(e),
        Ok(t) => read_value_vlc(r, &t, "total_zeros"),
    }
}

/// Decoding `run_before` with `zeros_left` zeros still to place.
pub open spec fn spec_read_run_before(s: BitStream, zeros_left: u8) -> Result<(u8, BitStream), CavlcError> {
    if zeros_left == 0 {
        Ok((0, s))
    } else {
        spec_read_value_vlc(s, spec_run_before_table(zeros_left), "run_before")
    }
}

fn read_run_before(r: &mut BitReader, zeros_left: u8) -> (res: Result<u8, CavlcError>)
    ensures
        match spec_read_run_before(old(r)@, zeros_left) {
            Ok((v, s2)) => res == Ok::<u8, CavlcError>(v) && final(r)@ == s2,
            Err(e) => res == Err::<u8, CavlcError>(e),
        },
{
    if zeros_left == 0 {
        return Ok(0);
    }
    let table = run_before_table(zeros_left);
    read_value_vlc(r, &table, "run_before")
}

/// The signs of the first `n` trailing ones: `-1` for a set `trailing_ones_sign_flag`, else `1`.
pub open spec fn spec_trailing_ones(s: BitStream, n: nat) -> Result<(Seq<i32>, BitStream), CavlcError>
    decreases n,
{
    if n == 0 {
        Ok((Seq::empty(), s))
    } else {
        match spec_trailing_ones(s, (n - 1) as nat) {
            Err(e) => Err(e),
            Ok((v, s1)) => match spec_read_bit(s1, "trailing_ones_sign_flag") {
                Err(e) => Err(CavlcError::IoError(e)),
                Ok((b, s2)) => Ok((v.push(if b { -1i32 } else { 1i32 }), s2)),
            },
        }
    }
}

/// The initial `suffixLength` of a block.
pub open spec fn initial_suffix_length(total_coeff: u8, trailing_ones: u8) -> u32 {
    if total_coeff > 10 && trailing_ones < 3 { 1 } else { 0 }
}

/// The first `n` non-trailing-one levels, the stream after them and the `suffixLength` that
/// follows. The first level is one step further from zero when there are fewer than three
/// trailing ones.
pub open spec fn spec_levels(s: BitStream, total_coeff: u8, trailing_ones: u8, n: nat)
    -> Result<(Seq<i32>, BitStream, u32), CavlcError>
    decreases n,
{
    if n == 0 {
        Ok((Seq::empty(), s, initial_suffix_length(total_coeff, trailing_ones)))
    } else {
        match spec_levels(s, total_coeff, trailing_ones, (n - 1) as nat) {
            Err(e) => Err(e),
            Ok((v, s1, sl)) => match spec_read_level(s1, sl) {
                Err(e) => Err(e),
                Ok((lv, s2)) => {
                    let lv2: i32 = if n == 1 && trailing_ones < 3 {
                        if lv > 0 { (lv + 1) as i32 } else { (lv - 1) as i32 }
                    } else {
                        lv
                    };
                    Ok((v.push(lv2), s2, spec_next_suffix_length(sl, lv2)))
                },
            },
        }
    }
}

/// The first `n` values of `run_before`, the stream after them and the zeros left.
pub open spec fn spec_runs(s: BitStream, total_zeros: u8, n: nat) -> Result<(Seq<u8>, BitStream, u8), CavlcError>
    decreases n,
{
    if n == 0 {
        Ok((Seq::empty(), s, total_zeros))
    } else {
        match spec_runs(s, total_zeros, (n - 1) as nat) {
            Err(e) => Err(e),
            Ok((v, s1, zl)) => if zl > 0 {
                match spec_read_run_before(s1, zl) {
                    Err(e) => Err(e),
                    Ok((run, s2)) => if run > zl {
                        Err(CavlcError::OutOfRange { field: "zeros_left underflow in run_before", value: (-(run as int)) as i64 })
                    } else {
                        Ok((v.push(run), s2, (zl - run) as u8))
                    },
                }
            } else {
                Ok((v.push(0u8), s1, zl))
            },
        }
    }
}

/// `coeffs` with the positions `start..=end` set to zero.
pub open spec fn zero_range(coeffs: Seq<i32>, start: int, end: int) -> Seq<i32> {
    Seq::new(coeffs.len(), |k: int| if start <= k <= end { 0i32 } else { coeffs[k] })
}

/// Placing levels `i..` in reverse scan order, the level `i` at `start + idx`, each next one
/// `1 + runs[i]` positions earlier.
pub open spec fn spec_place(coeffs: Seq<i32>, start: int, end: int, levels: Seq<i32>, runs: Seq<u8>, total_coeff: int, idx: int, i: int)
    -> Result<Seq<i32>, CavlcError>
    decreases total_coeff - i,
{
    if i >= total_coeff {
        Ok(coeffs)
    } else if start + idx > end {
        Err(CavlcError::OutOfRange { field: "coefficient position exceeds end_idx", value: (start + idx) as i64 })
    } else {
        let c2 = coeffs.update(start + idx, levels[i]);
        if i < total_coeff - 1 {
            if idx < 1 + runs[i] {
                Err(CavlcError::OutOfRange { field: "coeff_idx underflow", value: -1i64 })
            } else {
                spec_place(c2, start, end, levels, runs, total_coeff, idx - 1 - runs[i], i + 1)
            }
        } else {
            Ok(c2)
        }
    }
}

/// `residual_block_cavlc()` (section 7.3.5.3.2): the number of non-zero coefficients, the
/// coefficients after decoding, and the stream after the block.
pub open spec fn spec_residual_block_cavlc(s: BitStream, coeffs: Seq<i32>, start: int, end: int, max_num_coeff: usize, nc: CavlcContext)
    -> Result<(u8, Seq<i32>, BitStream), CavlcError>
{
    let zeroed = zero_range(coeffs, start, end);
    match spec_read_coeff_token(s, nc) {
        Err(e) => Err(e),
        Ok(((total_coeff, trailing_ones), s1)) => if total_coeff == 0 {
            Ok((0u8, zeroed, s1))
        } else if total_coeff > max_num_coeff {
            Err(CavlcError::OutOfRange { field: "TotalCoeff", value: total_coeff as i64 })
        } else {
            match spec_trailing_ones(s1, trailing_ones as nat) {
                Err(e) => Err(e),
                Ok((signs, s2)) => match spec_levels(s2, total_coeff, trailing_ones, (total_coeff - trailing_ones) as nat) {
                    Err(e) => Err(e),
                    Ok((lv, s3, _)) => {
                        let tz = if total_coeff < max_num_coeff {
                            spec_read_total_zeros(s3, total_coeff, max_num_coeff)
                        } else {
                            Ok((0u8, s3))
                        };
                        match tz {
                            Err(e) => Err(e),
                            Ok((total_zeros, s4)) => if total_coeff + total_zeros > max_num_coeff {
                                Err(CavlcError::OutOfRange {
                                    field: "total_coeff + total_zeros exceeds max_num_coeff",
                                    value: (total_coeff + total_zeros) as i64,
                                })
                            } else {
                                match spec_runs(s4, total_zeros, (total_coeff - 1) as nat) {
                                    Err(e) => Err(e),
                                    Ok((runs, s5, zl)) => match spec_place(
                                        zeroed, start, end, signs + lv, runs.push(zl), total_coeff as int,
                                        total_coeff + total_zeros - 1, 0,
                                    ) {
                                        Err(e) => Err(e),
                                        Ok(c) => Ok((total_coeff, c, s5)),
                                    },
                                }
                            },
                        }
                    },
                },
            }
        },
    }
}

proof fn lemma_trailing_ones_err(s: BitStream, k: nat, n: nat)
    requires
        k <= n,
        spec_trailing_ones(s, k) is Err,
    ensures
        spec_trailing_ones(s, n) == spec_trailing_ones(s, k),
    decreases n,
{
    if n > k {
        lemma_trailing_ones_err(s, k, (n - 1) as nat);
    }
}

proof fn lemma_levels_err(s: BitStream, tc: u8, to: u8, k: nat, n: nat)
    requires
        k <= n,
        spec_levels(s, tc, to, k) is Err,
    ensures
        spec_levels(s, tc, to, n) == spec_levels(s, tc, to, k),
    decreases n,
{
    if n > k {
        lemma_levels_err(s, tc, to, k, (n - 1) as nat);
    }
}

proof fn lemma_runs_err(s: BitStream, tz: u8, k: nat, n: nat)
    requires
        k <= n,
        spec_runs(s, tz, k) is Err,
    ensures
        spec_runs(s, tz, n) == spec_runs(s, tz, k),
    decreases n,
{
    if n > k {
        lemma_runs_err(s, tz, k, (n - 1) as nat);
    }
}

proof fn lemma_coeff_token_entries(t: Seq<(u8, u16, u8, u8)>, i: int)
    requires
        t == spec_coeff_token_0() || t == spec_coeff_token_2() || t == spec_coeff_token_4() || t == spec_coeff_token_chroma_dc(),
        0 <= i < t.len(),
    ensures
        t[i].3 <= t[i].2 <= 16,
{
    assert(spec_coeff_token_0().len() == 62);
    assert(spec_coeff_token_2().len() == 62);
    assert(spec_coeff_token_4().len() == 62);
    assert(spec_coeff_token_chroma_dc().len() == 14);
}

/// Every `coeff_token` decodes to at most 16 coefficients, of which at most all are trailing ones.
proof fn lemma_coeff_token_bounds(s: BitStream, nc: CavlcContext)
    ensures
        spec_read_coeff_token(s, nc) matches Ok(((tc, to), _)) ==> to <= tc <= 16 && to <= 3,
{
    match nc {
        CavlcContext::NC(n) => {
            if n >= 8 {
                match spec_read_bits(s, 6) {
                    Some((code, _)) => {
                        lemma_bits_value_bound(s.data, s.pos, 6);
                        vstd::arithmetic::power2::lemma2_to64();
                    },
                    None => {},
                }
            } else {
                let t = if n >= 4 { spec_coeff_token_4() } else if n >= 2 { spec_coeff_token_2() } else { spec_coeff_token_0() };
                match first_coeff_match(s, t, 0) {
                    Some(i) => {
                        lemma_first_coeff_match_range(s, t, 0);
                        lemma_coeff_token_entries(t, i);
                    },
                    None => {},
                }
            }
        },
        CavlcContext::ChromaDC => {
            let t = spec_coeff_token_chroma_dc();
            match first_coeff_match(s, t, 0) {
                Some(i) => {
                    lemma_first_coeff_match_range(s, t, 0);
                    lemma_coeff_token_entries(t, i);
                },
                None => {},
            }
        },
    }
}

proof fn lemma_first_coeff_match_range(s: BitStream, t: Seq<(u8, u16, u8, u8)>, i: int)
    requires
        0 <= i,
    ensures
        first_coeff_match(s, t, i) matches Some(j) ==> i <= j < t.len(),
    decreases t.len() - i,
{
    if i < t.len() && !code_is_next(s, t[i].0, t[i].1) {
        lemma_first_coeff_match_range(s, t, i + 1);
    }
}

fn read_trailing_ones(r: &mut BitReader, trailing_ones: u8) -> (res: Result<Vec<i32>, CavlcError>)
    ensures
        match spec_trailing_ones(old(r)@, trailing_ones as nat) {
            Ok((v, s2)) => res matches Ok(w) && w@ == v && final(r)@ == s2,
            Err(e) => res == Err::<Vec<i32>, CavlcError>(e),
        },
        res matches Ok(w) ==> w@.len() == trailing_ones,
{
    let ghost start = r@;
    let mut signs: Vec<i32> = Vec::new();
    let mut i: u8 = 0;
    while i < trailing_ones
        invariant
            start == old(r)@,
            i <= trailing_ones,
            signs@.len() == i,
            spec_trailing_ones(start, i as nat) == Ok::<(Seq<i32>, BitStream), CavlcError>((signs@, r@)),
        decreases trailing_ones - i,
    {
        let negative = match r.read_bit("trailing_ones_sign_flag") {
            Ok(b) => b,
            Err(e) => {
                proof { lemma_trailing_ones_err(start, (i + 1) as nat, trailing_ones as nat); }
                return Err(CavlcError::IoError(e));
            },
        };
        signs.push(if negative { -1 } else { 1 });
        i = i + 1;
    }
    Ok(signs)
}

fn read_levels(r: &mut BitReader, total_coeff: u8, trailing_ones: u8, levels: &mut Vec<i32>) -> (res: Result<(), CavlcError>)
    requires
        trailing_ones <= total_coeff <= 16,
    ensures
        match spec_levels(old(r)@, total_coeff, trailing_ones, (total_coeff - trailing_ones) as nat) {
            Ok((v, s2, _)) => res is Ok && final(levels)@ == old(levels)@ + v && final(r)@ == s2,
            Err(e) => res == Err::<(), CavlcError>(e),
        },
        res is Ok ==> final(levels)@.len() == old(levels)@.len() + total_coeff - trailing_ones,
{
    let ghost start = r@;
    let ghost base = levels@;
    let remaining = total_coeff - trailing_ones;
    let mut suffix_length: u32 = if total_coeff > 10 && trailing_ones < 3 { 1 } else { 0 };
    let mut i: u8 = 0;
    assert(levels@.skip(base.len() as int) =~= Seq::<i32>::empty());
    assert(levels@.take(base.len() as int) =~= base);
    while i < remaining
        invariant
            start == old(r)@,
            base == old(levels)@,
            remaining == total_coeff - trailing_ones,
            i <= remaining,
            suffix_length <= 6,
            levels@.len() == base.len() + i,
            spec_levels(start, total_coeff, trailing_ones, i as nat)
                == Ok::<(Seq<i32>, BitStream, u32), CavlcError>((levels@.skip(base.len() as int), r@, suffix_length)),
            levels@.take(base.len() as int) == base,
        decreases remaining - i,
    {
        let mut level_val = match read_level(r, suffix_length) {
            Ok(v) => v,
            Err(e) => {
                proof { lemma_levels_err(start, total_coeff, trailing_ones, (i + 1) as nat, remaining as nat); }
                return Err(e);
            },
        };
        if i == 0 && trailing_ones < 3 {
            if level_val > 0 {
                level_val = level_val + 1;
            } else {
                level_val = level_val - 1;
            }
        }
        let ghost prev = levels@;
        levels.push(level_val);
        assert(levels@.skip(base.len() as int) =~= prev.skip(base.len() as int).push(level_val));
        assert(levels@.take(base.len() as int) =~= prev.take(base.len() as int));
        update_suffix_length(&mut suffix_length, level_val);
        i = i + 1;
    }
    assert(levels@ =~= base + levels@.skip(base.len() as int));
    Ok(())
}

fn read_runs(r: &mut BitReader, total_zeros: u8, count: u8) -> (res: Result<(Vec<u8>, u8), CavlcError>)
    ensures
        match spec_runs(old(r)@, total_zeros, count as nat) {
            Ok((v, s2, zl)) => res matches Ok((w, z)) && w@ == v && z == zl && final(r)@ == s2,
            Err(e) => res == Err::<(Vec<u8>, u8), CavlcError>(e),
        },
        res matches Ok((w, _)) ==> w@.len() == count,
{
    let ghost start = r@;
    let mut runs: Vec<u8> = Vec::new();
    let mut zeros_left = total_zeros;
    let mut i: u8 = 0;
    while i < count
        invariant
            start == old(r)@,
            i <= count,
            runs@.len() == i,
            spec_runs(start, total_zeros, i as nat) == Ok::<(Seq<u8>, BitStream, u8), CavlcError>((runs@, r@, zeros_left)),
        decreases count - i,
    {
        if zeros_left > 0 {
            let run = match read_run_before(r, zeros_left) {
                Ok(v) => v,
                Err(e) => {
                    proof { lemma_runs_err(start, total_zeros, (i + 1) as nat, count as nat); }
                    return Err(e);
                },
            };
            if run > zeros_left {
                proof { lemma_runs_err(start, total_zeros, (i + 1) as nat, count as nat); }
                return Err(CavlcError::OutOfRange { field: "zeros_left underflow in run_before", value: -(run as i64) });
            }
            runs.push(run);
            zeros_left = zeros_left - run;
        } else {
            runs.push(0);
        }
        i = i + 1;
    }
    Ok((runs, zeros_left))
}

fn place_levels(
    coeff_level: &mut Vec<i32>,
    start_idx: usize,
    end_idx: usize,
    levels: &Vec<i32>,
    runs: &Vec<u8>,
    total_coeff: usize,
    first_idx: usize,
) -> (res: Result<(), CavlcError>)
    requires
        end_idx < old(coeff_level)@.len(),
        start_idx <= end_idx + 1,
        total_coeff <= levels@.len(),
        total_coeff <= runs@.len(),
        total_coeff <= 16,
        first_idx < 300,
    ensures
        match spec_place(old(coeff_level)@, start_idx as int, end_idx as int, levels@, runs@, total_coeff as int, first_idx as int, 0) {
            Ok(c) => res is Ok && final(coeff_level)@ == c,
            Err(e) => res == Err::<(), CavlcError>(e),
        },
        final(coeff_level)@.len() == old(coeff_level)@.len(),
{
    let ghost c0 = coeff_level@;
    let mut coeff_idx = first_idx;
    let mut i: usize = 0;
    while i < total_coeff
        invariant
            c0 == old(coeff_level)@,
            coeff_level@.len() == c0.len(),
            end_idx < c0.len(),
            start_idx <= end_idx + 1,
            total_coeff <= levels@.len(),
            total_coeff <= runs@.len(),
            i <= total_coeff,
            coeff_idx <= first_idx < 300,
            spec_place(c0, start_idx as int, end_idx as int, levels@, runs@, total_coeff as int, first_idx as int, 0)
                == spec_place(coeff_level@, start_idx as int, end_idx as int, levels@, runs@, total_coeff as int, coeff_idx as int, i as int),
        decreases total_coeff - i,
    {
        if start_idx > end_idx || coeff_idx > end_idx - start_idx {
            let pos = (start_idx as u128 + coeff_idx as u128) as i64;
            return Err(CavlcError::OutOfRange { field: "coefficient position exceeds end_idx", value: pos });
        }
        let pos = start_idx + coeff_idx;
        coeff_level.set(pos, levels[i]);
        if i < total_coeff - 1 {
            let step = 1 + runs[i] as usize;
            if coeff_idx < step {
                return Err(CavlcError::OutOfRange { field: "coeff_idx underflow", value: -1 });
            }
            coeff_idx = coeff_idx - step;
        } else {
            return Ok(());
        }
        i = i + 1;
    }
    Ok(())
}

/// Decodes a `residual_block_cavlc()` (section 7.3.5.3.2) into `coeff_level[start_idx..=end_idx]`,
/// returning the number of non-zero coefficients.
pub(crate) fn residual_block_cavlc(
    r: &mut BitReader,
    coeff_level: &mut Vec<i32>,
    start_idx: usize,
    end_idx: usize,
    max_num_coeff: usize,
    nc: CavlcContext,
) -> (res: Result<u8, CavlcError>)
    requires
        end_idx < old(coeff_level)@.len(),
        start_idx <= end_idx + 1,
    ensures
        match spec_residual_block_cavlc(old(r)@, old(coeff_level)@, start_idx as int, end_idx as int, max_num_coeff, nc) {
            Ok((tc, c, s2)) => res == Ok::<u8, CavlcError>(tc) && final(coeff_level)@ == c && final(r)@ == s2,
            Err(e) => res == Err::<u8, CavlcError>(e),
        },
        final(coeff_level)@.len() == old(coeff_level)@.len(),
{
    let ghost s0 = r@;
    let ghost c0 = coeff_level@;
    // Zero the output range.
    let len = coeff_level.len();
    let mut k = start_idx;
    while k <= end_idx
        invariant
            c0 == old(coeff_level)@,
            len == c0.len(),
            coeff_level@.len() == c0.len(),
            end_idx < c0.len(),
            start_idx <= k <= end_idx + 1,
            coeff_level@ == zero_range(c0, start_idx as int, k - 1),
        decreases end_idx + 1 - k,
    {
        coeff_level.set(k, 0);
        assert(coeff_level@ =~= zero_range(c0, start_idx as int, k as int));
        k = k + 1;
    }
    let ghost zeroed = coeff_level@;
    proof { lemma_coeff_token_bounds(s0, nc); }
    let (total_coeff, trailing_ones) = match read_coeff_token(r, nc) {
        Ok(v) => v,
        Err(e) => return Err(e),
    };
    if total_coeff == 0 {
        return Ok(0);
    }
    if total_coeff as usize > max_num_coeff {
        return Err(CavlcError::OutOfRange { field: "TotalCoeff", value: total_coeff as i64 });
    }
    // coefficients in reverse scan order (highest frequency first)
    let mut levels = match read_trailing_ones(r, trailing_ones) {
        Ok(v) => v,
        Err(e) => return Err(e),
    };
    let ghost signs = levels@;
    match read_levels(r, total_coeff, trailing_ones, &mut levels) {
        Ok(()) => {},
        Err(e) => return Err(e),
    }
    let total_zeros: u8 = if (total_coeff as usize) < max_num_coeff {
        match read_total_zeros(r, total_coeff, max_num_coeff) {
            Ok(v) => v,
            Err(e) => return Err(e),
        }
    } else {
        0
    };
    if (total_coeff as usize) + (total_zeros as usize) > max_num_coeff {
        return Err(CavlcError::OutOfRange {
            field: "total_coeff + total_zeros exceeds max_num_coeff",
            value: (total_coeff as i64) + (total_zeros as i64),
        });
    }
    let (mut runs, zeros_left) = match read_runs(r, total_zeros, total_coeff - 1) {
        Ok(v) => v,
        Err(e) => return Err(e),
    };
    // last coefficient absorbs any remaining zeros
    runs.push(zeros_left);
    let first_idx = (total_coeff as usize + total_zeros as usize) - 1;
    match place_levels(coeff_level, start_idx, end_idx, &levels, &runs, total_coeff as usize, first_idx) {
        Ok(()) => Ok(total_coeff),
        Err(e) => Err(e),
    }
}


} // verus!

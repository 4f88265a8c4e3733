//! Parsing of the class file format from its bytes.
use vstd::prelude::*;

use crate::access_flags::{check_flags, flags_known, CLASS_FLAGS, FIELD_FLAGS, METHOD_FLAGS};
use crate::classloader::constant_pool::{
    cp_view, reference_kind_of, CpInfo, CpInfoModel, ReferenceKind,
};
use crate::classloader::raw::{
    raw_attributes_view, raw_fields_view, raw_methods_view, RawAttributeInfo,
    RawAttributeInfoModel, RawClassFile, RawClassFileModel, RawFieldInfo, RawMemberModel,
    RawMethodInfo,
};

verus! {

/// The bytes do not form a class file that this loader accepts.
#[derive(Debug)]
pub enum ParseError {
    InvalidClassFile,
}

// ---------------------------------------------------------------------------------------------
// Big-endian numbers

/// Whether `n` bytes can be read at position `p`.
pub open spec fn fits(s: Seq<u8>, p: int, n: int) -> bool {
    0 <= p && p + n <= s.len()
}

pub open spec fn spec_u16(s: Seq<u8>, p: int) -> u16 {
    (s[p] as int * 256 + s[p + 1] as int) as u16
}

pub open spec fn spec_u32(s: Seq<u8>, p: int) -> u32 {
    (s[p] as int * 16777216 + s[p + 1] as int * 65536 + s[p + 2] as int * 256
        + s[p + 3] as int) as u32
}

pub open spec fn spec_u64(s: Seq<u8>, p: int) -> u64 {
    (spec_u32(s, p) as int * 4294967296 + spec_u32(s, p + 4) as int) as u64
}

/// The big-endian number that the `n` bytes at `p` spell: the first byte is the most
/// significant.
pub open spec fn big_endian(s: Seq<u8>, p: int, n: nat) -> int
    decreases n,
{
    if n == 0 {
        0
    } else {
        big_endian(s, p, (n - 1) as nat) * 256 + s[p + n - 1] as int
    }
}

/// A 16-bit number is read with its first byte as the high byte.
pub proof fn lemma_u16_big_endian(s: Seq<u8>, p: int)
    requires
        fits(s, p, 2),
    ensures
        spec_u16(s, p) as int == big_endian(s, p, 2),
        spec_u16(s, p) as int == s[p] as int * 256 + s[p + 1] as int,
{
    reveal_with_fuel(big_endian, 3);
}

/// A 32-bit number is read with its bytes from the most significant to the least.
pub proof fn lemma_u32_big_endian(s: Seq<u8>, p: int)
    requires
        fits(s, p, 4),
    ensures
        spec_u32(s, p) as int == big_endian(s, p, 4),
        spec_u32(s, p) as int == s[p] as int * 0x100_0000 + s[p + 1] as int * 0x1_0000 + s[p + 2] as int
            * 0x100 + s[p + 3] as int,
{
    reveal_with_fuel(big_endian, 5);
}

/// A 64-bit number is read with its bytes from the most significant to the least: the
/// 32-bit word at `p` is the high word.
pub proof fn lemma_u64_big_endian(s: Seq<u8>, p: int)
    requires
        fits(s, p, 8),
    ensures
        spec_u64(s, p) as int == big_endian(s, p, 8),
        spec_u64(s, p) as int == s[p] as int * 0x100_0000_0000_0000 + s[p + 1] as int
            * 0x1_0000_0000_0000 + s[p + 2] as int * 0x100_0000_0000 + s[p + 3] as int
            * 0x1_0000_0000 + s[p + 4] as int * 0x100_0000 + s[p + 5] as int * 0x1_0000
            + s[p + 6] as int * 0x100 + s[p + 7] as int,
{
    reveal_with_fuel(big_endian, 9);
    lemma_u32_big_endian(s, p);
    lemma_u32_big_endian(s, p + 4);
}

/// A `CONSTANT_Integer` entry (tag 3) holds the big-endian number of its four bytes, read
/// as a two's complement 32-bit integer; a `CONSTANT_Float` entry (tag 4) holds the four
/// bytes as the big-endian bit pattern of the float. Both take five bytes.
pub proof fn lemma_cp_integer_float_big_endian(s: Seq<u8>, p: int)
    requires
        fits(s, p, 5),
        s[p] == 3 || s[p] == 4,
    ensures
        s[p] == 3 ==> (spec_cp_entry(s, p) matches Some((CpInfoModel::IntegerInfo(x), q)) && q == p + 5
            && x as int == (if big_endian(s, p + 1, 4) < 0x8000_0000 {
                big_endian(s, p + 1, 4)
            } else {
                big_endian(s, p + 1, 4) - 0x1_0000_0000
            })),
        s[p] == 4 ==> (spec_cp_entry(s, p) matches Some((CpInfoModel::FloatInfo(x), q)) && q == p + 5
            && x as int == big_endian(s, p + 1, 4)),
{
    lemma_u32_big_endian(s, p + 1);
    let v = spec_u32(s, p + 1);
    assert((v as i32) as int == (if v < 0x8000_0000u32 {
        v as int
    } else {
        v as int - 0x1_0000_0000
    })) by (bit_vector);
}

/// A `CONSTANT_Long` entry (tag 5) holds the big-endian number of its eight bytes, read as a
/// two's complement 64-bit integer; a `CONSTANT_Double` entry (tag 6) holds the eight bytes
/// as the big-endian bit pattern of the double. Both take nine bytes.
pub proof fn lemma_cp_long_double_big_endian(s: Seq<u8>, p: int)
    requires
        fits(s, p, 9),
        s[p] == 5 || s[p] == 6,
    ensures
        s[p] == 5 ==> (spec_cp_entry(s, p) matches Some((CpInfoModel::LongInfo(x), q)) && q == p + 9
            && x as int == (if big_endian(s, p + 1, 8) < 0x8000_0000_0000_0000 {
                big_endian(s, p + 1, 8)
            } else {
                big_endian(s, p + 1, 8) - 0x1_0000_0000_0000_0000
            })),
        s[p] == 6 ==> (spec_cp_entry(s, p) matches Some((CpInfoModel::DoubleInfo(x), q)) && q == p + 9
            && x as int == big_endian(s, p + 1, 8)),
{
    lemma_u64_big_endian(s, p + 1);
    let v = spec_u64(s, p + 1);
    assert((v as i64) as int == (if v < 0x8000_0000_0000_0000u64 {
        v as int
    } else {
        v as int - 0x1_0000_0000_0000_0000
    })) by (bit_vector);
}

/// Reads one byte.
pub fn read_u8(b: &[u8], pos: usize) -> (r: Result<(u8, usize), ParseError>)
    ensures
        r is Ok <==> fits(b@, pos as int, 1),
        r matches Ok((v, q)) ==> v == b@[pos as int] && q == pos + 1,
{
    if pos < b.len() {
        Ok((b[pos], pos + 1))
    } else {
        Err(ParseError::InvalidClassFile)
    }
}

/// Reads a big-endian unsigned 16-bit number.
pub fn read_u16(b: &[u8], pos: usize) -> (r: Result<(u16, usize), ParseError>)
    ensures
        r is Ok <==> fits(b@, pos as int, 2),
        r matches Ok((v, q)) ==> v == spec_u16(b@, pos as int) && q == pos + 2,
{
    if pos < b.len() && b.len() - pos >= 2 {
        let v = (b[pos] as u16) * 256 + b[pos + 1] as u16;
        Ok((v, pos + 2))
    } else {
        Err(ParseError::InvalidClassFile)
    }
}

/// Reads a big-endian unsigned 32-bit number.
pub fn read_u32(b: &[u8], pos: usize) -> (r: Result<(u32, usize), ParseError>)
    ensures
        r is Ok <==> fits(b@, pos as int, 4),
        r matches Ok((v, q)) ==> v == spec_u32(b@, pos as int) && q == pos + 4,
{
    if pos < b.len() && b.len() - pos >= 4 {
        let v = (b[pos] as u32) * 16777216 + (b[pos + 1] as u32) * 65536 + (b[pos + 2] as u32)
            * 256 + b[pos + 3] as u32;
        Ok((v, pos + 4))
    } else {
        Err(ParseError::InvalidClassFile)
    }
}

/// Reads a big-endian unsigned 64-bit number.
pub fn read_u64(b: &[u8], pos: usize) -> (r: Result<(u64, usize), ParseError>)
    ensures
        r is Ok <==> fits(b@, pos as int, 8),
        r matches Ok((v, q)) ==> v == spec_u64(b@, pos as int) && q == pos + 8,
{
    let (hi, p) = read_u32(b, pos)?;
    let (lo, q) = read_u32(b, p)?;
    Ok(((hi as u64) * 4294967296 + lo as u64, q))
}

// ---------------------------------------------------------------------------------------------
// Modified UTF-8

/// Whether `v` is a Unicode scalar value, i.e. a valid `char`.
pub open spec fn is_scalar_value(v: u32) -> bool {
    v <= 0xd7ff || (0xe000 <= v && v <= 0x10ffff)
}

/// Decodes one code point of the constant pool's modified UTF-8 from `s[p..end]`: its value
/// and the position after it. A lead byte `0xED` always starts a surrogate pair of six bytes.
pub open spec fn spec_code_point(s: Seq<u8>, p: int, end: int) -> Option<(u32, int)> {
    if !(0 <= p < end && end <= s.len()) {
        None
    } else {
        let x = s[p];
        if x == 0xed {
            if p + 6 <= end && s[p + 3] == 0xed {
                let v = s[p + 1] as u32;
                let w = s[p + 2] as u32;
                let y = s[p + 4] as u32;
                let z = s[p + 5] as u32;
                Some(
                    (
                        (0x10000u32 + ((v & 0x0f) << 16u32) + ((w & 0x3f) << 10u32) + ((y & 0x0f)
                            << 6u32) + (z & 0x3f)) as u32,
                        p + 6,
                    ),
                )
            } else {
                None
            }
        } else if x & 0xe0 == 0xe0 {
            if p + 3 <= end {
                let xx = x as u32;
                let y = s[p + 1] as u32;
                let z = s[p + 2] as u32;
                Some(((((xx & 0xf) << 12u32) + ((y & 0x3f) << 6u32) + (z & 0x3f)) as u32, p + 3))
            } else {
                None
            }
        } else if x & 0xc0 == 0xc0 {
            if p + 2 <= end {
                let xx = x as u32;
                let y = s[p + 1] as u32;
                Some(((((xx & 0x1f) << 6u32) + (y & 0x3f)) as u32, p + 2))
            } else {
                None
            }
        } else if x & 0x80 == 0 {
            Some((x as u32, p + 1))
        } else {
            None
        }
    }
}

/// Modified UTF-8 as the class file format defines it: a byte below 0x80 is that code
/// point; `110xxxxx 10yyyyyy` is `xxxxx * 64 + yyyyyy`; `1110xxxx 10yyyyyy 10zzzzzz` is
/// `xxxx * 4096 + yyyyyy * 64 + zzzzzz`; a supplementary code point is the surrogate pair
/// `0xED 1010vvvv 10wwwwww 0xED 1011yyyy 10zzzzzz`, which is
/// `0x10000 + vvvv * 65536 + wwwwww * 1024 + yyyy * 64 + zzzzzz`.
pub proof fn lemma_modified_utf8_code_points(s: Seq<u8>, p: int, end: int)
    requires
        0 <= p < end <= s.len(),
    ensures
        s[p] < 0x80 ==> spec_code_point(s, p, end) == Some((s[p] as u32, p + 1)),
        0xc0 <= s[p] < 0xe0 && p + 2 <= end && 0x80 <= s[p + 1] < 0xc0 ==> (spec_code_point(s, p, end)
            matches Some((c, q)) && q == p + 2 && c as int == (s[p] - 0xc0) * 64 + (s[p + 1] - 0x80)),
        0xe0 <= s[p] < 0xf0 && s[p] != 0xed && p + 3 <= end && 0x80 <= s[p + 1] < 0xc0 && 0x80 <= s[p + 2]
            < 0xc0 ==> (spec_code_point(s, p, end) matches Some((c, q)) && q == p + 3 && c as int == (s[p]
            - 0xe0) * 4096 + (s[p + 1] - 0x80) * 64 + (s[p + 2] - 0x80)),
        s[p] == 0xed && p + 6 <= end && 0xa0 <= s[p + 1] < 0xb0 && 0x80 <= s[p + 2] < 0xc0 && s[p + 3]
            == 0xed && 0xb0 <= s[p + 4] < 0xc0 && 0x80 <= s[p + 5] < 0xc0 ==> (spec_code_point(s, p, end)
            matches Some((c, q)) && q == p + 6 && c as int == 0x10000 + (s[p + 1] - 0xa0) * 0x10000 + (s[p
            + 2] - 0x80) * 0x400 + (s[p + 4] - 0xb0) * 0x40 + (s[p + 5] - 0x80)),
{
    let x = s[p];
    let y = s[p + 1];
    let z = s[p + 2];
    assert(x < 0x80 ==> x & 0x80 == 0 && x & 0xe0 != 0xe0 && x & 0xc0 != 0xc0) by (bit_vector);
    assert(0xc0 <= x < 0xe0 && 0x80 <= y < 0xc0 ==> x & 0xe0 != 0xe0 && x & 0xc0 == 0xc0 && ((((x as u32)
        & 0x1f) << 6u32) + ((y as u32) & 0x3f)) as u32 == (x - 0xc0) * 64 + (y - 0x80)) by (bit_vector);
    assert(0xe0 <= x < 0xf0 && 0x80 <= y < 0xc0 && 0x80 <= z < 0xc0 ==> x & 0xe0 == 0xe0 && ((((x as u32)
        & 0xf) << 12u32) + (((y as u32) & 0x3f) << 6u32) + ((z as u32) & 0x3f)) as u32 == (x - 0xe0) * 4096
        + (y - 0x80) * 64 + (z - 0x80)) by (bit_vector);
    let v = s[p + 1];
    let w = s[p + 2];
    let yy = s[p + 4];
    let zz = s[p + 5];
    assert(0xa0 <= v < 0xb0 && 0x80 <= w < 0xc0 && 0xb0 <= yy < 0xc0 && 0x80 <= zz < 0xc0 ==> (0x10000u32
        + (((v as u32) & 0x0f) << 16u32) + (((w as u32) & 0x3f) << 10u32) + (((yy as u32) & 0x0f) << 6u32)
        + ((zz as u32) & 0x3f)) as u32 == 0x10000 + (v - 0xa0) * 0x10000 + (w - 0x80) * 0x400 + (yy - 0xb0)
        * 0x40 + (zz - 0x80)) by (bit_vector);
}

/// Decodes the modified UTF-8 text `s[p..end]`; `None` if it is malformed.
pub open spec fn spec_utf8(s: Seq<u8>, p: int, end: int) -> Option<Seq<char>>
    decreases end - p,
{
    if p >= end {
        Some(Seq::empty())
    } else {
        match spec_code_point(s, p, end) {
            Some((c, q)) => {
                if is_scalar_value(c) && q > p {
                    match spec_utf8(s, q, end) {
                        Some(rest) => Some(seq![c as char] + rest),
                        None => None,
                    }
                } else {
                    None
                }
            },
            None => None,
        }
    }
}

/// `char::from_u32`: returns the character whose scalar value is `v`, or `None` when `v` is
/// not a Unicode scalar value (a surrogate or above `0x10FFFF`), as std documents it.
#[verifier::external_body]
pub(crate) fn char_from_u32(v: u32) -> (r: Option<char>)
    ensures
        r is Some <==> is_scalar_value(v),
        r matches Some(c) ==> c == v as char,
{
    char::from_u32(v)
}

/// `String::push`: appends one character to the end of the string.
#[verifier::external_body]
pub(crate) fn push_char(s: &mut String, c: char)
    ensures
        final(s)@ == old(s)@.push(c),
{
    s.push(c)
}

fn parse_utf8_code_point(b: &[u8], pos: usize, end: usize) -> (r: Result<(u32, usize), ParseError>)
    requires
        end <= b@.len(),
    ensures
        r is Ok <==> spec_code_point(b@, pos as int, end as int) is Some,
        r matches Ok((c, q)) ==> spec_code_point(b@, pos as int, end as int) == Some(
            (c, q as int),
        ),
{
    if pos >= end {
        return Err(ParseError::InvalidClassFile);
    }
    let x = b[pos];
    if x == 0xed {
        if end - pos >= 6 && b[pos + 3] == 0xed {
            let v = b[pos + 1] as u32;
            let w = b[pos + 2] as u32;
            let y = b[pos + 4] as u32;
            let z = b[pos + 5] as u32;
            assert((v & 0x0f) << 16u32 <= 0xf0000u32) by (bit_vector)
                requires
                    v <= 255,
            ;
            assert((w & 0x3f) << 10u32 <= 0xfc00u32) by (bit_vector)
                requires
                    w <= 255,
            ;
            assert((y & 0x0f) << 6u32 <= 0x3c0u32) by (bit_vector)
                requires
                    y <= 255,
            ;
            assert(z & 0x3f <= 0x3fu32) by (bit_vector);
            let code = 0x10000u32 + ((v & 0x0f) << 16u32) + ((w & 0x3f) << 10u32) + ((y & 0x0f)
                << 6u32) + (z & 0x3f);
            Ok((code, pos + 6))
        } else {
            Err(ParseError::InvalidClassFile)
        }
    } else if x & 0xe0 == 0xe0 {
        if end - pos >= 3 {
            let xx = x as u32;
            let y = b[pos + 1] as u32;
            let z = b[pos + 2] as u32;
            assert((xx & 0xf) << 12u32 <= 0xf000u32) by (bit_vector)
                requires
                    xx <= 255,
            ;
            assert((y & 0x3f) << 6u32 <= 0xfc0u32) by (bit_vector)
                requires
                    y <= 255,
            ;
            assert(z & 0x3f <= 0x3fu32) by (bit_vector);
            let code = ((xx & 0xf) << 12u32) + ((y & 0x3f) << 6u32) + (z & 0x3f);
            Ok((code, pos + 3))
        } else {
            Err(ParseError::InvalidClassFile)
        }
    } else if x & 0xc0 == 0xc0 {
        if end - pos >= 2 {
            let xx = x as u32;
            let y = b[pos + 1] as u32;
            assert((xx & 0x1f) << 6u32 <= 0x7c0u32) by (bit_vector)
                requires
                    xx <= 255,
            ;
            assert(y & 0x3f <= 0x3fu32) by (bit_vector);
            let code = ((xx & 0x1f) << 6u32) + (y & 0x3f);
            Ok((code, pos + 2))
        } else {
            Err(ParseError::InvalidClassFile)
        }
    } else if x & 0x80 == 0 {
        Ok((x as u32, pos + 1))
    } else {
        Err(ParseError::InvalidClassFile)
    }
}

/// Decodes the modified UTF-8 text `b[pos..end]`.
pub fn parse_utf8_from_constant_pool(b: &[u8], pos: usize, end: usize) -> (r: Result<String, ParseError>)
    requires
        pos <= end <= b@.len(),
    ensures
        r is Ok <==> spec_utf8(b@, pos as int, end as int) is Some,
        r matches Ok(s) ==> spec_utf8(b@, pos as int, end as int) == Some(s@),
{
    let mut out = String::new();
    let mut p = pos;
    while p < end
        invariant
            pos <= p <= end <= b@.len(),
            spec_utf8(b@, pos as int, end as int) == match spec_utf8(b@, p as int, end as int) {
                Some(rest) => Some(out@ + rest),
                None => None,
            },
        decreases end - p,
    {
        let (code, q) = parse_utf8_code_point(b, p, end)?;
        if q <= p {
            return Err(ParseError::InvalidClassFile);
        }
        match char_from_u32(code) {
            Some(c) => {
                let ghost old_out = out@;
                push_char(&mut out, c);
                proof {
                    if let Some(rest) = spec_utf8(b@, q as int, end as int) {
                        assert(old_out + (seq![c] + rest) =~= out@ + rest);
                    }
                }
                p = q;
            },
            None => {
                return Err(ParseError::InvalidClassFile);
            },
        }
    }
    assert(out@ + Seq::<char>::empty() =~= out@);
    Ok(out)
}


// ---------------------------------------------------------------------------------------------
// Constant pool

/// Two 16-bit numbers at `q` and `q + 2`.
pub open spec fn spec_two_u16(s: Seq<u8>, q: int) -> (u16, u16) {
    (spec_u16(s, q), spec_u16(s, q + 2))
}

/// Decodes the constant pool entry at `p`: the entry and the position after it.
pub open spec fn spec_cp_entry(s: Seq<u8>, p: int) -> Option<(CpInfoModel, int)> {
    if !fits(s, p, 1) {
        None
    } else {
        let tag = s[p];
        let q = p + 1;
        if tag == 7 || tag == 8 || tag == 16 {
            if fits(s, q, 2) {
                let i = spec_u16(s, q);
                Some(
                    (
                        if tag == 7 {
                            CpInfoModel::ClassInfo { name_index: i }
                        } else if tag == 8 {
                            CpInfoModel::StringInfo { string_index: i }
                        } else {
                            CpInfoModel::MethodTypeInfo { descriptor_index: i }
                        },
                        q + 2,
                    ),
                )
            } else {
                None
            }
        } else if tag == 9 || tag == 10 || tag == 11 || tag == 12 || tag == 18 {
            if fits(s, q, 4) {
                let (a, b) = spec_two_u16(s, q);
                Some(
                    (
                        if tag == 9 {
                            CpInfoModel::FieldRefInfo { class_index: a, name_and_type_index: b }
                        } else if tag == 10 {
                            CpInfoModel::MethodRefInfo { class_index: a, name_and_type_index: b }
                        } else if tag == 11 {
                            CpInfoModel::InterfaceMethodRefInfo {
                                class_index: a,
                                name_and_type_index: b,
                            }
                        } else if tag == 12 {
                            CpInfoModel::NameAndTypeInfo { name_index: a, descriptor_index: b }
                        } else {
                            CpInfoModel::InvokeDynamicInfo {
                                bootstrap_method_attr_index: a,
                                name_and_type_index: b,
                            }
                        },
                        q + 4,
                    ),
                )
            } else {
                None
            }
        } else if tag == 3 || tag == 4 {
            if fits(s, q, 4) {
                let v = spec_u32(s, q);
                Some(
                    (
                        if tag == 3 {
                            CpInfoModel::IntegerInfo(v as i32)
                        } else {
                            CpInfoModel::FloatInfo(v)
                        },
                        q + 4,
                    ),
                )
            } else {
                None
            }
        } else if tag == 5 || tag == 6 {
            if fits(s, q, 8) {
                let v = spec_u64(s, q);
                Some(
                    (
                        if tag == 5 {
                            CpInfoModel::LongInfo(v as i64)
                        } else {
                            CpInfoModel::DoubleInfo(v)
                        },
                        q + 8,
                    ),
                )
            } else {
                None
            }
        } else if tag == 1 {
            if fits(s, q, 2) && fits(s, q + 2, spec_u16(s, q) as int) {
                let end = q + 2 + spec_u16(s, q);
                match spec_utf8(s, q + 2, end) {
                    Some(text) => Some((CpInfoModel::UTF8INFO(text), end)),
                    None => None,
                }
            } else {
                None
            }
        } else if tag == 15 {
            if fits(s, q, 3) && reference_kind_of(s[q]) is Some {
                Some(
                    (
                        CpInfoModel::MethodHandleInfo {
                            reference_kind: reference_kind_of(s[q])->0,
                            reference_index: spec_u16(s, q + 1),
                        },
                        q + 3,
                    ),
                )
            } else {
                None
            }
        } else {
            None
        }
    }
}

/// Whether a constant pool entry takes two slots of the pool.
pub open spec fn is_wide_constant(e: CpInfoModel) -> bool {
    e is LongInfo || e is DoubleInfo
}

/// Decodes constant pool entries at `p` until `slots` slots are filled: a long or double
/// constant fills two slots, its second one with `Reserved`.
pub open spec fn spec_cp_entries(s: Seq<u8>, p: int, slots: int) -> Option<(Seq<CpInfoModel>, int)>
    decreases slots,
{
    if slots <= 0 {
        Some((Seq::empty(), p))
    } else {
        match spec_cp_entry(s, p) {
            Some((e, q)) => {
                if is_wide_constant(e) {
                    if slots < 2 {
                        None
                    } else {
                        match spec_cp_entries(s, q, slots - 2) {
                            Some((rest, r)) => Some((seq![e, CpInfoModel::Reserved] + rest, r)),
                            None => None,
                        }
                    }
                } else {
                    match spec_cp_entries(s, q, slots - 1) {
                        Some((rest, r)) => Some((seq![e] + rest, r)),
                        None => None,
                    }
                }
            },
            None => None,
        }
    }
}

/// Decodes the constant pool entry at `pos`.
pub fn parse_constant_pool_entry(b: &[u8], pos: usize) -> (r: Result<(CpInfo, usize), ParseError>)
    ensures
        r is Ok <==> spec_cp_entry(b@, pos as int) is Some,
        r matches Ok((e, q)) ==> spec_cp_entry(b@, pos as int) == Some((e@, q as int)),
{
    let (tag, q) = read_u8(b, pos)?;
    match tag {
        7 => {
            let (name_index, r) = read_u16(b, q)?;
            Ok((CpInfo::ClassInfo { name_index }, r))
        },
        8 => {
            let (string_index, r) = read_u16(b, q)?;
            Ok((CpInfo::StringInfo { string_index }, r))
        },
        16 => {
            let (descriptor_index, r) = read_u16(b, q)?;
            Ok((CpInfo::MethodTypeInfo { descriptor_index }, r))
        },
        9 | 10 | 11 | 12 | 18 => {
            if !(q < b.len() && b.len() - q >= 4) {
                return Err(ParseError::InvalidClassFile);
            }
            let (a, r1) = read_u16(b, q)?;
            let (c, r) = read_u16(b, r1)?;
            let e = if tag == 9 {
                CpInfo::FieldRefInfo { class_index: a, name_and_type_index: c }
            } else if tag == 10 {
                CpInfo::MethodRefInfo { class_index: a, name_and_type_index: c }
            } else if tag == 11 {
                CpInfo::InterfaceMethodRefInfo { class_index: a, name_and_type_index: c }
            } else if tag == 12 {
                CpInfo::NameAndTypeInfo { name_index: a, descriptor_index: c }
            } else {
                CpInfo::InvokeDynamicInfo { bootstrap_method_attr_index: a, name_and_type_index: c }
            };
            Ok((e, r))
        },
        3 => {
            let (v, r) = read_u32(b, q)?;
            Ok((CpInfo::IntegerInfo(v as i32), r))
        },
        4 => {
            let (v, r) = read_u32(b, q)?;
            Ok((CpInfo::FloatInfo(v), r))
        },
        5 => {
            let (v, r) = read_u64(b, q)?;
            Ok((CpInfo::LongInfo(v as i64), r))
        },
        6 => {
            let (v, r) = read_u64(b, q)?;
            Ok((CpInfo::DoubleInfo(v), r))
        },
        1 => {
            let (len, start) = read_u16(b, q)?;
            if b.len() - start < len as usize {
                return Err(ParseError::InvalidClassFile);
            }
            let end = start + len as usize;
            let text = parse_utf8_from_constant_pool(b, start, end)?;
            Ok((CpInfo::UTF8INFO(text), end))
        },
        15 => {
            if !(q < b.len() && b.len() - q >= 3) {
                return Err(ParseError::InvalidClassFile);
            }
            let (kind, r1) = read_u8(b, q)?;
            let (reference_index, r) = read_u16(b, r1)?;
            match ReferenceKind::try_from_u8(kind) {
                Ok(reference_kind) => Ok((CpInfo::MethodHandleInfo { reference_kind, reference_index }, r)),
                Err(_) => Err(ParseError::InvalidClassFile),
            }
        },
        _ => Err(ParseError::InvalidClassFile),
    }
}

/// Decodes the constant pool at `pos`, filling `slots` slots.
pub fn parse_constant_pool(b: &[u8], pos: usize, slots: usize) -> (r: Result<(Vec<CpInfo>, usize), ParseError>)
    ensures
        r is Ok <==> spec_cp_entries(b@, pos as int, slots as int) is Some,
        r matches Ok((v, q)) ==> spec_cp_entries(b@, pos as int, slots as int) == Some(
            (cp_view(v@), q as int),
        ),
{
    let mut entries: Vec<CpInfo> = Vec::new();
    let mut p = pos;
    let mut left = slots;
    while left > 0
        invariant
            spec_cp_entries(b@, pos as int, slots as int) == match spec_cp_entries(
                b@,
                p as int,
                left as int,
            ) {
                Some((rest, e)) => Some((cp_view(entries@) + rest, e)),
                None => None,
            },
        decreases left,
    {
        let ghost old_view = cp_view(entries@);
        let (e, q) = parse_constant_pool_entry(b, p)?;
        let wide = match e {
            CpInfo::LongInfo(_) | CpInfo::DoubleInfo(_) => true,
            _ => false,
        };
        let ghost ev = e@;
        if wide {
            if left < 2 {
                return Err(ParseError::InvalidClassFile);
            }
            entries.push(e);
            entries.push(CpInfo::Reserved);
            left = left - 2;
            proof {
                assert(cp_view(entries@) =~= old_view + seq![ev, CpInfoModel::Reserved]);
                if let Some((rest, end)) = spec_cp_entries(b@, q as int, left as int) {
                    assert(old_view + (seq![ev, CpInfoModel::Reserved] + rest) =~= cp_view(
                        entries@,
                    ) + rest);
                }
            }
        } else {
            entries.push(e);
            left = left - 1;
            proof {
                assert(cp_view(entries@) =~= old_view + seq![ev]);
                if let Some((rest, end)) = spec_cp_entries(b@, q as int, left as int) {
                    assert(old_view + (seq![ev] + rest) =~= cp_view(entries@) + rest);
                }
            }
        }
        p = q;
    }
    assert(cp_view(entries@) + Seq::<CpInfoModel>::empty() =~= cp_view(entries@));
    Ok((entries, p))
}


// ---------------------------------------------------------------------------------------------
// Counted lists, attributes, fields, methods and the class file

/// `n` items decoded one after another from position `p` by `item`.
pub open spec fn spec_repeat<T>(item: spec_fn(int) -> Option<(T, int)>, p: int, n: nat) -> Option<(Seq<T>, int)>
    decreases n,
{
    if n == 0 {
        Some((Seq::empty(), p))
    } else {
        match item(p) {
            Some((x, q)) => match spec_repeat(item, q, (n - 1) as nat) {
                Some((rest, r)) => Some((seq![x] + rest, r)),
                None => None,
            },
            None => None,
        }
    }
}

/// One step of [`spec_repeat`], for the loops that decode lists.
pub proof fn lemma_repeat_step<T>(
    item: spec_fn(int) -> Option<(T, int)>,
    p: int,
    n: nat,
    acc: Seq<T>,
    x: T,
    q: int,
)
    requires
        n > 0,
        item(p) == Some((x, q)),
    ensures
        match spec_repeat(item, p, n) {
            Some((rest, e)) => Some((acc + rest, e)),
            None => None::<(Seq<T>, int)>,
        } == match spec_repeat(item, q, (n - 1) as nat) {
            Some((rest, e)) => Some((acc.push(x) + rest, e)),
            None => None::<(Seq<T>, int)>,
        },
{
    if let Some((rest, e)) = spec_repeat(item, q, (n - 1) as nat) {
        assert(acc + (seq![x] + rest) =~= acc.push(x) + rest);
    }
}

/// A list whose next item cannot be decoded cannot be decoded.
pub proof fn lemma_repeat_fail<T>(item: spec_fn(int) -> Option<(T, int)>, p: int, n: nat)
    requires
        n > 0,
        item(p) is None,
    ensures
        spec_repeat(item, p, n) is None,
{
}

/// A 16-bit number as a list item.
pub open spec fn u16_item(s: Seq<u8>) -> spec_fn(int) -> Option<(u16, int)> {
    |p: int| if fits(s, p, 2) { Some((spec_u16(s, p), p + 2)) } else { None }
}

/// The attribute at `p`: its name index and its undecoded content.
pub open spec fn spec_attribute(s: Seq<u8>, p: int) -> Option<(RawAttributeInfoModel, int)> {
    if fits(s, p, 6) && fits(s, p + 6, spec_u32(s, p + 2) as int) {
        let end = p + 6 + spec_u32(s, p + 2);
        Some(
            (
                RawAttributeInfoModel {
                    attribute_name_index: spec_u16(s, p),
                    info: s.subrange(p + 6, end),
                },
                end,
            ),
        )
    } else {
        None
    }
}

/// An attribute as a list item.
pub open spec fn attribute_item(s: Seq<u8>) -> spec_fn(int) -> Option<(RawAttributeInfoModel, int)> {
    |p: int| spec_attribute(s, p)
}

/// A count-prefixed list of attributes at `p`.
pub open spec fn spec_attributes(s: Seq<u8>, p: int) -> Option<(Seq<RawAttributeInfoModel>, int)> {
    if fits(s, p, 2) {
        spec_repeat(attribute_item(s), p + 2, spec_u16(s, p) as nat)
    } else {
        None
    }
}

/// The field or method entry at `p`, whose flags must all be out of `known`.
pub open spec fn spec_member(s: Seq<u8>, p: int, known: u16) -> Option<(RawMemberModel, int)> {
    if fits(s, p, 6) && flags_known(spec_u16(s, p), known) {
        match spec_attributes(s, p + 6) {
            Some((attributes, q)) => Some(
                (
                    RawMemberModel {
                        access_flags: spec_u16(s, p),
                        name_index: spec_u16(s, p + 2),
                        descriptor_index: spec_u16(s, p + 4),
                        attributes,
                    },
                    q,
                ),
            ),
            None => None,
        }
    } else {
        None
    }
}

/// A field or method entry as a list item.
pub open spec fn member_item(s: Seq<u8>, known: u16) -> spec_fn(int) -> Option<(RawMemberModel, int)> {
    |p: int| spec_member(s, p, known)
}

/// A count-prefixed list of fields or methods at `p`.
pub open spec fn spec_members(s: Seq<u8>, p: int, known: u16) -> Option<(Seq<RawMemberModel>, int)> {
    if fits(s, p, 2) {
        spec_repeat(member_item(s, known), p + 2, spec_u16(s, p) as nat)
    } else {
        None
    }
}

/// A count-prefixed list of 16-bit numbers at `p`.
pub open spec fn spec_u16_list(s: Seq<u8>, p: int) -> Option<(Seq<u16>, int)> {
    if fits(s, p, 2) {
        spec_repeat(u16_item(s), p + 2, spec_u16(s, p) as nat)
    } else {
        None
    }
}

/// The class file that the bytes `s` begin with; bytes after its end are ignored.
pub open spec fn spec_class_file(s: Seq<u8>) -> Option<RawClassFileModel> {
    if !(fits(s, 0, 10) && s[0] == 0xca && s[1] == 0xfe && s[2] == 0xba && s[3] == 0xbe
        && spec_u16(s, 8) >= 1) {
        None
    } else {
        match spec_cp_entries(s, 10, spec_u16(s, 8) - 1) {
            None => None,
            Some((constant_pool, p)) => {
                if !(fits(s, p, 6) && flags_known(spec_u16(s, p), CLASS_FLAGS)) {
                    None
                } else {
                    match spec_u16_list(s, p + 6) {
                        None => None,
                        Some((interfaces, p2)) => match spec_members(s, p2, FIELD_FLAGS) {
                            None => None,
                            Some((fields, p3)) => match spec_members(s, p3, METHOD_FLAGS) {
                                None => None,
                                Some((methods, p4)) => match spec_attributes(s, p4) {
                                    None => None,
                                    Some((attributes, _)) => Some(
                                        RawClassFileModel {
                                            minor_version: spec_u16(s, 4),
                                            major_version: spec_u16(s, 6),
                                            constant_pool,
                                            access_flags: spec_u16(s, p),
                                            this_class: spec_u16(s, p + 2),
                                            super_class: spec_u16(s, p + 4),
                                            interfaces,
                                            fields,
                                            methods,
                                            attributes,
                                        },
                                    ),
                                },
                            },
                        },
                    }
                }
            },
        }
    }
}

fn copy_bytes(b: &[u8], start: usize, end: usize) -> (r: Vec<u8>)
    requires
        start <= end <= b@.len(),
    ensures
        r@ == b@.subrange(start as int, end as int),
{
    let mut r: Vec<u8> = Vec::new();
    let mut i = start;
    while i < end
        invariant
            start <= i <= end <= b@.len(),
            r@ == b@.subrange(start as int, i as int),
        decreases end - i,
    {
        r.push(b[i]);
        i = i + 1;
        assert(r@ =~= b@.subrange(start as int, i as int));
    }
    r
}

/// Decodes the attribute at `pos`, keeping its content undecoded.
pub fn parse_attribute_info(b: &[u8], pos: usize) -> (r: Result<(RawAttributeInfo, usize), ParseError>)
    ensures
        r is Ok <==> spec_attribute(b@, pos as int) is Some,
        r matches Ok((a, q)) ==> spec_attribute(b@, pos as int) == Some((a@, q as int)),
{
    if !(pos < b.len() && b.len() - pos >= 6) {
        return Err(ParseError::InvalidClassFile);
    }
    let (attribute_name_index, p1) = read_u16(b, pos)?;
    let (len, start) = read_u32(b, p1)?;
    if ((b.len() - start) as u64) < (len as u64) {
        return Err(ParseError::InvalidClassFile);
    }
    let end = start + len as usize;
    let info = copy_bytes(b, start, end);
    Ok((RawAttributeInfo { attribute_name_index, info }, end))
}

/// Decodes a count-prefixed list of attributes at `pos`.
pub fn parse_attributes_list(b: &[u8], pos: usize) -> (r: Result<(Vec<RawAttributeInfo>, usize), ParseError>)
    ensures
        r is Ok <==> spec_attributes(b@, pos as int) is Some,
        r matches Ok((v, q)) ==> spec_attributes(b@, pos as int) == Some(
            (raw_attributes_view(v@), q as int),
        ),
{
    let (count, start) = read_u16(b, pos)?;
    let ghost item = attribute_item(b@);
    let mut v: Vec<RawAttributeInfo> = Vec::new();
    let mut p = start;
    let mut i: u16 = 0;
    assert(raw_attributes_view(v@) =~= Seq::<RawAttributeInfoModel>::empty());
    assert(Seq::<RawAttributeInfoModel>::empty() + Seq::<RawAttributeInfoModel>::empty() =~= Seq::<RawAttributeInfoModel>::empty());
    while i < count
        invariant
            i <= count,
            fits(b@, pos as int, 2),
            count == spec_u16(b@, pos as int),
            start == pos + 2,
            item == attribute_item(b@),
            spec_repeat(item, start as int, count as nat) == match spec_repeat(
                item,
                p as int,
                (count - i) as nat,
            ) {
                Some((rest, e)) => Some((raw_attributes_view(v@) + rest, e)),
                None => None,
            },
        decreases count - i,
    {
        let res = parse_attribute_info(b, p);
        if res.is_err() {
            proof {
                assert(item(p as int) == spec_attribute(b@, p as int));
                lemma_repeat_fail(item, p as int, (count - i) as nat);
                assert(spec_repeat(item, start as int, count as nat) is None);
            }
            return Err(ParseError::InvalidClassFile);
        }
        let (a, q) = res.unwrap();
        proof {
            lemma_repeat_step(item, p as int, (count - i) as nat, raw_attributes_view(v@), a@, q as int);
        }
        let ghost old_v = raw_attributes_view(v@);
        v.push(a);
        assert(raw_attributes_view(v@) =~= old_v.push(a@));
        p = q;
        i = i + 1;
    }
    assert(raw_attributes_view(v@) + Seq::<RawAttributeInfoModel>::empty() =~= raw_attributes_view(v@));
    Ok((v, p))
}

fn parse_member(b: &[u8], pos: usize, known: u16) -> (r: Result<((u16, u16, u16, Vec<RawAttributeInfo>), usize), ParseError>)
    ensures
        r is Ok <==> spec_member(b@, pos as int, known) is Some,
        r matches Ok((m, q)) ==> spec_member(b@, pos as int, known) == Some(
            (
                RawMemberModel {
                    access_flags: m.0,
                    name_index: m.1,
                    descriptor_index: m.2,
                    attributes: raw_attributes_view(m.3@),
                },
                q as int,
            ),
        ),
{
    if !(pos < b.len() && b.len() - pos >= 6) {
        return Err(ParseError::InvalidClassFile);
    }
    let (flags, p1) = read_u16(b, pos)?;
    if !check_flags(flags, known) {
        return Err(ParseError::InvalidClassFile);
    }
    let (name_index, p2) = read_u16(b, p1)?;
    let (descriptor_index, p3) = read_u16(b, p2)?;
    let (attributes, q) = parse_attributes_list(b, p3)?;
    Ok(((flags, name_index, descriptor_index, attributes), q))
}

/// Decodes a count-prefixed list of field entries at `pos`.
pub fn parse_fields(b: &[u8], pos: usize) -> (r: Result<(Vec<RawFieldInfo>, usize), ParseError>)
    ensures
        r is Ok <==> spec_members(b@, pos as int, FIELD_FLAGS) is Some,
        r matches Ok((v, q)) ==> spec_members(b@, pos as int, FIELD_FLAGS) == Some(
            (raw_fields_view(v@), q as int),
        ),
{
    let (count, start) = read_u16(b, pos)?;
    let ghost item = member_item(b@, FIELD_FLAGS);
    let mut v: Vec<RawFieldInfo> = Vec::new();
    let mut p = start;
    let mut i: u16 = 0;
    assert(raw_fields_view(v@) + Seq::<RawMemberModel>::empty() =~= Seq::<RawMemberModel>::empty());
    while i < count
        invariant
            i <= count,
            fits(b@, pos as int, 2),
            count == spec_u16(b@, pos as int),
            start == pos + 2,
            item == member_item(b@, FIELD_FLAGS),
            spec_repeat(item, start as int, count as nat) == match spec_repeat(
                item,
                p as int,
                (count - i) as nat,
            ) {
                Some((rest, e)) => Some((raw_fields_view(v@) + rest, e)),
                None => None,
            },
        decreases count - i,
    {
        let res = parse_member(b, p, FIELD_FLAGS);
        if res.is_err() {
            proof {
                assert(item(p as int) == spec_member(b@, p as int, FIELD_FLAGS));
                lemma_repeat_fail(item, p as int, (count - i) as nat);
                assert(spec_repeat(item, start as int, count as nat) is None);
            }
            return Err(ParseError::InvalidClassFile);
        }
        let ((access_flags, name_index, descriptor_index, attributes), q) = res.unwrap();
        let f = RawFieldInfo { access_flags, name_index, descriptor_index, attributes };
        proof {
            lemma_repeat_step(item, p as int, (count - i) as nat, raw_fields_view(v@), f@, q as int);
        }
        let ghost old_v = raw_fields_view(v@);
        v.push(f);
        assert(raw_fields_view(v@) =~= old_v.push(f@));
        p = q;
        i = i + 1;
    }
    assert(raw_fields_view(v@) + Seq::<RawMemberModel>::empty() =~= raw_fields_view(v@));
    Ok((v, p))
}

/// Decodes a count-prefixed list of method entries at `pos`.
pub fn parse_methods(b: &[u8], pos: usize) -> (r: Result<(Vec<RawMethodInfo>, usize), ParseError>)
    ensures
        r is Ok <==> spec_members(b@, pos as int, METHOD_FLAGS) is Some,
        r matches Ok((v, q)) ==> spec_members(b@, pos as int, METHOD_FLAGS) == Some(
            (raw_methods_view(v@), q as int),
        ),
{
    let (count, start) = read_u16(b, pos)?;
    let ghost item = member_item(b@, METHOD_FLAGS);
    let mut v: Vec<RawMethodInfo> = Vec::new();
    let mut p = start;
    let mut i: u16 = 0;
    assert(raw_methods_view(v@) + Seq::<RawMemberModel>::empty() =~= Seq::<RawMemberModel>::empty());
    while i < count
        invariant
            i <= count,
            fits(b@, pos as int, 2),
            count == spec_u16(b@, pos as int),
            start == pos + 2,
            item == member_item(b@, METHOD_FLAGS),
            spec_repeat(item, start as int, count as nat) == match spec_repeat(
                item,
                p as int,
                (count - i) as nat,
            ) {
                Some((rest, e)) => Some((raw_methods_view(v@) + rest, e)),
                None => None,
            },
        decreases count - i,
    {
        let res = parse_member(b, p, METHOD_FLAGS);
        if res.is_err() {
            proof {
                assert(item(p as int) == spec_member(b@, p as int, METHOD_FLAGS));
                lemma_repeat_fail(item, p as int, (count - i) as nat);
                assert(spec_repeat(item, start as int, count as nat) is None);
            }
            return Err(ParseError::InvalidClassFile);
        }
        let ((access_flags, name_index, descriptor_index, attributes), q) = res.unwrap();
        let m = RawMethodInfo { access_flags, name_index, descriptor_index, attributes };
        proof {
            lemma_repeat_step(item, p as int, (count - i) as nat, raw_methods_view(v@), m@, q as int);
        }
        let ghost old_v = raw_methods_view(v@);
        v.push(m);
        assert(raw_methods_view(v@) =~= old_v.push(m@));
        p = q;
        i = i + 1;
    }
    assert(raw_methods_view(v@) + Seq::<RawMemberModel>::empty() =~= raw_methods_view(v@));
    Ok((v, p))
}

/// Decodes a count-prefixed list of 16-bit numbers at `pos`.
pub fn parse_u16_list(b: &[u8], pos: usize) -> (r: Result<(Vec<u16>, usize), ParseError>)
    ensures
        r is Ok <==> spec_u16_list(b@, pos as int) is Some,
        r matches Ok((v, q)) ==> spec_u16_list(b@, pos as int) == Some((v@, q as int)),
{
    let (count, start) = read_u16(b, pos)?;
    let ghost item = u16_item(b@);
    let mut v: Vec<u16> = Vec::new();
    let mut p = start;
    let mut i: u16 = 0;
    assert(v@ + Seq::<u16>::empty() =~= Seq::<u16>::empty());
    while i < count
        invariant
            i <= count,
            fits(b@, pos as int, 2),
            count == spec_u16(b@, pos as int),
            start == pos + 2,
            item == u16_item(b@),
            spec_repeat(item, start as int, count as nat) == match spec_repeat(
                item,
                p as int,
                (count - i) as nat,
            ) {
                Some((rest, e)) => Some((v@ + rest, e)),
                None => None,
            },
        decreases count - i,
    {
        let res = read_u16(b, p);
        if res.is_err() {
            proof {
                assert(item(p as int) is None);
                lemma_repeat_fail(item, p as int, (count - i) as nat);
                assert(spec_repeat(item, start as int, count as nat) is None);
            }
            return Err(ParseError::InvalidClassFile);
        }
        let (x, q) = res.unwrap();
        proof {
            lemma_repeat_step(item, p as int, (count - i) as nat, v@, x, q as int);
        }
        v.push(x);
        p = q;
        i = i + 1;
    }
    assert(v@ + Seq::<u16>::empty() =~= v@);
    Ok((v, p))
}

/// Decodes a class file from its bytes. Bytes after the end of the class file are ignored.
pub fn parse(content: &[u8]) -> (r: Result<RawClassFile, ParseError>)
    ensures
        r is Ok <==> spec_class_file(content@) is Some,
        r matches Ok(c) ==> spec_class_file(content@) == Some(c@),
{
    let b = content;
    if !(b.len() >= 10 && b[0] == 0xca && b[1] == 0xfe && b[2] == 0xba && b[3] == 0xbe) {
        return Err(ParseError::InvalidClassFile);
    }
    let (minor_version, p0) = read_u16(b, 4)?;
    let (major_version, p1) = read_u16(b, p0)?;
    let (count, p2) = read_u16(b, p1)?;
    if count < 1 {
        return Err(ParseError::InvalidClassFile);
    }
    let (constant_pool, p) = parse_constant_pool(b, p2, (count - 1) as usize)?;
    if !(p < b.len() && b.len() - p >= 6) {
        return Err(ParseError::InvalidClassFile);
    }
    let (access_flags, q1) = read_u16(b, p)?;
    if !check_flags(access_flags, CLASS_FLAGS) {
        return Err(ParseError::InvalidClassFile);
    }
    let (this_class, q2) = read_u16(b, q1)?;
    let (super_class, q3) = read_u16(b, q2)?;
    let (interfaces, r2) = parse_u16_list(b, q3)?;
    let (fields, r3) = parse_fields(b, r2)?;
    let (methods, r4) = parse_methods(b, r3)?;
    let (attributes, _) = parse_attributes_list(b, r4)?;
    Ok(
        RawClassFile {
            minor_version,
            major_version,
            constant_pool,
            access_flags,
            this_class,
            super_class,
            interfaces,
            fields,
            methods,
            attributes,
        },
    )
}

} // verus!

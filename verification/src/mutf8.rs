//! The modified-UTF-8 codec used for all string constants in the class-file
//! format: like UTF-8, but the null character uses the two-byte form
//! `0xC0 0x80` (a literal zero byte never occurs), and supplementary
//! characters are written as two dependent three-byte surrogate sequences
//! instead of one four-byte sequence.

use vstd::prelude::*;
use vstd::std_specs::iter::IteratorSpec;

verus! {

/// Relies on char::from_u32: `Some` exactly for Unicode scalar values
/// (not a surrogate, at most 0x10FFFF), and the returned character has
/// the given code point.
pub assume_specification[ char::from_u32 ](v: u32) -> (r: Option<char>)
    ensures
        vstd::utf8::is_scalar(v) <==> r is Some,
        r matches Some(c) ==> c as u32 == v,
;

/// Relies on String::push: appends the given character to the string.
pub assume_specification[ std::string::String::push ](s: &mut std::string::String, c: char)
    ensures
        final(s)@ == old(s)@.push(c),
;

/// Why a byte sequence failed to decode as modified UTF-8.
#[derive(Clone, Copy, PartialEq, Eq, Debug)]
pub enum DecodeError {
    /// The byte at `index` can never occur in modified UTF-8:
    /// 0x00, or 0xF0 through 0xFF.
    IllegalByte { index: usize, byte: u8 },
    /// The sequence starting at `index` announces `expected` bytes, but
    /// fewer remain.
    Truncated { index: usize, expected: usize },
    /// The byte at `index` should be a continuation byte (0x80-0xBF) but
    /// is not, or stands alone where a leading byte is expected.
    BadContinuation { index: usize, byte: u8 },
    /// The multi-byte form at `index` encodes a value that the format
    /// requires in a shorter form.
    Overlong { index: usize },
    /// A surrogate half at `index` is not part of a well-formed
    /// high-then-low surrogate pair.
    UnmatchedSurrogate { index: usize },
}

pub open spec fn is_illegal_byte(b: u8) -> bool {
    b == 0x00 || b >= 0xf0
}

pub open spec fn is_continuation(b: u8) -> bool {
    0x80 <= b && b <= 0xbf
}

/// Code point of a two-byte form.
pub open spec fn cp2(b0: u8, b1: u8) -> u32 {
    (((b0 & 0x1f) as u32) << 6) | ((b1 & 0x3f) as u32)
}

/// Code point of a three-byte form.
pub open spec fn cp3(b0: u8, b1: u8, b2: u8) -> u32 {
    (((b0 & 0x0f) as u32) << 12) | (((b1 & 0x3f) as u32) << 6) | ((b2 & 0x3f) as u32)
}

/// Supplementary code point of a surrogate pair of three-byte forms.
pub open spec fn cp6(b1: u8, b2: u8, b4: u8, b5: u8) -> u32 {
    (0x10000 + ((((b1 & 0x0f) as u32) << 16) | (((b2 & 0x3f) as u32) << 10) | (((b4 & 0x0f) as u32)
        << 6) | ((b5 & 0x3f) as u32))) as u32
}

/// A three-byte form whose first byte is 0xED and whose second byte is in
/// 0xA0-0xAF encodes a high surrogate half.
pub open spec fn is_high_surrogate_form(b0: u8, b1: u8) -> bool {
    b0 == 0xed && 0xa0 <= b1 && b1 <= 0xaf
}

/// A three-byte form whose first byte is 0xED and whose second byte is in
/// 0xB0-0xBF encodes a low surrogate half.
pub open spec fn is_low_surrogate_form(b0: u8, b1: u8) -> bool {
    b0 == 0xed && 0xb0 <= b1 && b1 <= 0xbf
}

pub open spec fn prepend_unit(u: u16, r: Result<Seq<u16>, DecodeError>) -> Result<
    Seq<u16>,
    DecodeError,
> {
    match r {
        Ok(rest) => Ok(seq![u] + rest),
        Err(e) => Err(e),
    }
}

pub open spec fn prepend_char(c: char, r: Result<Seq<char>, DecodeError>) -> Result<
    Seq<char>,
    DecodeError,
> {
    match r {
        Ok(rest) => Ok(seq![c] + rest),
        Err(e) => Err(e),
    }
}

/// Decodes the bytes from position `i` on into UTF-16 code units: every one-,
/// two- or three-byte form yields one unit, and surrogate halves are kept as
/// they stand.
pub open spec fn decode_units_from(b: Seq<u8>, i: int) -> Result<Seq<u16>, DecodeError>
    decreases b.len() - i,
{
    if i < 0 || i >= b.len() {
        Ok(Seq::empty())
    } else {
        let b0 = b[i];
        if 0x01 <= b0 && b0 <= 0x7f {
            prepend_unit(b0 as u16, decode_units_from(b, i + 1))
        } else if 0xc0 <= b0 && b0 <= 0xdf {
            if b.len() < i + 2 {
                Err(DecodeError::Truncated { index: i as usize, expected: 2 })
            } else if !is_continuation(b[i + 1]) {
                Err(DecodeError::BadContinuation { index: (i + 1) as usize, byte: b[i + 1] })
            } else if cp2(b0, b[i + 1]) != 0 && cp2(b0, b[i + 1]) < 0x80 {
                Err(DecodeError::Overlong { index: i as usize })
            } else {
                prepend_unit(cp2(b0, b[i + 1]) as u16, decode_units_from(b, i + 2))
            }
        } else if 0xe0 <= b0 && b0 <= 0xef {
            if b.len() < i + 3 {
                Err(DecodeError::Truncated { index: i as usize, expected: 3 })
            } else if !is_continuation(b[i + 1]) {
                Err(DecodeError::BadContinuation { index: (i + 1) as usize, byte: b[i + 1] })
            } else if !is_continuation(b[i + 2]) {
                Err(DecodeError::BadContinuation { index: (i + 2) as usize, byte: b[i + 2] })
            } else if cp3(b0, b[i + 1], b[i + 2]) < 0x800 {
                Err(DecodeError::Overlong { index: i as usize })
            } else {
                prepend_unit(cp3(b0, b[i + 1], b[i + 2]) as u16, decode_units_from(b, i + 3))
            }
        } else if is_continuation(b0) {
            Err(DecodeError::BadContinuation { index: i as usize, byte: b0 })
        } else {
            Err(DecodeError::IllegalByte { index: i as usize, byte: b0 })
        }
    }
}

/// Decodes the bytes from position `i` on into Unicode text: a high and a low
/// surrogate half combine into one supplementary character, and an unpaired
/// half is an error.
pub open spec fn decode_chars_from(b: Seq<u8>, i: int) -> Result<Seq<char>, DecodeError>
    decreases b.len() - i,
{
    if i < 0 || i >= b.len() {
        Ok(Seq::empty())
    } else {
        let b0 = b[i];
        if 0x01 <= b0 && b0 <= 0x7f {
            prepend_char(b0 as char, decode_chars_from(b, i + 1))
        } else if 0xc0 <= b0 && b0 <= 0xdf {
            if b.len() < i + 2 {
                Err(DecodeError::Truncated { index: i as usize, expected: 2 })
            } else if !is_continuation(b[i + 1]) {
                Err(DecodeError::BadContinuation { index: (i + 1) as usize, byte: b[i + 1] })
            } else if cp2(b0, b[i + 1]) != 0 && cp2(b0, b[i + 1]) < 0x80 {
                Err(DecodeError::Overlong { index: i as usize })
            } else {
                prepend_char(cp2(b0, b[i + 1]) as char, decode_chars_from(b, i + 2))
            }
        } else if 0xe0 <= b0 && b0 <= 0xef {
            if b.len() < i + 3 {
                Err(DecodeError::Truncated { index: i as usize, expected: 3 })
            } else if !is_continuation(b[i + 1]) {
                Err(DecodeError::BadContinuation { index: (i + 1) as usize, byte: b[i + 1] })
            } else if !is_continuation(b[i + 2]) {
                Err(DecodeError::BadContinuation { index: (i + 2) as usize, byte: b[i + 2] })
            } else if is_high_surrogate_form(b0, b[i + 1]) {
                if b.len() < i + 6 || b[i + 3] != 0xed || !(0xb0 <= b[i + 4] && b[i + 4] <= 0xbf) {
                    Err(DecodeError::UnmatchedSurrogate { index: i as usize })
                } else if !is_continuation(b[i + 5]) {
                    Err(DecodeError::BadContinuation { index: (i + 5) as usize, byte: b[i + 5] })
                } else {
                    prepend_char(
                        cp6(b[i + 1], b[i + 2], b[i + 4], b[i + 5]) as char,
                        decode_chars_from(b, i + 6),
                    )
                }
            } else if is_low_surrogate_form(b0, b[i + 1]) {
                Err(DecodeError::UnmatchedSurrogate { index: i as usize })
            } else if cp3(b0, b[i + 1], b[i + 2]) < 0x800 {
                Err(DecodeError::Overlong { index: i as usize })
            } else {
                prepend_char(
                    cp3(b0, b[i + 1], b[i + 2]) as char,
                    decode_chars_from(b, i + 3),
                )
            }
        } else if is_continuation(b0) {
            Err(DecodeError::BadContinuation { index: i as usize, byte: b0 })
        } else {
            Err(DecodeError::IllegalByte { index: i as usize, byte: b0 })
        }
    }
}

/// The modified-UTF-8 encoding of one character.
pub open spec fn encode_char_mutf8(c: char) -> Seq<u8> {
    let cp = c as u32;
    if cp == 0 {
        seq![0xc0u8, 0x80u8]
    } else if cp <= 0x7f {
        seq![cp as u8]
    } else if cp <= 0x7ff {
        seq![(0xc0 | (cp >> 6)) as u8, (0x80 | (cp & 0x3f)) as u8]
    } else if cp <= 0xffff {
        seq![
            (0xe0 | (cp >> 12)) as u8,
            (0x80 | ((cp >> 6) & 0x3f)) as u8,
            (0x80 | (cp & 0x3f)) as u8,
        ]
    } else {
        let v = (cp - 0x10000) as u32;
        seq![
            0xedu8,
            (0xa0 | (v >> 16)) as u8,
            (0x80 | ((v >> 10) & 0x3f)) as u8,
            0xedu8,
            (0xb0 | ((v >> 6) & 0x0f)) as u8,
            (0x80 | (v & 0x3f)) as u8,
        ]
    }
}

/// The modified-UTF-8 encoding of a character sequence.
pub open spec fn encode_mutf8(s: Seq<char>) -> Seq<u8>
    decreases s.len(),
{
    if s.len() == 0 {
        Seq::empty()
    } else {
        encode_char_mutf8(s[0]) + encode_mutf8(s.drop_first())
    }
}

/// A modified-UTF-8 string as it stands in a class file: raw bytes that have
/// not yet been validated or decoded.
#[derive(Debug)]
pub struct ModifiedUtf8String {
    bytes: Vec<u8>,
}

impl View for ModifiedUtf8String {
    type V = Seq<u8>;

    closed spec fn view(&self) -> Seq<u8> {
        self.bytes@
    }
}

impl ModifiedUtf8String {
    pub fn new(bytes: Vec<u8>) -> (r: Self)
        ensures
            r@ == bytes@,
    {
        ModifiedUtf8String { bytes }
    }

    /// Decodes this modified-UTF-8 string into Unicode text; surrogate pairs
    /// combine into supplementary characters. A malformed byte sequence is
    /// reported as an error, never substituted.
    pub fn to_string(&self) -> (r: Result<String, DecodeError>)
        ensures
            match r {
                Ok(s) => decode_chars_from(self@, 0) == Ok::<Seq<char>, DecodeError>(s@),
                Err(e) => decode_chars_from(self@, 0) == Err::<Seq<char>, DecodeError>(e),
            },
    {
        decode_string(&self.bytes)
    }

    /// Decodes this modified-UTF-8 string into UTF-16 code units; surrogate
    /// halves are kept as they stand, one unit each.
    pub fn to_utf16(&self) -> (r: Result<Vec<u16>, DecodeError>)
        ensures
            match r {
                Ok(units) => decode_units_from(self@, 0) == Ok::<Seq<u16>, DecodeError>(units@),
                Err(e) => decode_units_from(self@, 0) == Err::<Seq<u16>, DecodeError>(e),
            },
    {
        decode_utf16(&self.bytes)
    }
}

/// Decodes modified UTF-8 into Unicode text; surrogate pairs combine into
/// supplementary characters. A malformed byte sequence is reported as an
/// error, never substituted.
pub fn decode_string(bytes: &Vec<u8>) -> (r: Result<String, DecodeError>)
    ensures
        match r {
            Ok(s) => decode_chars_from(bytes@, 0) == Ok::<Seq<char>, DecodeError>(s@),
            Err(e) => decode_chars_from(bytes@, 0) == Err::<Seq<char>, DecodeError>(e),
        },
{
    let n = bytes.len();
    let mut out = String::new();
    let mut i: usize = 0;
    while i < n
        invariant
            i <= n,
            n == bytes.len(),
            decode_chars_from(bytes@, 0) == (match decode_chars_from(bytes@, i as int) {
                Ok(rest) => Ok::<Seq<char>, DecodeError>(out@ + rest),
                Err(e) => Err::<Seq<char>, DecodeError>(e),
            }),
        decreases n - i,
    {
        let ghost out0 = out@;
        let b0 = bytes[i];
        if 0x01 <= b0 && b0 <= 0x7f {
            let c = b0 as char;
            out.push(c);
            i = i + 1;
            proof {
                match decode_chars_from(bytes@, i as int) {
                    Ok(rest) => lemma_push_prepend(out0, c, rest),
                    Err(_) => {},
                }
            }
        } else if 0xc0 <= b0 && b0 <= 0xdf {
            if n - i < 2 {
                return Err(DecodeError::Truncated { index: i, expected: 2 });
            }
            let b1 = bytes[i + 1];
            if !(0x80 <= b1 && b1 <= 0xbf) {
                return Err(DecodeError::BadContinuation { index: i + 1, byte: b1 });
            }
            let cp: u32 = (((b0 & 0x1f) as u32) << 6) | ((b1 & 0x3f) as u32);
            if cp != 0 && cp < 0x80 {
                return Err(DecodeError::Overlong { index: i });
            }
            proof {
                assert(vstd::utf8::is_scalar(cp2(b0, b1))) by (bit_vector)
                    requires
                        0xc0 <= b0 && b0 <= 0xdf,
                ;
            }
            let c = char::from_u32(cp).unwrap();
            out.push(c);
            i = i + 2;
            proof {
                vstd::utf8::char_u32_cast(c, cp);
                match decode_chars_from(bytes@, i as int) {
                    Ok(rest) => lemma_push_prepend(out0, c, rest),
                    Err(_) => {},
                }
            }
        } else if 0xe0 <= b0 && b0 <= 0xef {
            if n - i < 3 {
                return Err(DecodeError::Truncated { index: i, expected: 3 });
            }
            let b1 = bytes[i + 1];
            let b2 = bytes[i + 2];
            if !(0x80 <= b1 && b1 <= 0xbf) {
                return Err(DecodeError::BadContinuation { index: i + 1, byte: b1 });
            }
            if !(0x80 <= b2 && b2 <= 0xbf) {
                return Err(DecodeError::BadContinuation { index: i + 2, byte: b2 });
            }
            if b0 == 0xed && 0xa0 <= b1 && b1 <= 0xaf {
                // a high surrogate half: the matching low half must follow
                if n - i < 6 {
                    return Err(DecodeError::UnmatchedSurrogate { index: i });
                }
                let b3 = bytes[i + 3];
                let b4 = bytes[i + 4];
                let b5 = bytes[i + 5];
                if b3 != 0xed || !(0xb0 <= b4 && b4 <= 0xbf) {
                    return Err(DecodeError::UnmatchedSurrogate { index: i });
                }
                if !(0x80 <= b5 && b5 <= 0xbf) {
                    return Err(DecodeError::BadContinuation { index: i + 5, byte: b5 });
                }
                let v: u32 = (((b1 & 0x0f) as u32) << 16) | (((b2 & 0x3f) as u32) << 10) | (((b4
                    & 0x0f) as u32) << 6) | ((b5 & 0x3f) as u32);
                proof {
                    assert((0x10000 + ((((b1 & 0x0f) as u32) << 16) | (((b2 & 0x3f) as u32)
                        << 10) | (((b4 & 0x0f) as u32) << 6) | ((b5 & 0x3f) as u32)))
                        <= 0x10ffff) by (bit_vector);
                }
                let cp: u32 = 0x10000 + v;
                proof {
                    assert(cp == cp6(b1, b2, b4, b5));
                    assert(vstd::utf8::is_scalar(cp)) by {
                        assert(0x10000 <= cp <= 0x10ffff);
                    }
                }
                let c = char::from_u32(cp).unwrap();
                out.push(c);
                i = i + 6;
                proof {
                    vstd::utf8::char_u32_cast(c, cp);
                    match decode_chars_from(bytes@, i as int) {
                        Ok(rest) => lemma_push_prepend(out0, c, rest),
                        Err(_) => {},
                    }
                }
            } else if b0 == 0xed && 0xb0 <= b1 && b1 <= 0xbf {
                return Err(DecodeError::UnmatchedSurrogate { index: i });
            } else {
                let cp: u32 = (((b0 & 0x0f) as u32) << 12) | (((b1 & 0x3f) as u32) << 6) | ((b2
                    & 0x3f) as u32);
                if cp < 0x800 {
                    return Err(DecodeError::Overlong { index: i });
                }
                proof {
                    assert(vstd::utf8::is_scalar(cp3(b0, b1, b2))) by (bit_vector)
                        requires
                            0xe0 <= b0 && b0 <= 0xef && 0x80 <= b1 && b1 <= 0xbf && !(b0 == 0xed
                                && 0xa0 <= b1 && b1 <= 0xbf),
                    ;
                }
                let c = char::from_u32(cp).unwrap();
                out.push(c);
                i = i + 3;
                proof {
                    vstd::utf8::char_u32_cast(c, cp);
                    match decode_chars_from(bytes@, i as int) {
                        Ok(rest) => lemma_push_prepend(out0, c, rest),
                        Err(_) => {},
                    }
                }
            }
        } else if 0x80 <= b0 && b0 <= 0xbf {
            return Err(DecodeError::BadContinuation { index: i, byte: b0 });
        } else {
            return Err(DecodeError::IllegalByte { index: i, byte: b0 });
        }
    }
    proof {
        assert(decode_chars_from(bytes@, n as int) == Ok::<Seq<char>, DecodeError>(Seq::empty()));
        assert(out@ + Seq::<char>::empty() =~= out@);
    }
    Ok(out)
}

/// Decodes modified UTF-8 into UTF-16 code units; surrogate halves are kept
/// as they stand, one unit each.
pub fn decode_utf16(bytes: &Vec<u8>) -> (r: Result<Vec<u16>, DecodeError>)
    ensures
        match r {
            Ok(units) => decode_units_from(bytes@, 0) == Ok::<Seq<u16>, DecodeError>(units@),
            Err(e) => decode_units_from(bytes@, 0) == Err::<Seq<u16>, DecodeError>(e),
        },
{
    let n = bytes.len();
    let mut out: Vec<u16> = Vec::new();
    let mut i: usize = 0;
    while i < n
        invariant
            i <= n,
            n == bytes.len(),
            decode_units_from(bytes@, 0) == (match decode_units_from(bytes@, i as int) {
                Ok(rest) => Ok::<Seq<u16>, DecodeError>(out@ + rest),
                Err(e) => Err::<Seq<u16>, DecodeError>(e),
            }),
        decreases n - i,
    {
        let ghost out0 = out@;
        let b0 = bytes[i];
        if 0x01 <= b0 && b0 <= 0x7f {
            out.push(b0 as u16);
            i = i + 1;
            proof {
                match decode_units_from(bytes@, i as int) {
                    Ok(rest) => lemma_push_prepend(out0, b0 as u16, rest),
                    Err(_) => {},
                }
            }
        } else if 0xc0 <= b0 && b0 <= 0xdf {
            if n - i < 2 {
                return Err(DecodeError::Truncated { index: i, expected: 2 });
            }
            let b1 = bytes[i + 1];
            if !(0x80 <= b1 && b1 <= 0xbf) {
                return Err(DecodeError::BadContinuation { index: i + 1, byte: b1 });
            }
            let cp: u32 = (((b0 & 0x1f) as u32) << 6) | ((b1 & 0x3f) as u32);
            if cp != 0 && cp < 0x80 {
                return Err(DecodeError::Overlong { index: i });
            }
            proof {
                assert(cp2(b0, b1) <= 0x7ff) by (bit_vector);
            }
            out.push(cp as u16);
            i = i + 2;
            proof {
                match decode_units_from(bytes@, i as int) {
                    Ok(rest) => lemma_push_prepend(out0, cp as u16, rest),
                    Err(_) => {},
                }
            }
        } else if 0xe0 <= b0 && b0 <= 0xef {
            if n - i < 3 {
                return Err(DecodeError::Truncated { index: i, expected: 3 });
            }
            let b1 = bytes[i + 1];
            let b2 = bytes[i + 2];
            if !(0x80 <= b1 && b1 <= 0xbf) {
                return Err(DecodeError::BadContinuation { index: i + 1, byte: b1 });
            }
            if !(0x80 <= b2 && b2 <= 0xbf) {
                return Err(DecodeError::BadContinuation { index: i + 2, byte: b2 });
            }
            let cp: u32 = (((b0 & 0x0f) as u32) << 12) | (((b1 & 0x3f) as u32) << 6) | ((b2
                & 0x3f) as u32);
            if cp < 0x800 {
                return Err(DecodeError::Overlong { index: i });
            }
            proof {
                assert(cp3(b0, b1, b2) <= 0xffff) by (bit_vector);
            }
            out.push(cp as u16);
            i = i + 3;
            proof {
                match decode_units_from(bytes@, i as int) {
                    Ok(rest) => lemma_push_prepend(out0, cp as u16, rest),
                    Err(_) => {},
                }
            }
        } else if 0x80 <= b0 && b0 <= 0xbf {
            return Err(DecodeError::BadContinuation { index: i, byte: b0 });
        } else {
            return Err(DecodeError::IllegalByte { index: i, byte: b0 });
        }
    }
    proof {
        assert(out@ + Seq::<u16>::empty() =~= out@);
    }
    Ok(out)
}

/// Appending one decoded item to the accumulator and then the rest is the
/// same as appending the item consed onto the rest.
pub proof fn lemma_push_prepend<T>(acc: Seq<T>, x: T, rest: Seq<T>)
    ensures
        acc + (seq![x] + rest) =~= acc.push(x) + rest,
{
}

/// Encodes text as modified UTF-8: the inverse of `to_string`.
pub fn encode(s: &str) -> (r: Vec<u8>)
    ensures
        r@ == encode_mutf8(s@),
{
    broadcast use vstd::string::group_string_axioms;

    let mut out: Vec<u8> = Vec::new();
    let mut it = s.chars();
    loop
        invariant
            it.obeys_prophetic_iter_laws(),
            it.decrease() is Some,
            out@ + encode_mutf8(it.remaining()) =~= encode_mutf8(s@),
        ensures
            out@ == encode_mutf8(s@),
        decreases it.decrease()->0,
    {
        let ghost rem = it.remaining();
        let ghost out0 = out@;
        match it.next() {
            None => {
                proof {
                    assert(encode_mutf8(rem) =~= Seq::<u8>::empty());
                    assert(out@ =~= out@ + Seq::<u8>::empty());
                }
                break;
            },
            Some(c) => {
                let cp = c as u32;
                if cp == 0 {
                    out.push(0xc0);
                    out.push(0x80);
                } else if cp <= 0x7f {
                    out.push(cp as u8);
                } else if cp <= 0x7ff {
                    out.push((0xc0 | (cp >> 6)) as u8);
                    out.push((0x80 | (cp & 0x3f)) as u8);
                } else if cp <= 0xffff {
                    out.push((0xe0 | (cp >> 12)) as u8);
                    out.push((0x80 | ((cp >> 6) & 0x3f)) as u8);
                    out.push((0x80 | (cp & 0x3f)) as u8);
                } else {
                    let v = cp - 0x10000;
                    out.push(0xed);
                    out.push((0xa0 | (v >> 16)) as u8);
                    out.push((0x80 | ((v >> 10) & 0x3f)) as u8);
                    out.push(0xed);
                    out.push((0xb0 | ((v >> 6) & 0x0f)) as u8);
                    out.push((0x80 | (v & 0x3f)) as u8);
                }
                proof {
                    vstd::utf8::char_is_scalar(c);
                    assert(out@ =~= out0 + encode_char_mutf8(c));
                    assert(rem[0] == c);
                    let rest = it.remaining();
                    assert(rest =~= rem.drop_first());
                    assert(encode_mutf8(rem) == encode_char_mutf8(c) + encode_mutf8(rest));
                    assert(out@ + encode_mutf8(rest) =~= out0 + encode_mutf8(rem));
                }
            },
        }
    }
    out
}

/// The decoder only ever consumes legal bytes: if a byte sequence decodes
/// successfully from position `i`, then no byte at or after `i` is one of
/// the illegal values 0x00 or 0xF0 through 0xFF.
pub proof fn lemma_no_illegal_bytes(b: Seq<u8>, i: int, j: int)
    requires
        0 <= i <= j < b.len(),
        decode_chars_from(b, i) is Ok,
    ensures
        !is_illegal_byte(b[j]),
    decreases b.len() - i,
{
    let b0 = b[i];
    if 0x01 <= b0 && b0 <= 0x7f {
        if j >= i + 1 {
            lemma_no_illegal_bytes(b, i + 1, j);
        }
    } else if 0xc0 <= b0 && b0 <= 0xdf {
        if j >= i + 2 {
            lemma_no_illegal_bytes(b, i + 2, j);
        }
    } else {
        // the three- and six-byte forms
        if is_high_surrogate_form(b0, b[i + 1]) {
            if j >= i + 6 {
                lemma_no_illegal_bytes(b, i + 6, j);
            }
        } else {
            if j >= i + 3 {
                lemma_no_illegal_bytes(b, i + 3, j);
            }
        }
    }
}

/// Counterpart of `lemma_no_illegal_bytes` for the UTF-16 decoder.
pub proof fn lemma_no_illegal_bytes_units(b: Seq<u8>, i: int, j: int)
    requires
        0 <= i <= j < b.len(),
        decode_units_from(b, i) is Ok,
    ensures
        !is_illegal_byte(b[j]),
    decreases b.len() - i,
{
    let b0 = b[i];
    if 0x01 <= b0 && b0 <= 0x7f {
        if j >= i + 1 {
            lemma_no_illegal_bytes_units(b, i + 1, j);
        }
    } else if 0xc0 <= b0 && b0 <= 0xdf {
        if j >= i + 2 {
            lemma_no_illegal_bytes_units(b, i + 2, j);
        }
    } else {
        if j >= i + 3 {
            lemma_no_illegal_bytes_units(b, i + 3, j);
        }
    }
}

/// An illegal byte standing alone never decodes.
pub proof fn lemma_illegal_byte_fails(x: u8)
    requires
        is_illegal_byte(x),
    ensures
        decode_chars_from(seq![x], 0) == Err::<Seq<char>, DecodeError>(
            DecodeError::IllegalByte { index: 0, byte: x },
        ),
        decode_units_from(seq![x], 0) == Err::<Seq<u16>, DecodeError>(
            DecodeError::IllegalByte { index: 0, byte: x },
        ),
{
    let b = seq![x];
    assert(b[0] == x);
}

/// Decoding to text and re-encoding reproduces the bytes from position `i`.
proof fn lemma_decode_encode_from(b: Seq<u8>, i: int)
    requires
        0 <= i <= b.len(),
        decode_chars_from(b, i) is Ok,
    ensures
        encode_mutf8(decode_chars_from(b, i)->Ok_0) == b.subrange(i, b.len() as int),
    decreases b.len() - i,
{
    let len = b.len() as int;
    if i == len {
        assert(encode_mutf8(Seq::<char>::empty()) =~= b.subrange(i, len));
    } else {
        let b0 = b[i];
        if 0x01 <= b0 && b0 <= 0x7f {
            lemma_decode_encode_from(b, i + 1);
            step_case(b, i, 1, b0 as char);
        } else if 0xc0 <= b0 && b0 <= 0xdf {
            let b1 = b[i + 1];
            let cp = cp2(b0, b1);
            assert(vstd::utf8::is_scalar(cp) && (cp == 0 || 0x80 <= cp <= 0x7ff)) by (bit_vector)
                requires
                    cp == cp2(b0, b1) && 0xc0 <= b0 <= 0xdf && 0x80 <= b1 <= 0xbf && !(cp2(b0, b1)
                        != 0 && cp2(b0, b1) < 0x80),
            ;
            let c = cp as char;
            assert(c as u32 == cp);
            if cp == 0 {
                assert(b0 == 0xc0 && b1 == 0x80) by (bit_vector)
                    requires
                        cp2(b0, b1) == 0 && 0xc0 <= b0 <= 0xdf && 0x80 <= b1 <= 0xbf,
                ;
            } else {
                assert((0xc0 | (cp >> 6)) as u8 == b0 && (0x80 | (cp & 0x3f)) as u8 == b1)
                    by (bit_vector)
                    requires
                        cp == cp2(b0, b1) && 0xc0 <= b0 <= 0xdf && 0x80 <= b1 <= 0xbf,
                ;
            }
            lemma_decode_encode_from(b, i + 2);
            step_case(b, i, 2, c);
        } else {
            let b1 = b[i + 1];
            let b2 = b[i + 2];
            if is_high_surrogate_form(b0, b1) {
                let b4 = b[i + 4];
                let b5 = b[i + 5];
                let cp = cp6(b1, b2, b4, b5);
                assert(vstd::utf8::is_scalar(cp) && 0x10000 <= cp) by (bit_vector)
                    requires
                        cp == cp6(b1, b2, b4, b5),
                ;
                let c = cp as char;
                assert(c as u32 == cp);
                assert((0xa0 | (((cp - 0x10000) as u32) >> 16)) as u8 == b1 && (0x80 | ((((cp
                    - 0x10000) as u32) >> 10) & 0x3f)) as u8 == b2 && (0xb0 | ((((cp
                    - 0x10000) as u32) >> 6) & 0x0f)) as u8 == b4 && (0x80 | (((cp
                    - 0x10000) as u32) & 0x3f)) as u8 == b5) by (bit_vector)
                    requires
                        cp == cp6(b1, b2, b4, b5) && 0xa0 <= b1 <= 0xaf && 0x80 <= b2 <= 0xbf
                            && 0xb0 <= b4 <= 0xbf && 0x80 <= b5 <= 0xbf,
                ;
                assert(b[i + 3] == 0xed);
                lemma_decode_encode_from(b, i + 6);
                step_case(b, i, 6, c);
            } else {
                let cp = cp3(b0, b1, b2);
                assert(vstd::utf8::is_scalar(cp) && cp <= 0xffff) by (bit_vector)
                    requires
                        cp == cp3(b0, b1, b2) && 0xe0 <= b0 <= 0xef && 0x80 <= b1 <= 0xbf && !(b0
                            == 0xed && 0xa0 <= b1 && b1 <= 0xbf),
                ;
                let c = cp as char;
                assert(c as u32 == cp);
                assert((0xe0 | (cp >> 12)) as u8 == b0 && (0x80 | ((cp >> 6) & 0x3f)) as u8 == b1
                    && (0x80 | (cp & 0x3f)) as u8 == b2) by (bit_vector)
                    requires
                        cp == cp3(b0, b1, b2) && 0xe0 <= b0 <= 0xef && 0x80 <= b1 <= 0xbf && 0x80
                            <= b2 <= 0xbf,
                ;
                lemma_decode_encode_from(b, i + 3);
                step_case(b, i, 3, c);
            }
        }
    }
}

/// One step of the round-trip proof: the unit at position `i` spans `k`
/// bytes, decodes to `c`, `c` re-encodes to exactly those bytes, and the
/// rest of the sequence already round-trips.
proof fn step_case(b: Seq<u8>, i: int, k: int, c: char)
    requires
        0 <= i,
        i + k <= b.len(),
        1 <= k,
        decode_chars_from(b, i) is Ok,
        decode_chars_from(b, i) == prepend_char(c, decode_chars_from(b, i + k)),
        encode_char_mutf8(c) =~= b.subrange(i, i + k),
        encode_mutf8(decode_chars_from(b, i + k)->Ok_0) == b.subrange(i + k, b.len() as int),
    ensures
        encode_mutf8(decode_chars_from(b, i)->Ok_0) == b.subrange(i, b.len() as int),
{
    let len = b.len() as int;
    let rest = decode_chars_from(b, i + k)->Ok_0;
    let cs = decode_chars_from(b, i)->Ok_0;
    assert(cs == seq![c] + rest);
    assert(cs.len() > 0);
    assert(cs[0] == c);
    assert(cs.drop_first() =~= rest);
    assert(encode_mutf8(cs) == encode_char_mutf8(c) + encode_mutf8(rest));
    assert(b.subrange(i, len) =~= b.subrange(i, i + k) + b.subrange(i + k, len));
}

/// Round trip: decoding a well-formed modified-UTF-8 byte sequence to text
/// and re-encoding the text reproduces the original byte sequence.
pub proof fn lemma_round_trip(b: Seq<u8>)
    requires
        decode_chars_from(b, 0) is Ok,
    ensures
        encode_mutf8(decode_chars_from(b, 0)->Ok_0) == b,
{
    lemma_decode_encode_from(b, 0);
    assert(b.subrange(0, b.len() as int) =~= b);
}

/// The six-byte surrogate-pair encoding of a supplementary code point
/// decodes to that single character in text form, and to the matching
/// high and low UTF-16 surrogate halves in UTF-16 form.
pub proof fn lemma_surrogate_pair(cp: u32)
    requires
        0x10000 <= cp <= 0x10ffff,
    ensures
        decode_chars_from(encode_char_mutf8(cp as char), 0) == Ok::<Seq<char>, DecodeError>(
            seq![cp as char],
        ),
        decode_units_from(encode_char_mutf8(cp as char), 0) == Ok::<Seq<u16>, DecodeError>(
            seq![
                (0xd800 + (((cp - 0x10000) as u32) >> 10)) as u16,
                (0xdc00 + (((cp - 0x10000) as u32) & 0x3ff)) as u16,
            ],
        ),
{
    let c = cp as char;
    assert(c as u32 == cp);
    let v = (cp - 0x10000) as u32;
    let b = encode_char_mutf8(c);
    let b1 = (0xa0 | (v >> 16)) as u8;
    let b2 = (0x80 | ((v >> 10) & 0x3f)) as u8;
    let b4 = (0xb0 | ((v >> 6) & 0x0f)) as u8;
    let b5 = (0x80 | (v & 0x3f)) as u8;
    assert(b == seq![0xedu8, b1, b2, 0xedu8, b4, b5]);
    assert(b.len() == 6 && b[0] == 0xed && b[1] == b1 && b[2] == b2 && b[3] == 0xed && b[4] == b4
        && b[5] == b5);
    assert(0xa0 <= b1 <= 0xaf && 0x80 <= b2 <= 0xbf && 0xb0 <= b4 <= 0xbf && 0x80 <= b5 <= 0xbf
        && cp6(b1, b2, b4, b5) == cp && cp3(0xed, b1, b2) == (0xd800 + (v >> 10)) as u32 && cp3(
        0xed,
        b4,
        b5,
    ) == (0xdc00 + (v & 0x3ff)) as u32 && (v >> 10) <= 0x3ff && (v & 0x3ff) <= 0x3ff && cp3(
        0xed,
        b1,
        b2,
    ) >= 0x800 && cp3(0xed, b4, b5) >= 0x800) by (bit_vector)
        requires
            v == (cp - 0x10000) as u32 && 0x10000 <= cp <= 0x10ffff && b1 == (0xa0 | (v >> 16)) as u8
                && b2 == (0x80 | ((v >> 10) & 0x3f)) as u8 && b4 == (0xb0 | ((v >> 6)
                & 0x0f)) as u8 && b5 == (0x80 | (v & 0x3f)) as u8,
    ;
    assert(decode_chars_from(b, 6) == Ok::<Seq<char>, DecodeError>(Seq::empty()));
    assert(decode_chars_from(b, 0) == prepend_char(cp6(b1, b2, b4, b5) as char, decode_chars_from(b, 6)));
    assert(seq![c] + Seq::<char>::empty() =~= seq![c]);
    // the UTF-16 form: two three-byte units
    let u1 = cp3(0xed, b1, b2) as u16;
    let u2 = cp3(0xed, b4, b5) as u16;
    assert(decode_units_from(b, 6) == Ok::<Seq<u16>, DecodeError>(Seq::empty()));
    assert(decode_units_from(b, 3) == prepend_unit(u2, decode_units_from(b, 6)));
    assert(decode_units_from(b, 0) == prepend_unit(u1, decode_units_from(b, 3)));
    assert(seq![u2] + Seq::<u16>::empty() =~= seq![u2]);
    assert(seq![u1] + seq![u2] =~= seq![u1, u2]);
}

} // verus!

//! Conversions of byte slices to text and to integers.

use vstd::prelude::*;
use vstd::utf8::{decode_utf8, valid_utf8};
use crate::error::CastError;

verus! {

/// Relies on `std::str::from_utf8`: it succeeds exactly on well-formed
/// UTF-8 and then yields the decoded characters.
#[verifier::external_body]
fn str_from_utf8(b: &[u8]) -> (r: Result<&str, std::str::Utf8Error>)
    ensures
        r is Ok <==> valid_utf8(b@),
        r matches Ok(s) ==> s@ == decode_utf8(b@),
{
    std::str::from_utf8(b)
}

/// Relies on `encoding_rs::Encoding::utf8_valid_up_to`: the index of the
/// first byte that makes the input malformed, or the length when the whole
/// input is valid UTF-8.
#[verifier::external_body]
fn utf8_valid_up_to(b: &[u8]) -> (r: usize)
    ensures
        r <= b@.len(),
        r == b@.len() <==> valid_utf8(b@),
{
    encoding_rs::Encoding::utf8_valid_up_to(b)
}

/// Whether `b` is valid UTF-8.
pub fn is_utf8(b: &[u8]) -> (r: bool)
    ensures
        r == valid_utf8(b@),
{
    utf8_valid_up_to(b) == b.len()
}

/// `b` as text; a `Utf8Error` when it is not valid UTF-8.
pub fn utf8_to_str(b: &[u8]) -> (r: Result<&str, CastError>)
    ensures
        r is Ok <==> valid_utf8(b@),
        r matches Ok(s) ==> s@ == decode_utf8(b@),
        r is Err ==> r->Err_0 is Utf8Error,
{
    match str_from_utf8(b) {
        Ok(s) => Ok(s),
        Err(e) => Err(CastError::Utf8Error(e)),
    }
}

/// `b` as an owned string; a `Utf8Error` when it is not valid UTF-8.
pub fn utf8_to_string(b: &[u8]) -> (r: Result<String, CastError>)
    ensures
        r is Ok <==> valid_utf8(b@),
        r matches Ok(s) ==> s@ == decode_utf8(b@),
        r is Err ==> r->Err_0 is Utf8Error,
{
    match utf8_to_str(b) {
        Ok(s) => Ok(s.to_owned()),
        Err(e) => Err(e),
    }
}

/// An ASCII decimal digit.
pub open spec fn is_digit(b: u8) -> bool {
    48 <= b <= 57
}

/// The value of a string of decimal digits (the empty string is 0).
pub open spec fn digits_value(s: Seq<u8>) -> nat
    decreases s.len(),
{
    if s.len() == 0 {
        0
    } else {
        digits_value(s.drop_last()) * 10 + (s.last() - 48) as nat
    }
}

/// Whether the number text begins with a minus sign.
pub open spec fn is_negative(s: Seq<u8>) -> bool {
    s.len() > 0 && s[0] == 45
}

/// The digits of a number text, after an optional leading minus sign.
pub open spec fn number_body(s: Seq<u8>) -> Seq<u8> {
    if is_negative(s) {
        s.drop_first()
    } else {
        s
    }
}

/// Every byte, but a leading minus sign, is a decimal digit.
pub open spec fn only_digits(s: Seq<u8>) -> bool {
    forall|i: int| 0 <= i < number_body(s).len() ==> is_digit(#[trigger] number_body(s)[i])
}

/// The signed value of a number text.
pub open spec fn number_value(s: Seq<u8>) -> int {
    if is_negative(s) {
        -digits_value(number_body(s))
    } else {
        digits_value(number_body(s)) as int
    }
}

/// A number text decodes into an integer type whose range is `min..=max`:
/// only digits after an optional minus sign, a magnitude that fits `max`,
/// and a signed value not below `min`.
pub open spec fn number_fits(s: Seq<u8>, min: int, max: int) -> bool {
    only_digits(s) && digits_value(number_body(s)) <= max && min <= number_value(s)
}

proof fn lemma_digits_value_monotone(s: Seq<u8>, i: int, j: int)
    requires
        0 <= i <= j <= s.len(),
    ensures
        digits_value(s.subrange(0, i)) <= digits_value(s.subrange(0, j)),
    decreases j - i,
{
    if i < j {
        lemma_digits_value_monotone(s, i, j - 1);
        assert(s.subrange(0, j).drop_last() =~= s.subrange(0, j - 1));
    }
}

/// The magnitude of the digits of `s` from index `start` on, when they are
/// all digits and their value is at most `max`.
fn parse_magnitude(s: &[u8], start: usize, max: u64) -> (r: Option<u64>)
    requires
        start <= s@.len(),
        max >= 9,
    ensures
        ({
            let d = s@.subrange(start as int, s@.len() as int);
            let ok = (forall|i: int| 0 <= i < d.len() ==> is_digit(#[trigger] d[i]))
                && digits_value(d) <= max;
            &&& r is Some <==> ok
            &&& r matches Some(v) ==> v == digits_value(d)
        }),
{
    let n = s.len();
    let ghost d = s@.subrange(start as int, n as int);
    let mut acc: u64 = 0;
    let mut i: usize = start;
    assert(d.subrange(0, 0) =~= Seq::<u8>::empty());
    while i < n
        invariant
            n == s@.len(),
            start <= i <= n,
            d == s@.subrange(start as int, n as int),
            forall|k: int| 0 <= k < i - start ==> is_digit(#[trigger] d[k]),
            acc == digits_value(d.subrange(0, i - start)),
            acc <= max,
            max >= 9,
        decreases n - i,
    {
        let b = s[i];
        assert(b == d[i - start]);
        if b < 48 || b > 57 {
            return None;
        }
        let digit = (b - 48) as u64;
        assert(d.subrange(0, i - start + 1).drop_last() =~= d.subrange(0, i - start));
        if acc > max / 10 || acc * 10 > max - digit {
            proof {
                if acc > max / 10 {
                    assert(acc * 10 > max) by (nonlinear_arith)
                        requires acc > max / 10;
                }
                lemma_digits_value_monotone(d, i - start + 1, d.len() as int);
                assert(d.subrange(0, d.len() as int) =~= d);
            }
            return None;
        }
        acc = acc * 10 + digit;
        i = i + 1;
    }
    assert(d.subrange(0, n - start) =~= d);
    Some(acc)
}

/// Decodes a base-10 number with an optional leading `-` whose magnitude is
/// at most `max`; the sign and magnitude come back separately.
fn parse_signed(s: &[u8], max: u64) -> (r: Option<(bool, u64)>)
    requires
        max >= 9,
    ensures
        r is Some <==> (only_digits(s@) && digits_value(number_body(s@)) <= max),
        r matches Some((neg, v)) ==> neg == is_negative(s@) && v == digits_value(number_body(s@)),
{
    let neg = s.len() > 0 && s[0] == 45;
    let start: usize = if neg { 1 } else { 0 };
    assert(number_body(s@) =~= s@.subrange(start as int, s@.len() as int));
    match parse_magnitude(s, start, max) {
        Some(v) => Some((neg, v)),
        None => None,
    }
}

/// Decodes `s` as a `u8` (see `number_fits`).
pub fn utf8_to_u8(s: &[u8]) -> (r: Result<u8, CastError>)
    ensures
        r is Ok <==> number_fits(s@, 0, u8::MAX as int),
        r matches Ok(v) ==> v == number_value(s@),
        r is Err ==> r->Err_0 is InvalidData,
        !only_digits(s@) ==> r is Err,
{
    match parse_signed(s, u8::MAX as u64) {
        Some((neg, v)) => {
            if neg && v != 0 {
                Err(CastError::InvalidData("overflow".to_owned()))
            } else {
                Ok(v as u8)
            }
        },
        None => Err(CastError::InvalidData("invalid number".to_owned())),
    }
}

/// Decodes `s` as a `u16` (see `number_fits`).
pub fn utf8_to_u16(s: &[u8]) -> (r: Result<u16, CastError>)
    ensures
        r is Ok <==> number_fits(s@, 0, u16::MAX as int),
        r matches Ok(v) ==> v == number_value(s@),
        r is Err ==> r->Err_0 is InvalidData,
        !only_digits(s@) ==> r is Err,
{
    match parse_signed(s, u16::MAX as u64) {
        Some((neg, v)) => {
            if neg && v != 0 {
                Err(CastError::InvalidData("overflow".to_owned()))
            } else {
                Ok(v as u16)
            }
        },
        None => Err(CastError::InvalidData("invalid number".to_owned())),
    }
}

/// Decodes `s` as a `u32` (see `number_fits`).
pub fn utf8_to_u32(s: &[u8]) -> (r: Result<u32, CastError>)
    ensures
        r is Ok <==> number_fits(s@, 0, u32::MAX as int),
        r matches Ok(v) ==> v == number_value(s@),
        r is Err ==> r->Err_0 is InvalidData,
        !only_digits(s@) ==> r is Err,
{
    match parse_signed(s, u32::MAX as u64) {
        Some((neg, v)) => {
            if neg && v != 0 {
                Err(CastError::InvalidData("overflow".to_owned()))
            } else {
                Ok(v as u32)
            }
        },
        None => Err(CastError::InvalidData("invalid number".to_owned())),
    }
}

/// Decodes `s` as an `i32` (see `number_fits`); the magnitude must fit
/// `i32::MAX` before the sign is applied.
pub fn utf8_to_i32(s: &[u8]) -> (r: Result<i32, CastError>)
    ensures
        r is Ok <==> number_fits(s@, i32::MIN as int, i32::MAX as int),
        r matches Ok(v) ==> v == number_value(s@),
        r is Err ==> r->Err_0 is InvalidData,
        !only_digits(s@) ==> r is Err,
{
    match parse_signed(s, i32::MAX as u64) {
        Some((neg, v)) => {
            if neg {
                Ok(-(v as i32))
            } else {
                Ok(v as i32)
            }
        },
        None => Err(CastError::InvalidData("invalid number".to_owned())),
    }
}

/// Decodes `s` as an `i64` (see `number_fits`); the magnitude must fit
/// `i64::MAX` before the sign is applied.
pub fn utf8_to_i64(s: &[u8]) -> (r: Result<i64, CastError>)
    ensures
        r is Ok <==> number_fits(s@, i64::MIN as int, i64::MAX as int),
        r matches Ok(v) ==> v == number_value(s@),
        r is Err ==> r->Err_0 is InvalidData,
        !only_digits(s@) ==> r is Err,
{
    match parse_signed(s, i64::MAX as u64) {
        Some((neg, v)) => {
            if neg {
                Ok(-(v as i64))
            } else {
                Ok(v as i64)
            }
        },
        None => Err(CastError::InvalidData("invalid number".to_owned())),
    }
}

} // verus!

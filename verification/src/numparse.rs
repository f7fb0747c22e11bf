//! Decimal and hexadecimal number parsing for shell arguments.

use vstd::prelude::*;
use vstd::string::StringSliceAdditionalSpecFns;

verus! {

/// `b` is one of the ASCII bytes `'0'..='9'`.
pub open spec fn is_digit_byte(b: u8) -> bool {
    48 <= b <= 57
}

/// Every byte of `s` is an ASCII decimal digit.
pub open spec fn all_digits(s: Seq<u8>) -> bool {
    forall|i: int| 0 <= i < s.len() ==> is_digit_byte(#[trigger] s[i])
}

/// The value of a string of decimal digits (the empty string is 0).
pub open spec fn decimal_value(s: Seq<u8>) -> nat
    decreases s.len(),
{
    if s.len() == 0 {
        0
    } else {
        decimal_value(s.drop_last()) * 10 + (s.last() - 48) as nat
    }
}

/// Taking a longer prefix of a digit string never gives a smaller value.
pub proof fn lemma_decimal_prefix_monotone(s: Seq<u8>, i: int, j: int)
    requires
        all_digits(s),
        0 <= i <= j <= s.len(),
    ensures
        decimal_value(s.take(i)) <= decimal_value(s.take(j)),
    decreases j - i,
{
    if i < j {
        lemma_decimal_prefix_monotone(s, i, j - 1);
        assert(s.take(j).drop_last() =~= s.take(j - 1));
        assert(is_digit_byte(s[j - 1]));
    }
}

/// Parses an unsigned decimal `u32` with overflow detection.
///
/// Returns `None` if any byte is not an ASCII digit or the value does not
/// fit in a `u32`; the empty string parses as `0`.
pub fn parse_u32(s: &str) -> (r: Option<u32>)
    ensures
        r is Some <==> (all_digits(s.spec_bytes()) && decimal_value(s.spec_bytes()) <= u32::MAX),
        r matches Some(v) ==> v == decimal_value(s.spec_bytes()),
{
    let bytes = s.as_bytes();
    let ghost bs = bytes@;
    let mut result: u32 = 0;
    let mut i: usize = 0;
    while i < bytes.len()
        invariant
            bs == s.spec_bytes(),
            bytes@ == bs,
            0 <= i <= bs.len(),
            all_digits(bs.take(i as int)),
            result == decimal_value(bs.take(i as int)),
        decreases bs.len() - i,
    {
        let b = bytes[i];
        if !(b >= 48 && b <= 57) {
            assert(!is_digit_byte(bs[i as int]));
            return None;
        }
        assert(bs.take(i + 1).drop_last() =~= bs.take(i as int));
        assert(all_digits(bs.take(i + 1))) by {
            assert forall|k: int| 0 <= k < i + 1 implies is_digit_byte(#[trigger] bs.take(i + 1)[k]) by {
                if k < i {
                    assert(bs.take(i + 1)[k] == bs.take(i as int)[k]);
                }
            }
        }
        let m = result.checked_mul(10);
        if m.is_none() {
            proof { overflow_means_too_big(bs, i as int, all_digits(bs), u32::MAX as nat); }
            return None;
        }
        let a = m.unwrap().checked_add((b - 48) as u32);
        if a.is_none() {
            proof { overflow_means_too_big(bs, i as int, all_digits(bs), u32::MAX as nat); }
            return None;
        }
        result = a.unwrap();
        i = i + 1;
    }
    assert(bs.take(bs.len() as int) =~= bs);
    Some(result)
}

/// When the value of the first `i + 1` digits exceeds `max`, the whole
/// string (if it is all digits) exceeds `max` too.
proof fn overflow_means_too_big(s: Seq<u8>, i: int, digits: bool, max: nat)
    requires
        0 <= i < s.len(),
        digits == all_digits(s),
        all_digits(s.take(i + 1)),
        decimal_value(s.take(i + 1)) > max,
    ensures
        !(all_digits(s) && decimal_value(s) <= max),
{
    if all_digits(s) {
        lemma_decimal_prefix_monotone(s, i + 1, s.len() as int);
        assert(s.take(s.len() as int) =~= s);
    }
}


/// Parses an unsigned decimal `usize` with overflow detection.
///
/// Returns `None` if any byte is not an ASCII digit or the value does not
/// fit in a `usize`; the empty string parses as `0`.
pub fn parse_usize(s: &str) -> (r: Option<usize>)
    ensures
        r is Some <==> (all_digits(s.spec_bytes()) && decimal_value(s.spec_bytes()) <= usize::MAX),
        r matches Some(v) ==> v == decimal_value(s.spec_bytes()),
{
    let bytes = s.as_bytes();
    let ghost bs = bytes@;
    let mut result: usize = 0;
    let mut i: usize = 0;
    while i < bytes.len()
        invariant
            bs == s.spec_bytes(),
            bytes@ == bs,
            0 <= i <= bs.len(),
            all_digits(bs.take(i as int)),
            result == decimal_value(bs.take(i as int)),
        decreases bs.len() - i,
    {
        let b = bytes[i];
        if !(b >= 48 && b <= 57) {
            assert(!is_digit_byte(bs[i as int]));
            return None;
        }
        assert(bs.take(i + 1).drop_last() =~= bs.take(i as int));
        assert(all_digits(bs.take(i + 1))) by {
            assert forall|k: int| 0 <= k < i + 1 implies is_digit_byte(#[trigger] bs.take(i + 1)[k]) by {
                if k < i {
                    assert(bs.take(i + 1)[k] == bs.take(i as int)[k]);
                }
            }
        }
        let m = result.checked_mul(10);
        if m.is_none() {
            proof { overflow_means_too_big(bs, i as int, all_digits(bs), usize::MAX as nat); }
            return None;
        }
        let a = m.unwrap().checked_add((b - 48) as usize);
        if a.is_none() {
            proof { overflow_means_too_big(bs, i as int, all_digits(bs), usize::MAX as nat); }
            return None;
        }
        result = a.unwrap();
        i = i + 1;
    }
    assert(bs.take(bs.len() as int) =~= bs);
    Some(result)
}

/// The value of a hexadecimal digit byte (`0-9`, `a-f`, `A-F`).
pub open spec fn hex_digit(b: u8) -> Option<nat> {
    if 48 <= b <= 57 {
        Some((b - 48) as nat)
    } else if 97 <= b <= 102 {
        Some((b - 87) as nat)
    } else if 65 <= b <= 70 {
        Some((b - 55) as nat)
    } else {
        None
    }
}

/// The exact value of hexadecimal digits with `_` separators ignored, or
/// `None` when some other byte occurs.
pub open spec fn hex_value(s: Seq<u8>) -> Option<nat>
    decreases s.len(),
{
    if s.len() == 0 {
        Some(0)
    } else {
        match hex_value(s.drop_last()) {
            None => None,
            Some(v) => if s.last() == 95 {
                Some(v)
            } else {
                match hex_digit(s.last()) {
                    Some(d) => Some(v * 16 + d),
                    None => None,
                }
            },
        }
    }
}

/// The digits of a hexadecimal literal: a leading `0x` or `0X` is dropped.
pub open spec fn hex_body(s: Seq<u8>) -> Seq<u8> {
    if s.len() >= 2 && s[0] == 48 && (s[1] == 120 || s[1] == 88) {
        s.skip(2)
    } else {
        s
    }
}

/// What [`parse_hex`] returns: the value modulo 2^64, or 0 for bad input.
pub open spec fn hex_result(s: Seq<u8>) -> u64 {
    match hex_value(hex_body(s)) {
        Some(v) => (v % 0x1_0000_0000_0000_0000) as u64,
        None => 0,
    }
}

proof fn lemma_wrap_step(v: nat, d: nat)
    ensures
        (((v % 0x1_0000_0000_0000_0000) * 16 + d) % 0x1_0000_0000_0000_0000) == ((v * 16 + d)
            % 0x1_0000_0000_0000_0000),
{
    let m: int = 0x1_0000_0000_0000_0000;
    vstd::arithmetic::div_mod::lemma_mul_mod_noop_left(v as int, 16, m);
    let x: int = ((v as int) % m) * 16;
    let y: int = (v as int) * 16;
    vstd::arithmetic::div_mod::lemma_add_mod_noop(x, d as int, m);
    vstd::arithmetic::div_mod::lemma_add_mod_noop(y, d as int, m);
}

/// Parses a hexadecimal string (with optional `0x`/`0X` prefix) into `u64`.
///
/// Underscores are skipped, arithmetic wraps, and any other non-hex byte
/// makes the result 0.
pub fn parse_hex(s: &str) -> (r: u64)
    ensures
        r == hex_result(s.spec_bytes()),
{
    let bytes = s.as_bytes();
    let ghost all = bytes@;
    let start: usize = if bytes.len() >= 2 && bytes[0] == 48 && (bytes[1] == 120 || bytes[1] == 88) {
        2
    } else {
        0
    };
    let ghost body = all.skip(start as int);
    assert(body =~= hex_body(all));
    let mut result: u64 = 0;
    let mut i: usize = start;
    while i < bytes.len()
        invariant
            all == s.spec_bytes(),
            bytes@ == all,
            start <= i <= all.len(),
            body == all.skip(start as int),
            body == hex_body(all),
            hex_value(body.take(i - start)) is Some,
            result == hex_value(body.take(i - start))->Some_0 % 0x1_0000_0000_0000_0000,
        decreases all.len() - i,
    {
        let b = bytes[i];
        let ghost k: int = i - start;
        assert(body.take(k + 1).drop_last() =~= body.take(k));
        assert(body.take(k + 1).last() == b);
        let digit: u64;
        if b >= 48 && b <= 57 {
            digit = (b - 48) as u64;
        } else if b >= 97 && b <= 102 {
            digit = (b - 87) as u64;
        } else if b >= 65 && b <= 70 {
            digit = (b - 55) as u64;
        } else if b == 95 {
            i = i + 1;
            continue;
        } else {
            proof {
                lemma_hex_invalid_stays(body, k + 1);
            }
            return 0;
        }
        proof {
            lemma_wrap_step(hex_value(body.take(k))->Some_0, digit as nat);
        }
        result = result.wrapping_mul(16).wrapping_add(digit);
        i = i + 1;
    }
    assert(body.take(all.len() - start) =~= body);
    result
}

/// Once a prefix holds an invalid byte, every longer prefix does too.
proof fn lemma_hex_invalid_stays(s: Seq<u8>, k: int)
    requires
        0 < k <= s.len(),
        hex_value(s.take(k)) is None,
    ensures
        hex_value(s) is None,
    decreases s.len() - k,
{
    if k < s.len() {
        assert(s.take(k + 1).drop_last() =~= s.take(k));
        lemma_hex_invalid_stays(s, k + 1);
    } else {
        assert(s.take(k) =~= s);
    }
}

/// The base-16 value of a string of decimal digit bytes, each digit worth
/// its byte minus 48.
pub open spec fn base16_of_decimal_digits(d: Seq<u8>) -> nat
    decreases d.len(),
{
    if d.len() == 0 {
        0
    } else {
        base16_of_decimal_digits(d.drop_last()) * 16 + (d.last() - 48) as nat
    }
}

/// Every decimal digit byte is a hexadecimal digit worth its byte minus
/// 48, and `0x` followed by decimal digits parses as the base-16 value of
/// those digits (modulo 2^64).
pub proof fn law_decimal_digits_are_hex(b: u8, d: Seq<u8>)
    ensures
        is_digit_byte(b) ==> hex_digit(b) == Some((b - 48) as nat),
        all_digits(d) ==> hex_value(d) == Some(base16_of_decimal_digits(d)),
        all_digits(d) ==> hex_result(seq![48u8, 120u8] + d) == (base16_of_decimal_digits(d)
            % 0x1_0000_0000_0000_0000) as u64,
    decreases d.len(),
{
    if all_digits(d) && d.len() > 0 {
        let p = d.drop_last();
        assert(all_digits(p)) by {
            assert forall|i: int| 0 <= i < p.len() implies #[trigger] is_digit_byte(p[i]) by {
                assert(p[i] == d[i]);
            }
        }
        assert(is_digit_byte(d[d.len() - 1]));
        law_decimal_digits_are_hex(d.last(), p);
    }
    if all_digits(d) {
        let s = seq![48u8, 120u8] + d;
        assert(s[0] == 48u8 && s[1] == 120u8);
        assert(s.skip(2) =~= d);
    }
}

} // verus!

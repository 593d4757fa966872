//! Hexadecimal numbers as the box writes them: parsing (`u*::from_str_radix(s.trim(), 16)`
//! semantics) and zero-padded lower-case formatting.
use std::time::{Duration, SystemTime, UNIX_EPOCH};
use vstd::prelude::*;

use crate::error::{parsed_as, protocol_error, protocol_error_quoted, Error};
use crate::text::{chars_of, is_white_space, push_char, trim, trim_range};

verus! {

/// The value of a hexadecimal digit (`0-9`, `a-f`, `A-F`), or -1 for any other character.
pub open spec fn hex_digit_value(c: char) -> int {
    let u = c as u32;
    if 48 <= u <= 57 {
        u - 48
    } else if 97 <= u <= 102 {
        u - 87
    } else if 65 <= u <= 70 {
        u - 55
    } else {
        -1
    }
}

pub open spec fn is_hex_digit(c: char) -> bool {
    hex_digit_value(c) >= 0
}

pub open spec fn all_hex(s: Seq<char>) -> bool {
    forall|i: int| 0 <= i < s.len() ==> is_hex_digit(#[trigger] s[i])
}

/// The number that the hexadecimal digits `s` denote (most significant first).
pub open spec fn hex_value(s: Seq<char>) -> nat
    decreases s.len(),
{
    if s.len() == 0 {
        0
    } else {
        hex_value(s.drop_last()) * 16 + hex_digit_value(s.last()) as nat
    }
}

/// A non-empty run of hexadecimal digits whose value is at most `max`.
pub open spec fn hex_digits(s: Seq<char>, max: nat) -> Option<nat> {
    if s.len() > 0 && all_hex(s) && hex_value(s) <= max {
        Some(hex_value(s))
    } else {
        None
    }
}

/// The digits of an unsigned number: one leading `+` is allowed.
pub open spec fn unsigned_digits(t: Seq<char>) -> Seq<char> {
    if t.len() > 0 && t[0] == '+' {
        t.drop_first()
    } else {
        t
    }
}

/// An unsigned hexadecimal number at most `max`, surrounded by optional white space.
pub open spec fn parse_unsigned_hex(s: Seq<char>, max: nat) -> Option<nat> {
    hex_digits(unsigned_digits(trim(s)), max)
}

pub open spec fn hex_u8(s: Seq<char>) -> Option<u8> {
    match parse_unsigned_hex(s, 0xff) {
        Some(v) => Some(v as u8),
        None => None,
    }
}

pub open spec fn hex_u16(s: Seq<char>) -> Option<u16> {
    match parse_unsigned_hex(s, 0xffff) {
        Some(v) => Some(v as u16),
        None => None,
    }
}

pub open spec fn hex_u32(s: Seq<char>) -> Option<u32> {
    match parse_unsigned_hex(s, 0xffff_ffff) {
        Some(v) => Some(v as u32),
        None => None,
    }
}

pub open spec fn hex_u64(s: Seq<char>) -> Option<u64> {
    match parse_unsigned_hex(s, 0xffff_ffff_ffff_ffff) {
        Some(v) => Some(v as u64),
        None => None,
    }
}

/// A hexadecimal `i16` as `i16::from_str_radix` reads it: an optional sign, then digits.
pub open spec fn parse_i16_hex(d: Seq<char>) -> Option<int> {
    if d.len() > 0 && d[0] == '-' {
        match hex_digits(d.drop_first(), 0x8000) {
            Some(v) => Some(-v),
            None => None,
        }
    } else if d.len() > 0 && d[0] == '+' {
        match hex_digits(d.drop_first(), 0x7fff) {
            Some(v) => Some(v as int),
            None => None,
        }
    } else {
        match hex_digits(d, 0x7fff) {
            Some(v) => Some(v as int),
            None => None,
        }
    }
}

/// A signed hexadecimal `i8` such as `+1a` or `-05`: white space is trimmed, one sign is
/// taken off, the rest is read as an `i16` and the signed product must fit in an `i8`.
pub open spec fn signed_hex_value(s: Seq<char>) -> Option<int> {
    let raw = trim(s);
    let negative = raw.len() > 0 && raw[0] == '-';
    let digits = if raw.len() > 0 && (raw[0] == '+' || raw[0] == '-') {
        raw.drop_first()
    } else {
        raw
    };
    match parse_i16_hex(digits) {
        Some(m) => {
            let v = if negative {
                -m
            } else {
                m
            };
            if -128 <= v <= 127 {
                Some(v)
            } else {
                None
            }
        },
        None => None,
    }
}

pub open spec fn signed_hex_i8(s: Seq<char>) -> Option<i8> {
    match signed_hex_value(s) {
        Some(v) => Some(v as i8),
        None => None,
    }
}

/// The lower-case hexadecimal digit for `d < 16`.
pub open spec fn hex_digit_char(d: nat) -> char {
    if d < 10 {
        (48 + d) as char
    } else {
        (87 + d) as char
    }
}

/// `v` written in decimal without leading zeros, as `{}` formats an unsigned integer.
pub open spec fn decimal(v: nat) -> Seq<char>
    decreases v,
{
    if v < 10 {
        seq![hex_digit_char(v)]
    } else {
        decimal(v / 10).push(hex_digit_char(v % 10))
    }
}

/// The `w` lowest hexadecimal digits of `v`, most significant first.
pub open spec fn hex_fixed(v: nat, w: nat) -> Seq<char>
    decreases w,
{
    if w == 0 {
        Seq::<char>::empty()
    } else {
        hex_fixed(v / 16, (w - 1) as nat).push(hex_digit_char(v % 16))
    }
}

/// How many hexadecimal digits `v` has (`0` has one).
pub open spec fn hex_len(v: nat) -> nat
    decreases v,
{
    if v < 16 {
        1
    } else {
        1 + hex_len(v / 16)
    }
}

/// `v` in lower-case hexadecimal, padded with `0` to at least `width` digits
/// (what `format!("{:0width$x}", v)` writes).
pub open spec fn hex_padded(v: nat, width: nat) -> Seq<char> {
    hex_fixed(
        v,
        if hex_len(v) >= width {
            hex_len(v)
        } else {
            width
        },
    )
}

pub proof fn lemma_hex_digit_char(d: nat)
    requires
        d < 16,
    ensures
        hex_digit_value(hex_digit_char(d)) == d,
        !is_white_space(hex_digit_char(d)),
        hex_digit_char(d) != '+',
        hex_digit_char(d) != '-',
        hex_digit_char(d) != ';',
        hex_digit_char(d) != '=',
{
}

pub proof fn lemma_hex_fixed(v: nat, w: nat)
    requires
        v == 0 || w >= hex_len(v),
    ensures
        hex_fixed(v, w).len() == w,
        all_hex(hex_fixed(v, w)),
        hex_value(hex_fixed(v, w)) == v,
        forall|i: int|
            0 <= i < w ==> {
                let c = #[trigger] hex_fixed(v, w)[i];
                &&& !is_white_space(c)
                &&& c != '+'
                &&& c != '-'
                &&& c != ';'
                &&& c != '='
            },
    decreases w,
{
    if w > 0 {
        let s = hex_fixed(v, w);
        let p = hex_fixed(v / 16, (w - 1) as nat);
        lemma_hex_fixed(v / 16, (w - 1) as nat);
        lemma_hex_digit_char(v % 16);
        assert(s.drop_last() =~= p);
        assert forall|i: int| 0 <= i < w implies is_hex_digit(#[trigger] s[i]) by {
            if i < w - 1 {
                assert(s[i] == p[i]);
            }
        }
        assert forall|i: int| 0 <= i < w implies {
            let c = #[trigger] s[i];
            &&& !is_white_space(c)
            &&& c != '+'
            &&& c != '-'
            &&& c != ';'
            &&& c != '='
        } by {
            if i < w - 1 {
                assert(s[i] == p[i]);
            }
        }
    }
}

pub proof fn lemma_hex_value_prefix(s: Seq<char>, j: int)
    requires
        0 <= j <= s.len(),
    ensures
        hex_value(s.take(j)) <= hex_value(s),
    decreases s.len(),
{
    if j < s.len() {
        lemma_hex_value_prefix(s.drop_last(), j);
        assert(s.drop_last().take(j) =~= s.take(j));
    } else {
        assert(s.take(j) =~= s);
    }
}

/// Formatting `v` with at least one digit and parsing it back gives `v`.
pub proof fn lemma_hex_padded_parses(v: nat, width: nat, max: nat)
    requires
        v <= max,
    ensures
        parse_unsigned_hex(hex_padded(v, width), max) == Some(v),
        hex_padded(v, width).len() >= 1,
        all_hex(hex_padded(v, width)),
        trim(hex_padded(v, width)) == hex_padded(v, width),
        !hex_padded(v, width).contains(';'),
        !hex_padded(v, width).contains('='),
{
    let w = if hex_len(v) >= width {
        hex_len(v)
    } else {
        width
    };
    let s = hex_padded(v, width);
    assert(hex_len(v) >= 1);
    lemma_hex_fixed(v, w);
    crate::text::lemma_trim_no_white_space(s);
    assert(s[0] != '+');
    assert(unsigned_digits(s) == s);
    if s.contains(';') {
        let k = choose|k: int| 0 <= k < s.len() && s[k] == ';';
        assert(s[k] != ';');
    }
    if s.contains('=') {
        let k = choose|k: int| 0 <= k < s.len() && s[k] == '=';
        assert(s[k] != '=');
    }
}

fn hex_digit(c: char) -> (r: Option<u64>)
    ensures
        match r {
            Some(d) => is_hex_digit(c) && d == hex_digit_value(c),
            None => !is_hex_digit(c),
        },
{
    let u = c as u32;
    if 48 <= u && u <= 57 {
        Some((u - 48) as u64)
    } else if 97 <= u && u <= 102 {
        Some((u - 87) as u64)
    } else if 65 <= u && u <= 70 {
        Some((u - 55) as u64)
    } else {
        None
    }
}

/// Why a text is not a number, in the cases that std's `IntErrorKind` tells apart.
#[derive(Clone, Copy)]
pub(crate) enum IntErrorKind {
    Empty,
    InvalidDigit,
    PosOverflow,
    NegOverflow,
}

/// The words that std's `ParseIntError` displays for `kind`.
pub(crate) fn int_error_text(kind: IntErrorKind) -> &'static str {
    match kind {
        IntErrorKind::Empty => "cannot parse integer from empty string",
        IntErrorKind::InvalidDigit => "invalid digit found in string",
        IntErrorKind::PosOverflow => "number too large to fit in target type",
        IntErrorKind::NegOverflow => "number too small to fit in target type",
    }
}

/// Reads `chars[lo..hi]` as a non-empty run of hexadecimal digits of value at most `max`.
/// A refusal names the first digit that is no digit or that takes the value beyond `max`
/// (as `overflow`), or an empty run.
fn hex_digits_range(chars: &Vec<char>, lo: usize, hi: usize, max: u64, overflow: IntErrorKind) -> (r:
    Result<u64, IntErrorKind>)
    requires
        lo <= hi <= chars.len(),
    ensures
        match hex_digits(chars@.subrange(lo as int, hi as int), max as nat) {
            Some(v) => r == Ok::<u64, IntErrorKind>(v as u64),
            None => r is Err,
        },
{
    let ghost s = chars@.subrange(lo as int, hi as int);
    if lo == hi {
        return Err(IntErrorKind::Empty);
    }
    let mut acc: u64 = 0;
    let mut i = lo;
    while i < hi
        invariant
            lo <= i <= hi <= chars.len(),
            s == chars@.subrange(lo as int, hi as int),
            acc <= max,
            all_hex(s.take(i - lo)),
            acc == hex_value(s.take(i - lo)),
        decreases hi - i,
    {
        let ghost t = s.take(i + 1 - lo);
        proof {
            assert(t.drop_last() =~= s.take(i - lo));
            assert(t.last() == chars@[i as int]);
        }
        let d = match hex_digit(chars[i]) {
            Some(d) => d,
            None => {
                proof {
                    assert(!is_hex_digit(s[i - lo]));
                }
                return Err(IntErrorKind::InvalidDigit);
            },
        };
        if d > max || acc > (max - d) / 16 {
            proof {
                assert(acc * 16 + d > max) by (nonlinear_arith)
                    requires
                        d > max || acc > (max - d) / 16,
                        d <= 15,
                ;
                if all_hex(s) {
                    lemma_hex_value_prefix(s, i + 1 - lo);
                }
            }
            return Err(overflow);
        }
        proof {
            assert(acc * 16 + d <= max) by (nonlinear_arith)
                requires
                    d <= max,
                    acc <= (max - d) / 16,
            ;
            assert forall|k: int| 0 <= k < t.len() implies is_hex_digit(#[trigger] t[k]) by {
                if k < t.len() - 1 {
                    assert(t[k] == s.take(i - lo)[k]);
                }
            }
        }
        acc = acc * 16 + d;
        i = i + 1;
    }
    proof {
        assert(s.take(hi - lo) =~= s);
    }
    Ok(acc)
}

/// Reads `s` as an unsigned hexadecimal number of value at most `max`, as
/// `from_str_radix(s.trim(), 16)` does for an unsigned type.
fn parse_unsigned(s: &str, max: u64) -> (r: Result<u64, IntErrorKind>)
    ensures
        match parse_unsigned_hex(s@, max as nat) {
            Some(v) => r == Ok::<u64, IntErrorKind>(v as u64),
            None => r is Err,
        },
{
    let chars = chars_of(s);
    let (a, b) = trim_range(&chars, 0, chars.len());
    proof {
        assert(chars@.subrange(0, chars.len() as int) =~= chars@);
    }
    if a == b {
        return Err(IntErrorKind::Empty);
    }
    let start = if chars[a] == '+' {
        proof {
            assert(chars@.subrange(a as int, b as int).drop_first() =~= chars@.subrange(
                a + 1,
                b as int,
            ));
        }
        if a + 1 == b {
            return Err(IntErrorKind::InvalidDigit);
        }
        a + 1
    } else {
        a
    };
    hex_digits_range(&chars, start, b, max, IntErrorKind::PosOverflow)
}

/// `u8::from_str_radix(s.trim(), 16)`.
pub fn parse_hex_u8(s: &str) -> (r: Result<u8, Error>)
    ensures
        parsed_as(r, hex_u8(s@)),
{
    match parse_unsigned(s, 0xff) {
        Ok(v) => Ok(v as u8),
        Err(kind) => Err(protocol_error_quoted("invalid hex u8", s, int_error_text(kind))),
    }
}

/// `u16::from_str_radix(s.trim(), 16)`.
pub fn parse_hex_u16(s: &str) -> (r: Result<u16, Error>)
    ensures
        parsed_as(r, hex_u16(s@)),
{
    match parse_unsigned(s, 0xffff) {
        Ok(v) => Ok(v as u16),
        Err(kind) => Err(protocol_error_quoted("invalid hex u16", s, int_error_text(kind))),
    }
}

/// `u32::from_str_radix(s.trim(), 16)`.
pub fn parse_hex_u32(s: &str) -> (r: Result<u32, Error>)
    ensures
        parsed_as(r, hex_u32(s@)),
{
    match parse_unsigned(s, 0xffff_ffff) {
        Ok(v) => Ok(v as u32),
        Err(kind) => Err(protocol_error_quoted("invalid hex u32", s, int_error_text(kind))),
    }
}

/// `u64::from_str_radix(s.trim(), 16)`.
pub fn parse_hex_u64(s: &str) -> (r: Result<u64, Error>)
    ensures
        parsed_as(r, hex_u64(s@)),
{
    match parse_unsigned(s, 0xffff_ffff_ffff_ffff) {
        Ok(v) => Ok(v),
        Err(kind) => Err(protocol_error_quoted("invalid hex u64", s, int_error_text(kind))),
    }
}

/// Reads `chars[lo..hi]` as `i16::from_str_radix` does with radix 16.
fn parse_i16_range(chars: &Vec<char>, lo: usize, hi: usize) -> (r: Result<i32, IntErrorKind>)
    requires
        lo <= hi <= chars.len(),
    ensures
        match parse_i16_hex(chars@.subrange(lo as int, hi as int)) {
            Some(v) => r == Ok::<i32, IntErrorKind>(v as i32),
            None => r is Err,
        },
{
    let ghost d = chars@.subrange(lo as int, hi as int);
    if lo == hi {
        return Err(IntErrorKind::Empty);
    }
    if chars[lo] == '-' || chars[lo] == '+' {
        proof {
            assert(d.drop_first() =~= chars@.subrange(lo + 1, hi as int));
        }
        if lo + 1 == hi {
            return Err(IntErrorKind::InvalidDigit);
        }
        if chars[lo] == '-' {
            match hex_digits_range(chars, lo + 1, hi, 0x8000, IntErrorKind::NegOverflow) {
                Ok(v) => Ok(-(v as i32)),
                Err(kind) => Err(kind),
            }
        } else {
            match hex_digits_range(chars, lo + 1, hi, 0x7fff, IntErrorKind::PosOverflow) {
                Ok(v) => Ok(v as i32),
                Err(kind) => Err(kind),
            }
        }
    } else {
        match hex_digits_range(chars, lo, hi, 0x7fff, IntErrorKind::PosOverflow) {
            Ok(v) => Ok(v as i32),
            Err(kind) => Err(kind),
        }
    }
}

/// A signed hexadecimal `i8` such as `+15`, `+1a` or `-05` (FW 2.6 temperatures).
///
/// A magnitude of `-8000` after a `-` sign is out of the `i8` range like any other
/// magnitude beyond it, and is refused with a protocol error.
pub fn parse_signed_hex_i8(s: &str) -> (r: Result<i8, Error>)
    ensures
        parsed_as(r, signed_hex_i8(s@)),
{
    let chars = chars_of(s);
    let (a, b) = trim_range(&chars, 0, chars.len());
    proof {
        assert(chars@.subrange(0, chars.len() as int) =~= chars@);
    }
    let negative = a < b && chars[a] == '-';
    let start = if a < b && (chars[a] == '+' || chars[a] == '-') {
        proof {
            assert(chars@.subrange(a as int, b as int).drop_first() =~= chars@.subrange(
                a + 1,
                b as int,
            ));
        }
        a + 1
    } else {
        a
    };
    match parse_i16_range(&chars, start, b) {
        Ok(m) => {
            let v: i32 = if negative {
                -m
            } else {
                m
            };
            if -128 <= v && v <= 127 {
                Ok(v as i8)
            } else {
                Err(
                    protocol_error_quoted(
                        "signed hex i8 out of range",
                        s,
                        "out of range integral type conversion attempted",
                    ),
                )
            }
        },
        Err(kind) => Err(protocol_error_quoted("invalid signed hex i8", s, int_error_text(kind))),
    }
}

fn hex_digit_char_exec(d: u64) -> (c: char)
    requires
        d < 16,
    ensures
        c == hex_digit_char(d as nat),
{
    if d < 10 {
        ((48 + d) as u8) as char
    } else {
        ((87 + d) as u8) as char
    }
}

fn push_hex_fixed(s: &mut String, v: u64, w: usize)
    ensures
        final(s)@ == old(s)@ + hex_fixed(v as nat, w as nat),
    decreases w,
{
    if w > 0 {
        push_hex_fixed(s, v / 16, w - 1);
        push_char(s, hex_digit_char_exec(v % 16));
    } else {
        assert(old(s)@ + hex_fixed(v as nat, 0) =~= old(s)@);
    }
}

/// Appends `v` in decimal.
pub(crate) fn push_decimal(s: &mut String, v: u64)
    ensures
        final(s)@ == old(s)@ + decimal(v as nat),
    decreases v,
{
    if v >= 10 {
        push_decimal(s, v / 10);
    }
    push_char(s, hex_digit_char_exec(v % 10));
    proof {
        if v >= 10 {
            assert(old(s)@ + decimal(v as nat) =~= old(s)@ + decimal((v / 10) as nat) + seq![
                hex_digit_char((v % 10) as nat),
            ]);
        } else {
            assert(old(s)@ + decimal(v as nat) =~= old(s)@.push(hex_digit_char(v as nat)));
        }
    }
}

proof fn lemma_hex_len_bound(v: nat, k: nat, bound: nat)
    requires
        v < bound,
        bound == pow16(k),
        k >= 1,
    ensures
        hex_len(v) <= k,
    decreases k,
{
    if v >= 16 {
        assert(k >= 2) by {
            if k == 1 {
                assert(pow16(1) == 16 * pow16(0));
            }
        }
        let b = pow16((k - 1) as nat);
        assert(bound == 16 * b);
        assert(v / 16 < b) by (nonlinear_arith)
            requires
                v < 16 * b,
        ;
        lemma_hex_len_bound(v / 16, (k - 1) as nat, b);
    }
}

spec fn pow16(k: nat) -> nat
    decreases k,
{
    if k == 0 {
        1
    } else {
        16 * pow16((k - 1) as nat)
    }
}

fn hex_len_exec(v: u64) -> (n: usize)
    ensures
        n == hex_len(v as nat),
        n <= 16,
    decreases v,
{
    proof {
        reveal_with_fuel(pow16, 17);
        lemma_hex_len_bound(v as nat, 16, pow16(16));
    }
    if v < 16 {
        1
    } else {
        1 + hex_len_exec(v / 16)
    }
}

/// Appends `v` in lower-case hexadecimal, padded with `0` to at least `width` digits.
pub fn push_hex(s: &mut String, v: u64, width: usize)
    ensures
        final(s)@ == old(s)@ + hex_padded(v as nat, width as nat),
{
    let n = hex_len_exec(v);
    let w = if n >= width {
        n
    } else {
        width
    };
    push_hex_fixed(s, v, w);
}

/// Two lower-case hexadecimal digits (`format!("{value:02x}")`).
pub fn hex2(value: u8) -> (r: String)
    ensures
        r@ == hex_padded(value as nat, 2),
{
    let mut s = String::new();
    push_hex(&mut s, value as u64, 2);
    assert(Seq::<char>::empty() + hex_padded(value as nat, 2) =~= hex_padded(value as nat, 2));
    s
}

/// Eight lower-case hexadecimal digits (`format!("{value:08x}")`).
pub fn hex8(value: u32) -> (r: String)
    ensures
        r@ == hex_padded(value as nat, 8),
{
    let mut s = String::new();
    push_hex(&mut s, value as u64, 8);
    assert(Seq::<char>::empty() + hex_padded(value as nat, 8) =~= hex_padded(value as nat, 8));
    s
}

/// What `hex2` writes, `parse_hex_u8` reads back.
pub proof fn lemma_hex2_roundtrip(value: u8)
    ensures
        hex_u8(hex_padded(value as nat, 2)) == Some(value),
{
    lemma_hex_padded_parses(value as nat, 2, 0xff);
}

/// What `hex8` writes, `parse_hex_u32` reads back.
pub proof fn lemma_hex8_roundtrip(value: u32)
    ensures
        hex_u32(hex_padded(value as nat, 8)) == Some(value),
{
    lemma_hex_padded_parses(value as nat, 8, 0xffff_ffff);
}

#[verifier::external_type_specification]
#[verifier::external_body]
pub struct ExSystemTime(SystemTime);

/// `SystemTime::now()`: the current wall-clock time; nothing is claimed of it.
#[verifier::external_body]
fn system_time_now() -> SystemTime {
    SystemTime::now()
}

/// `SystemTime::duration_since(UNIX_EPOCH)`, named: the time from the UNIX epoch to `t`,
/// `None` for a time before the epoch.
pub uninterp spec fn duration_since_unix_epoch(t: SystemTime) -> Option<Duration>;

/// The time from the UNIX epoch to `t`; the contract claims only that the result is what
/// the name denotes for `t`.
#[verifier::external_body]
fn unix_duration_of(t: &SystemTime) -> (r: Option<Duration>)
    ensures
        r == duration_since_unix_epoch(*t),
{
    t.duration_since(UNIX_EPOCH).ok()
}

/// `Duration::as_secs`, named: the whole seconds of `d`.
pub uninterp spec fn duration_whole_secs(d: Duration) -> u64;

/// The whole seconds of `d`; the contract claims only that the result is what the name
/// denotes for `d`.
#[verifier::external_body]
fn whole_secs(d: &Duration) -> (r: u64)
    ensures
        r == duration_whole_secs(*d),
{
    d.as_secs()
}

/// The UNIX time as a `u32` that `secs` whole seconds since the epoch give: none before
/// the epoch (`None`) or beyond `u32::MAX`.
pub open spec fn unix_time_value(secs: Option<u64>) -> Option<u32> {
    match secs {
        Some(s) => if s <= u32::MAX {
            Some(s as u32)
        } else {
            None
        },
        None => None,
    }
}

/// The whole seconds from the UNIX epoch to the time `t`, `None` before the epoch.
pub open spec fn unix_secs_at(t: SystemTime) -> Option<u64> {
    match duration_since_unix_epoch(t) {
        Some(d) => Some(duration_whole_secs(d)),
        None => None,
    }
}

/// The UNIX time as a `u32`, from the whole seconds since the epoch (`None` when the clock
/// is before the epoch): a protocol error before the epoch or beyond `u32::MAX`.
pub fn unix_time_from_secs(secs: Option<u64>) -> (r: Result<u32, Error>)
    ensures
        parsed_as(r, unix_time_value(secs)),
{
    match secs {
        Some(s) => if s <= u32::MAX as u64 {
            Ok(s as u32)
        } else {
            Err(
                protocol_error(
                    "unix time does not fit u32: out of range integral type conversion attempted",
                ),
            )
        },
        None => Err(
            protocol_error("system time before UNIX_EPOCH: second time provided was later than self"),
        ),
    }
}

/// The current UNIX time in seconds, as a `u32`: the UNIX time at the time that the clock
/// gives, or a protocol error when that time is before the epoch or beyond `u32::MAX`.
pub fn unix_time_now() -> (r: Result<u32, Error>)
    ensures
        exists|t: SystemTime| parsed_as(r, unix_time_value(#[trigger] unix_secs_at(t))),
{
    let now = system_time_now();
    let secs = match unix_duration_of(&now) {
        Some(d) => Some(whole_secs(&d)),
        None => None,
    };
    let r = unix_time_from_secs(secs);
    assert(parsed_as(r, unix_time_value(unix_secs_at(now))));
    r
}

} // verus!

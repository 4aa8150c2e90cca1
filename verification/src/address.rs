//! Parsing of the user-supplied `"<ipv4-address>[:<port>]"` string.
//!
//! The accepted grammar: four decimal octets separated by dots, each one to
//! three digits with no leading zero and a value up to 255; optionally a
//! colon and a port — an optional plus sign followed by decimal digits with
//! a value up to 65535. A missing port means `DEFAULT_PORT`. The first
//! colon splits address from port, a further colon anywhere after a valid
//! port makes the whole string invalid.
//!
//! Error precedence follows the splitting order: a bad address part yields
//! `InvalidAddress` before the port is even looked at; a bad port part
//! yields `InvalidPort` even when junk follows it; a valid port followed by
//! more text yields `InvalidAddress`. Splitting always yields an address
//! part — an empty string surfaces as `InvalidAddress`, never as
//! `MissingAddress`, which is reserved for callers that have no string at
//! all to hand in.

use vstd::prelude::*;
use vstd::string::StringSliceAdditionalSpecFns;

use crate::errors::NetworkError;
use crate::session::DEFAULT_PORT;

verus! {

/// Byte value of the ASCII digit zero.
pub const ASCII_ZERO: u8 = 0x30;

/// Byte value of the ASCII digit nine.
pub const ASCII_NINE: u8 = 0x39;

/// Byte value of the ASCII dot.
pub const ASCII_DOT: u8 = 0x2E;

/// Byte value of the ASCII colon.
pub const ASCII_COLON: u8 = 0x3A;

/// Byte value of the ASCII plus sign.
pub const ASCII_PLUS: u8 = 0x2B;

/// A parsed IPv4 address, one field per octet.
#[derive(Clone, Copy, Debug, PartialEq, Eq, Structural)]
pub struct Ipv4Address {
    pub a: u8,
    pub b: u8,
    pub c: u8,
    pub d: u8,
}

/// Whether `b` is an ASCII decimal digit.
pub open spec fn is_ascii_digit(b: u8) -> bool {
    ASCII_ZERO <= b <= ASCII_NINE
}

/// Index just past the run of digits starting at `i`: the first index at
/// or after `i` holding no digit, or the end of the string.
pub open spec fn digits_end(s: Seq<u8>, i: int) -> int
    recommends
        0 <= i <= s.len(),
    decreases s.len() - i,
{
    if i < 0 || i >= s.len() || !is_ascii_digit(s[i]) {
        i
    } else {
        digits_end(s, i + 1)
    }
}

/// Value of the decimal digit run `s[i..j)`.
pub open spec fn digits_value(s: Seq<u8>, i: int, j: int) -> int
    recommends
        0 <= i <= j <= s.len(),
    decreases j - i,
{
    if j <= i {
        0
    } else {
        digits_value(s, i, j - 1) * 10 + (s[j - 1] - ASCII_ZERO)
    }
}

/// First index at or after `i` holding the byte `b`, or the length.
pub open spec fn find_byte(s: Seq<u8>, b: u8, i: int) -> int
    recommends
        0 <= i <= s.len(),
    decreases s.len() - i,
{
    if i < 0 || i >= s.len() {
        s.len() as int
    } else if s[i] == b {
        i
    } else {
        find_byte(s, b, i + 1)
    }
}

/// Whether a well-formed octet stands at `i`: one to three digits, no
/// leading zero unless the octet is exactly `0`, value at most 255.
pub open spec fn octet_ok(s: Seq<u8>, i: int) -> bool {
    let j = digits_end(s, i);
    &&& i < j <= i + 3
    &&& digits_value(s, i, j) <= 255
    &&& (s[i] == ASCII_ZERO ==> j == i + 1)
}

/// The IPv4 address denoted by the whole of `s`, if any: four well-formed
/// octets joined by dots, nothing before, between, or after.
pub open spec fn spec_parse_ipv4(s: Seq<u8>) -> Option<Ipv4Address> {
    let j0 = digits_end(s, 0);
    let i1 = j0 + 1;
    let j1 = digits_end(s, i1);
    let i2 = j1 + 1;
    let j2 = digits_end(s, i2);
    let i3 = j2 + 1;
    let j3 = digits_end(s, i3);
    if !(octet_ok(s, 0) && j0 < s.len() && s[j0] == ASCII_DOT) {
        Option::None
    } else if !(octet_ok(s, i1) && j1 < s.len() && s[j1] == ASCII_DOT) {
        Option::None
    } else if !(octet_ok(s, i2) && j2 < s.len() && s[j2] == ASCII_DOT) {
        Option::None
    } else if !(octet_ok(s, i3) && j3 == s.len()) {
        Option::None
    } else {
        Option::Some(
            Ipv4Address {
                a: digits_value(s, 0, j0) as u8,
                b: digits_value(s, i1, j1) as u8,
                c: digits_value(s, i2, j2) as u8,
                d: digits_value(s, i3, j3) as u8,
            },
        )
    }
}

/// The port denoted by the whole of `s`, if any: an optional leading plus
/// sign, then one or more digits whose value fits a 16-bit port number.
pub open spec fn spec_parse_port(s: Seq<u8>) -> Option<u16> {
    let start: int = if s.len() > 0 && s[0] == ASCII_PLUS {
        1
    } else {
        0
    };
    if s.len() > start && digits_end(s, start) == s.len() && digits_value(s, start, s.len() as int)
        <= 65535 {
        Option::Some(digits_value(s, start, s.len() as int) as u16)
    } else {
        Option::None
    }
}

/// What the connect operation accepts: the part before the first colon
/// must be an IPv4 address, else `InvalidAddress`; with no colon the port
/// defaults; otherwise the part between the first and second colon (or the
/// end) must be a port, else `InvalidPort`; text after a valid port makes
/// the string `InvalidAddress` again.
pub open spec fn spec_parse_address_and_port(s: Seq<u8>) -> Result<
    (Ipv4Address, u16),
    NetworkError,
> {
    let p = find_byte(s, ASCII_COLON, 0);
    match spec_parse_ipv4(s.subrange(0, p)) {
        Option::None => Result::Err(NetworkError::InvalidAddress),
        Option::Some(ip) => {
            if p == s.len() {
                Result::Ok((ip, DEFAULT_PORT))
            } else {
                let q = find_byte(s, ASCII_COLON, p + 1);
                match spec_parse_port(s.subrange(p + 1, q)) {
                    Option::None => Result::Err(NetworkError::InvalidPort),
                    Option::Some(port) => {
                        if q == s.len() {
                            Result::Ok((ip, port))
                        } else {
                            Result::Err(NetworkError::InvalidAddress)
                        }
                    },
                }
            }
        },
    }
}

/// A digit run's value is never negative.
proof fn lemma_digits_value_nonneg(s: Seq<u8>, i: int, j: int)
    requires
        0 <= i <= j <= s.len(),
        forall|k: int| i <= k < j ==> is_ascii_digit(#[trigger] s[k]),
    ensures
        digits_value(s, i, j) >= 0,
    decreases j - i,
{
    if j > i {
        lemma_digits_value_nonneg(s, i, j - 1);
    }
}

/// Characterizes `digits_end`: a scan that saw digits on `[i, j)` and a
/// non-digit (or the end) at `j` has found exactly `digits_end(s, i)`.
proof fn lemma_digits_end_char(s: Seq<u8>, i: int, j: int)
    requires
        0 <= i <= j <= s.len(),
        forall|k: int| i <= k < j ==> is_ascii_digit(#[trigger] s[k]),
        j == s.len() || !is_ascii_digit(s[j]),
    ensures
        digits_end(s, i) == j,
    decreases j - i,
{
    if i < j {
        lemma_digits_end_char(s, i + 1, j);
    }
}

/// Characterizes `find_byte` the same way.
proof fn lemma_find_byte_char(s: Seq<u8>, b: u8, i: int, j: int)
    requires
        0 <= i <= j <= s.len(),
        forall|k: int| i <= k < j ==> #[trigger] s[k] != b,
        j == s.len() || s[j] == b,
    ensures
        find_byte(s, b, i) == j,
    decreases j - i,
{
    if i < j {
        lemma_find_byte_char(s, b, i + 1, j);
    }
}

/// Scans the digit run starting at `lo`.
fn scan_digits(s: &[u8], lo: usize) -> (r: usize)
    requires
        lo <= s@.len(),
    ensures
        r == digits_end(s@, lo as int),
        lo <= r <= s@.len(),
{
    let n = s.len();
    let mut i = lo;
    while i < n
        invariant
            lo <= i <= n,
            n == s@.len(),
            forall|k: int| lo <= k < i ==> is_ascii_digit(#[trigger] s@[k]),
        decreases n - i,
    {
        let byte = s[i];
        if !(ASCII_ZERO <= byte && byte <= ASCII_NINE) {
            proof {
                lemma_digits_end_char(s@, lo as int, i as int);
            }
            return i;
        }
        i = i + 1;
    }
    proof {
        lemma_digits_end_char(s@, lo as int, n as int);
    }
    n
}

/// Finds the first occurrence of `b` at or after `lo`.
fn find_byte_from(s: &[u8], b: u8, lo: usize) -> (r: usize)
    requires
        lo <= s@.len(),
    ensures
        r == find_byte(s@, b, lo as int),
        lo <= r <= s@.len(),
{
    let n = s.len();
    let mut i = lo;
    while i < n
        invariant
            lo <= i <= n,
            n == s@.len(),
            forall|k: int| lo <= k < i ==> #[trigger] s@[k] != b,
        decreases n - i,
    {
        if s[i] == b {
            proof {
                lemma_find_byte_char(s@, b, lo as int, i as int);
            }
            return i;
        }
        i = i + 1;
    }
    proof {
        lemma_find_byte_char(s@, b, lo as int, n as int);
    }
    n
}

/// Parses the octet starting at `lo`: its value and the index just past
/// its digits.
fn parse_octet(s: &[u8], lo: usize) -> (r: Option<(u8, usize)>)
    requires
        lo <= s@.len(),
    ensures
        match r {
            Option::Some(v) => octet_ok(s@, lo as int) && v.1 == digits_end(s@, lo as int) && v.0
                == digits_value(s@, lo as int, v.1 as int),
            Option::None => !octet_ok(s@, lo as int),
        },
{
    let end = scan_digits(s, lo);
    if end == lo || end - lo > 3 {
        return None;
    }
    if s[lo] == ASCII_ZERO && end != lo + 1 {
        return None;
    }
    proof {
        lemma_digits_end_props(s@, lo as int);
    }
    let mut value: u32 = 0;
    let mut k = lo;
    while k < end
        invariant
            lo <= k <= end,
            end <= s@.len(),
            end - lo <= 3,
            end == digits_end(s@, lo as int),
            forall|j: int| lo <= j < end ==> is_ascii_digit(#[trigger] s@[j]),
            value == digits_value(s@, lo as int, k as int),
        decreases end - k,
    {
        proof {
            lemma_small_digits_value(s@, lo as int, k as int);
        }
        let digit = s[k];
        value = value * 10 + (digit - ASCII_ZERO) as u32;
        k = k + 1;
    }
    if value > 255 {
        return None;
    }
    Some((value as u8, end))
}

/// A run of at most three digits has a value of at most 999.
proof fn lemma_small_digits_value(s: Seq<u8>, i: int, j: int)
    requires
        0 <= i <= j <= s.len(),
        j - i <= 3,
        forall|k: int| i <= k < j ==> is_ascii_digit(#[trigger] s[k]),
    ensures
        0 <= digits_value(s, i, j),
        j - i <= 1 ==> digits_value(s, i, j) <= 9,
        j - i <= 2 ==> digits_value(s, i, j) <= 99,
        digits_value(s, i, j) <= 999,
    decreases j - i,
{
    if j > i {
        lemma_small_digits_value(s, i, j - 1);
    }
}

/// Bounds and digit-ness of a scan: the run `[i, digits_end(s, i))` holds
/// digits only.
proof fn lemma_digits_end_props(s: Seq<u8>, i: int)
    requires
        0 <= i <= s.len(),
    ensures
        i <= digits_end(s, i) <= s.len(),
        forall|k: int| i <= k < digits_end(s, i) ==> is_ascii_digit(#[trigger] s[k]),
    decreases s.len() - i,
{
    if i < s.len() && is_ascii_digit(s[i]) {
        lemma_digits_end_props(s, i + 1);
    }
}

/// Parses the whole of `s` as an IPv4 address.
fn parse_ipv4_slice(s: &[u8]) -> (r: Option<Ipv4Address>)
    ensures
        r == spec_parse_ipv4(s@),
{
    let n = s.len();
    let (a, j0) = match parse_octet(s, 0) {
        Option::None => {
            return None;
        },
        Option::Some(v) => v,
    };
    if !(j0 < n && s[j0] == ASCII_DOT) {
        return None;
    }
    let (b, j1) = match parse_octet(s, j0 + 1) {
        Option::None => {
            return None;
        },
        Option::Some(v) => v,
    };
    if !(j1 < n && s[j1] == ASCII_DOT) {
        return None;
    }
    let (c, j2) = match parse_octet(s, j1 + 1) {
        Option::None => {
            return None;
        },
        Option::Some(v) => v,
    };
    if !(j2 < n && s[j2] == ASCII_DOT) {
        return None;
    }
    let (d, j3) = match parse_octet(s, j2 + 1) {
        Option::None => {
            return None;
        },
        Option::Some(v) => v,
    };
    if j3 != n {
        return None;
    }
    Some(Ipv4Address { a, b, c, d })
}

/// Parses the whole of `s` as a port number.
fn parse_port_slice(s: &[u8]) -> (r: Option<u16>)
    ensures
        r == spec_parse_port(s@),
{
    let n = s.len();
    let start: usize = if n > 0 && s[0] == ASCII_PLUS {
        1
    } else {
        0
    };
    if n == start {
        return None;
    }
    let mut value: u32 = 0;
    let mut k = start;
    while k < n
        invariant
            start <= k <= n,
            n == s@.len(),
            start as int == (if s@.len() > 0 && s@[0] == ASCII_PLUS {
                1int
            } else {
                0int
            }),
            forall|j: int| start <= j < k ==> is_ascii_digit(#[trigger] s@[j]),
            digits_value(s@, start as int, k as int) <= 65535 ==> value == digits_value(
                s@,
                start as int,
                k as int,
            ),
            digits_value(s@, start as int, k as int) > 65535 ==> value > 65535,
            value <= 655359,
        decreases n - k,
    {
        let byte = s[k];
        if !(ASCII_ZERO <= byte && byte <= ASCII_NINE) {
            proof {
                lemma_digits_end_char(s@, start as int, k as int);
            }
            return None;
        }
        proof {
            lemma_digits_value_nonneg(s@, start as int, k as int);
        }
        if value <= 65535 {
            value = value * 10 + (byte - ASCII_ZERO) as u32;
        }
        k = k + 1;
    }
    proof {
        lemma_digits_end_char(s@, start as int, n as int);
        lemma_digits_value_nonneg(s@, start as int, n as int);
    }
    if value > 65535 {
        return None;
    }
    Some(value as u16)
}

/// Parses `"<ipv4-address>[:<port>]"` from raw bytes.
pub fn parse_address_bytes(s: &[u8]) -> (r: Result<(Ipv4Address, u16), NetworkError>)
    ensures
        r == spec_parse_address_and_port(s@),
{
    let n = s.len();
    let p = find_byte_from(s, ASCII_COLON, 0);
    let ip = match parse_ipv4_slice(&s[0..p]) {
        Option::None => {
            return Err(NetworkError::InvalidAddress);
        },
        Option::Some(ip) => ip,
    };
    if p == n {
        return Ok((ip, DEFAULT_PORT));
    }
    let q = find_byte_from(s, ASCII_COLON, p + 1);
    let port = match parse_port_slice(&s[p + 1..q]) {
        Option::None => {
            return Err(NetworkError::InvalidPort);
        },
        Option::Some(port) => port,
    };
    if q == n {
        Ok((ip, port))
    } else {
        Err(NetworkError::InvalidAddress)
    }
}

/// Parses the user-supplied connect string: an IPv4 address, optionally
/// followed by a colon and a port; a missing port defaults.
pub fn parse_address_and_port(value: &str) -> (r: Result<(Ipv4Address, u16), NetworkError>)
    ensures
        r == spec_parse_address_and_port(value.spec_bytes()),
{
    parse_address_bytes(value.as_bytes())
}

} // verus!

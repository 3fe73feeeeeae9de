use vstd::prelude::*;

use crate::bytes::zeros;
use crate::errors::RollupError;
use vstd::slice::slice_subrange;
use vstd::string::StrSliceExecFns;
use vstd::string::StringExecFns;

verus! {

broadcast use vstd::string::is_ascii_spec_bytes;

/// An ASCII byte that is a hexadecimal digit, in either case.
pub open spec fn is_hex_digit_byte(b: u8) -> bool {
    (0x30 <= b && b <= 0x39) || (0x61 <= b && b <= 0x66) || (0x41 <= b && b <= 0x46)
}

/// The value 0..16 of a hexadecimal digit byte.
pub open spec fn hex_byte_val(b: u8) -> u8 {
    if 0x30 <= b && b <= 0x39 {
        (b - 0x30) as u8
    } else if 0x61 <= b && b <= 0x66 {
        (b - 0x61 + 10) as u8
    } else {
        (b - 0x41 + 10) as u8
    }
}

/// The bytes denoted by an even-length string of hexadecimal digit bytes.
pub open spec fn hex_decoded_bytes(s: Seq<u8>) -> Seq<u8> {
    Seq::new(s.len() / 2, |i: int| (16 * hex_byte_val(s[2 * i]) + hex_byte_val(s[2 * i + 1])) as u8)
}

/// A character that is a hexadecimal digit, in either case.
pub open spec fn is_hex_digit(c: char) -> bool {
    '\0' <= c <= '\u{7f}' && is_hex_digit_byte(c as u8)
}

/// The value 0..16 of a hexadecimal digit character.
pub open spec fn hex_char_val(c: char) -> u8 {
    hex_byte_val(c as u8)
}

/// The lowercase hexadecimal digit character for a value 0..16.
pub open spec fn hex_digit_char(v: u8) -> char {
    if v < 10 {
        ((0x30 + v) as u8) as char
    } else {
        ((0x57 + v) as u8) as char
    }
}

/// The lowercase hexadecimal digits of a byte string, two per byte.
pub open spec fn hex_chars_of(bs: Seq<u8>) -> Seq<char> {
    Seq::new(
        2 * bs.len(),
        |i: int|
            if i % 2 == 0 {
                hex_digit_char((bs[i / 2] / 16) as u8)
            } else {
                hex_digit_char((bs[i / 2] % 16) as u8)
            },
    )
}

/// The lowercase hexadecimal digits of a byte string, with a `0x` prefix.
pub open spec fn hex_with_prefix(bs: Seq<u8>) -> Seq<char> {
    seq!['0', 'x'] + hex_chars_of(bs)
}

/// The bytes denoted by an even-length string of hexadecimal digit characters.
pub open spec fn hex_decoded_chars(s: Seq<char>) -> Seq<u8> {
    Seq::new(s.len() / 2, |i: int| (16 * hex_char_val(s[2 * i]) + hex_char_val(s[2 * i + 1])) as u8)
}

/// A string with its optional leading `0x` removed.
pub open spec fn strip_hex_prefix(s: Seq<char>) -> Seq<char> {
    if s.len() >= 2 && s[0] == '0' && s[1] == 'x' {
        s.skip(2)
    } else {
        s
    }
}

/// An odd-length string left-padded with one `0` digit.
pub open spec fn pad_hex(s: Seq<char>) -> Seq<char> {
    if s.len() % 2 == 1 {
        seq!['0'] + s
    } else {
        s
    }
}

/// Every character of `s` is a hexadecimal digit.
pub open spec fn hex_body_ok(s: Seq<char>) -> bool {
    forall|i: int| 0 <= i < s.len() ==> is_hex_digit(#[trigger] s[i])
}

/// The byte string a well-formed hexadecimal string denotes: the optional
/// `0x` prefix is stripped and an odd-length body is left-padded with `0`.
pub open spec fn hex_str_bytes(s: Seq<char>) -> Seq<u8> {
    hex_decoded_chars(pad_hex(strip_hex_prefix(s)))
}

/// Relies on hex::encode: each input byte becomes two lowercase
/// hexadecimal digits, in order.
#[verifier::external_body]
pub(crate) fn hex_encode_bytes(data: &[u8]) -> (r: String)
    ensures
        r@ == hex_chars_of(data@),
{
    hex::encode(data)
}

/// Relies on hex::decode: it succeeds exactly on even-length strings of
/// hexadecimal digit bytes (either case), pairing the digits into bytes
/// in order.
#[verifier::external_body]
pub(crate) fn hex_decode_bytes(data: &[u8]) -> (r: Option<Vec<u8>>)
    ensures
        match r {
            Some(v) => data@.len() % 2 == 0 && (forall|i: int|
                0 <= i < data@.len() ==> is_hex_digit_byte(#[trigger] data@[i])) && v@
                == hex_decoded_bytes(data@),
            None => data@.len() % 2 != 0 || exists|i: int|
                0 <= i < data@.len() && !is_hex_digit_byte(#[trigger] data@[i]),
        },
{
    match hex::decode(data) {
        Ok(v) => Some(v),
        Err(_) => None,
    }
}

/// A vector of `n` zero bytes.
pub fn zero_vec(n: usize) -> (r: Vec<u8>)
    ensures
        r@ == zeros(n as nat),
{
    let mut r: Vec<u8> = Vec::new();
    let mut i: usize = 0;
    while i < n
        invariant
            0 <= i <= n,
            r@.len() == i,
            forall|j: int| 0 <= j < i ==> r@[j] == 0u8,
        decreases n - i,
    {
        r.push(0u8);
        i = i + 1;
    }
    proof {
        assert(r@ =~= zeros(n as nat));
    }
    r
}

/// A 20-byte base-layer account or contract address.
#[derive(Debug, PartialEq, Eq)]
pub struct Address {
    /// The address bytes, big-endian, exactly 20 of them when well formed.
    pub data: Vec<u8>,
}

impl Address {
    /// The address is exactly 20 bytes.
    pub open spec fn wf(&self) -> bool {
        self.data@.len() == 20
    }
}

/// A 256-bit unsigned integer held as 32 big-endian bytes.
#[derive(Debug, PartialEq, Eq)]
pub struct U256 {
    /// The value bytes, big-endian, exactly 32 of them when well formed.
    pub data: Vec<u8>,
}

impl U256 {
    /// The value is exactly 32 bytes.
    pub open spec fn wf(&self) -> bool {
        self.data@.len() == 32
    }

    /// The zero value.
    pub fn zero() -> (r: U256)
        ensures
            r.wf(),
            r.data@ == zeros(32),
    {
        U256 { data: zero_vec(32) }
    }

    /// Build a value from at most 32 big-endian bytes, left-padding with zeros.
    pub fn from_be_slice(b: &[u8]) -> (r: U256)
        requires
            b@.len() <= 32,
        ensures
            r.wf(),
            r.data@ == zeros((32 - b@.len()) as nat) + b@,
    {
        let mut data = zero_vec(32 - b.len());
        data.extend_from_slice(b);
        U256 { data }
    }

    /// The `0x`-prefixed lowercase hexadecimal text of the value.
    pub fn to_hex_string(&self) -> (r: String)
        ensures
            r@ == hex_with_prefix(self.data@),
    {
        to_hex(self.data.as_slice())
    }
}

/// The `0x`-prefixed lowercase hexadecimal text of a byte string.
pub fn to_hex(bytes: &[u8]) -> (r: String)
    ensures
        r@ == hex_with_prefix(bytes@),
{
    let mut s = String::from_str("0x");
    let body = hex_encode_bytes(bytes);
    s.append(body.as_str());
    proof {
        reveal_strlit("0x");
        assert(s@ =~= hex_with_prefix(bytes@));
    }
    s
}

/// Decode a hexadecimal string: an optional `0x` prefix is stripped, an
/// odd-length body is left-padded with one `0` digit, and the empty body
/// decodes to no bytes.
pub fn parse_hex_bytes(s: &str) -> (r: Result<Vec<u8>, RollupError>)
    ensures
        match r {
            Ok(v) => hex_body_ok(strip_hex_prefix(s@)) && v@ == hex_str_bytes(s@),
            Err(e) => e == RollupError::InvalidHexInput && !hex_body_ok(strip_hex_prefix(s@)),
        },
{
    let ghost cs = s@;
    let ghost strip = strip_hex_prefix(cs);
    if !s.is_ascii() {
        proof {
            assert(!vstd::utf8::is_ascii_chars(cs));
            let i = choose|i: int| 0 <= i < cs.len() && !('\0' <= #[trigger] cs[i] <= '\u{7f}');
            assert(!is_hex_digit(cs[i]));
            if cs.len() >= 2 && cs[0] == '0' && cs[1] == 'x' {
                assert(i >= 2);
                assert(strip[i - 2] == cs[i]);
                assert(!hex_body_ok(strip));
            } else {
                assert(strip == cs);
                assert(!hex_body_ok(strip));
            }
        }
        return Err(RollupError::InvalidHexInput);
    }
    let b: &[u8] = s.as_bytes();
    proof {
        assert(b@.len() == cs.len());
        assert(forall|i: int| 0 <= i < cs.len() ==> b@[i] == #[trigger] cs[i] as u8);
    }
    let blen = b.len();
    let has_prefix = blen >= 2 && b[0] == 0x30 && b[1] == 0x78;
    proof {
        if blen >= 2 {
            assert(cs[0] as u8 == b@[0] && cs[1] as u8 == b@[1]);
            assert((b@[0] == 0x30 && b@[1] == 0x78) == (cs[0] == '0' && cs[1] == 'x'));
        }
    }
    let core_slice: &[u8] = if has_prefix {
        slice_subrange(b, 2, blen)
    } else {
        b
    };
    proof {
        assert(core_slice@.len() == strip.len());
        assert(forall|i: int| 0 <= i < strip.len() ==> core_slice@[i] == #[trigger] strip[i] as u8);
    }
    let mut padded: Vec<u8> = Vec::new();
    if core_slice.len() % 2 == 1 {
        padded.push(0x30);
    }
    padded.extend_from_slice(core_slice);
    let ghost pstrip = pad_hex(strip);
    proof {
        assert(padded@.len() == pstrip.len());
        assert forall|i: int| 0 <= i < pstrip.len() implies padded@[i] == #[trigger] pstrip[i] as u8 by {
            if strip.len() % 2 == 1 {
                if i == 0 {
                    assert(pstrip[0] == '0');
                } else {
                    assert(pstrip[i] == strip[i - 1]);
                }
            } else {
                assert(pstrip[i] == strip[i]);
            }
        }
    }
    match hex_decode_bytes(padded.as_slice()) {
        Some(v) => {
            proof {
                assert forall|i: int| 0 <= i < strip.len() implies is_hex_digit(
                    #[trigger] strip[i],
                ) by {
                    let off: int = if strip.len() % 2 == 1 {
                        1
                    } else {
                        0
                    };
                    assert(padded@[i + off] == strip[i] as u8);
                    assert(is_hex_digit_byte(strip[i] as u8));
                    if cs.len() >= 2 && cs[0] == '0' && cs[1] == 'x' {
                        assert(strip[i] == cs[i + 2]);
                    } else {
                        assert(strip[i] == cs[i]);
                    }
                    assert('\0' <= strip[i] <= '\u{7f}');
                }
                assert(v@ =~= hex_decoded_chars(pstrip)) by {
                    assert(v@ == hex_decoded_bytes(padded@));
                    assert(hex_decoded_bytes(padded@).len() == hex_decoded_chars(pstrip).len());
                    assert forall|i: int|
                        0 <= i < hex_decoded_chars(pstrip).len() implies hex_decoded_bytes(
                        padded@,
                    )[i] == hex_decoded_chars(pstrip)[i] by {
                        assert(padded@[2 * i] == pstrip[2 * i] as u8);
                        assert(padded@[2 * i + 1] == pstrip[2 * i + 1] as u8);
                    }
                }
            }
            Ok(v)
        },
        None => {
            proof {
                assert(padded@.len() % 2 == 0);
                let j = choose|j: int|
                    0 <= j < padded@.len() && !is_hex_digit_byte(#[trigger] padded@[j]);
                let off: int = if strip.len() % 2 == 1 {
                    1
                } else {
                    0
                };
                assert(j >= off) by {
                    if off == 1 {
                        assert(padded@[0] == pstrip[0] as u8);
                        assert(pstrip[0] == '0');
                    }
                }
                assert(padded@[j] == strip[j - off] as u8);
                assert(!is_hex_digit(strip[j - off]));
                assert(!hex_body_ok(strip));
            }
            Err(RollupError::InvalidHexInput)
        },
    }
}

/// Decode a hexadecimal string that must denote exactly `n` bytes.
pub fn parse_hex_fixed(s: &str, n: usize) -> (r: Result<Vec<u8>, RollupError>)
    ensures
        match r {
            Ok(v) => hex_body_ok(strip_hex_prefix(s@)) && v@ == hex_str_bytes(s@) && v@.len()
                == n,
            Err(e) => (e == RollupError::InvalidHexInput && !hex_body_ok(strip_hex_prefix(s@))) || (
            e == RollupError::EncodingRangeError && hex_body_ok(strip_hex_prefix(s@))
                && hex_str_bytes(s@).len() != n),
        },
{
    let v = parse_hex_bytes(s)?;
    if v.len() != n {
        return Err(RollupError::EncodingRangeError);
    }
    Ok(v)
}

/// Parse a 20-byte address from exactly 40 hexadecimal digits, with an
/// optional `0x` prefix.
pub fn parse_address_20(s: &str) -> (r: Result<Address, RollupError>)
    ensures
        match r {
            Ok(a) => strip_hex_prefix(s@).len() == 40 && hex_body_ok(strip_hex_prefix(s@))
                && a.wf() && a.data@ == hex_decoded_chars(strip_hex_prefix(s@)),
            Err(e) => (e == RollupError::InvalidAddressEncoding && strip_hex_prefix(s@).len()
                != 40) || (e == RollupError::InvalidHexInput && strip_hex_prefix(s@).len() == 40
                && !hex_body_ok(strip_hex_prefix(s@))),
        },
{
    let ghost cs = s@;
    let ghost strip = strip_hex_prefix(cs);
    let total = s.unicode_len();
    let has_prefix = total >= 2 && s.get_char(0) == '0' && s.get_char(1) == 'x';
    let stripped_len = if has_prefix {
        total - 2
    } else {
        total
    };
    proof {
        assert(stripped_len == strip.len());
    }
    if stripped_len != 40 {
        return Err(RollupError::InvalidAddressEncoding);
    }
    let v = parse_hex_bytes(s)?;
    proof {
        assert(pad_hex(strip) == strip);
    }
    Ok(Address { data: v })
}

/// Parse a 256-bit value from at most 64 hexadecimal digits, left-padded
/// with zero bytes; `None` denotes the zero value.
pub fn parse_u256_32(s: Option<&str>) -> (r: Result<U256, RollupError>)
    ensures
        match r {
            Ok(u) => u.wf() && match s {
                None => u.data@ == zeros(32),
                Some(t) => hex_body_ok(strip_hex_prefix(t@)) && hex_str_bytes(t@).len() <= 32
                    && u.data@ == zeros((32 - hex_str_bytes(t@).len()) as nat) + hex_str_bytes(
                    t@,
                ),
            },
            Err(e) => match s {
                None => false,
                Some(t) => (e == RollupError::InvalidHexInput && !hex_body_ok(
                    strip_hex_prefix(t@),
                )) || (e == RollupError::EncodingRangeError && hex_body_ok(strip_hex_prefix(t@))
                    && hex_str_bytes(t@).len() > 32),
            },
        },
{
    match s {
        None => Ok(U256 { data: zero_vec(32) }),
        Some(t) => {
            let v = parse_hex_bytes(t)?;
            if v.len() > 32 {
                return Err(RollupError::EncodingRangeError);
            }
            Ok(U256::from_be_slice(v.as_slice()))
        },
    }
}

} // verus!

verus! {

/// A hexadecimal digit character is a hex digit, never `x`, and carries
/// exactly the value it was made from.
pub proof fn lemma_hex_digit_char_val(v: u8)
    requires
        v < 16,
    ensures
        is_hex_digit(hex_digit_char(v)),
        hex_char_val(hex_digit_char(v)) == v,
        hex_digit_char(v) != 'x',
{
    if v < 10 {
        assert(hex_digit_char(v) == ((0x30 + v) as u8) as char);
        assert((((0x30 + v) as u8) as char) as u8 == (0x30 + v) as u8);
    } else {
        assert(hex_digit_char(v) == ((0x57 + v) as u8) as char);
        assert((((0x57 + v) as u8) as char) as u8 == (0x57 + v) as u8);
    }
}

/// Law: hexadecimal encoding then decoding returns the original bytes.
/// The encoding is twice as long as the input, consists of hexadecimal
/// digits only, is untouched by prefix stripping and padding, and decodes
/// to exactly the input.
pub proof fn lemma_hex_round_trip(bs: Seq<u8>)
    ensures
        hex_chars_of(bs).len() == 2 * bs.len(),
        hex_body_ok(hex_chars_of(bs)),
        strip_hex_prefix(hex_chars_of(bs)) == hex_chars_of(bs),
        pad_hex(hex_chars_of(bs)) == hex_chars_of(bs),
        hex_decoded_chars(hex_chars_of(bs)) == bs,
{
    let h = hex_chars_of(bs);
    assert forall|i: int| 0 <= i < h.len() implies is_hex_digit(#[trigger] h[i]) by {
        if i % 2 == 0 {
            lemma_hex_digit_char_val((bs[i / 2] / 16) as u8);
        } else {
            lemma_hex_digit_char_val((bs[i / 2] % 16) as u8);
        }
    }
    assert(strip_hex_prefix(h) == h) by {
        if h.len() >= 2 && h[0] == '0' && h[1] == 'x' {
            lemma_hex_digit_char_val((bs[0] % 16) as u8);
            assert(h[1] == hex_digit_char((bs[0] % 16) as u8));
            assert(false);
        }
    }
    assert(pad_hex(h) == h) by {
        assert((2 * bs.len()) % 2 == 0) by (nonlinear_arith);
    }
    assert(hex_decoded_chars(h) =~= bs) by {
        assert(hex_decoded_chars(h).len() == bs.len()) by {
            assert((2 * bs.len()) / 2 == bs.len()) by (nonlinear_arith);
        }
        assert forall|i: int| 0 <= i < bs.len() implies hex_decoded_chars(h)[i] == bs[i] by {
            assert((2 * i) % 2 == 0 && (2 * i) / 2 == i && (2 * i + 1) % 2 == 1 && (2 * i + 1) / 2
                == i) by (nonlinear_arith);
            assert(h[2 * i] == hex_digit_char((bs[i] / 16) as u8));
            assert(h[2 * i + 1] == hex_digit_char((bs[i] % 16) as u8));
            lemma_hex_digit_char_val((bs[i] / 16) as u8);
            lemma_hex_digit_char_val((bs[i] % 16) as u8);
            assert(16 * (bs[i] / 16) + bs[i] % 16 == bs[i]) by (nonlinear_arith);
        }
    }
}

} // verus!

use vstd::prelude::*;

use crate::abi::word_at;
use crate::bytes::{be_val, pow256};
use crate::buf::word_u64;
use crate::errors::{MalformedReason, RollupError};
use crate::hexutil::{
    hex_body_ok, hex_chars_of, hex_encode_bytes, hex_str_bytes, parse_hex_bytes, strip_hex_prefix,
    U256,
};
use vstd::slice::slice_subrange;
use vstd::string::StringSliceAdditionalSpecFns;

verus! {

/// The well-known base-layer portal contracts that route asset deposits.
#[derive(Debug, Clone, Copy, PartialEq, Eq, Structural)]
pub enum Portals {
    ERC1155BatchPortal,
    ERC1155SinglePortal,
    ERC20Portal,
    ERC721Portal,
    EtherPortal,
    /// The sender is not a known portal: the advance is plain user input.
    Unknown,
}

/// Which of the two shared-layout token deposits is being parsed.
#[derive(Debug, Clone, Copy, PartialEq, Eq, Structural)]
pub enum TokenType {
    Erc20,
    Erc721,
}

/// An ASCII letter lowered; other bytes unchanged.
pub open spec fn lower_byte(b: u8) -> u8 {
    if 0x41 <= b && b <= 0x5a {
        (b + 0x20) as u8
    } else {
        b
    }
}

/// Byte strings equal up to ASCII case.
pub open spec fn eq_ignore_case(a: Seq<u8>, b: Seq<u8>) -> bool {
    a.len() == b.len() && forall|i: int|
        0 <= i < a.len() ==> lower_byte(#[trigger] a[i]) == lower_byte(b[i])
}

/// The static portal table: which portal a sender address denotes, compared
/// case-insensitively against the five well-known addresses.
pub open spec fn portal_of(s: Seq<u8>) -> Portals {
    if eq_ignore_case(s, "0xc700A2e5531E720a2434433b6ccf4c0eA2400051".spec_bytes()) {
        Portals::ERC1155BatchPortal
    } else if eq_ignore_case(s, "0xc700A261279aFC6F755A3a67D86ae43E2eBD0051".spec_bytes()) {
        Portals::ERC1155SinglePortal
    } else if eq_ignore_case(s, "0xc700D6aDd016eECd59d989C028214Eaa0fCC0051".spec_bytes()) {
        Portals::ERC20Portal
    } else if eq_ignore_case(s, "0xc700d52F5290e978e9CAe7D1E092935263b60051".spec_bytes()) {
        Portals::ERC721Portal
    } else if eq_ignore_case(s, "0xc70076a466789B595b50959cdc261227F0D70051".spec_bytes()) {
        Portals::EtherPortal
    } else {
        Portals::Unknown
    }
}

/// Compare two byte strings up to ASCII case.
fn eq_ignore_ascii(a: &[u8], b: &[u8]) -> (r: bool)
    ensures
        r == eq_ignore_case(a@, b@),
{
    if a.len() != b.len() {
        return false;
    }
    let n = a.len();
    let mut i: usize = 0;
    while i < n
        invariant
            0 <= i <= n,
            n == a@.len() == b@.len(),
            forall|j: int| 0 <= j < i ==> lower_byte(#[trigger] a@[j]) == lower_byte(b@[j]),
        decreases n - i,
    {
        let x = a[i];
        let y = b[i];
        let lx = if 0x41 <= x && x <= 0x5a {
            x + 0x20
        } else {
            x
        };
        let ly = if 0x41 <= y && y <= 0x5a {
            y + 0x20
        } else {
            y
        };
        if lx != ly {
            return false;
        }
        i = i + 1;
    }
    true
}

/// Classify a sender address against the static portal table, comparing the
/// hexadecimal text case-insensitively.
pub fn match_portal(address: &str) -> (r: Portals)
    ensures
        r == portal_of(address.spec_bytes()),
{
    let b = address.as_bytes();
    if eq_ignore_ascii(b, "0xc700A2e5531E720a2434433b6ccf4c0eA2400051".as_bytes()) {
        Portals::ERC1155BatchPortal
    } else if eq_ignore_ascii(b, "0xc700A261279aFC6F755A3a67D86ae43E2eBD0051".as_bytes()) {
        Portals::ERC1155SinglePortal
    } else if eq_ignore_ascii(b, "0xc700D6aDd016eECd59d989C028214Eaa0fCC0051".as_bytes()) {
        Portals::ERC20Portal
    } else if eq_ignore_ascii(b, "0xc700d52F5290e978e9CAe7D1E092935263b60051".as_bytes()) {
        Portals::ERC721Portal
    } else if eq_ignore_ascii(b, "0xc70076a466789B595b50959cdc261227F0D70051".as_bytes()) {
        Portals::EtherPortal
    } else {
        Portals::Unknown
    }
}

/// A native-asset transfer routed through the Ether portal.
#[derive(Debug)]
pub struct EtherDeposit {
    /// The depositor, as 40 lowercase hexadecimal digits.
    pub sender: String,
    /// The deposited amount.
    pub amount: U256,
    /// Opaque trailing data, hexadecimal text.
    pub exec_layer_data: String,
}

/// A fungible-token transfer routed through the ERC-20 portal.
#[derive(Debug)]
pub struct Erc20Deposit {
    pub sender: String,
    pub token: String,
    pub amount: U256,
    pub exec_layer_data: String,
}

/// A non-fungible-token transfer routed through the ERC-721 portal.
#[derive(Debug)]
pub struct Erc721Deposit {
    pub sender: String,
    pub token: String,
    pub token_id: U256,
    pub exec_layer_data: String,
}

/// The two shared-layout token deposits.
#[derive(Debug)]
pub enum Erc20OrErc721Deposit {
    Erc20(Erc20Deposit),
    Erc721(Erc721Deposit),
}

/// A multi-token single transfer routed through the ERC-1155 single portal.
#[derive(Debug)]
pub struct Erc1155SingleDeposit {
    pub sender: String,
    pub token: String,
    pub token_id: U256,
    pub amount: U256,
    /// The fixed 32-byte base-layer data field, hexadecimal text.
    pub base_layer_data: String,
    pub exec_layer_data: String,
}

/// A multi-token batch transfer routed through the ERC-1155 batch portal.
#[derive(Debug)]
pub struct Erc1155BatchDeposit {
    pub sender: String,
    pub token: String,
    /// How many token-id/amount pairs the batch holds.
    pub count: usize,
    pub token_ids: Vec<U256>,
    pub amounts: Vec<U256>,
    pub base_layer_data: String,
    pub exec_layer_data: String,
}

/// The unsigned value of the 32-byte word at `at`.
pub open spec fn uword(b: Seq<u8>, at: int) -> nat {
    be_val(word_at(b, at))
}

/// The offset word at `off_pos` points to a length-prefixed array of
/// 32-byte elements that lies entirely inside the payload.
pub open spec fn array_at_ok(b: Seq<u8>, off_pos: int) -> bool {
    let off = uword(b, off_pos);
    &&& off + 32 <= b.len()
    &&& off + 32 + 32 * uword(b, off as int) <= b.len()
}

/// How many elements the array at `off_pos` declares.
pub open spec fn array_len(b: Seq<u8>, off_pos: int) -> nat {
    uword(b, uword(b, off_pos) as int)
}

/// The `i`-th 32-byte element of the array at `off_pos`.
pub open spec fn array_elem(b: Seq<u8>, off_pos: int, i: int) -> Seq<u8> {
    let off = uword(b, off_pos) as int;
    b.subrange(off + 32 + 32 * i, off + 64 + 32 * i)
}

/// The offset word at `off_pos` points to a length-prefixed byte blob that
/// lies entirely inside the payload.
pub open spec fn blob_at_ok(b: Seq<u8>, off_pos: int) -> bool {
    let off = uword(b, off_pos);
    &&& off + 32 <= b.len()
    &&& off + 32 + uword(b, off as int) <= b.len()
}

/// The bytes of the blob at `off_pos`.
pub open spec fn blob_at(b: Seq<u8>, off_pos: int) -> Seq<u8> {
    let off = uword(b, off_pos) as int;
    b.subrange(off + 32, off + 32 + uword(b, off) as int)
}

/// All four offset tables of a batch payload resolve in bounds.
pub open spec fn batch_wf(b: Seq<u8>) -> bool {
    &&& b.len() >= 192
    &&& array_at_ok(b, 64)
    &&& array_at_ok(b, 96)
    &&& blob_at_ok(b, 128)
    &&& blob_at_ok(b, 160)
}

/// The token-id and amount arrays have the same nonzero length.
pub open spec fn batch_counts_ok(b: Seq<u8>) -> bool {
    array_len(b, 64) > 0 && array_len(b, 64) == array_len(b, 96)
}

/// A native-asset payload is well formed: valid hexadecimal and at least
/// 52 bytes (20 sender + 32 amount).
pub open spec fn ether_ok(input: Seq<char>) -> bool {
    hex_body_ok(strip_hex_prefix(input)) && hex_str_bytes(input).len() >= 52
}

/// The error a malformed native-asset payload decodes to.
pub open spec fn ether_err(input: Seq<char>) -> RollupError {
    if !hex_body_ok(strip_hex_prefix(input)) {
        RollupError::InvalidHexInput
    } else {
        RollupError::MalformedDeposit(MalformedReason::ShortPayload)
    }
}

/// A token-transfer payload is well formed: valid hexadecimal and at least
/// 72 bytes (20 token + 20 sender + 32 value).
pub open spec fn erc20_721_ok(input: Seq<char>) -> bool {
    hex_body_ok(strip_hex_prefix(input)) && hex_str_bytes(input).len() >= 72
}

/// The error a malformed token-transfer payload decodes to.
pub open spec fn erc20_721_err(input: Seq<char>) -> RollupError {
    if !hex_body_ok(strip_hex_prefix(input)) {
        RollupError::InvalidHexInput
    } else {
        RollupError::MalformedDeposit(MalformedReason::ShortPayload)
    }
}

/// A multi-token single payload is well formed: valid hexadecimal and at
/// least 136 bytes (20 + 20 + 32 + 32 + 32).
pub open spec fn single_ok(input: Seq<char>) -> bool {
    hex_body_ok(strip_hex_prefix(input)) && hex_str_bytes(input).len() >= 136
}

/// The error a malformed multi-token single payload decodes to.
pub open spec fn single_err(input: Seq<char>) -> RollupError {
    if !hex_body_ok(strip_hex_prefix(input)) {
        RollupError::InvalidHexInput
    } else {
        RollupError::MalformedDeposit(MalformedReason::ShortPayload)
    }
}

/// A multi-token batch payload is well formed: valid hexadecimal, a full
/// fixed header, all four offset tables in bounds, and matching nonempty
/// arrays.
pub open spec fn batch_ok(input: Seq<char>) -> bool {
    &&& hex_body_ok(strip_hex_prefix(input))
    &&& hex_str_bytes(input).len() >= 136
    &&& batch_wf(hex_str_bytes(input))
    &&& batch_counts_ok(hex_str_bytes(input))
}

/// The error a malformed multi-token batch payload decodes to.
pub open spec fn batch_err(input: Seq<char>) -> RollupError {
    if !hex_body_ok(strip_hex_prefix(input)) {
        RollupError::InvalidHexInput
    } else if hex_str_bytes(input).len() < 136 {
        RollupError::MalformedDeposit(MalformedReason::ShortPayload)
    } else if !batch_wf(hex_str_bytes(input)) {
        RollupError::Truncated
    } else {
        RollupError::MalformedDeposit(MalformedReason::LengthMismatchOrEmpty)
    }
}

/// Hexadecimal text of a byte range of the payload.
fn hex_of_range(bytes: &Vec<u8>, start: usize, end: usize) -> (r: String)
    requires
        start <= end <= bytes@.len(),
    ensures
        r@ == hex_chars_of(bytes@.subrange(start as int, end as int)),
{
    hex_encode_bytes(slice_subrange(bytes.as_slice(), start, end))
}

/// A 256-bit value from a 32-byte range of the payload.
fn u256_of_range(bytes: &Vec<u8>, start: usize) -> (r: U256)
    requires
        start + 32 <= bytes@.len(),
    ensures
        r.wf(),
        r.data@ == bytes@.subrange(start as int, start + 32),
{
    let total = bytes.len();
    proof {
        assert(start + 32 <= total);
    }
    let r = U256::from_be_slice(slice_subrange(bytes.as_slice(), start, start + 32));
    proof {
        assert(r.data@ =~= bytes@.subrange(start as int, start + 32));
    }
    r
}

/// Decode a native-asset transfer: 20-byte sender, 32-byte amount, and
/// opaque trailing data.
pub fn handle_parse_ether_deposit(input: String) -> (r: Result<EtherDeposit, RollupError>)
    ensures
        match r {
            Ok(d) => ether_ok(input@) && {
                let b = hex_str_bytes(input@);
                &&& d.sender@ == hex_chars_of(b.subrange(0, 20))
                &&& d.amount.wf()
                &&& d.amount.data@ == b.subrange(20, 52)
                &&& d.exec_layer_data@ == hex_chars_of(b.skip(52))
            },
            Err(e) => !ether_ok(input@) && e == ether_err(input@),
        },
{
    let bytes = parse_hex_bytes(input.as_str())?;
    if bytes.len() < 52 {
        return Err(RollupError::MalformedDeposit(MalformedReason::ShortPayload));
    }
    let sender = hex_of_range(&bytes, 0, 20);
    let amount = u256_of_range(&bytes, 20);
    let exec_layer_data = hex_of_range(&bytes, 52, bytes.len());
    proof {
        assert(bytes@.subrange(52, bytes@.len() as int) =~= bytes@.skip(52));
    }
    Ok(EtherDeposit { sender, amount, exec_layer_data })
}

/// Decode a fungible or non-fungible token transfer, which share one
/// layout: 20-byte token, 20-byte sender, 32-byte value (an amount for
/// fungible tokens, a token id otherwise), and opaque trailing data.
pub fn handle_parse_erc20_and_erc721_deposit(input: String, t_type: TokenType) -> (r: Result<
    Erc20OrErc721Deposit,
    RollupError,
>)
    ensures
        match r {
            Ok(d) => erc20_721_ok(input@) && {
                let b = hex_str_bytes(input@);
                match d {
                    Erc20OrErc721Deposit::Erc20(x) => t_type == TokenType::Erc20 && x.token@
                        == hex_chars_of(b.subrange(0, 20)) && x.sender@ == hex_chars_of(
                        b.subrange(20, 40),
                    ) && x.amount.wf() && x.amount.data@ == b.subrange(40, 72)
                        && x.exec_layer_data@ == hex_chars_of(b.skip(72)),
                    Erc20OrErc721Deposit::Erc721(x) => t_type == TokenType::Erc721 && x.token@
                        == hex_chars_of(b.subrange(0, 20)) && x.sender@ == hex_chars_of(
                        b.subrange(20, 40),
                    ) && x.token_id.wf() && x.token_id.data@ == b.subrange(40, 72)
                        && x.exec_layer_data@ == hex_chars_of(b.skip(72)),
                }
            },
            Err(e) => !erc20_721_ok(input@) && e == erc20_721_err(input@),
        },
{
    let bytes = parse_hex_bytes(input.as_str())?;
    if bytes.len() < 72 {
        return Err(RollupError::MalformedDeposit(MalformedReason::ShortPayload));
    }
    let token = hex_of_range(&bytes, 0, 20);
    let sender = hex_of_range(&bytes, 20, 40);
    let value = u256_of_range(&bytes, 40);
    let exec_layer_data = hex_of_range(&bytes, 72, bytes.len());
    proof {
        assert(bytes@.subrange(72, bytes@.len() as int) =~= bytes@.skip(72));
    }
    match t_type {
        TokenType::Erc20 => Ok(
            Erc20OrErc721Deposit::Erc20(
                Erc20Deposit { sender, token, amount: value, exec_layer_data },
            ),
        ),
        TokenType::Erc721 => Ok(
            Erc20OrErc721Deposit::Erc721(
                Erc721Deposit { sender, token, token_id: value, exec_layer_data },
            ),
        ),
    }
}

/// Decode a multi-token single transfer: 20-byte token, 20-byte sender,
/// 32-byte token id, 32-byte amount, a fixed 32-byte base-layer data field,
/// and opaque trailing data.
pub fn handle_parse_erc1155_single_deposit(input: String) -> (r: Result<
    Erc1155SingleDeposit,
    RollupError,
>)
    ensures
        match r {
            Ok(d) => single_ok(input@) && {
                let b = hex_str_bytes(input@);
                &&& d.token@ == hex_chars_of(b.subrange(0, 20))
                &&& d.sender@ == hex_chars_of(b.subrange(20, 40))
                &&& d.token_id.wf()
                &&& d.token_id.data@ == b.subrange(40, 72)
                &&& d.amount.wf()
                &&& d.amount.data@ == b.subrange(72, 104)
                &&& d.base_layer_data@ == hex_chars_of(b.subrange(104, 136))
                &&& d.exec_layer_data@ == hex_chars_of(b.skip(136))
            },
            Err(e) => !single_ok(input@) && e == single_err(input@),
        },
{
    let bytes = parse_hex_bytes(input.as_str())?;
    if bytes.len() < 136 {
        return Err(RollupError::MalformedDeposit(MalformedReason::ShortPayload));
    }
    let token = hex_of_range(&bytes, 0, 20);
    let sender = hex_of_range(&bytes, 20, 40);
    let token_id = u256_of_range(&bytes, 40);
    let amount = u256_of_range(&bytes, 72);
    let base_layer_data = hex_of_range(&bytes, 104, 136);
    let exec_layer_data = hex_of_range(&bytes, 136, bytes.len());
    proof {
        assert(bytes@.subrange(136, bytes@.len() as int) =~= bytes@.skip(136));
    }
    Ok(Erc1155SingleDeposit { sender, token, token_id, amount, base_layer_data, exec_layer_data })
}

/// Read the 32-byte word at `at` as a `u64`, if its value fits.
fn read_word_u64(bytes: &Vec<u8>, at: usize) -> (r: Option<u64>)
    requires
        at + 32 <= bytes@.len(),
    ensures
        match r {
            Some(v) => v as nat == uword(bytes@, at as int) && uword(bytes@, at as int) < pow256(8),
            None => uword(bytes@, at as int) >= pow256(8),
        },
{
    let total = bytes.len();
    proof {
        assert(at + 32 <= total);
    }
    let w = slice_subrange(bytes.as_slice(), at, at + 32);
    proof {
        assert(w@ =~= word_at(bytes@, at as int));
    }
    word_u64(w)
}

/// Read the length-prefixed array of 32-byte values whose offset word sits
/// at `off_pos`.
fn read_u256_array(bytes: &Vec<u8>, off_pos: usize) -> (r: Result<Vec<U256>, RollupError>)
    requires
        off_pos + 32 <= bytes@.len(),
    ensures
        match r {
            Ok(v) => array_at_ok(bytes@, off_pos as int) && v@.len() == array_len(
                bytes@,
                off_pos as int,
            ) && (forall|i: int|
                0 <= i < v@.len() ==> (#[trigger] v@[i]).wf() && v@[i].data@ == array_elem(
                    bytes@,
                    off_pos as int,
                    i,
                )),
            Err(e) => e == RollupError::Truncated && !array_at_ok(bytes@, off_pos as int),
        },
{
    let total = bytes.len();
    proof {
        assert(pow256(8) == 0x1_0000_0000_0000_0000) by {
            reveal_with_fuel(pow256, 9);
        }
    }
    let off64 = match read_word_u64(bytes, off_pos) {
        None => {
            return Err(RollupError::Truncated);
        },
        Some(o) => o,
    };
    if off64 > total as u64 {
        return Err(RollupError::Truncated);
    }
    let off = off64 as usize;
    if total - off < 32 {
        return Err(RollupError::Truncated);
    }
    let n64 = match read_word_u64(bytes, off) {
        None => {
            proof {
                crate::bytes::lemma_pow256_pos(8);
                assert(32 * uword(bytes@, off as int) >= uword(bytes@, off as int))
                    by (nonlinear_arith)
                    requires
                        uword(bytes@, off as int) >= 0,
                ;
            }
            return Err(RollupError::Truncated);
        },
        Some(x) => x,
    };
    let rem = total - off - 32;
    let cap = rem / 32;
    proof {
        assert((n64 as nat <= cap as nat) == (32 * (n64 as nat) <= rem as nat))
            by (nonlinear_arith)
            requires
                cap as nat == (rem as nat) / 32,
        ;
    }
    if n64 > cap as u64 {
        return Err(RollupError::Truncated);
    }
    let n = n64 as usize;
    let ghost gelems = array_len(bytes@, off_pos as int);
    let mut out: Vec<U256> = Vec::new();
    let mut i: usize = 0;
    while i < n
        invariant
            0 <= i <= n,
            out@.len() == i,
            total == bytes@.len(),
            off + 32 + 32 * n <= total,
            n as nat == array_len(bytes@, off_pos as int),
            off as nat == uword(bytes@, off_pos as int),
            forall|j: int|
                0 <= j < i ==> (#[trigger] out@[j]).wf() && out@[j].data@ == array_elem(
                    bytes@,
                    off_pos as int,
                    j,
                ),
        decreases n - i,
    {
        proof {
            assert(32 * i < 32 * n) by (nonlinear_arith)
                requires
                    i < n,
            ;
            assert(32 * (i + 1) <= 32 * n) by (nonlinear_arith)
                requires
                    i + 1 <= n,
            ;
        }
        let start = off + 32 + 32 * i;
        let elem = u256_of_range(bytes, start);
        proof {
            assert(elem.data@ =~= array_elem(bytes@, off_pos as int, i as int));
        }
        out.push(elem);
        i = i + 1;
    }
    Ok(out)
}

/// Read the length-prefixed byte blob whose offset word sits at `off_pos`.
fn read_blob(bytes: &Vec<u8>, off_pos: usize) -> (r: Result<Vec<u8>, RollupError>)
    requires
        off_pos + 32 <= bytes@.len(),
    ensures
        match r {
            Ok(v) => blob_at_ok(bytes@, off_pos as int) && v@ == blob_at(bytes@, off_pos as int),
            Err(e) => e == RollupError::Truncated && !blob_at_ok(bytes@, off_pos as int),
        },
{
    let total = bytes.len();
    proof {
        assert(pow256(8) == 0x1_0000_0000_0000_0000) by {
            reveal_with_fuel(pow256, 9);
        }
    }
    let off64 = match read_word_u64(bytes, off_pos) {
        None => {
            return Err(RollupError::Truncated);
        },
        Some(o) => o,
    };
    if off64 > total as u64 {
        return Err(RollupError::Truncated);
    }
    let off = off64 as usize;
    if total - off < 32 {
        return Err(RollupError::Truncated);
    }
    let n64 = match read_word_u64(bytes, off) {
        None => {
            return Err(RollupError::Truncated);
        },
        Some(x) => x,
    };
    let rem = total - off - 32;
    if n64 > rem as u64 {
        return Err(RollupError::Truncated);
    }
    let n = n64 as usize;
    let v = vstd::slice::slice_to_vec(slice_subrange(bytes.as_slice(), off + 32, off + 32 + n));
    proof {
        assert(v@ =~= blob_at(bytes@, off_pos as int));
    }
    Ok(v)
}

/// Decode a multi-token batch transfer: 20-byte token, 20-byte sender, and
/// four offset words at bytes 64..192 pointing to the token-id array, the
/// amount array, the base-layer blob and the trailing-data blob; the two
/// arrays must have the same nonzero length.
pub fn handle_parse_erc1155_batch_deposit(input: String) -> (r: Result<
    Erc1155BatchDeposit,
    RollupError,
>)
    ensures
        match r {
            Ok(d) => batch_ok(input@) && {
                let b = hex_str_bytes(input@);
                &&& d.token@ == hex_chars_of(b.subrange(0, 20))
                &&& d.sender@ == hex_chars_of(b.subrange(20, 40))
                &&& d.count == array_len(b, 64)
                &&& d.token_ids@.len() == array_len(b, 64)
                &&& (forall|i: int|
                    0 <= i < d.token_ids@.len() ==> (#[trigger] d.token_ids@[i]).wf()
                        && d.token_ids@[i].data@ == array_elem(b, 64, i))
                &&& d.amounts@.len() == array_len(b, 96)
                &&& (forall|i: int|
                    0 <= i < d.amounts@.len() ==> (#[trigger] d.amounts@[i]).wf()
                        && d.amounts@[i].data@ == array_elem(b, 96, i))
                &&& d.base_layer_data@ == hex_chars_of(blob_at(b, 128))
                &&& d.exec_layer_data@ == hex_chars_of(blob_at(b, 160))
            },
            Err(e) => !batch_ok(input@) && e == batch_err(input@),
        },
{
    let bytes = parse_hex_bytes(input.as_str())?;
    if bytes.len() < 136 {
        return Err(RollupError::MalformedDeposit(MalformedReason::ShortPayload));
    }
    if bytes.len() < 192 {
        return Err(RollupError::Truncated);
    }
    let token = hex_of_range(&bytes, 0, 20);
    let sender = hex_of_range(&bytes, 20, 40);
    let token_ids = match read_u256_array(&bytes, 64) {
        Ok(v) => v,
        Err(e) => {
            return Err(e);
        },
    };
    let amounts = match read_u256_array(&bytes, 96) {
        Ok(v) => v,
        Err(e) => {
            return Err(e);
        },
    };
    let base_blob = match read_blob(&bytes, 128) {
        Ok(v) => v,
        Err(e) => {
            return Err(e);
        },
    };
    let exec_blob = match read_blob(&bytes, 160) {
        Ok(v) => v,
        Err(e) => {
            return Err(e);
        },
    };
    let count = token_ids.len();
    if count == 0 || amounts.len() == 0 || count != amounts.len() {
        return Err(RollupError::MalformedDeposit(MalformedReason::LengthMismatchOrEmpty));
    }
    let base_layer_data = hex_encode_bytes(base_blob.as_slice());
    let exec_layer_data = hex_encode_bytes(exec_blob.as_slice());
    Ok(
        Erc1155BatchDeposit {
            sender,
            token,
            count,
            token_ids,
            amounts,
            base_layer_data,
            exec_layer_data,
        },
    )
}

} // verus!

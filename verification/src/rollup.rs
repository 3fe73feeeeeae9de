use vstd::prelude::*;

use crate::bytes::zeros;
use crate::deposit::{
    batch_err, batch_ok, erc20_721_err, erc20_721_ok, ether_err, ether_ok,
    handle_parse_erc1155_batch_deposit, handle_parse_erc1155_single_deposit,
    handle_parse_erc20_and_erc721_deposit, handle_parse_ether_deposit, match_portal, portal_of,
    single_err, single_ok, Portals, TokenType,
};
use crate::errors::RollupError;
use crate::hexutil::{
    hex_body_ok, hex_chars_of, hex_decoded_chars, hex_str_bytes, hex_with_prefix,
    lemma_hex_round_trip, parse_address_20, parse_hex_bytes, parse_u256_32, strip_hex_prefix,
    to_hex, Address, U256,
};
use vstd::string::StrSliceExecFns;
use vstd::utf8::encode_utf8;

verus! {

/// The block-level context of an advance request.
#[derive(Debug, Clone)]
pub struct Metadata {
    pub chain_id: u64,
    pub block_number: u64,
    pub block_timestamp: u64,
    pub index: u64,
}

/// A state-mutating request, with addresses and payload as `0x`-prefixed
/// lowercase hexadecimal text.
#[derive(Debug, Clone)]
pub struct Advance {
    pub metadata: Metadata,
    pub app_contract: String,
    pub msg_sender: String,
    pub prev_randao: String,
    pub payload: String,
}

/// A read-only request, with its payload as `0x`-prefixed hexadecimal text.
#[derive(Debug, Clone)]
pub struct Inspect {
    pub payload: String,
}

/// Build an `Advance` from the plain values of one host-runtime record.
pub fn convert_advance(
    chain_id: u64,
    block_number: u64,
    block_timestamp: u64,
    index: u64,
    app_contract: &[u8],
    msg_sender: &[u8],
    prev_randao: &[u8],
    payload: &[u8],
) -> (a: Advance)
    requires
        app_contract@.len() == 20,
        msg_sender@.len() == 20,
        prev_randao@.len() == 32,
    ensures
        a.metadata.chain_id == chain_id,
        a.metadata.block_number == block_number,
        a.metadata.block_timestamp == block_timestamp,
        a.metadata.index == index,
        a.app_contract@ == hex_with_prefix(app_contract@),
        a.msg_sender@ == hex_with_prefix(msg_sender@),
        a.prev_randao@ == hex_with_prefix(prev_randao@),
        a.payload@ == hex_with_prefix(payload@),
{
    let metadata = Metadata { chain_id, block_number, block_timestamp, index };
    Advance {
        metadata,
        app_contract: to_hex(app_contract),
        msg_sender: to_hex(msg_sender),
        prev_randao: to_hex(prev_randao),
        payload: to_hex(payload),
    }
}

/// Build an `Inspect` from the plain payload of one host-runtime record.
pub fn convert_inspect(payload: &[u8]) -> (i: Inspect)
    ensures
        i.payload@ == hex_with_prefix(payload@),
{
    Inspect { payload: to_hex(payload) }
}

/// What the host runtime delivers next.
#[derive(Debug, Clone, Copy, PartialEq, Eq, Structural)]
pub enum RequestKind {
    Advance,
    Inspect,
    Unknown,
}

/// Classify the request type word of a finish exchange.
pub fn classify_request(t: i32) -> (r: RequestKind)
    ensures
        r == (if t == 0 {
            RequestKind::Advance
        } else if t == 1 {
            RequestKind::Inspect
        } else {
            RequestKind::Unknown
        }),
{
    if t == 0 {
        RequestKind::Advance
    } else if t == 1 {
        RequestKind::Inspect
    } else {
        RequestKind::Unknown
    }
}

/// The accept flag the driver hands back for a handler outcome: a handler
/// failure degrades to a local reject, never an abort.
pub fn resolve_handler_outcome(r: &Result<bool, RollupError>) -> (b: bool)
    ensures
        b == (match r {
            Ok(a) => *a,
            Err(_) => false,
        }),
{
    match r {
        Ok(a) => *a,
        Err(_) => false,
    }
}

/// Which kind of request is being handled; settlement-mutating outputs are
/// legal only while handling an advance.
#[derive(Debug, Clone, Copy, PartialEq, Eq, Structural)]
pub enum Phase {
    Advance,
    Inspect,
}

/// An output emitted while handling a request, recorded in order.
#[derive(Debug)]
pub enum Output {
    /// A proposed base-layer call, to run if the epoch is accepted.
    Voucher { destination: Address, value: U256, payload: Vec<u8> },
    /// A proposed base-layer delegated call.
    DelegateCallVoucher { destination: Address, payload: Vec<u8> },
    /// An accepted, provable opaque output.
    Notice { payload: Vec<u8> },
    /// An unproved diagnostic output.
    Report { payload: Vec<u8> },
    /// Marks the current advance as rejected.
    Exception { payload: Vec<u8> },
}

/// The address denotes exactly 40 hexadecimal digits.
pub open spec fn address_hex_ok(s: Seq<char>) -> bool {
    strip_hex_prefix(s).len() == 40 && hex_body_ok(strip_hex_prefix(s))
}

/// The value denotes at most 32 bytes of hexadecimal text.
pub open spec fn value_hex_ok(s: Seq<char>) -> bool {
    hex_body_ok(strip_hex_prefix(s)) && hex_str_bytes(s).len() <= 32
}

/// The 32 value bytes a hexadecimal string denotes, left-padded with zeros.
pub open spec fn value_of_hex(s: Seq<char>) -> Seq<u8> {
    zeros((32 - hex_str_bytes(s).len()) as nat) + hex_str_bytes(s)
}

/// An absent value is legal and denotes zero.
pub open spec fn value_opt_ok(v: Option<&str>) -> bool {
    match v {
        None => true,
        Some(t) => value_hex_ok(t@),
    }
}

/// The 32 value bytes an optional hexadecimal string denotes.
pub open spec fn value_of_opt(v: Option<&str>) -> Seq<u8> {
    match v {
        None => zeros(32),
        Some(t) => value_of_hex(t@),
    }
}

/// The driver's verified state: the phase being handled, the per-kind
/// output indices the host assigns (monotonic, starting at zero), and the
/// outputs emitted so far, in order.
pub struct Rollup {
    pub phase: Phase,
    pub voucher_count: u64,
    pub delegate_voucher_count: u64,
    pub notice_count: u64,
    pub outputs: Vec<Output>,
}

impl Rollup {
    /// A fresh instance: advance phase, no outputs, all indices at zero.
    pub fn new() -> (r: Rollup)
        ensures
            r.phase == Phase::Advance,
            r.voucher_count == 0,
            r.delegate_voucher_count == 0,
            r.notice_count == 0,
            r.outputs@ == Seq::<Output>::empty(),
    {
        Rollup {
            phase: Phase::Advance,
            voucher_count: 0,
            delegate_voucher_count: 0,
            notice_count: 0,
            outputs: Vec::new(),
        }
    }

    /// Emit a voucher: destination address, optional value and payload are
    /// hexadecimal text; the returned index is the next voucher index.
    pub fn emit_voucher(
        &mut self,
        address_hex: &str,
        value_hex: Option<&str>,
        payload_hex: &str,
    ) -> (r: Result<u64, RollupError>)
        requires
            old(self).voucher_count < u64::MAX,
        ensures
            match r {
                Ok(idx) => old(self).phase == Phase::Advance && address_hex_ok(address_hex@)
                    && value_opt_ok(value_hex) && hex_body_ok(strip_hex_prefix(payload_hex@)) && idx
                    == old(self).voucher_count && final(self).voucher_count == old(self).voucher_count + 1 && final(self).delegate_voucher_count == old(self).delegate_voucher_count && final(self).notice_count == old(self).notice_count
                    && final(self).phase == old(self).phase && final(self).outputs@.len() == old(self).outputs@.len() + 1 && final(self).outputs@.subrange(
                    0,
                    old(self).outputs@.len() as int,
                ) == old(self).outputs@ && (final(self).outputs@.last() matches Output::Voucher {
                    destination,
                    value,
                    payload,
                } && destination.wf() && destination.data@ == hex_decoded_chars(
                    strip_hex_prefix(address_hex@),
                ) && value.wf() && value.data@ == value_of_opt(value_hex) && payload@
                    == hex_str_bytes(payload_hex@)),
                Err(e) => *final(self) == *old(self) && ((e == RollupError::InvalidOutputForInspect
                    && old(self).phase == Phase::Inspect) || (old(self).phase == Phase::Advance && (
                (e == RollupError::InvalidAddressEncoding && strip_hex_prefix(address_hex@).len()
                    != 40) || (e == RollupError::InvalidHexInput && strip_hex_prefix(
                    address_hex@,
                ).len() == 40 && !hex_body_ok(strip_hex_prefix(address_hex@))) || (address_hex_ok(
                    address_hex@,
                ) && (match value_hex {
                    Some(t) => (e == RollupError::InvalidHexInput && !hex_body_ok(
                        strip_hex_prefix(t@),
                    )) || (e == RollupError::EncodingRangeError && hex_body_ok(strip_hex_prefix(t@))
                        && hex_str_bytes(t@).len() > 32),
                    None => false,
                })) || (address_hex_ok(address_hex@) && value_opt_ok(value_hex) && e
                    == RollupError::InvalidHexInput && !hex_body_ok(
                    strip_hex_prefix(payload_hex@),
                ))))),
            },
    {
        if self.phase == Phase::Inspect {
            return Err(RollupError::InvalidOutputForInspect);
        }
        let address = parse_address_20(address_hex)?;
        let value = parse_u256_32(value_hex)?;
        let payload_bytes = parse_hex_bytes(payload_hex)?;
        let index = self.voucher_count;
        self.voucher_count = self.voucher_count + 1;
        self.outputs.push(Output::Voucher { destination: address, value, payload: payload_bytes });
        Ok(index)
    }

    /// Emit a delegate-call voucher: the destination is hexadecimal text
    /// and the payload is passed through as raw bytes; the returned index
    /// is the next delegate-call voucher index.
    pub fn emit_delegate_call_voucher(&mut self, address: &String, payload: &String) -> (r: Result<
        u64,
        RollupError,
    >)
        requires
            old(self).delegate_voucher_count < u64::MAX,
        ensures
            match r {
                Ok(idx) => old(self).phase == Phase::Advance && address_hex_ok(address@) && idx
                    == old(self).delegate_voucher_count && final(self).delegate_voucher_count
                    == old(self).delegate_voucher_count + 1 && final(self).voucher_count == old(self).voucher_count && final(self).notice_count == old(self).notice_count && final(self).phase == old(self).phase && final(self).outputs@.len() == old(self).outputs@.len() + 1 && final(self).outputs@.subrange(
                    0,
                    old(self).outputs@.len() as int,
                ) == old(self).outputs@ && (final(self).outputs@.last() matches Output::DelegateCallVoucher { destination, payload: pl }
                    && destination.wf() && destination.data@ == hex_decoded_chars(
                    strip_hex_prefix(address@),
                ) && pl@ == encode_utf8(payload@)),
                Err(e) => *final(self) == *old(self) && ((e == RollupError::InvalidOutputForInspect
                    && old(self).phase == Phase::Inspect) || (old(self).phase == Phase::Advance && (
                (e == RollupError::InvalidAddressEncoding && strip_hex_prefix(address@).len() != 40)
                    || (e == RollupError::InvalidHexInput && strip_hex_prefix(address@).len() == 40
                    && !hex_body_ok(strip_hex_prefix(address@)))))),
            },
    {
        if self.phase == Phase::Inspect {
            return Err(RollupError::InvalidOutputForInspect);
        }
        let destination = parse_address_20(address.as_str())?;
        let payload_bytes = payload.as_str().as_bytes_vec();
        let index = self.delegate_voucher_count;
        self.delegate_voucher_count = self.delegate_voucher_count + 1;
        self.outputs.push(Output::DelegateCallVoucher { destination, payload: payload_bytes });
        Ok(index)
    }

    /// Emit a notice: the payload is passed through as raw bytes; the
    /// returned index is the next notice index.
    pub fn emit_notice(&mut self, payload: &String) -> (r: Result<u64, RollupError>)
        requires
            old(self).notice_count < u64::MAX,
        ensures
            match r {
                Ok(idx) => old(self).phase == Phase::Advance && idx == old(self).notice_count
                    && final(self).notice_count == old(self).notice_count + 1 && final(self).voucher_count == old(self).voucher_count && final(self).delegate_voucher_count
                    == old(self).delegate_voucher_count && final(self).phase == old(self).phase
                    && final(self).outputs@.len() == old(self).outputs@.len() + 1 && final(self).outputs@.subrange(0, old(self).outputs@.len() as int) == old(self).outputs@ && (
                final(self).outputs@.last() matches Output::Notice { payload: pl } && pl@
                    == encode_utf8(payload@)),
                Err(e) => *final(self) == *old(self) && e == RollupError::InvalidOutputForInspect
                    && old(self).phase == Phase::Inspect,
            },
    {
        if self.phase == Phase::Inspect {
            return Err(RollupError::InvalidOutputForInspect);
        }
        let payload_bytes = payload.as_str().as_bytes_vec();
        let index = self.notice_count;
        self.notice_count = self.notice_count + 1;
        self.outputs.push(Output::Notice { payload: payload_bytes });
        Ok(index)
    }

    /// Emit a report: an unproved diagnostic, legal in both phases; the
    /// payload is passed through as raw bytes. Always succeeds.
    pub fn emit_report(&mut self, payload: &String) -> (r: Result<(), RollupError>)
        ensures
            r is Ok,
            final(self).phase == old(self).phase,
            final(self).voucher_count == old(self).voucher_count,
            final(self).delegate_voucher_count == old(self).delegate_voucher_count,
            final(self).notice_count == old(self).notice_count,
            final(self).outputs@.len() == old(self).outputs@.len() + 1,
            final(self).outputs@.subrange(0, old(self).outputs@.len() as int) == old(self).outputs@,
            (final(self).outputs@.last() matches Output::Report { payload: pl } && pl@
                == encode_utf8(payload@)),
    {
        let payload_bytes = payload.as_str().as_bytes_vec();
        self.outputs.push(Output::Report { payload: payload_bytes });
        Ok(())
    }

    /// Emit an exception, marking the current advance as rejected; the
    /// payload is passed through as raw bytes.
    pub fn emit_exception(&mut self, payload: &String) -> (r: Result<(), RollupError>)
        ensures
            match r {
                Ok(()) => old(self).phase == Phase::Advance && final(self).phase == old(self).phase
                    && final(self).voucher_count == old(self).voucher_count && final(self).delegate_voucher_count == old(self).delegate_voucher_count && final(self).notice_count == old(self).notice_count && final(self).outputs@.len() == old(self).outputs@.len() + 1 && final(self).outputs@.subrange(
                    0,
                    old(self).outputs@.len() as int,
                ) == old(self).outputs@ && (final(self).outputs@.last() matches Output::Exception { payload: pl } && pl@ == encode_utf8(
                    payload@,
                )),
                Err(e) => *final(self) == *old(self) && e == RollupError::InvalidOutputForInspect
                    && old(self).phase == Phase::Inspect,
            },
    {
        if self.phase == Phase::Inspect {
            return Err(RollupError::InvalidOutputForInspect);
        }
        let payload_bytes = payload.as_str().as_bytes_vec();
        self.outputs.push(Output::Exception { payload: payload_bytes });
        Ok(())
    }
}

/// Handle one advance request: classify the sender against the portal
/// table, decode the matching deposit shape, and for a native-asset
/// deposit emit a voucher back to the depositor; an unknown sender is
/// reported as plain user input and still accepted.
pub fn handle_advance(rollup: &mut Rollup, advance: &Advance) -> (r: Result<bool, RollupError>)
    requires
        old(rollup).voucher_count < u64::MAX,
    ensures
        final(rollup).phase == Phase::Advance,
        final(rollup).notice_count == old(rollup).notice_count,
        final(rollup).delegate_voucher_count == old(rollup).delegate_voucher_count,
        match r {
            Ok(accept) => accept == true && match portal_of(encode_utf8(advance.msg_sender@)) {
                Portals::Unknown => final(rollup).voucher_count == old(rollup).voucher_count
                    && final(rollup).outputs@.len() == old(rollup).outputs@.len() + 1 && final(rollup).outputs@.subrange(0, old(rollup).outputs@.len() as int) == old(rollup).outputs@
                    && (final(rollup).outputs@.last() matches Output::Report { payload: pl } && pl@
                    == encode_utf8(advance.payload@)),
                Portals::EtherPortal => ether_ok(advance.payload@) && {
                    let b = hex_str_bytes(advance.payload@);
                    &&& final(rollup).voucher_count == old(rollup).voucher_count + 1
                    &&& final(rollup).outputs@.len() == old(rollup).outputs@.len() + 1
                    &&& final(rollup).outputs@.subrange(0, old(rollup).outputs@.len() as int)
                        == old(rollup).outputs@
                    &&& (final(rollup).outputs@.last() matches Output::Voucher {
                        destination,
                        value,
                        payload,
                    } && destination.wf() && destination.data@ == b.subrange(0, 20) && value.wf()
                        && value.data@ == b.subrange(20, 52) && payload@ == b.skip(52))
                },
                Portals::ERC1155BatchPortal => batch_ok(advance.payload@) && final(rollup).voucher_count == old(rollup).voucher_count && final(rollup).outputs@ == old(rollup).outputs@,
                Portals::ERC1155SinglePortal => single_ok(advance.payload@) && final(rollup).voucher_count == old(rollup).voucher_count && final(rollup).outputs@ == old(rollup).outputs@,
                Portals::ERC20Portal => erc20_721_ok(advance.payload@) && final(rollup).voucher_count == old(rollup).voucher_count && final(rollup).outputs@ == old(rollup).outputs@,
                Portals::ERC721Portal => erc20_721_ok(advance.payload@) && final(rollup).voucher_count == old(rollup).voucher_count && final(rollup).outputs@ == old(rollup).outputs@,
            },
            Err(e) => final(rollup).voucher_count == old(rollup).voucher_count && final(rollup).outputs@ == old(rollup).outputs@ && match portal_of(encode_utf8(advance.msg_sender@)) {
                Portals::Unknown => false,
                Portals::EtherPortal => !ether_ok(advance.payload@) && e == ether_err(
                    advance.payload@,
                ),
                Portals::ERC1155BatchPortal => !batch_ok(advance.payload@) && e == batch_err(
                    advance.payload@,
                ),
                Portals::ERC1155SinglePortal => !single_ok(advance.payload@) && e == single_err(
                    advance.payload@,
                ),
                Portals::ERC20Portal => !erc20_721_ok(advance.payload@) && e == erc20_721_err(
                    advance.payload@,
                ),
                Portals::ERC721Portal => !erc20_721_ok(advance.payload@) && e == erc20_721_err(
                    advance.payload@,
                ),
            },
        },
{
    rollup.phase = Phase::Advance;
    match match_portal(advance.msg_sender.as_str()) {
        Portals::ERC1155BatchPortal => {
            let _deposit = handle_parse_erc1155_batch_deposit(advance.payload.clone())?;
            Ok(true)
        },
        Portals::ERC1155SinglePortal => {
            let _deposit = handle_parse_erc1155_single_deposit(advance.payload.clone())?;
            Ok(true)
        },
        Portals::ERC20Portal => {
            let _deposit = handle_parse_erc20_and_erc721_deposit(
                advance.payload.clone(),
                TokenType::Erc20,
            )?;
            Ok(true)
        },
        Portals::ERC721Portal => {
            let _deposit = handle_parse_erc20_and_erc721_deposit(
                advance.payload.clone(),
                TokenType::Erc721,
            )?;
            Ok(true)
        },
        Portals::EtherPortal => {
            let deposit = handle_parse_ether_deposit(advance.payload.clone())?;
            let ghost b = hex_str_bytes(advance.payload@);
            let value_hex = deposit.amount.to_hex_string();
            proof {
                lemma_hex_round_trip(b.subrange(0, 20));
                lemma_hex_round_trip(b.subrange(20, 52));
                lemma_hex_round_trip(b.skip(52));
                assert(strip_hex_prefix(value_hex@) =~= hex_chars_of(deposit.amount.data@));
                assert(hex_decoded_chars(strip_hex_prefix(deposit.sender@)) == b.subrange(0, 20));
                assert(value_of_hex(value_hex@) =~= b.subrange(20, 52));
            }
            match rollup.emit_voucher(
                deposit.sender.as_str(),
                Some(value_hex.as_str()),
                deposit.exec_layer_data.as_str(),
            ) {
                Ok(_) => Ok(true),
                Err(e) => {
                    // unreachable: every failure case of emit_voucher
                    // contradicts what the decoded deposit guarantees
                    proof {
                        assert(false);
                    }
                    Err(e)
                },
            }
        },
        Portals::Unknown => {
            match rollup.emit_report(&advance.payload) {
                Ok(()) => Ok(true),
                Err(e) => {
                    // unreachable: emitting a report always succeeds
                    proof {
                        assert(false);
                    }
                    Err(e)
                },
            }
        },
    }
}

/// Handle one inspect request: read-only, nothing is emitted, and the
/// request is accepted.
pub fn handle_inspect(rollup: &mut Rollup, _inspect: &Inspect) -> (r: Result<bool, RollupError>)
    ensures
        r == Result::<bool, RollupError>::Ok(true),
        final(rollup).phase == Phase::Inspect,
        final(rollup).voucher_count == old(rollup).voucher_count,
        final(rollup).delegate_voucher_count == old(rollup).delegate_voucher_count,
        final(rollup).notice_count == old(rollup).notice_count,
        final(rollup).outputs@ == old(rollup).outputs@,
{
    rollup.phase = Phase::Inspect;
    Ok(true)
}

} // verus!

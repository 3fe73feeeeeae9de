use rollup_codec::deposit::{handle_parse_erc20_and_erc721_deposit, Erc20OrErc721Deposit, TokenType};
use rollup_codec::errors::RollupError;
use rollup_codec::hexutil::{
    parse_address_20, parse_hex_bytes, parse_hex_fixed, parse_u256_32, to_hex, U256,
};
use rollup_codec::keccak;
use rollup_codec::rollup::{
    classify_request, convert_advance, convert_inspect, handle_advance, handle_inspect,
    resolve_handler_outcome, Advance, Inspect, Metadata, Output, Phase, RequestKind, Rollup,
};

#[test]
fn to_hex_is_prefixed_lowercase() {
    assert_eq!(to_hex(&[]), "0x");
    assert_eq!(to_hex(&[0x00, 0xab, 0xff]), "0x00abff");
}

#[test]
fn parse_hex_bytes_basics() {
    assert_eq!(parse_hex_bytes("").unwrap(), Vec::<u8>::new());
    assert_eq!(parse_hex_bytes("0x").unwrap(), Vec::<u8>::new());
    assert_eq!(parse_hex_bytes("0x0102").unwrap(), vec![1, 2]);
    assert_eq!(parse_hex_bytes("0102").unwrap(), vec![1, 2]);
    // an odd-length body is left-padded with one zero nibble
    assert_eq!(parse_hex_bytes("0x102").unwrap(), vec![1, 2]);
    // both cases are accepted
    assert_eq!(parse_hex_bytes("0xAbCd").unwrap(), vec![0xab, 0xcd]);
    assert_eq!(parse_hex_bytes("0x01zz"), Err(RollupError::InvalidHexInput));
    assert_eq!(parse_hex_bytes("héllo"), Err(RollupError::InvalidHexInput));
}

#[test]
fn parse_hex_fixed_checks_length() {
    assert_eq!(parse_hex_fixed("0x0102", 2).unwrap(), vec![1, 2]);
    assert_eq!(
        parse_hex_fixed("0x0102", 3),
        Err(RollupError::EncodingRangeError)
    );
    assert_eq!(parse_hex_fixed("0xzz", 1), Err(RollupError::InvalidHexInput));
}

#[test]
fn parse_address_20_checks_length_first() {
    let a = parse_address_20("0xc70076a466789B595b50959cdc261227F0D70051").unwrap();
    assert_eq!(a.data.len(), 20);
    assert_eq!(a.data[0], 0xc7);
    assert_eq!(a.data[19], 0x51);
    assert_eq!(
        parse_address_20("0x1234"),
        Err(RollupError::InvalidAddressEncoding)
    );
    assert_eq!(
        parse_address_20(&format!("0x{}", "zz".repeat(20))),
        Err(RollupError::InvalidHexInput)
    );
}

#[test]
fn parse_u256_32_pads_and_bounds() {
    let zero = parse_u256_32(None).unwrap();
    assert_eq!(zero.data, vec![0u8; 32]);
    let one = parse_u256_32(Some("0x1")).unwrap();
    let mut expected = vec![0u8; 31];
    expected.push(1);
    assert_eq!(one.data, expected);
    assert_eq!(
        parse_u256_32(Some(&format!("0x{}", "00".repeat(33)))),
        Err(RollupError::EncodingRangeError)
    );
    assert_eq!(
        parse_u256_32(Some("0xzz")),
        Err(RollupError::InvalidHexInput)
    );
}

#[test]
fn u256_hex_round_trip() {
    let v = U256::from_be_slice(&[0xde, 0xad]);
    let s = v.to_hex_string();
    assert_eq!(s, format!("0x{}dead", "00".repeat(30)));
    assert_eq!(parse_u256_32(Some(&s)).unwrap().data, v.data);
}

#[test]
fn selector_is_deterministic() {
    let a = keccak::funsel("transfer(address,uint256)");
    let b = keccak::funsel("transfer(address,uint256)");
    assert_eq!(a, b);
    // the well-known selector of this signature
    assert_eq!(a, 0xa9059cbb);
    assert_eq!(keccak::funsel("balanceOf(address)"), 0x70a08231);
}

#[test]
fn keccak_streaming_matches_one_shot() {
    let mut state = keccak::init();
    keccak::update(&mut state, b"ab");
    keccak::update(&mut state, b"cd");
    assert_eq!(keccak::finalize(&state), keccak::data(b"abcd"));
}

#[test]
fn keccak_known_digest_of_empty_input() {
    assert_eq!(
        hex::encode(keccak::data(&[])),
        "c5d2460186f7233c927e7db2dcc703c0e500b653ca82273b7bfad8045d85a470"
    );
}

#[test]
fn convert_advance_builds_hex_fields() {
    let a = convert_advance(
        1,
        7,
        1700000000,
        3,
        &[0x0a; 20],
        &[0xc7; 20],
        &[0x01; 32],
        &[0xff, 0x00],
    );
    assert_eq!(a.metadata.chain_id, 1);
    assert_eq!(a.metadata.block_number, 7);
    assert_eq!(a.metadata.block_timestamp, 1700000000);
    assert_eq!(a.metadata.index, 3);
    assert_eq!(a.app_contract, format!("0x{}", "0a".repeat(20)));
    assert_eq!(a.msg_sender, format!("0x{}", "c7".repeat(20)));
    assert_eq!(a.prev_randao, format!("0x{}", "01".repeat(32)));
    assert_eq!(a.payload, "0xff00");
}

#[test]
fn convert_advance_empty_payload() {
    let a = convert_advance(0, 0, 0, 0, &[0; 20], &[0; 20], &[0; 32], &[]);
    assert_eq!(a.payload, "0x");
}

#[test]
fn convert_inspect_builds_hex_payload() {
    let i = convert_inspect(&[0xab]);
    assert_eq!(i.payload, "0xab");
}

#[test]
fn classify_request_kinds() {
    assert_eq!(classify_request(0), RequestKind::Advance);
    assert_eq!(classify_request(1), RequestKind::Inspect);
    assert_eq!(classify_request(2), RequestKind::Unknown);
    assert_eq!(classify_request(-1), RequestKind::Unknown);
}

#[test]
fn handler_outcome_degrades_to_reject() {
    assert!(resolve_handler_outcome(&Ok(true)));
    assert!(!resolve_handler_outcome(&Ok(false)));
    assert!(!resolve_handler_outcome(&Err(RollupError::Truncated)));
}

#[test]
fn voucher_indices_are_sequential() {
    let mut r = Rollup::new();
    let addr = "0xc70076a466789B595b50959cdc261227F0D70051";
    assert_eq!(r.emit_voucher(addr, Some("0x1"), "0x").unwrap(), 0);
    assert_eq!(r.emit_voucher(addr, None, "0xbeef").unwrap(), 1);
    assert_eq!(r.emit_notice(&String::from("hello")).unwrap(), 0);
    assert_eq!(r.emit_voucher(addr, None, "0x").unwrap(), 2);
    assert_eq!(r.voucher_count, 3);
    assert_eq!(r.notice_count, 1);
    assert_eq!(r.outputs.len(), 4);
}

#[test]
fn voucher_records_parsed_fields() {
    let mut r = Rollup::new();
    r.emit_voucher(
        "0xc70076a466789B595b50959cdc261227F0D70051",
        Some("0x2a"),
        "0xcafe",
    )
    .unwrap();
    match &r.outputs[0] {
        Output::Voucher {
            destination,
            value,
            payload,
        } => {
            assert_eq!(destination.data[0], 0xc7);
            assert_eq!(destination.data.len(), 20);
            let mut expected = vec![0u8; 31];
            expected.push(0x2a);
            assert_eq!(value.data, expected);
            assert_eq!(payload, &vec![0xca, 0xfe]);
        }
        _ => panic!("expected a voucher"),
    }
}

#[test]
fn voucher_rejects_bad_arguments() {
    let mut r = Rollup::new();
    assert_eq!(
        r.emit_voucher("0x1234", None, "0x"),
        Err(RollupError::InvalidAddressEncoding)
    );
    let addr = "0xc70076a466789B595b50959cdc261227F0D70051";
    assert_eq!(
        r.emit_voucher(addr, Some("0xzz"), "0x"),
        Err(RollupError::InvalidHexInput)
    );
    assert_eq!(
        r.emit_voucher(addr, Some(&format!("0x{}", "11".repeat(33))), "0x"),
        Err(RollupError::EncodingRangeError)
    );
    assert_eq!(
        r.emit_voucher(addr, None, "0xqq"),
        Err(RollupError::InvalidHexInput)
    );
    assert_eq!(r.outputs.len(), 0);
}

#[test]
fn settlement_outputs_are_rejected_during_inspect() {
    let mut r = Rollup::new();
    handle_inspect(&mut r, &Inspect { payload: String::from("0x") }).unwrap();
    assert_eq!(r.phase, Phase::Inspect);
    let addr = "0xc70076a466789B595b50959cdc261227F0D70051";
    assert_eq!(
        r.emit_voucher(addr, None, "0x"),
        Err(RollupError::InvalidOutputForInspect)
    );
    assert_eq!(
        r.emit_delegate_call_voucher(&String::from(addr), &String::from("x")),
        Err(RollupError::InvalidOutputForInspect)
    );
    assert_eq!(
        r.emit_notice(&String::from("n")),
        Err(RollupError::InvalidOutputForInspect)
    );
    assert_eq!(
        r.emit_exception(&String::from("e")),
        Err(RollupError::InvalidOutputForInspect)
    );
    // a report is read-only and stays legal
    r.emit_report(&String::from("diagnostic")).unwrap();
    assert_eq!(r.outputs.len(), 1);
}

#[test]
fn delegate_voucher_keeps_raw_payload() {
    let mut r = Rollup::new();
    let idx = r
        .emit_delegate_call_voucher(
            &String::from("0xc70076a466789B595b50959cdc261227F0D70051"),
            &String::from("raw bytes"),
        )
        .unwrap();
    assert_eq!(idx, 0);
    match &r.outputs[0] {
        Output::DelegateCallVoucher { payload, .. } => {
            assert_eq!(payload, &b"raw bytes".to_vec());
        }
        _ => panic!("expected a delegate-call voucher"),
    }
}

#[test]
fn exception_is_recorded() {
    let mut r = Rollup::new();
    r.emit_exception(&String::from("halt")).unwrap();
    assert!(matches!(&r.outputs[0], Output::Exception { .. }));
}

fn advance_from(sender: &str, payload: &str) -> Advance {
    Advance {
        metadata: Metadata {
            chain_id: 1,
            block_number: 1,
            block_timestamp: 0,
            index: 0,
        },
        app_contract: format!("0x{}", "00".repeat(20)),
        msg_sender: String::from(sender),
        prev_randao: format!("0x{}", "00".repeat(32)),
        payload: String::from(payload),
    }
}

#[test]
fn unknown_portal_reports_and_accepts() {
    let mut r = Rollup::new();
    let adv = advance_from("0x0000000000000000000000000000000000000001", "0x1234");
    let accept = handle_advance(&mut r, &adv).unwrap();
    assert!(accept);
    assert_eq!(r.voucher_count, 0);
    assert_eq!(r.outputs.len(), 1);
    match &r.outputs[0] {
        Output::Report { payload } => assert_eq!(payload, &b"0x1234".to_vec()),
        _ => panic!("expected a report"),
    }
}

#[test]
fn ether_portal_advance_emits_voucher() {
    let mut r = Rollup::new();
    let payload = format!("0x{}{}{}", "aa".repeat(20), "00".repeat(31), "05");
    let adv = advance_from("0xc70076a466789B595b50959cdc261227F0D70051", &payload);
    let accept = handle_advance(&mut r, &adv).unwrap();
    assert!(accept);
    assert_eq!(r.voucher_count, 1);
    match &r.outputs[0] {
        Output::Voucher {
            destination,
            value,
            payload,
        } => {
            assert_eq!(destination.data, vec![0xaa; 20]);
            let mut expected = vec![0u8; 31];
            expected.push(5);
            assert_eq!(value.data, expected);
            assert_eq!(payload, &Vec::<u8>::new());
        }
        _ => panic!("expected a voucher"),
    }
}

#[test]
fn malformed_deposit_rejects_the_advance() {
    let mut r = Rollup::new();
    let adv = advance_from("0xc70076a466789B595b50959cdc261227F0D70051", "0x00");
    let outcome = handle_advance(&mut r, &adv);
    assert!(outcome.is_err());
    assert!(!resolve_handler_outcome(&outcome));
    assert_eq!(r.outputs.len(), 0);
}

#[test]
fn erc20_portal_advance_validates_payload() {
    let mut r = Rollup::new();
    let payload = format!("0x{}{}{}", "11".repeat(20), "22".repeat(20), "00".repeat(32));
    let adv = advance_from("0xc700D6aDd016eECd59d989C028214Eaa0fCC0051", &payload);
    assert!(handle_advance(&mut r, &adv).unwrap());
    assert_eq!(r.outputs.len(), 0);
}

#[test]
fn fungible_deposit_round_trip_into_voucher() {
    // decode a fungible transfer, then emit a voucher paying the decoded
    // amount back to the decoded sender: the first voucher index is 0
    let payload = format!(
        "0x{}{}{}{}",
        "11".repeat(20),
        "22".repeat(20),
        "00".repeat(31),
        "63"
    );
    let deposit = match handle_parse_erc20_and_erc721_deposit(payload, TokenType::Erc20).unwrap() {
        Erc20OrErc721Deposit::Erc20(d) => d,
        Erc20OrErc721Deposit::Erc721(_) => panic!("expected a fungible deposit"),
    };
    let mut r = Rollup::new();
    let value_hex = deposit.amount.to_hex_string();
    let idx = r
        .emit_voucher(&deposit.sender, Some(&value_hex), &deposit.exec_layer_data)
        .unwrap();
    assert_eq!(idx, 0);
    match &r.outputs[0] {
        Output::Voucher {
            destination, value, ..
        } => {
            assert_eq!(destination.data, vec![0x22; 20]);
            let mut expected = vec![0u8; 31];
            expected.push(0x63);
            assert_eq!(value.data, expected);
        }
        _ => panic!("expected a voucher"),
    }
    let idx2 = r
        .emit_voucher(&deposit.sender, Some(&value_hex), &deposit.exec_layer_data)
        .unwrap();
    assert_eq!(idx2, 1);
}

#[test]
fn inspect_is_read_only_and_accepted() {
    let mut r = Rollup::new();
    let outcome = handle_inspect(&mut r, &Inspect { payload: String::from("0xab") });
    assert_eq!(outcome, Ok(true));
    assert_eq!(r.phase, Phase::Inspect);
    assert_eq!(r.outputs.len(), 0);
}

use rollup_codec::deposit::{
    handle_parse_erc1155_batch_deposit, handle_parse_erc1155_single_deposit,
    handle_parse_erc20_and_erc721_deposit, handle_parse_ether_deposit, match_portal,
    Erc20OrErc721Deposit, Portals, TokenType,
};
use rollup_codec::errors::{MalformedReason, RollupError};

fn word(v: u64) -> Vec<u8> {
    let mut w = vec![0u8; 24];
    w.extend_from_slice(&v.to_be_bytes());
    w
}

fn build_batch(ids: &[u64], amts: &[u64], base: &[u8], exec: &[u8]) -> String {
    let mut b = vec![0x11u8; 20];
    b.extend_from_slice(&[0x22; 20]);
    b.extend_from_slice(&[0; 24]);
    let o1 = 192u64;
    let o2 = o1 + 32 + 32 * ids.len() as u64;
    let o3 = o2 + 32 + 32 * amts.len() as u64;
    let o4 = o3 + 32 + base.len() as u64;
    for o in [o1, o2, o3, o4] {
        b.extend_from_slice(&word(o));
    }
    b.extend_from_slice(&word(ids.len() as u64));
    for &id in ids {
        b.extend_from_slice(&word(id));
    }
    b.extend_from_slice(&word(amts.len() as u64));
    for &a in amts {
        b.extend_from_slice(&word(a));
    }
    b.extend_from_slice(&word(base.len() as u64));
    b.extend_from_slice(base);
    b.extend_from_slice(&word(exec.len() as u64));
    b.extend_from_slice(exec);
    format!("0x{}", hex::encode(b))
}

#[test]
fn portal_table_matches_known_addresses() {
    assert_eq!(
        match_portal("0xc700A2e5531E720a2434433b6ccf4c0eA2400051"),
        Portals::ERC1155BatchPortal
    );
    assert_eq!(
        match_portal("0xc700A261279aFC6F755A3a67D86ae43E2eBD0051"),
        Portals::ERC1155SinglePortal
    );
    assert_eq!(
        match_portal("0xc700D6aDd016eECd59d989C028214Eaa0fCC0051"),
        Portals::ERC20Portal
    );
    assert_eq!(
        match_portal("0xc700d52F5290e978e9CAe7D1E092935263b60051"),
        Portals::ERC721Portal
    );
    assert_eq!(
        match_portal("0xc70076a466789B595b50959cdc261227F0D70051"),
        Portals::EtherPortal
    );
}

#[test]
fn portal_table_is_case_insensitive() {
    assert_eq!(
        match_portal("0XC70076A466789B595B50959CDC261227F0D70051"),
        Portals::EtherPortal
    );
    assert_eq!(
        match_portal("0xc70076a466789b595b50959cdc261227f0d70051"),
        Portals::EtherPortal
    );
}

#[test]
fn portal_table_rejects_unknown() {
    assert_eq!(
        match_portal("0x0000000000000000000000000000000000000001"),
        Portals::Unknown
    );
    assert_eq!(match_portal("not an address"), Portals::Unknown);
}

#[test]
fn ether_deposit_scenario() {
    // 20-byte sender 0xaa..aa, 32-byte amount 1, no trailing data
    let payload = format!("0x{}{}{}", "aa".repeat(20), "00".repeat(31), "01");
    let d = handle_parse_ether_deposit(payload).unwrap();
    assert_eq!(d.sender, "aa".repeat(20));
    let mut amount = vec![0u8; 31];
    amount.push(1);
    assert_eq!(d.amount.data, amount);
    assert_eq!(d.exec_layer_data, "");
}

#[test]
fn ether_deposit_keeps_trailing_data() {
    let payload = format!("0x{}{}{}", "aa".repeat(20), "00".repeat(32), "cafe");
    let d = handle_parse_ether_deposit(payload).unwrap();
    assert_eq!(d.exec_layer_data, "cafe");
}

#[test]
fn ether_deposit_short_payload() {
    let payload = format!("0x{}", "aa".repeat(51));
    assert!(matches!(
        handle_parse_ether_deposit(payload),
        Err(RollupError::MalformedDeposit(MalformedReason::ShortPayload))
    ));
}

#[test]
fn ether_deposit_invalid_hex() {
    assert!(matches!(
        handle_parse_ether_deposit(String::from("0xzz")),
        Err(RollupError::InvalidHexInput)
    ));
}

#[test]
fn erc20_deposit_fields() {
    let payload = format!(
        "0x{}{}{}{}",
        "11".repeat(20),
        "22".repeat(20),
        "00".repeat(30),
        "1234beef"
    );
    match handle_parse_erc20_and_erc721_deposit(payload, TokenType::Erc20).unwrap() {
        Erc20OrErc721Deposit::Erc20(d) => {
            assert_eq!(d.token, "11".repeat(20));
            assert_eq!(d.sender, "22".repeat(20));
            let mut amount = vec![0u8; 30];
            amount.extend_from_slice(&[0x12, 0x34]);
            assert_eq!(d.amount.data, amount);
            assert_eq!(d.exec_layer_data, "beef");
        }
        Erc20OrErc721Deposit::Erc721(_) => panic!("expected a fungible deposit"),
    }
}

#[test]
fn erc721_deposit_fields() {
    let payload = format!(
        "0x{}{}{}{}",
        "11".repeat(20),
        "22".repeat(20),
        "00".repeat(31),
        "07"
    );
    match handle_parse_erc20_and_erc721_deposit(payload, TokenType::Erc721).unwrap() {
        Erc20OrErc721Deposit::Erc721(d) => {
            let mut id = vec![0u8; 31];
            id.push(7);
            assert_eq!(d.token_id.data, id);
            assert_eq!(d.exec_layer_data, "");
        }
        Erc20OrErc721Deposit::Erc20(_) => panic!("expected a non-fungible deposit"),
    }
}

#[test]
fn erc20_deposit_short_payload() {
    let payload = format!("0x{}", "11".repeat(71));
    assert!(matches!(
        handle_parse_erc20_and_erc721_deposit(payload, TokenType::Erc20),
        Err(RollupError::MalformedDeposit(MalformedReason::ShortPayload))
    ));
}

#[test]
fn single_deposit_fields() {
    let payload = format!(
        "0x{}{}{}{}{}{}",
        "11".repeat(20),
        "22".repeat(20),
        "33".repeat(32),
        "44".repeat(32),
        "55".repeat(32),
        "beef"
    );
    let d = handle_parse_erc1155_single_deposit(payload).unwrap();
    assert_eq!(d.token, "11".repeat(20));
    assert_eq!(d.sender, "22".repeat(20));
    assert_eq!(d.token_id.data, vec![0x33; 32]);
    assert_eq!(d.amount.data, vec![0x44; 32]);
    assert_eq!(d.base_layer_data, "55".repeat(32));
    assert_eq!(d.exec_layer_data, "beef");
}

#[test]
fn single_deposit_short_payload() {
    let payload = format!("0x{}", "11".repeat(135));
    assert!(matches!(
        handle_parse_erc1155_single_deposit(payload),
        Err(RollupError::MalformedDeposit(MalformedReason::ShortPayload))
    ));
}

#[test]
fn batch_deposit_round_trip() {
    let payload = build_batch(&[1, 2, 3], &[40, 50, 60], &[0xaa], &[0xbb, 0xcc]);
    let d = handle_parse_erc1155_batch_deposit(payload).unwrap();
    assert_eq!(d.token, "11".repeat(20));
    assert_eq!(d.sender, "22".repeat(20));
    assert_eq!(d.count, 3);
    assert_eq!(d.token_ids.len(), 3);
    assert_eq!(d.amounts.len(), 3);
    for (i, expected) in [1u64, 2, 3].iter().enumerate() {
        assert_eq!(d.token_ids[i].data, word(*expected));
    }
    for (i, expected) in [40u64, 50, 60].iter().enumerate() {
        assert_eq!(d.amounts[i].data, word(*expected));
    }
    assert_eq!(d.base_layer_data, "aa");
    assert_eq!(d.exec_layer_data, "bbcc");
}

#[test]
fn batch_deposit_length_mismatch() {
    let payload = build_batch(&[1, 2], &[3], &[], &[]);
    assert!(matches!(
        handle_parse_erc1155_batch_deposit(payload),
        Err(RollupError::MalformedDeposit(
            MalformedReason::LengthMismatchOrEmpty
        ))
    ));
}

#[test]
fn batch_deposit_empty_arrays() {
    let payload = build_batch(&[], &[], &[], &[]);
    assert!(matches!(
        handle_parse_erc1155_batch_deposit(payload),
        Err(RollupError::MalformedDeposit(
            MalformedReason::LengthMismatchOrEmpty
        ))
    ));
}

#[test]
fn batch_deposit_short_payload() {
    let payload = format!("0x{}", "00".repeat(135));
    assert!(matches!(
        handle_parse_erc1155_batch_deposit(payload),
        Err(RollupError::MalformedDeposit(MalformedReason::ShortPayload))
    ));
}

#[test]
fn batch_deposit_truncated_header() {
    // long enough for the explicit length check, too short for the offsets
    let payload = format!("0x{}", "00".repeat(150));
    assert!(matches!(
        handle_parse_erc1155_batch_deposit(payload),
        Err(RollupError::Truncated)
    ));
}

#[test]
fn batch_deposit_dangling_array_offset() {
    // a full header whose first offset points past the end of the payload
    let mut b = vec![0x11u8; 20];
    b.extend_from_slice(&[0x22; 20]);
    b.extend_from_slice(&[0; 24]);
    for o in [100_000u64, 192, 192, 192] {
        b.extend_from_slice(&word(o));
    }
    b.extend_from_slice(&word(0));
    let payload = format!("0x{}", hex::encode(b));
    assert!(matches!(
        handle_parse_erc1155_batch_deposit(payload),
        Err(RollupError::Truncated)
    ));
}

#[test]
fn batch_deposit_oversized_array_length() {
    // offsets in bounds, but the declared element count overruns the payload
    let mut b = vec![0x11u8; 20];
    b.extend_from_slice(&[0x22; 20]);
    b.extend_from_slice(&[0; 24]);
    for o in [192u64, 192, 192, 192] {
        b.extend_from_slice(&word(o));
    }
    b.extend_from_slice(&word(1000));
    let payload = format!("0x{}", hex::encode(b));
    assert!(matches!(
        handle_parse_erc1155_batch_deposit(payload),
        Err(RollupError::Truncated)
    ));
}

use evm_gateway::rpc_args::{
    parse_fixed_hex, BlockSpec, BlockTag, DataFormatError, FeeHistoryArgs, GetLogsArgs,
    GetTransactionCountArgs,
};

const ADDRESS: &str = "0x7a250d5630B4cF539739dF2C5dAcb4c659F2488D";
const TOPIC: &str = "0xddf252ad1be2c89b69c2b068fc378daa952ba7f163c4a11628f55a4df523b3ef";

#[test]
fn hex_parsing() {
    assert_eq!(parse_fixed_hex("0x00ff10Ab", 4), Some(vec![0, 255, 16, 171]));
    assert_eq!(parse_fixed_hex("0x", 0), Some(vec![]));
    assert_eq!(parse_fixed_hex("00ff", 2), None);
    assert_eq!(parse_fixed_hex("0X00ff", 2), None);
    assert_eq!(parse_fixed_hex("0x00f", 2), None);
    assert_eq!(parse_fixed_hex("0x00fg", 2), None);
    let a = parse_fixed_hex(ADDRESS, 20).unwrap();
    assert_eq!(a.len(), 20);
    assert_eq!(a[0], 0x7a);
    assert_eq!(a[19], 0x8d);
}

#[test]
fn logs_args_are_checked_and_defaulted() {
    let args = GetLogsArgs {
        from_block: Some(BlockSpec::Number(5)),
        to_block: None,
        addresses: vec![ADDRESS.to_string()],
        topics: Some(vec![TOPIC.to_string()]),
    };
    let p = args.try_into_param().ok().unwrap();
    assert!(matches!(p.from_block, BlockSpec::Number(5)));
    assert!(matches!(p.to_block, BlockSpec::Tag(BlockTag::Latest)));
    assert_eq!(p.address.len(), 1);
    assert_eq!(p.topics.len(), 1);
    assert_eq!(p.topics[0][0], 0xdd);

    let args = GetLogsArgs {
        from_block: None,
        to_block: None,
        addresses: vec![ADDRESS.to_string(), "0x1234".to_string()],
        topics: None,
    };
    match args.try_into_param() {
        Err(DataFormatError::InvalidHex(s)) => assert_eq!(s, "0x1234"),
        _ => panic!("expected InvalidHex"),
    }
    let args = GetLogsArgs {
        from_block: None,
        to_block: None,
        addresses: vec![],
        topics: Some(vec![ADDRESS.to_string()]),
    };
    assert!(args.try_into_param().is_err());
}

#[test]
fn transaction_count_args() {
    let ok = GetTransactionCountArgs { address: ADDRESS.to_string(), block: BlockSpec::Tag(BlockTag::Safe) };
    let p = ok.try_into_params().ok().unwrap();
    assert_eq!(p.address.len(), 20);
    assert!(matches!(p.block, BlockSpec::Tag(BlockTag::Safe)));
    let bad = GetTransactionCountArgs { address: "vitalik.eth".to_string(), block: BlockSpec::Number(1) };
    match bad.try_into_params() {
        Err(DataFormatError::InvalidHex(s)) => assert_eq!(s, "vitalik.eth"),
        _ => panic!("expected InvalidHex"),
    }
}

#[test]
fn fee_history_defaults_percentiles() {
    let a = FeeHistoryArgs { block_count: 4, newest_block: BlockSpec::Tag(BlockTag::Finalized), reward_percentiles: None };
    let p = a.into_params();
    assert_eq!(p.block_count, 4);
    assert!(p.reward_percentiles.is_empty());
    assert!(matches!(p.highest_block, BlockSpec::Tag(BlockTag::Finalized)));
    let a = FeeHistoryArgs { block_count: 1, newest_block: BlockSpec::Number(9), reward_percentiles: Some(vec![10, 90]) };
    assert_eq!(a.into_params().reward_percentiles, vec![10, 90]);
}

#[test]
fn logs_args_error_names_first_bad_text() {
    let args = GetLogsArgs {
        from_block: None,
        to_block: None,
        addresses: vec![ADDRESS.to_string(), "0x01".to_string(), "zz".to_string()],
        topics: Some(vec!["0x02".to_string()]),
    };
    match args.try_into_param() {
        Err(DataFormatError::InvalidHex(s)) => assert_eq!(s, "0x01"),
        _ => panic!("expected InvalidHex"),
    }
    let args = GetLogsArgs {
        from_block: None,
        to_block: None,
        addresses: vec![ADDRESS.to_string()],
        topics: Some(vec![TOPIC.to_string(), "0x03".to_string(), "0x04".to_string()]),
    };
    match args.try_into_param() {
        Err(DataFormatError::InvalidHex(s)) => assert_eq!(s, "0x03"),
        _ => panic!("expected InvalidHex"),
    }
}

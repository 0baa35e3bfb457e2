use eth_receipts::eth_rpc::Digest;
use eth_receipts::eth_rpc::HttpResponsePayload;
use eth_receipts::eth_rpc::ResponseTransform;
use eth_receipts::numeric::BlockNumber;
use eth_receipts::numeric::GasAmount;
use eth_receipts::numeric::Wei;
use eth_receipts::numeric::WeiPerGas;
use eth_receipts::responses::ReceiptDecodeError;
use eth_receipts::responses::ReceiptField;
use eth_receipts::responses::TransactionReceipt;
use eth_receipts::responses::TransactionStatus;
use eth_receipts::u256::U256;

fn valid_fields() -> Vec<ReceiptField> {
    vec![
        ReceiptField::BlockHash(vec![0xaa; 32]),
        ReceiptField::BlockNumber(U256::from_u64(100)),
        ReceiptField::EffectiveGasPrice(U256::from_u64(20_000_000_000)),
        ReceiptField::GasUsed(U256::from_u64(21_000)),
        ReceiptField::Status(U256::from_u64(1)),
        ReceiptField::TransactionHash(vec![0xbb; 32]),
    ]
}

#[test]
fn status_decodes_zero_as_failure() {
    let r = TransactionStatus::try_from_u256(&U256::from_u64(0));
    assert_eq!(r, Ok(TransactionStatus::Failure));
}

#[test]
fn status_decodes_one_as_success() {
    let r = TransactionStatus::try_from_u256(&U256::from_u64(1));
    assert_eq!(r, Ok(TransactionStatus::Success));
}

#[test]
fn status_rejects_two_with_offending_value() {
    let r = TransactionStatus::try_from_u256(&U256::from_u64(2));
    let e = r.unwrap_err();
    assert_eq!(e.raw_value, U256::from_u64(2));
}

#[test]
fn status_rejects_values_outside_domain() {
    for v in [2u64, 3, 17, u64::MAX] {
        assert!(TransactionStatus::try_from_u256(&U256::from_u64(v)).is_err());
    }
    // A value whose high half is set is outside the domain even though its
    // low half reads 0 or 1.
    assert!(TransactionStatus::try_from_u256(&U256::from_words(0, 1)).is_err());
    assert!(TransactionStatus::try_from_u256(&U256::from_words(1, 5)).is_err());
}

#[test]
fn status_round_trips_through_wire_integer() {
    for s in [TransactionStatus::Success, TransactionStatus::Failure] {
        let encoded = s.to_u256();
        assert_eq!(TransactionStatus::try_from_u256(&encoded), Ok(s));
    }
    for v in [0u64, 1] {
        let decoded = TransactionStatus::try_from_u256(&U256::from_u64(v)).unwrap();
        assert_eq!(decoded.to_u256(), U256::from_u64(v));
    }
}

#[test]
fn status_renders_diagnostic_names() {
    assert_eq!(TransactionStatus::Success.as_str(), "Success");
    assert_eq!(TransactionStatus::Failure.as_str(), "Failure");
}

#[test]
fn u256_checked_add_is_exact() {
    let a = U256::from_u128(u128::MAX);
    let b = U256::from_u64(1);
    let s = a.checked_add(&b).unwrap();
    assert_eq!(s, U256::from_words(0, 1));
}

#[test]
fn u256_checked_add_rejects_overflow() {
    let max = U256::from_words(u128::MAX, u128::MAX);
    assert!(max.checked_add(&U256::from_u64(1)).is_none());
    assert!(max.checked_add(&U256::from_u64(0)).is_some());
}

#[test]
fn u256_checked_mul_is_exact() {
    let a = U256::from_u64(20_000_000_000);
    let p = a.checked_mul_u64(21_000).unwrap();
    assert_eq!(p, U256::from_u64(420_000_000_000_000));
    // A product crossing the 128-bit half boundary.
    let b = U256::from_u128(u128::MAX);
    let q = b.checked_mul_u64(2).unwrap();
    assert_eq!(q, U256::from_words(u128::MAX - 1, 1));
}

#[test]
fn u256_checked_mul_rejects_overflow() {
    let half = U256::from_words(0, u128::MAX);
    assert!(half.checked_mul_u64(u64::MAX).is_none());
    assert!(U256::from_words(u128::MAX, u128::MAX).checked_mul_u64(2).is_none());
}

#[test]
fn u256_orders_numerically() {
    let small = U256::from_u128(u128::MAX);
    let big = U256::from_words(0, 1);
    assert!(small.less_than(&big));
    assert!(!big.less_than(&small));
    assert!(!big.less_than(&big));
}

#[test]
fn u256_word_round_trip() {
    let v = U256::from_words(7, 9);
    assert_eq!(v.to_words(), (7, 9));
    assert_eq!(U256::from_u64(5).try_to_u64(), Some(5));
    assert_eq!(U256::from_words(0, 1).try_to_u64(), None);
}

#[test]
fn wei_checked_add() {
    let a = Wei::new(U256::from_u64(40));
    let b = Wei::new(U256::from_u64(2));
    assert_eq!(a.checked_add(&b), Some(Wei::new(U256::from_u64(42))));
    let max = Wei::new(U256::from_words(u128::MAX, u128::MAX));
    assert_eq!(max.checked_add(&b), None);
}

#[test]
fn gas_amount_checked_add() {
    let a = GasAmount::new(u64::MAX - 1);
    assert_eq!(a.checked_add(&GasAmount::new(1)), Some(GasAmount::new(u64::MAX)));
    assert_eq!(a.checked_add(&GasAmount::new(2)), None);
}

#[test]
fn numeric_types_order_by_value() {
    assert!(Wei::new(U256::from_u64(1)).less_than(&Wei::new(U256::from_u64(2))));
    assert!(!WeiPerGas::new(U256::from_u64(2)).less_than(&WeiPerGas::new(U256::from_u64(2))));
    assert!(GasAmount::new(1).less_than(&GasAmount::new(2)));
    assert!(BlockNumber::new(99).less_than(&BlockNumber::new(100)));
}

#[test]
fn transaction_cost_is_checked_multiply() {
    let price = WeiPerGas::new(U256::from_u64(20_000_000_000));
    let cost = price.transaction_cost(GasAmount::new(21_000));
    assert_eq!(cost, Some(Wei::new(U256::from_u64(420_000_000_000_000))));
}

#[test]
fn transaction_cost_signals_overflow() {
    let price = WeiPerGas::new(U256::from_words(u128::MAX, u128::MAX));
    assert_eq!(price.transaction_cost(GasAmount::new(2)), None);
}

#[test]
fn digest_requires_exactly_32_bytes() {
    assert!(Digest::from_bytes(vec![0u8; 31]).is_none());
    assert!(Digest::from_bytes(vec![0u8; 33]).is_none());
    assert!(Digest::from_bytes(vec![]).is_none());
    let d = Digest::from_bytes(vec![0xab; 32]).unwrap();
    assert_eq!(d.as_bytes(), &vec![0xab; 32]);
}

#[test]
fn receipt_decodes_valid_response() {
    let receipt = TransactionReceipt::decode(valid_fields()).unwrap();
    assert_eq!(receipt.block_hash, Digest::from_bytes(vec![0xaa; 32]).unwrap());
    assert_eq!(receipt.block_number, BlockNumber::new(100));
    assert_eq!(receipt.effective_gas_price, WeiPerGas::new(U256::from_u64(20_000_000_000)));
    assert_eq!(receipt.gas_used, GasAmount::new(21_000));
    assert_eq!(receipt.status, TransactionStatus::Success);
    assert_eq!(receipt.transaction_hash, Digest::from_bytes(vec![0xbb; 32]).unwrap());
}

#[test]
fn receipt_fee_matches_price_times_gas() {
    let receipt = TransactionReceipt::decode(valid_fields()).unwrap();
    let fee = receipt.effective_transaction_fee();
    assert_eq!(fee, Wei::new(U256::from_u64(420_000_000_000_000)));
    assert_eq!(receipt.checked_transaction_fee(), Ok(fee));
}

#[test]
fn receipt_fee_overflow_is_fatal_error() {
    let mut fields = valid_fields();
    fields[2] = ReceiptField::EffectiveGasPrice(U256::from_words(u128::MAX, u128::MAX));
    fields[3] = ReceiptField::GasUsed(U256::from_u64(2));
    let receipt = TransactionReceipt::decode(fields).unwrap();
    let err = receipt.checked_transaction_fee().unwrap_err();
    assert_eq!(err.effective_gas_price, receipt.effective_gas_price);
    assert_eq!(err.gas_used, receipt.gas_used);
}

#[test]
fn receipt_decode_is_order_independent() {
    let mut reordered = valid_fields();
    reordered.reverse();
    let a = TransactionReceipt::decode(valid_fields()).unwrap();
    let b = TransactionReceipt::decode(reordered).unwrap();
    assert_eq!(a, b);
}

#[test]
fn receipt_rejects_duplicate_field() {
    let mut fields = valid_fields();
    fields.push(ReceiptField::Status(U256::from_u64(0)));
    assert!(matches!(
        TransactionReceipt::decode(fields),
        Err(ReceiptDecodeError::DuplicateField)
    ));
}

#[test]
fn receipt_rejects_missing_field() {
    let mut fields = valid_fields();
    fields.pop();
    assert!(matches!(
        TransactionReceipt::decode(fields),
        Err(ReceiptDecodeError::MissingField)
    ));
    assert!(matches!(
        TransactionReceipt::decode(Vec::new()),
        Err(ReceiptDecodeError::MissingField)
    ));
}

#[test]
fn receipt_rejects_bad_block_hash_length() {
    let mut fields = valid_fields();
    fields[0] = ReceiptField::BlockHash(vec![0xaa; 31]);
    match TransactionReceipt::decode(fields) {
        Err(ReceiptDecodeError::InvalidBlockHash(b)) => assert_eq!(b.len(), 31),
        other => panic!("expected an invalid block hash error, got {:?}", other),
    }
}

#[test]
fn receipt_rejects_bad_transaction_hash_length() {
    let mut fields = valid_fields();
    fields[5] = ReceiptField::TransactionHash(vec![0xbb; 33]);
    match TransactionReceipt::decode(fields) {
        Err(ReceiptDecodeError::InvalidTransactionHash(b)) => assert_eq!(b.len(), 33),
        other => panic!("expected an invalid transaction hash error, got {:?}", other),
    }
}

#[test]
fn receipt_rejects_oversized_block_number() {
    let mut fields = valid_fields();
    fields[1] = ReceiptField::BlockNumber(U256::from_words(0, 1));
    match TransactionReceipt::decode(fields) {
        Err(ReceiptDecodeError::InvalidBlockNumber(n)) => assert_eq!(n, U256::from_words(0, 1)),
        other => panic!("expected an invalid block number error, got {:?}", other),
    }
}

#[test]
fn receipt_rejects_oversized_gas_used() {
    let mut fields = valid_fields();
    fields[3] = ReceiptField::GasUsed(U256::from_u128(u128::MAX));
    match TransactionReceipt::decode(fields) {
        Err(ReceiptDecodeError::InvalidGasUsed(n)) => assert_eq!(n, U256::from_u128(u128::MAX)),
        other => panic!("expected an invalid gas used error, got {:?}", other),
    }
}

#[test]
fn receipt_rejects_out_of_domain_status() {
    let mut fields = valid_fields();
    fields[4] = ReceiptField::Status(U256::from_u64(2));
    match TransactionReceipt::decode(fields) {
        Err(ReceiptDecodeError::InvalidStatus(n)) => assert_eq!(n, U256::from_u64(2)),
        other => panic!("expected an invalid status error, got {:?}", other),
    }
}

#[test]
fn receipt_advertises_canonicalization_transform() {
    assert_eq!(
        <TransactionReceipt as HttpResponsePayload>::response_transform(),
        Some(ResponseTransform::TransactionReceipt)
    );
}

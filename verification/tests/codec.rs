use rustorium::codec::{blake3_hash, hex_decode_32, hex_encode, sha256_hash, HexError};
use rustorium::node::sharding::ShardAddress;
use rustorium::node::transaction::processor::{receipt_for, transaction_hash, TxStatus};
use rustorium::node::types::Address;

#[test]
fn hex_encode_is_lowercase_pairs() {
    assert_eq!(hex_encode(&[0x00, 0x0f, 0xab, 0xff]), "000fabff");
    assert_eq!(hex_encode(&[]), "");
}

#[test]
fn hex_decode_32_errors_in_order() {
    assert_eq!(hex_decode_32(b"abc"), Err(HexError::OddLength));
    assert_eq!(hex_decode_32(b"abcd"), Err(HexError::InvalidStringLength));
    let mut digits = vec![b'0'; 64];
    digits[5] = b'g';
    digits[9] = b'z';
    assert_eq!(
        hex_decode_32(&digits),
        Err(HexError::InvalidHexCharacter { c: 'g', index: 5 })
    );
}

#[test]
fn address_from_hex_round_trip() {
    let mut bytes = [0u8; 32];
    for (i, b) in bytes.iter_mut().enumerate() {
        *b = (i as u8) * 7;
    }
    let a = Address::new(bytes);
    let text = a.to_hex();
    assert_eq!(text.len(), 66);
    assert!(text.starts_with("0x"));
    let back = Address::from_hex(&text).unwrap();
    assert_eq!(back, a);
    let without = Address::from_hex(&text[2..]).unwrap();
    assert_eq!(without, a);
    let doubled = format!("0x{}", text);
    assert_eq!(Address::from_hex(&doubled).unwrap(), a);
}

#[test]
fn address_from_hex_rejects_bad_input() {
    assert_eq!(Address::from_hex("0x123"), Err(HexError::OddLength));
    assert_eq!(Address::from_hex("0x1234"), Err(HexError::InvalidStringLength));
    let upper = "AB".repeat(32);
    assert_eq!(Address::from_hex(&upper).unwrap().as_bytes(), &[0xab; 32][..]);
}

#[test]
fn address_to_hex_of_zero() {
    assert_eq!(Address::new([0u8; 32]).to_hex(), format!("0x{}", "0".repeat(64)));
}

#[test]
fn blake3_and_sha256_digests() {
    assert_eq!(
        hex_encode(&blake3_hash(b"")),
        "af1349b9f5f9a1a6a0404dea36dcc9499bcb25c9adc112b7cc9a93cae41f3262"
    );
    assert_eq!(
        hex_encode(&sha256_hash(b"abc")),
        "ba7816bf8f01cfea414140de5dae2223b00361a396177a9cb410ff61f20015ad"
    );
}

#[test]
fn shard_address_checksum_and_text() {
    let account = [1u8; 32];
    let a = ShardAddress::new(7, account);
    let mut data = vec![0, 0, 0, 7];
    data.extend_from_slice(&account);
    let h = blake3_hash(&data);
    assert_eq!(a.checksum, [h[0], h[1], h[2], h[3]]);
    assert_eq!(
        a.to_string(),
        format!("sh7-{}-{}", "01".repeat(32), hex_encode(&h[0..4]))
    );
    let b = ShardAddress::new(8, account);
    assert_ne!(a.checksum, b.checksum);
    assert!(ShardAddress::new(4294967295, account).to_string().starts_with("sh4294967295-"));
}

#[test]
fn test_transaction_hash() {
    let hash = transaction_hash("tx-1", b"test data");
    assert!(!hash.is_empty());
    assert_eq!(hash.len(), 64);
    let mut input = b"tx-1".to_vec();
    input.extend_from_slice(b"test data");
    assert_eq!(hash, hex_encode(&sha256_hash(&input)));
    assert_ne!(hash, transaction_hash("tx-2", b"test data"));
}

#[test]
fn receipt_reflects_data() {
    let r = receipt_for("id".to_string(), b"test data", std::time::UNIX_EPOCH);
    assert_eq!(r.status, TxStatus::Confirmed);
    assert_eq!(r.block_number, Some(0));
    let e = receipt_for("id".to_string(), b"", std::time::UNIX_EPOCH);
    assert_eq!(e.status, TxStatus::Failed("Empty transaction data".to_string()));
    assert_eq!(e.block_number, None);
}

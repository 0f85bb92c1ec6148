use vstd::prelude::*;
use std::time::SystemTime;
use vstd::utf8::encode_utf8;
use crate::bytes::extend_bytes;
use crate::codec::{hex_encode, hex_lower, lemma_hex_lower_len, sha256_digest, sha256_hash};

verus! {

/// The state of a processed transaction.
#[derive(Debug, Clone, PartialEq, Eq)]
pub enum TxStatus {
    Pending,
    Confirmed,
    Failed(String),
}

/// The result of processing a transaction.
#[derive(Debug)]
pub struct TxReceipt {
    pub tx_id: String,
    pub status: TxStatus,
    pub block_number: Option<u64>,
    pub timestamp: SystemTime,
}

/// A stream of processed transactions; it carries nothing yet.
#[derive(Debug)]
pub struct TransactionStream {}

/// The hash of a transaction: the SHA-256 digest of its id's UTF-8 bytes followed by its
/// data, as lowercase hex.
pub fn transaction_hash(id: &str, data: &[u8]) -> (r: String)
    ensures
        r@ == hex_lower(sha256_digest(encode_utf8(id@) + data@)),
        r@.len() == 64,
{
    let mut input: Vec<u8> = Vec::new();
    extend_bytes(&mut input, id.as_bytes());
    extend_bytes(&mut input, data);
    let digest = sha256_hash(input.as_slice());
    proof {
        lemma_hex_lower_len(digest@);
    }
    hex_encode(digest.as_slice())
}

/// The message of the receipt of a transaction without data.
pub open spec fn empty_data_message() -> Seq<char> {
    "Empty transaction data"@
}

/// The receipt of processing transaction `tx_id` with `data`, stamped `timestamp`: a
/// transaction without data fails; any other is confirmed in block 0.
pub fn receipt_for(tx_id: String, data: &[u8], timestamp: SystemTime) -> (r: TxReceipt)
    ensures
        r.tx_id == tx_id,
        r.timestamp == timestamp,
        data@.len() == 0 ==> (r.status matches TxStatus::Failed(m) && m@ == empty_data_message())
            && r.block_number is None,
        data@.len() > 0 ==> r.status == TxStatus::Confirmed && r.block_number == Some(0u64),
{
    if data.len() == 0 {
        TxReceipt {
            tx_id,
            status: TxStatus::Failed(String::from_str("Empty transaction data")),
            block_number: None,
            timestamp,
        }
    } else {
        TxReceipt { tx_id, status: TxStatus::Confirmed, block_number: Some(0), timestamp }
    }
}

} // verus!

use vstd::prelude::*;
use sha2::Digest;

verus! {

/// Why a hex string could not be decoded.
#[derive(Debug, Clone, Copy, PartialEq, Eq)]
pub enum HexError {
    /// A byte that is no hex digit, and its position in the input.
    InvalidHexCharacter { c: char, index: usize },
    /// The input has an odd number of digits.
    OddLength,
    /// The input decodes to another number of bytes than the output holds.
    InvalidStringLength,
}

/// The lowercase hex digit of a value below 16.
pub open spec fn hex_digit(n: int) -> char {
    if n < 10 {
        (48 + n) as char
    } else {
        (87 + n) as char
    }
}

/// Each byte as two lowercase hex digits, high nibble first.
pub open spec fn hex_lower(data: Seq<u8>) -> Seq<char>
    decreases data.len(),
{
    if data.len() == 0 {
        Seq::empty()
    } else {
        let last = data.last();
        hex_lower(data.drop_last()) + seq![hex_digit(last as int / 16), hex_digit(last as int % 16)]
    }
}

/// Hex gives two digits for each byte.
pub proof fn lemma_hex_lower_len(data: Seq<u8>)
    ensures
        hex_lower(data).len() == 2 * data.len(),
    decreases data.len(),
{
    if data.len() > 0 {
        lemma_hex_lower_len(data.drop_last());
    }
}

/// Whether a byte is one of `0-9`, `a-f`, `A-F`.
pub open spec fn is_hex_byte(c: u8) -> bool {
    (48 <= c <= 57) || (97 <= c <= 102) || (65 <= c <= 70)
}

/// The value of a hex digit.
pub open spec fn hex_value(c: u8) -> int {
    if 48 <= c <= 57 {
        c - 48
    } else if 97 <= c <= 102 {
        c - 87
    } else {
        c - 55
    }
}

/// The byte that the digits at `2 * i` and `2 * i + 1` stand for.
pub open spec fn decoded_byte(digits: Seq<u8>, i: int) -> int {
    hex_value(digits[2 * i]) * 16 + hex_value(digits[2 * i + 1])
}

/// What decoding `digits` into 32 bytes gives: the checks come in the order length parity,
/// length, then each digit from the first on.
pub open spec fn decode32_outcome(digits: Seq<u8>, r: Result<[u8; 32], HexError>) -> bool {
    match r {
        Ok(out) => {
            &&& digits.len() == 64
            &&& forall|j: int| 0 <= j < 64 ==> is_hex_byte(#[trigger] digits[j])
            &&& forall|i: int| 0 <= i < 32 ==> out@[i] == decoded_byte(digits, i)
        },
        Err(HexError::OddLength) => digits.len() % 2 == 1,
        Err(HexError::InvalidStringLength) => digits.len() % 2 == 0 && digits.len() != 64,
        Err(HexError::InvalidHexCharacter { c, index }) => {
            &&& digits.len() == 64
            &&& index < 64
            &&& !is_hex_byte(digits[index as int])
            &&& forall|j: int| 0 <= j < index ==> is_hex_byte(#[trigger] digits[j])
            &&& c == digits[index as int] as char
        },
    }
}

/// `hex::encode`: every byte as two lowercase hex digits.
#[verifier::external_body]
pub fn hex_encode(data: &[u8]) -> (r: String)
    ensures
        r@ == hex_lower(data@),
{
    hex::encode(data)
}

/// `hex::decode_to_slice` into 32 bytes: fails on an odd length, then on a length other than
/// 64 digits, then on the first byte that is no hex digit; else each pair of digits gives a byte.
#[verifier::external_body]
pub fn hex_decode_32(digits: &[u8]) -> (r: Result<[u8; 32], HexError>)
    ensures
        decode32_outcome(digits@, r),
{
    let mut out = [0u8; 32];
    match hex::decode_to_slice(digits, &mut out) {
        Ok(()) => Ok(out),
        Err(hex::FromHexError::InvalidHexCharacter { c, index }) => Err(
            HexError::InvalidHexCharacter { c, index },
        ),
        Err(hex::FromHexError::OddLength) => Err(HexError::OddLength),
        Err(hex::FromHexError::InvalidStringLength) => Err(HexError::InvalidStringLength),
    }
}

/// The BLAKE3 digest of a byte sequence.
pub uninterp spec fn blake3_digest(data: Seq<u8>) -> Seq<u8>;

/// `blake3::hash`: the 32-byte BLAKE3 digest of the input.
#[verifier::external_body]
pub fn blake3_hash(data: &[u8]) -> (r: [u8; 32])
    ensures
        r@ == blake3_digest(data@),
{
    *blake3::hash(data).as_bytes()
}

/// The SHA-256 digest of a byte sequence.
pub uninterp spec fn sha256_digest(data: Seq<u8>) -> Seq<u8>;

/// `Sha256::digest`: the 32-byte SHA-256 digest of the input.
#[verifier::external_body]
pub fn sha256_hash(data: &[u8]) -> (r: [u8; 32])
    ensures
        r@ == sha256_digest(data@),
{
    sha2::Sha256::digest(data).into()
}

/// The eight little-endian bytes of `v`.
pub open spec fn le8(v: u64) -> Seq<u8> {
    seq![
        (v % 0x100) as u8,
        ((v / 0x100) % 0x100) as u8,
        ((v / 0x1_0000) % 0x100) as u8,
        ((v / 0x100_0000) % 0x100) as u8,
        ((v / 0x1_0000_0000) % 0x100) as u8,
        ((v / 0x100_0000_0000) % 0x100) as u8,
        ((v / 0x1_0000_0000_0000) % 0x100) as u8,
        ((v / 0x100_0000_0000_0000) % 0x100) as u8,
    ]
}

/// The number that eight bytes stand for, least significant first.
pub open spec fn le_value(b: Seq<u8>) -> int {
    b[0] + b[1] * 0x100 + b[2] * 0x1_0000 + b[3] * 0x100_0000 + b[4] * 0x1_0000_0000 + b[5]
        * 0x100_0000_0000 + b[6] * 0x1_0000_0000_0000 + b[7] * 0x100_0000_0000_0000
}

/// `u64::to_le_bytes`: the eight bytes of `v`, least significant first.
#[verifier::external_body]
pub fn u64_to_le(v: u64) -> (r: [u8; 8])
    ensures
        r@ == le8(v),
{
    v.to_le_bytes()
}

/// `u64::from_le_bytes`: the number that eight bytes stand for, least significant first.
#[verifier::external_body]
pub fn u64_from_le(b: [u8; 8]) -> (r: u64)
    ensures
        r == le_value(b@),
{
    u64::from_le_bytes(b)
}

/// A stake as a row: the staker's address, the amount, and when it started.
pub open spec fn stake_rows(v: Seq<([u8; 32], (u64, u64))>) -> Seq<(Seq<u8>, u64, u64)> {
    v.map_values(|e: ([u8; 32], (u64, u64))| (e.0@, e.1.0, e.1.1))
}

/// What `bincode::serialize` writes for a list of stakes.
pub uninterp spec fn bincode_stakes(rows: Seq<(Seq<u8>, u64, u64)>) -> Seq<u8>;

/// What `bincode::deserialize` reads as a list of stakes from `bytes`, where it reads one.
pub uninterp spec fn bincode_stakes_read(bytes: Seq<u8>) -> Option<Seq<(Seq<u8>, u64, u64)>>;

/// `bincode::serialize` of a list of stakes. It succeeds: the limit is unbounded, a slice has a
/// length, and arrays and integers always serialise. The bytes are named `bincode_stakes` of
/// the rows, and reading them back gives the rows (bincode reads what it wrote).
#[verifier::external_body]
pub fn encode_stakes(entries: &[([u8; 32], (u64, u64))]) -> (r: Result<Vec<u8>, String>)
    ensures
        r is Ok,
        r matches Ok(b) ==> b@ == bincode_stakes(stake_rows(entries@)) && bincode_stakes_read(b@) == Some(
            stake_rows(entries@),
        ),
{
    match bincode::serialize(entries) {
        Ok(b) => Ok(b),
        Err(e) => Err(e.to_string()),
    }
}

/// `bincode::deserialize` of a list of stakes: the rows read, as `bincode_stakes_read` names
/// them, or an error where they cannot be read.
#[verifier::external_body]
pub fn decode_stakes(bytes: &[u8]) -> (r: Result<Vec<([u8; 32], (u64, u64))>, String>)
    ensures
        r matches Ok(v) ==> bincode_stakes_read(bytes@) == Some(stake_rows(v@)),
        r is Err ==> bincode_stakes_read(bytes@) is None,
{
    match bincode::deserialize::<Vec<([u8; 32], (u64, u64))>>(bytes) {
        Ok(v) => Ok(v),
        Err(e) => Err(e.to_string()),
    }
}

} // verus!

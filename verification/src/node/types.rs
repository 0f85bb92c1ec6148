use vstd::prelude::*;
use vstd::string::StringSliceAdditionalSpecFns;
use crate::codec::{decode32_outcome, hex_decode_32, hex_encode, hex_lower, HexError};

verus! {

/// A 32-byte account address.
#[derive(Debug, Clone, Copy, Hash, PartialEq, Eq)]
pub struct Address(pub [u8; 32]);

impl View for Address {
    type V = Seq<u8>;

    open spec fn view(&self) -> Seq<u8> {
        self.0@
    }
}

/// The bytes left once every leading "0x" has been taken off.
pub open spec fn strip_hex_prefix(s: Seq<u8>) -> Seq<u8>
    decreases s.len(),
{
    if s.len() >= 2 && s[0] == 48 && s[1] == 120 {
        strip_hex_prefix(s.subrange(2, s.len() as int))
    } else {
        s
    }
}

/// Decodes 64 hex digits into 32 bytes, after every leading "0x" has been taken off.
pub fn decode_prefixed_hex32(s: &str) -> (r: Result<[u8; 32], HexError>)
    ensures
        decode32_outcome(strip_hex_prefix(s.spec_bytes()), r),
{
    let b = s.as_bytes();
    let mut k: usize = 0;
    assert(b@.subrange(0, b@.len() as int) =~= b@);
    while b.len() - k >= 2 && b[k] == 48u8 && b[k + 1] == 120u8
        invariant
            k <= b@.len(),
            b@ == s.spec_bytes(),
            strip_hex_prefix(b@) == strip_hex_prefix(b@.subrange(k as int, b@.len() as int)),
        decreases b@.len() - k,
    {
        assert(b@.subrange(k as int, b@.len() as int).subrange(2, b@.len() - k) =~= b@.subrange(
            k + 2,
            b@.len() as int,
        ));
        k = k + 2;
    }
    let (_, rest) = b.split_at(k);
    assert(strip_hex_prefix(rest@) == rest@);
    hex_decode_32(rest)
}

impl Address {
    /// Creates an address from its 32 bytes.
    pub fn new(bytes: [u8; 32]) -> (r: Self)
        ensures
            r.0@ == bytes@,
    {
        Address(bytes)
    }

    /// Parses an address from 64 hex digits, after every leading "0x" has been taken off.
    pub fn from_hex(s: &str) -> (r: Result<Address, HexError>)
        ensures
            match r {
                Ok(a) => decode32_outcome(strip_hex_prefix(s.spec_bytes()), Ok(a.0)),
                Err(e) => decode32_outcome(strip_hex_prefix(s.spec_bytes()), Err(e)),
            },
    {
        match decode_prefixed_hex32(s) {
            Ok(bytes) => Ok(Address(bytes)),
            Err(e) => Err(e),
        }
    }

    /// The address as "0x" and 64 lowercase hex digits.
    pub fn to_hex(&self) -> (r: String)
        ensures
            r@ == "0x"@ + hex_lower(self.0@),
    {
        let mut out = String::from_str("0x");
        let digits = hex_encode(self.0.as_slice());
        crate::text::push_str(&mut out, digits.as_str());
        out
    }

    /// The address as a byte slice.
    pub fn as_bytes(&self) -> (r: &[u8])
        ensures
            r@ == self.0@,
            r@.len() == 32,
    {
        self.0.as_slice()
    }

    /// Whether two addresses hold the same bytes.
    pub fn same_as(&self, other: &Address) -> (r: bool)
        ensures
            r == (self.0@ == other.0@),
    {
        crate::bytes::bytes_eq(self.0.as_slice(), other.0.as_slice())
    }
}

} // verus!
